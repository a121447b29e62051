//! Gets sub buckets, filtered remotely, locally, or both.
use vstd::prelude::*;

use crate::bucket::Bucket;
use crate::evt::Event;

verus! {

/// How a sub bucket fetch runs.
#[derive(Debug, Clone, Copy, PartialEq, Eq, Structural)]
pub struct FetchPlan {
    /// The filter config is sent to the db, which filters remotely.
    pub remote_filter: bool,
    /// The fetched sub buckets are filtered locally.
    pub local_filter: bool,
}

/// Decides how a sub bucket fetch runs.
///
/// | push_down | double_check | Local filtering | Overview                      |
/// |:---------:|:------------:|:---------------:|:-----------------------------:|
/// | false     | false        | true            | Gets All -> Local filter      |
/// | false     | true         | true            | Gets All -> Local filter      |
/// | true      | false        | false           | Gets filtered                 |
/// | true      | true         | true            | Gets filtered -> Local filter |
pub fn plan_fetch(push_down: bool, double_check: bool) -> (r: FetchPlan)
    ensures
        r.remote_filter == push_down,
        r.local_filter == (!push_down || double_check),
{
    let get_all: bool = !push_down;
    FetchPlan { remote_filter: push_down, local_filter: get_all || double_check }
}

/// What the sub bucket getter is handed: the filter config only where the
/// filter is pushed down.
pub open spec fn remote_config<C>(filter_config: &C, push_down: bool) -> Option<&C> {
    if push_down {
        Some(filter_config)
    } else {
        None
    }
}

/// What `get_sub_buckets` returns, for what the getter returned: its error,
/// or its sub buckets, filtered locally where the plan says so.
pub open spec fn sub_outcome<C, S, F>(
    fetched: Result<Vec<S>, Event>,
    filter: F,
    filter_config: &C,
    push_down: bool,
    double_check: bool,
    r: Result<Vec<S>, Event>,
) -> bool where F: Fn(Vec<S>, &C) -> Vec<S> {
    match fetched {
        Err(e) => r == Err::<Vec<S>, Event>(e),
        Ok(v) => if !push_down || double_check {
            exists|out: Vec<S>|
                call_ensures(filter, (v, filter_config), out) && r == Ok::<Vec<S>, Event>(out)
        } else {
            r == Ok::<Vec<S>, Event>(v)
        },
    }
}

/// Gets sub buckets from a db and gets some of them.
///
/// # Arguments
/// - shared_db: The db which may contain sub buckets.
/// - get_sub: Gets sub buckets.
/// - filter: Gets filtered sub buckets.
/// - filter_config: The config to filter buckets.
/// - push_down: Use remote filtering.
/// - double_check: Use local filtering.
///
/// The getter is called once, with the config where `push_down` holds and
/// with none otherwise; the local filter runs as `plan_fetch` decides.
pub fn get_sub_buckets<D, C, S, F, P>(
    shared_db: &mut D,
    b: &Bucket,
    get_sub: &mut P,
    filter: &F,
    filter_config: &C,
    push_down: bool,
    double_check: bool,
) -> (r: Result<Vec<S>, Event>) where
    P: FnMut(&mut D, &Bucket, Option<&C>) -> Result<Vec<S>, Event>,
    F: Fn(Vec<S>, &C) -> Vec<S>,

    requires
        forall|d: &mut D|
            call_requires(*old(get_sub), (d, b, remote_config(filter_config, push_down))),
        forall|v: Vec<S>| call_requires(*filter, (v, filter_config)),
    ensures
        exists|d: &mut D, fetched: Result<Vec<S>, Event>|
            {
                &&& *d == *old(shared_db)
                &&& *final(d) == *final(shared_db)
                &&& call_ensures(
                    *old(get_sub),
                    (d, b, remote_config(filter_config, push_down)),
                    fetched,
                )
                &&& sub_outcome(fetched, *filter, filter_config, push_down, double_check, r)
            },
{
    let plan: FetchPlan = plan_fetch(push_down, double_check);
    let fetched: Result<Vec<S>, Event> = if plan.remote_filter {
        get_sub(shared_db, b, Some(filter_config))
    } else {
        get_sub(shared_db, b, None)
    };
    match fetched {
        Err(e) => Err(e),
        Ok(sub_buckets) => if plan.local_filter {
            Ok(filter(sub_buckets, filter_config))
        } else {
            Ok(sub_buckets)
        },
    }
}

/// Gets sub buckets, asking a pushdown check whether to filter remotely.
pub struct SubBucketGetter<G, F, P> {
    /// Gets sub buckets.
    pub get_sub: G,
    /// Gets filtered sub buckets.
    pub filter: F,
    /// Checks if a remote filter must be used or not.
    pub pushdown: P,
}

impl<G, F, P> SubBucketGetter<G, F, P> {
    /// Asks `pushdown` whether to push the filter down, then gets the sub
    /// buckets as `get_sub_buckets` does.
    pub fn get<D, C, S>(&mut self, shared: &mut D, b: &Bucket, cfg: &C, double_check: bool) -> (r:
        Result<Vec<S>, Event>) where
        P: Fn(&C) -> bool,
        G: FnMut(&mut D, &Bucket, Option<&C>) -> Result<Vec<S>, Event>,
        F: Fn(Vec<S>, &C) -> Vec<S>,

        requires
            call_requires(old(self).pushdown, (cfg,)),
            forall|d: &mut D, o: Option<&C>| call_requires(old(self).get_sub, (d, b, o)),
            forall|v: Vec<S>| call_requires(old(self).filter, (v, cfg)),
        ensures
            final(self).filter == old(self).filter,
            final(self).pushdown == old(self).pushdown,
            exists|push_down: bool, d: &mut D, fetched: Result<Vec<S>, Event>|
                {
                    &&& call_ensures(old(self).pushdown, (cfg,), push_down)
                    &&& *d == *old(shared)
                    &&& *final(d) == *final(shared)
                    &&& call_ensures(
                        old(self).get_sub,
                        (d, b, remote_config(cfg, push_down)),
                        fetched,
                    )
                    &&& sub_outcome(fetched, old(self).filter, cfg, push_down, double_check, r)
                },
    {
        let remote_check: bool = (self.pushdown)(cfg);
        get_sub_buckets(
            shared,
            b,
            &mut self.get_sub,
            &self.filter,
            cfg,
            remote_check,
            double_check,
        )
    }
}

/// Creates a new getter of sub buckets.
///
/// # Arguments
/// - get_sub: Gets sub buckets.
/// - filter: Gets filtered sub buckets.
/// - pushdown: Checks if a remote filter must be used or not.
pub fn get_sub_buckets_new<G, F, P>(get_sub: G, filter: F, pushdown: P) -> (r: SubBucketGetter<
    G,
    F,
    P,
>)
    ensures
        r.get_sub == get_sub,
        r.filter == filter,
        r.pushdown == pushdown,
{
    SubBucketGetter { get_sub, filter, pushdown }
}

} // verus!
