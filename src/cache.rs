//! Exact membership gate, and the bucket set cache that it consults.
use vstd::prelude::*;

use crate::bucket::Bucket;
use crate::evt::Event;

verus! {

/// The exact set of buckets known to exist in the slow db.
pub struct BucketSet {
    buckets: Vec<Bucket>,
}

impl View for BucketSet {
    type V = Set<Seq<char>>;

    closed spec fn view(&self) -> Set<Seq<char>> {
        self.buckets@.map_values(|b: Bucket| b@).to_set()
    }
}

/// The names of a list of strings, as a set.
pub open spec fn names_set(names: Seq<String>) -> Set<Seq<char>> {
    names.map_values(|s: String| s@).to_set()
}

/// What a refresh leaves in the cache, and the count it reports: the set of
/// the listed names, whatever the cache held before.
pub open spec fn refreshed_cache(before: Set<Seq<char>>, names: Seq<String>) -> (
    Set<Seq<char>>,
    nat,
) {
    (names_set(names), names_set(names).len())
}

impl BucketSet {
    /// Creates an empty cache.
    pub fn new() -> (r: Self)
        ensures
            r@ == Set::<Seq<char>>::empty(),
    {
        let r = BucketSet { buckets: Vec::new() };
        assert(r@ =~= Set::<Seq<char>>::empty());
        r
    }

    /// Checks if a bucket is in this cache.
    pub fn contains(&self, b: &Bucket) -> (r: bool)
        ensures
            r == self@.contains(b@),
    {
        let ghost names = self.buckets@.map_values(|x: Bucket| x@);
        let mut i: usize = 0;
        while i < self.buckets.len()
            invariant
                i <= self.buckets.len(),
                names == self.buckets@.map_values(|x: Bucket| x@),
                forall|j: int| 0 <= j < i ==> names[j] != b@,
            decreases self.buckets.len() - i,
        {
            if self.buckets[i] == *b {
                assert(names[i as int] == b@);
                return true;
            }
            i = i + 1;
        }
        assert(!names.contains(b@));
        false
    }

    /// Adds a bucket; returns true if it was not in this cache yet.
    pub fn insert(&mut self, b: Bucket) -> (r: bool)
        ensures
            final(self)@ == old(self)@.insert(b@),
            r == !old(self)@.contains(b@),
    {
        if self.contains(&b) {
            assert(old(self)@.insert(b@) =~= old(self)@);
            false
        } else {
            let ghost before = self.buckets@.map_values(|x: Bucket| x@);
            self.buckets.push(b);
            assert(self.buckets@.map_values(|x: Bucket| x@) =~= before.push(b@));
            proof {
                before.lemma_push_to_set_commute(b@);
            }
            true
        }
    }

    /// Removes every bucket.
    pub fn clear(&mut self)
        ensures
            final(self)@ == Set::<Seq<char>>::empty(),
    {
        self.buckets.clear();
        assert(self@ =~= Set::<Seq<char>>::empty());
    }
}

/// Refreshing is idempotent: refreshing again from the same names leaves the
/// same set and reports the same count as the first refresh.
pub proof fn lemma_refresh_cache_idempotent(before: Set<Seq<char>>, names: Seq<String>)
    ensures
        refreshed_cache(refreshed_cache(before, names).0, names) == refreshed_cache(before, names),
{
}

/// What `update_cache_btree` leaves and returns, for what the lister
/// returned: the refreshed cache and its count, or the lister's error with the
/// cache left cleared.
pub open spec fn refresh_outcome(
    listed: Result<Vec<String>, Event>,
    before: Set<Seq<char>>,
    after: Set<Seq<char>>,
    r: Result<u64, Event>,
) -> bool {
    match listed {
        Ok(names) => match r {
            Ok(count) => (after, count as nat) == refreshed_cache(before, names@),
            Err(_) => false,
        },
        Err(e) => r == Err::<u64, Event>(e) && after == Set::<Seq<char>>::empty(),
    }
}

/// Clears the cache, then inserts a bucket for each name.
///
/// Returns the number of names that were inserted for the first time.
pub fn refill_cache(cache: &mut BucketSet, bucket_names: Vec<String>) -> (count: u64)
    ensures
        (final(cache)@, count as nat) == refreshed_cache(old(cache)@, bucket_names@),
{
    cache.clear();
    let ghost names = bucket_names@.map_values(|s: String| s@);
    let mut count: u64 = 0;
    let mut i: usize = 0;
    while i < bucket_names.len()
        invariant
            i <= bucket_names.len(),
            names == bucket_names@.map_values(|s: String| s@),
            cache@ == names.take(i as int).to_set(),
            count as nat == cache@.len(),
            count <= i,
        decreases bucket_names.len() - i,
    {
        let name: String = bucket_names[i].clone();
        let inserted: bool = cache.insert(Bucket::new_checked(name));
        if inserted {
            count = count + 1;
        }
        proof {
            assert(names.take(i + 1) =~= names.take(i as int).push(names[i as int]));
            names.take(i as int).lemma_push_to_set_commute(names[i as int]);
        }
        i = i + 1;
    }
    assert(names.take(i as int) =~= names);
    count
}

/// Gets list of buckets and updates the cache of buckets.
///
/// # Arguments
/// - cache: The cache to be updated.
/// - shared_db: The db which contains buckets.
/// - list_buckets: Gets the list of buckets from the shared db.
///
/// The cache is cleared first, and stays cleared when the lister fails.
pub fn update_cache_btree<D, L>(
    cache: &mut BucketSet,
    shared_db: &mut D,
    list_buckets: &mut L,
) -> (r: Result<u64, Event>) where L: FnMut(&mut D) -> Result<Vec<String>, Event>
    requires
        forall|d: &mut D| call_requires(*old(list_buckets), (d,)),
    ensures
        exists|d: &mut D, listed: Result<Vec<String>, Event>|
            *d == *old(shared_db) && *final(d) == *final(shared_db) && call_ensures(
                *old(list_buckets),
                (d,),
                listed,
            ) && refresh_outcome(listed, old(cache)@, final(cache)@, r),
{
    cache.clear();
    let listed: Result<Vec<String>, Event> = list_buckets(shared_db);
    match listed {
        Ok(bucket_names) => Ok(refill_cache(cache, bucket_names)),
        Err(e) => Err(e),
    }
}

/// Scans from a slow db if a bucket is in a cache.
///
/// # Arguments
///
/// - cache: Checks if a bucket exists.
/// - shared_db: The slow db to get values.
/// - bucket: The bucket which may contain values.
/// - getter: Gets values from a bucket.
/// - filter: The filter to get values from a bucket.
///
/// When the cache says the bucket exists, the getter's result is returned as
/// it is; else nothing is fetched and the result is empty.
pub fn get_or_skip_if_bucket_missing<C, D, G, F, T>(
    cache: &C,
    shared_db: &mut D,
    bucket: &Bucket,
    getter: &mut G,
    filter: &F,
) -> (r: Result<Vec<T>, Event>) where
    C: Fn(&Bucket) -> bool,
    G: FnMut(&mut D, &Bucket, &F) -> Result<Vec<T>, Event>,

    requires
        call_requires(*cache, (bucket,)),
        forall|d: &mut D| call_requires(*old(getter), (d, bucket, filter)),
    ensures
        exists|found: bool|
            {
                &&& call_ensures(*cache, (bucket,), found)
                &&& found ==> exists|d: &mut D|
                    *d == *old(shared_db) && *final(d) == *final(shared_db) && call_ensures(
                        *old(getter),
                        (d, bucket, filter),
                        r,
                    )
                &&& !found ==> {
                    &&& r matches Ok(v) && v@ == Seq::<T>::empty()
                    &&& *final(shared_db) == *old(shared_db)
                    &&& *final(getter) == *old(getter)
                }
            },
{
    let bucket_exists: bool = cache(bucket);
    if bucket_exists {
        getter(shared_db, bucket, filter)
    } else {
        Ok(Vec::new())
    }
}

} // verus!
