//! Filters buckets using bloom(like) filter.
use vstd::prelude::*;

use crate::bucket::Bucket;
use crate::evt::Event;

verus! {

/// List of bloom check results.
#[derive(Debug, Clone, Copy, PartialEq, Eq, Structural)]
pub enum BloomResult {
    /// An item may exist.
    MayExist,
    /// An item does not exist.
    Missing,
}

/// The bloom bits of each bucket: one signature per bucket.
pub struct SignatureStore<B> {
    buckets: Vec<Bucket>,
    bits: Vec<B>,
    contents: Ghost<Map<Seq<char>, B>>,
}

impl<B> View for SignatureStore<B> {
    type V = Map<Seq<char>, B>;

    closed spec fn view(&self) -> Map<Seq<char>, B> {
        self.contents@
    }
}

impl<B> SignatureStore<B> {
    /// The buckets and their bits are kept side by side, each bucket once.
    pub closed spec fn wf(&self) -> bool {
        &&& self.buckets.len() == self.bits.len()
        &&& forall|i: int, j: int|
            0 <= i < j < self.buckets.len() ==> self.buckets[i]@ != self.buckets[j]@
        &&& forall|i: int|
            0 <= i < self.buckets.len() ==> {
                &&& self.contents@.contains_key(#[trigger] self.buckets[i]@)
                &&& self.contents@[self.buckets[i]@] == self.bits[i]
            }
        &&& forall|k: Seq<char>|
            #[trigger] self.contents@.contains_key(k) ==> exists|i: int|
                0 <= i < self.buckets.len() && self.buckets[i]@ == k
        &&& self.contents@.dom().finite()
    }

    /// Creates an empty store.
    pub fn new() -> (r: Self)
        ensures
            r.wf(),
            r@ == Map::<Seq<char>, B>::empty(),
    {
        SignatureStore { buckets: Vec::new(), bits: Vec::new(), contents: Ghost(Map::empty()) }
    }

    /// Finds where a bucket stands.
    fn position(&self, b: &Bucket) -> (r: Option<usize>)
        requires
            self.wf(),
        ensures
            match r {
                Some(i) => i < self.buckets.len() && self.buckets[i as int]@ == b@,
                None => !self@.contains_key(b@),
            },
    {
        let mut i: usize = 0;
        while i < self.buckets.len()
            invariant
                self.wf(),
                i <= self.buckets.len(),
                forall|j: int| 0 <= j < i ==> self.buckets[j]@ != b@,
            decreases self.buckets.len() - i,
        {
            if self.buckets[i] == *b {
                return Some(i);
            }
            i = i + 1;
        }
        None
    }

    /// Gets the bits of a bucket.
    pub fn get(&self, b: &Bucket) -> (r: Option<&B>)
        requires
            self.wf(),
        ensures
            match r {
                Some(v) => self@.contains_key(b@) && *v == self@[b@],
                None => !self@.contains_key(b@),
            },
    {
        match self.position(b) {
            Some(i) => Some(&self.bits[i]),
            None => None,
        }
    }

    /// Sets the bits of a bucket; returns true if the bucket was not there yet.
    pub fn insert(&mut self, b: Bucket, v: B) -> (r: bool)
        requires
            old(self).wf(),
        ensures
            final(self).wf(),
            final(self)@ == old(self)@.insert(b@, v),
            r == !old(self)@.contains_key(b@),
    {
        let ghost k = b@;
        match self.position(&b) {
            Some(i) => {
                self.bits.set(i, v);
                self.contents = Ghost(self.contents@.insert(k, v));
                assert forall|key: Seq<char>| #[trigger]
                    self.contents@.contains_key(key) implies exists|j: int|
                    0 <= j < self.buckets.len() && self.buckets[j]@ == key by {
                    if key == k {
                        assert(self.buckets[i as int]@ == key);
                    } else {
                        assert(old(self).contents@.contains_key(key));
                        let j = choose|j: int|
                            0 <= j < old(self).buckets.len() && old(self).buckets[j]@ == key;
                        assert(self.buckets[j]@ == key);
                    }
                }
                false
            },
            None => {
                self.buckets.push(b);
                self.bits.push(v);
                self.contents = Ghost(self.contents@.insert(k, v));
                let ghost n = self.buckets.len() - 1;
                assert forall|key: Seq<char>| #[trigger]
                    self.contents@.contains_key(key) implies exists|j: int|
                    0 <= j < self.buckets.len() && self.buckets[j]@ == key by {
                    if key == k {
                        assert(self.buckets[n]@ == key);
                    } else {
                        assert(old(self).contents@.contains_key(key));
                        let j = choose|j: int| 0 <= j < old(self).buckets.len() && old(self).buckets[j]@ == key;
                        assert(self.buckets[j]@ == key);
                    }
                }
                true
            },
        }
    }

    /// Removes every bucket.
    pub fn clear(&mut self)
        ensures
            final(self).wf(),
            final(self)@ == Map::<Seq<char>, B>::empty(),
    {
        self.buckets.clear();
        self.bits.clear();
        self.contents = Ghost(Map::empty());
    }
}

/// The store that a list of (bucket, bits) pairs describes: each bucket with
/// the bits of its last pair.
pub open spec fn pairs_map<B>(pairs: Seq<(Bucket, B)>) -> Map<Seq<char>, B>
    decreases pairs.len(),
{
    if pairs.len() == 0 {
        Map::empty()
    } else {
        pairs_map(pairs.drop_last()).insert(pairs.last().0@, pairs.last().1)
    }
}

/// What a refresh leaves in the store, and the count it reports: the store
/// that the pairs describe and its number of buckets, whatever the store held
/// before.
pub open spec fn refreshed_bits<B>(before: Map<Seq<char>, B>, pairs: Seq<(Bucket, B)>) -> (
    Map<Seq<char>, B>,
    nat,
) {
    (pairs_map(pairs), pairs_map(pairs).dom().len())
}

/// Clears the store, then inserts each pair in turn.
///
/// Returns the number of buckets that were inserted for the first time: a
/// bucket listed twice counts once, and keeps the bits of its last pair.
pub fn refill_bloom_bits<B>(bloom_bits: &mut SignatureStore<B>, pairs: Vec<(Bucket, B)>) -> (count: u64)
    requires
        old(bloom_bits).wf(),
    ensures
        final(bloom_bits).wf(),
        (final(bloom_bits)@, count as nat) == refreshed_bits(old(bloom_bits)@, pairs@),
{
    bloom_bits.clear();
    let ghost all = pairs@;
    let total: usize = pairs.len();
    let mut count: u64 = 0;
    for pair in it: pairs.into_iter()
        invariant
            bloom_bits.wf(),
            it.seq() == all,
            bloom_bits@ == pairs_map(all.take(it.index())),
            bloom_bits@.dom().finite(),
            count as nat == bloom_bits@.dom().len(),
            count <= it.index(),
            all.len() == total,
    {
        let ghost done = it.index();
        let (bucket, bits) = pair;
        assert(all.take(done + 1).drop_last() =~= all.take(done));
        let inserted: bool = bloom_bits.insert(bucket, bits);
        if inserted {
            count = count + 1;
        }
    }
    assert(all.take(all.len() as int) =~= all);
    count
}

/// What `update_bloom_bits` leaves and returns, for what the getter returned:
/// the refreshed store and its count, or the getter's error with the store left
/// cleared.
pub open spec fn refresh_outcome<B>(
    got: Result<Vec<(Bucket, B)>, Event>,
    before: Map<Seq<char>, B>,
    after: Map<Seq<char>, B>,
    r: Result<u64, Event>,
) -> bool {
    match got {
        Ok(pairs) => match r {
            Ok(count) => (after, count as nat) == refreshed_bits(before, pairs@),
            Err(_) => false,
        },
        Err(e) => r == Err::<u64, Event>(e) && after == Map::<Seq<char>, B>::empty(),
    }
}

/// Gets bloom bits and updates the bloom bits container.
///
/// # Arguments
/// - bloom_bits: The bloom bits container to be updated.
/// - shared_db: The db which contains bloom bits.
/// - get_bloom_bits: Gets bloom bits for each bucket.
/// - bloom_bucket: The bucket which contains bloom bits for each bucket.
///
/// The container is cleared first, and stays cleared when the getter fails.
pub fn update_bloom_bits<D, B, G>(
    bloom_bits: &mut SignatureStore<B>,
    shared_db: &mut D,
    get_bloom_bits: &mut G,
    bloom_bucket: &Bucket,
) -> (r: Result<u64, Event>) where G: FnMut(&mut D, &Bucket) -> Result<Vec<(Bucket, B)>, Event>
    requires
        old(bloom_bits).wf(),
        forall|d: &mut D| call_requires(*old(get_bloom_bits), (d, bloom_bucket)),
    ensures
        final(bloom_bits).wf(),
        exists|d: &mut D, got: Result<Vec<(Bucket, B)>, Event>|
            *d == *old(shared_db) && *final(d) == *final(shared_db) && call_ensures(
                *old(get_bloom_bits),
                (d, bloom_bucket),
                got,
            ) && refresh_outcome(got, old(bloom_bits)@, final(bloom_bits)@, r),
{
    bloom_bits.clear();
    let got: Result<Vec<(Bucket, B)>, Event> = get_bloom_bits(shared_db, bloom_bucket);
    match got {
        Ok(pairs) => Ok(refill_bloom_bits(bloom_bits, pairs)),
        Err(e) => Err(e),
    }
}

/// What a check may answer for a bucket: `Missing` where the bucket has no
/// bits, else what the checker answers for its bits and the filter's hash.
pub open spec fn check_outcome<B, F, H, C>(
    bloom_bits: Map<Seq<char>, B>,
    hash: H,
    filter: F,
    check: C,
    b: Seq<char>,
    r: BloomResult,
) -> bool where H: Fn(&F) -> B, C: Fn(&B, &B) -> BloomResult {
    if bloom_bits.contains_key(b) {
        exists|h: B| call_ensures(hash, (&filter,), h) && call_ensures(check, (&bloom_bits[b], &h), r)
    } else {
        r == BloomResult::Missing
    }
}

/// Checks if values may exists or not.
///
/// # Arguments
/// - bloom_bits: Contains bloom bits for each bucket.
/// - hash: Computes the hash to be compared.
/// - filter: The filter to compute a hash.
/// - check: Checks if values may exists or not.
/// - b: The bucket which may contain values.
///
/// A bucket without bits is `Missing`, and then no hash is computed.
pub fn bloom_check<B, H, F, C>(
    bloom_bits: &SignatureStore<B>,
    hash: &H,
    filter: &F,
    check: &C,
    b: &Bucket,
) -> (r: BloomResult) where H: Fn(&F) -> B, C: Fn(&B, &B) -> BloomResult
    requires
        bloom_bits.wf(),
        bloom_bits@.contains_key(b@) ==> call_requires(*hash, (filter,)),
        bloom_bits@.contains_key(b@) ==> forall|h: B|
            call_ensures(*hash, (filter,), h) ==> call_requires(*check, (&bloom_bits@[b@], &h)),
    ensures
        check_outcome(bloom_bits@, *hash, *filter, *check, b@, r),
        !bloom_bits@.contains_key(b@) ==> r == BloomResult::Missing,
{
    let bloom_b: Option<&B> = bloom_bits.get(b);
    match bloom_b {
        None => BloomResult::Missing,
        Some(found) => {
            let computed: B = hash(filter);
            check(found, &computed)
        },
    }
}

/// Gets values from a slow db if the values may exists.
///
/// # Arguments
/// - bloom: Checks if values may exists or not.
/// - shared_db: The db which may contain values.
/// - bucket: The bucket which may contain values.
/// - getter: Tries to get values from a bucket.
/// - filter: The filter to get values.
///
/// On `MayExist` the getter's result is returned as it is, an empty one
/// included; on `Missing` nothing is fetched and the result is empty.
pub fn get_or_skip_if_missing<B, D, G, F, T>(
    bloom: &B,
    shared_db: &mut D,
    bucket: &Bucket,
    getter: &mut G,
    filter: &F,
) -> (r: Result<Vec<T>, Event>) where
    B: Fn(&Bucket, &F) -> BloomResult,
    G: FnMut(&mut D, &Bucket, &F) -> Result<Vec<T>, Event>,

    requires
        call_requires(*bloom, (bucket, filter)),
        forall|d: &mut D| call_requires(*old(getter), (d, bucket, filter)),
    ensures
        exists|found: BloomResult|
            {
                &&& call_ensures(*bloom, (bucket, filter), found)
                &&& found == BloomResult::MayExist ==> exists|d: &mut D|
                    *d == *old(shared_db) && *final(d) == *final(shared_db) && call_ensures(
                        *old(getter),
                        (d, bucket, filter),
                        r,
                    )
                &&& found == BloomResult::Missing ==> {
                    &&& r matches Ok(v) && v@ == Seq::<T>::empty()
                    &&& *final(shared_db) == *old(shared_db)
                    &&& *final(getter) == *old(getter)
                }
            },
{
    match bloom(bucket, filter) {
        BloomResult::Missing => Ok(Vec::new()),
        BloomResult::MayExist => getter(shared_db, bucket, filter),
    }
}

/// The stored bits hold every bit of the query.
pub open spec fn covers(stored: u64, query: u64) -> bool {
    stored & query == query
}

/// What the bits gate answers for a bucket and a query: `Missing` where the
/// bucket has no bits, else `MayExist` exactly where its bits cover the query.
pub open spec fn probe_bits(bloom_bits: Map<Seq<char>, u64>, b: Seq<char>, query: u64) -> BloomResult {
    if bloom_bits.contains_key(b) && covers(bloom_bits[b], query) {
        BloomResult::MayExist
    } else {
        BloomResult::Missing
    }
}

/// Checks bits stored as one integer: the intersection of the stored bits and
/// the computed ones must be the computed ones.
pub fn bits_check(stored: &u64, computed: &u64) -> (r: BloomResult)
    ensures
        r == (if covers(*stored, *computed) {
            BloomResult::MayExist
        } else {
            BloomResult::Missing
        }),
{
    if *stored & *computed == *computed {
        BloomResult::MayExist
    } else {
        BloomResult::Missing
    }
}

/// Merges the bits of two sources into one: their union.
pub fn merge_bits(a: u64, b: u64) -> (r: u64)
    ensures
        r == a | b,
{
    a | b
}

/// Checks a bucket's bits, stored as one integer, against the bits of a query.
pub fn bloom_check_bits(bloom_bits: &SignatureStore<u64>, query: u64, b: &Bucket) -> (r: BloomResult)
    requires
        bloom_bits.wf(),
    ensures
        r == probe_bits(bloom_bits@, b@, query),
{
    let own = |q: &u64| -> (h: u64)
        ensures
            h == *q,
        { *q };
    bloom_check(bloom_bits, &own, &query, &bits_check, b)
}

/// Merging never loses a bit: bits that cover a query still cover it once
/// merged with any other bits.
pub proof fn lemma_merge_keeps_cover(a: u64, other: u64, query: u64)
    requires
        covers(a, query),
    ensures
        covers(a | other, query),
        covers(other | a, query),
{
    assert((a & query == query) ==> ((a | other) & query == query)) by (bit_vector);
    assert((a & query == query) ==> ((other | a) & query == query)) by (bit_vector);
}

/// A bucket whose stored bits cover a query may exist.
pub proof fn lemma_superset_may_exist(bloom_bits: Map<Seq<char>, u64>, b: Seq<char>, query: u64)
    requires
        bloom_bits.contains_key(b),
        covers(bloom_bits[b], query),
    ensures
        probe_bits(bloom_bits, b, query) == BloomResult::MayExist,
{
}

/// A bucket without stored bits is missing, whatever the query.
pub proof fn lemma_absent_missing(bloom_bits: Map<Seq<char>, u64>, b: Seq<char>, query: u64)
    requires
        !bloom_bits.contains_key(b),
    ensures
        probe_bits(bloom_bits, b, query) == BloomResult::Missing,
{
}

/// Refreshing is idempotent: refreshing again from the same pairs leaves the
/// same bits and reports the same count as the first refresh.
pub proof fn lemma_refresh_bits_idempotent<B>(before: Map<Seq<char>, B>, pairs: Seq<(Bucket, B)>)
    ensures
        refreshed_bits(refreshed_bits(before, pairs).0, pairs) == refreshed_bits(before, pairs),
{
}

/// The buckets named by a list of pairs, in order.
pub open spec fn pair_keys<B>(pairs: Seq<(Bucket, B)>) -> Seq<Seq<char>> {
    pairs.map_values(|p: (Bucket, B)| p.0@)
}

/// A refresh keeps each distinct bucket of the pairs once, so the count it
/// reports is the number of distinct buckets among them.
pub proof fn lemma_refresh_counts_distinct<B>(before: Map<Seq<char>, B>, pairs: Seq<(Bucket, B)>)
    ensures
        refreshed_bits(before, pairs).0.dom() == pair_keys(pairs).to_set(),
        refreshed_bits(before, pairs).1 == pair_keys(pairs).to_set().len(),
    decreases pairs.len(),
{
    if pairs.len() == 0 {
        assert(pair_keys(pairs).to_set() =~= Set::<Seq<char>>::empty());
        assert(pairs_map(pairs).dom() =~= Set::<Seq<char>>::empty());
    } else {
        let init = pairs.drop_last();
        lemma_refresh_counts_distinct(before, init);
        assert(pair_keys(pairs) =~= pair_keys(init).push(pairs.last().0@));
        pair_keys(init).lemma_push_to_set_commute(pairs.last().0@);
        assert(pairs_map(pairs).dom() =~= pair_keys(pairs).to_set());
    }
}

/// Creates new checker which uses closures to compute hash / check bloom bits.
pub fn bloom_check_new<B, H, F, C>(hash: H, check: C) -> (r: impl Fn(
    &SignatureStore<B>,
    &F,
    &Bucket,
) -> BloomResult) where H: Fn(&F) -> B, C: Fn(&B, &B) -> BloomResult
    requires
        forall|f: &F| call_requires(hash, (f,)),
        forall|x: &B, y: &B| call_requires(check, (x, y)),
    ensures
        forall|bits: &SignatureStore<B>, f: &F, b: &Bucket|
            bits.wf() ==> call_requires(r, (bits, f, b)),
        forall|bits: &SignatureStore<B>, f: &F, b: &Bucket, out: BloomResult|
            call_ensures(r, (bits, f, b), out) ==> check_outcome(bits@, hash, *f, check, b@, out),
{
    move |bits: &SignatureStore<B>, filter: &F, b: &Bucket| -> (out: BloomResult)
        requires
            bits.wf(),
        ensures
            check_outcome(bits@, hash, *filter, check, b@, out),
        { bloom_check(bits, &hash, filter, &check, b) }
}

} // verus!
