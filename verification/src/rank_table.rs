//! The ranks of a byte-pair vocabulary: a map from byte strings to
//! numbers, kept in buckets.

use vstd::prelude::*;

verus! {

/// The number of buckets.
pub const BUCKETS: usize = 65521;

/// The bucket of a byte string.
pub open spec fn place(key: Seq<u8>) -> nat
    decreases key.len(),
{
    if key.len() == 0 {
        0
    } else {
        (place(key.drop_last()) * 131 + key.last() as nat) % (BUCKETS as nat)
    }
}

/// A byte string and its rank.
#[derive(Debug)]
pub struct RankEntry {
    pub key: Vec<u8>,
    pub rank: u32,
}

/// The rank that the last entry of this key gives it.
pub open spec fn rank_in(bucket: Seq<RankEntry>, key: Seq<u8>) -> Option<u32>
    decreases bucket.len(),
{
    if bucket.len() == 0 {
        None
    } else if bucket.last().key@ == key {
        Some(bucket.last().rank)
    } else {
        rank_in(bucket.drop_last(), key)
    }
}

/// A map from byte strings to ranks.
#[derive(Debug)]
pub struct RankTable {
    buckets: Vec<Vec<RankEntry>>,
    count: usize,
}

impl View for RankTable {
    type V = Map<Seq<u8>, u32>;

    closed spec fn view(&self) -> Map<Seq<u8>, u32> {
        Map::new(
            |key: Seq<u8>| rank_in(self.buckets@[place(key) as int]@, key) is Some,
            |key: Seq<u8>| rank_in(self.buckets@[place(key) as int]@, key)->0,
        )
    }
}

proof fn place_is_a_bucket(key: Seq<u8>)
    ensures
        place(key) < BUCKETS,
{
}

fn place_of(key: &[u8]) -> (at: usize)
    ensures
        at == place(key@),
        at < BUCKETS,
{
    let mut at: u64 = 0;
    let mut i: usize = 0;
    assert(key@.take(0) =~= seq![]);
    while i < key.len()
        invariant
            i <= key@.len(),
            at == place(key@.take(i as int)),
            at < BUCKETS,
        decreases key@.len() - i,
    {
        assert(key@.take(i + 1).drop_last() =~= key@.take(i as int));
        at = (at * 131 + key[i] as u64) % (BUCKETS as u64);
        i += 1;
    }
    assert(key@.take(key@.len() as int) =~= key@);
    at as usize
}

fn same_bytes(a: &[u8], b: &[u8]) -> (same: bool)
    ensures
        same == (a@ == b@),
{
    if a.len() != b.len() {
        return false;
    }
    let mut i: usize = 0;
    while i < a.len()
        invariant
            a@.len() == b@.len(),
            i <= a@.len(),
            forall|j: int| 0 <= j < i ==> a@[j] == b@[j],
        decreases a@.len() - i,
    {
        if a[i] != b[i] {
            return false;
        }
        i += 1;
    }
    assert(a@ =~= b@);
    true
}

impl RankTable {
    /// The buckets are there, and the count is that of the keys.
    pub closed spec fn well_formed(&self) -> bool {
        &&& self.buckets@.len() == BUCKETS
        &&& self@.dom().finite()
        &&& self.count == self@.dom().len()
    }

    /// A table with no keys.
    pub fn new() -> (t: Self)
        ensures
            t.well_formed(),
            t@ == Map::<Seq<u8>, u32>::empty(),
    {
        let mut buckets: Vec<Vec<RankEntry>> = Vec::new();
        while buckets.len() < BUCKETS
            invariant
                buckets@.len() <= BUCKETS,
                forall|i: int| 0 <= i < buckets@.len() ==> (#[trigger] buckets@[i])@.len() == 0,
            decreases BUCKETS - buckets@.len(),
        {
            let empty: Vec<RankEntry> = Vec::new();
            buckets.push(empty);
        }
        let t = RankTable { buckets, count: 0 };
        proof {
            assert forall|key: Seq<u8>| !(#[trigger] t@.dom().contains(key)) by {
                place_is_a_bucket(key);
            }
            assert(t@ =~= Map::<Seq<u8>, u32>::empty());
        }
        t
    }

    /// The rank of a byte string.
    pub fn get(&self, key: &[u8]) -> (rank: Option<u32>)
        requires
            self.well_formed(),
        ensures
            match rank {
                Some(r) => self@.dom().contains(key@) && self@[key@] == r,
                None => !self@.dom().contains(key@),
            },
    {
        let bucket = &self.buckets[place_of(key)];
        let mut i: usize = bucket.len();
        assert(bucket@.take(i as int) =~= bucket@);
        while i > 0
            invariant
                i <= bucket@.len(),
                bucket@ == self.buckets@[place(key@) as int]@,
                rank_in(bucket@, key@) == rank_in(bucket@.take(i as int), key@),
            decreases i,
        {
            i -= 1;
            assert(bucket@.take(i + 1).drop_last() =~= bucket@.take(i as int));
            if same_bytes(bucket[i].key.as_slice(), key) {
                return Some(bucket[i].rank);
            }
        }
        None
    }

    /// Gives a byte string its rank, in place of the one it had.
    pub fn insert(&mut self, key: Vec<u8>, rank: u32)
        requires
            old(self).well_formed(),
            old(self)@.dom().len() < usize::MAX,
        ensures
            final(self).well_formed(),
            final(self)@ == old(self)@.insert(key@, rank),
    {
        let ghost was = *self;
        let ghost name = key@;
        let at = place_of(key.as_slice());
        let fresh = self.get(key.as_slice()).is_none();
        let ghost bucket = self.buckets@[at as int]@;
        self.buckets[at].push(RankEntry { key, rank });
        if fresh {
            self.count += 1;
        }
        proof {
            let now = *self;
            let pushed = now.buckets@[at as int]@;
            assert(pushed.drop_last() =~= bucket);
            assert forall|other: Seq<u8>|
                rank_in(#[trigger] now.buckets@[place(other) as int]@, other) == (if other == name {
                    Some(rank)
                } else {
                    rank_in(was.buckets@[place(other) as int]@, other)
                }) by {
                place_is_a_bucket(other);
                if place(other) != at {
                    assert(now.buckets@[place(other) as int] == was.buckets@[place(other) as int]);
                }
            }
            assert(now@ =~= was@.insert(name, rank));
            assert(now@.dom() =~= was@.dom().insert(name));
        }
    }

    /// How many byte strings have a rank.
    pub fn len(&self) -> (n: usize)
        requires
            self.well_formed(),
        ensures
            n == self@.dom().len(),
    {
        self.count
    }

    /// A byte string for each rank that one has: the inverse of the
    /// table, as far as it has one.
    pub fn inverse(&self) -> (back: std::collections::HashMap<u32, Vec<u8>>)
        requires
            self.well_formed(),
        ensures
            forall|rank: u32| #[trigger]
                back@.dom().contains(rank) ==> self@.dom().contains(back@[rank]@)
                    && self@[back@[rank]@] == rank,
            forall|key: Seq<u8>| #[trigger]
                self@.dom().contains(key) ==> back@.dom().contains(self@[key]),
    {
        broadcast use vstd::std_specs::hash::group_hash_axioms;

        let mut back: std::collections::HashMap<u32, Vec<u8>> = std::collections::HashMap::new();
        let mut i: usize = 0;
        while i < self.buckets.len()
            invariant
                self.well_formed(),
                i <= self.buckets@.len(),
                forall|rank: u32| #[trigger]
                    back@.dom().contains(rank) ==> self@.dom().contains(back@[rank]@)
                        && self@[back@[rank]@] == rank,
                forall|key: Seq<u8>| #[trigger]
                    self@.dom().contains(key) && place(key) < i ==> back@.dom().contains(
                        self@[key],
                    ),
            decreases self.buckets@.len() - i,
        {
            let bucket = &self.buckets[i];
            let mut k: usize = 0;
            while k < bucket.len()
                invariant
                    self.well_formed(),
                    i < self.buckets@.len(),
                    bucket == self.buckets@[i as int],
                    k <= bucket@.len(),
                    forall|rank: u32| #[trigger]
                        back@.dom().contains(rank) ==> self@.dom().contains(back@[rank]@)
                            && self@[back@[rank]@] == rank,
                    forall|key: Seq<u8>| #[trigger]
                        self@.dom().contains(key) && place(key) < i ==> back@.dom().contains(
                            self@[key],
                        ),
                    forall|j: int|
                        0 <= j < k && self@.dom().contains((#[trigger] bucket@[j]).key@)
                            && self@[bucket@[j].key@] == bucket@[j].rank ==> back@.dom().contains(
                            bucket@[j].rank,
                        ),
                decreases bucket@.len() - k,
            {
                let entry = &bucket[k];
                match self.get(entry.key.as_slice()) {
                    Some(rank) => {
                        if rank == entry.rank {
                            back.insert(rank, vstd::slice::slice_to_vec(entry.key.as_slice()));
                        }
                    },
                    None => {},
                }
                k += 1;
            }
            proof {
                assert forall|key: Seq<u8>| #[trigger]
                    self@.dom().contains(key) && place(key) < i + 1 implies back@.dom().contains(
                    self@[key],
                ) by {
                    if place(key) == i {
                        rank_is_of_an_entry(bucket@, key);
                        let j = choose|j: int|
                            0 <= j < bucket@.len() && (#[trigger] bucket@[j]).key@ == key
                                && rank_in(bucket@, key) == Some(bucket@[j].rank);
                        assert(bucket@[j].key@ == key);
                    }
                }
            }
            i += 1;
        }
        proof {
            assert forall|key: Seq<u8>| #[trigger]
                self@.dom().contains(key) implies back@.dom().contains(self@[key]) by {
                place_is_a_bucket(key);
            }
        }
        back
    }
}

proof fn rank_is_of_an_entry(bucket: Seq<RankEntry>, key: Seq<u8>)
    requires
        rank_in(bucket, key) is Some,
    ensures
        exists|j: int|
            0 <= j < bucket.len() && (#[trigger] bucket[j]).key@ == key && rank_in(bucket, key)
                == Some(bucket[j].rank),
    decreases bucket.len(),
{
    if bucket.last().key@ == key {
        assert(bucket[bucket.len() - 1].key@ == key);
    } else {
        rank_is_of_an_entry(bucket.drop_last(), key);
        let j = choose|j: int|
            0 <= j < bucket.drop_last().len() && (#[trigger] bucket.drop_last()[j]).key@ == key
                && rank_in(bucket.drop_last(), key) == Some(bucket.drop_last()[j].rank);
        assert(bucket[j].key@ == key);
    }
}

} // verus!
