//! The prize buckets of a contest.

use vstd::prelude::*;
use crate::model::bucket::Bucket;

verus! {

#[derive(Debug)]
pub struct ContestBucket {
    pub contest_id: String,
    pub buckets: Vec<Bucket>,
}

/// The first bucket at or after position `from` that covers `rank`.
pub open spec fn first_bucket_from(buckets: Seq<Bucket>, rank: int, from: int) -> Option<Bucket>
    decreases buckets.len() - from,
{
    if from < 0 || from >= buckets.len() {
        None
    } else if buckets[from].covers(rank) {
        Some(buckets[from])
    } else {
        first_bucket_from(buckets, rank, from + 1)
    }
}

/// The first bucket, in stored order, that covers `rank`.
pub open spec fn rank_bucket(buckets: Seq<Bucket>, rank: int) -> Option<Bucket> {
    first_bucket_from(buckets, rank, 0)
}

/// `rank_bucket` finds a bucket exactly when some bucket covers the rank,
/// and what it finds is the first one that does.
pub proof fn lemma_rank_bucket_is_first_cover(buckets: Seq<Bucket>, rank: int, from: int)
    requires
        0 <= from <= buckets.len(),
    ensures
        first_bucket_from(buckets, rank, from) is None <==> (forall|i: int|
            from <= i < buckets.len() ==> !(#[trigger] buckets[i]).covers(rank)),
        first_bucket_from(buckets, rank, from) matches Some(b) ==> exists|i: int|
            from <= i < buckets.len() && buckets[i] == b && b.covers(rank) && (forall|j: int|
                from <= j < i ==> !(#[trigger] buckets[j]).covers(rank)),
    decreases buckets.len() - from,
{
    if from < buckets.len() {
        lemma_rank_bucket_is_first_cover(buckets, rank, from + 1);
        if !buckets[from].covers(rank) {
            if let Some(b) = first_bucket_from(buckets, rank, from + 1) {
                let i = choose|i: int|
                    from + 1 <= i < buckets.len() && buckets[i] == b && b.covers(rank) && (forall|j: int|
                        from + 1 <= j < i ==> !(#[trigger] buckets[j]).covers(rank));
                assert(forall|j: int| from <= j < i ==> !(#[trigger] buckets[j]).covers(rank));
            }
        }
    }
}

impl ContestBucket {
    /// Serialized size in bytes of the fixed part.
    pub const MAX_SIZE: usize = 8;

    /// The first bucket, in stored order, whose range holds `rank`.
    pub fn get_rank_bucket(&self, rank: u32) -> (r: Option<Bucket>)
        ensures
            r == rank_bucket(self.buckets@, rank as int),
    {
        let n = self.buckets.len();
        let mut i: usize = 0;
        while i < n
            invariant
                0 <= i <= n,
                n == self.buckets@.len(),
                rank_bucket(self.buckets@, rank as int) == first_bucket_from(self.buckets@, rank as int, i as int),
            decreases n - i,
        {
            let bucket = &self.buckets[i];
            if rank >= bucket.rank_start && rank <= bucket.rank_end {
                return Some(*bucket);
            }
            i = i + 1;
        }
        None
    }
}

} // verus!
