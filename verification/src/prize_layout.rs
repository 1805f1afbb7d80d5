//! How a contest's prize pool is laid out over ranks.
//!
//! Ranks `1..=max_rank` are grouped into numbered buckets. Buckets 1 to 11
//! hold one rank each; from bucket 12 on, bucket `k` holds `2^(k-11) + 1`
//! ranks, and the last bucket is cut off at `max_rank`. Every rank of a bucket
//! is guaranteed the contest's minimum bid back, and the rest of the pool is
//! shared out by the buckets' weights.

use vstd::prelude::*;
use vstd::arithmetic::power::pow;
use vstd::arithmetic::power2::{pow2, lemma_pow2, lemma_pow2_unfold, lemma_pow2_strictly_increases, lemma2_to64};
use crate::model::bucket::{Bucket, TempBucket, weight_for_bucket, has_weight};
use crate::model::contest_bucket::{rank_bucket, lemma_rank_bucket_is_first_cover};

verus! {

// ---------------------------------------------------------------------------
// The layout as mathematics
// ---------------------------------------------------------------------------

/// How many ranks bucket `k` holds when `max_rank` does not cut it off.
pub open spec fn bucket_span(k: int) -> int {
    if k <= 11 {
        1
    } else {
        pow2((k - 11) as nat) as int + 1
    }
}

/// The first rank of bucket `k` (bucket 1 starts at rank 1).
pub open spec fn first_rank(k: int) -> int
    decreases k,
{
    if k <= 1 {
        1
    } else {
        first_rank(k - 1) + bucket_span(k - 1)
    }
}

/// The last rank of bucket `k` when the ranks end at `max_rank`.
pub open spec fn last_rank(k: int, max_rank: int) -> int {
    let uncut = first_rank(k) + bucket_span(k) - 1;
    if uncut > max_rank {
        max_rank
    } else {
        uncut
    }
}

/// The number of ranks that bucket `k` holds when the ranks end at `max_rank`.
pub open spec fn bucket_size(k: int, max_rank: int) -> int {
    last_rank(k, max_rank) - first_rank(k) + 1
}

/// How many of the buckets `1..=k` start at or before `max_rank`.
pub open spec fn buckets_started_by(max_rank: int, k: int) -> nat
    decreases k,
{
    if k <= 0 {
        0
    } else {
        buckets_started_by(max_rank, k - 1) + if first_rank(k) <= max_rank {
            1nat
        } else {
            0nat
        }
    }
}

/// The number of buckets for ranks `1..=max_rank`, where `max_rank < first_rank(33)`
/// (see `lemma_rank_limit`): the buckets that start at or before `max_rank`.
pub open spec fn layout_len(max_rank: int) -> nat {
    buckets_started_by(max_rank, 32)
}

/// Bucket number `k` of the layout for ranks `1..=max_rank`, before its
/// share of the weighted prize is known.
pub open spec fn planned_bucket(k: int, max_rank: int, minimum_bid: u64) -> TempBucket {
    let count = bucket_size(k, max_rank);
    TempBucket {
        guaranteed_prize_per_bid: minimum_bid,
        guaranteed_prize: (minimum_bid * count) as u64,
        rank_start: first_rank(k) as u32,
        rank_end: last_rank(k, max_rank) as u32,
        weight: weight_for_bucket(k) as u32,
        total_weight: (weight_for_bucket(k) * count) as u64,
        participant_count: count as u32,
        weight_prize: 0,
        weight_prize_per_bid: 0,
        bucket: k as u8,
    }
}

/// All buckets for ranks `1..=max_rank`, bucket 1 first.
pub open spec fn layout(max_rank: int, minimum_bid: u64) -> Seq<TempBucket> {
    Seq::new(layout_len(max_rank), |i: int| planned_bucket(i + 1, max_rank, minimum_bid))
}

/// The bucket that is stored for a laid-out bucket once its share of the
/// weighted prize is known: the share is split evenly over its ranks.
pub open spec fn stored_bucket(t: TempBucket, weight_prize: u64) -> Bucket {
    Bucket {
        guaranteed_prize_per_bid: t.guaranteed_prize_per_bid,
        rank_start: t.rank_start,
        rank_end: t.rank_end,
        weight_prize_per_bid: (weight_prize as int / t.participant_count as int) as u64,
        bucket: t.bucket,
    }
}

/// The stored buckets for ranks `1..=max_rank`, where bucket `i + 1` gets the
/// weighted prize `weight_prizes[i]`.
pub open spec fn stored_layout(max_rank: int, minimum_bid: u64, weight_prizes: Seq<u64>) -> Seq<Bucket> {
    Seq::new(
        layout_len(max_rank),
        |i: int| stored_bucket(layout(max_rank, minimum_bid)[i], weight_prizes[i]),
    )
}

/// The sum of the buckets' total weights.
pub open spec fn sum_total_weight(s: Seq<TempBucket>) -> int
    decreases s.len(),
{
    if s.len() == 0 {
        0
    } else {
        sum_total_weight(s.drop_last()) + s.last().total_weight
    }
}

/// The sum of the buckets' participant counts.
pub open spec fn sum_participants(s: Seq<TempBucket>) -> int
    decreases s.len(),
{
    if s.len() == 0 {
        0
    } else {
        sum_participants(s.drop_last()) + s.last().participant_count
    }
}

/// The sum of the buckets' guaranteed prizes.
pub open spec fn sum_guaranteed(s: Seq<TempBucket>) -> int
    decreases s.len(),
{
    if s.len() == 0 {
        0
    } else {
        sum_guaranteed(s.drop_last()) + s.last().guaranteed_prize
    }
}

/// The house's cut of the pot: `company_share` is in hundredths of a percent.
pub open spec fn house_cut_of(total_pot: int, company_share: int) -> int {
    (company_share * total_pot) / 10000
}

/// What is left of the pot for the weighted prizes, once the house's cut and
/// the minimum bid of each of `total_winners` winners are taken out.
pub open spec fn prize_left(total_pot: int, minimum_bid: int, total_winners: int, company_share: int) -> int {
    total_pot - house_cut_of(total_pot, company_share) - total_winners * minimum_bid
}

/// The inputs on which the layout can be computed in 64-bit arithmetic:
/// no product overflows, no difference goes below zero, and every bucket
/// has a weight.
pub open spec fn plan_fits(
    total_pot: u64,
    minimum_bid: u64,
    total_winners: u32,
    max_rank: u32,
    company_share: u32,
) -> bool {
    &&& company_share * total_pot <= u64::MAX
    &&& house_cut_of(total_pot as int, company_share as int) <= total_pot
    &&& total_winners * minimum_bid <= u64::MAX
    &&& total_winners * minimum_bid <= total_pot - house_cut_of(total_pot as int, company_share as int)
    &&& max_rank < first_rank(33)
    &&& forall|k: int|
        1 <= k && first_rank(k) <= max_rank ==> minimum_bid * #[trigger] bucket_size(k, max_rank as int)
            <= u64::MAX
}

// ---------------------------------------------------------------------------
// Facts about the layout
// ---------------------------------------------------------------------------

/// The first rank of each bucket in closed form.
pub proof fn lemma_first_rank_value(k: int)
    requires
        k >= 1,
    ensures
        k <= 12 ==> first_rank(k) == k,
        k >= 12 ==> first_rank(k) == pow2((k - 11) as nat) + k - 2,
    decreases k,
{
    lemma2_to64();
    if k > 1 {
        lemma_first_rank_value(k - 1);
        if k >= 13 {
            lemma_pow2_unfold((k - 11) as nat);
        }
    }
}

/// Buckets start at strictly increasing ranks.
pub proof fn lemma_first_rank_increases(a: int, b: int)
    requires
        1 <= a < b,
    ensures
        first_rank(a) < first_rank(b),
    decreases b - a,
{
    if b - 1 > a {
        lemma_first_rank_increases(a, b - 1);
    }
    if b - 1 > 11 {
        lemma2_to64();
        if b - 1 - 11 > 0 {
            lemma_pow2_strictly_increases(0, (b - 1 - 11) as nat);
        }
    }
}

/// Ranks can go up to 4194334 before a bucket without weight would be needed.
pub proof fn lemma_rank_limit()
    ensures
        first_rank(33) == 4194335,
        first_rank(32) == 2097182,
{
    lemma2_to64();
    lemma_first_rank_value(33);
    lemma_first_rank_value(32);
}

/// A bucket that starts at or before `max_rank < first_rank(33)` has a weight.
pub proof fn lemma_started_bucket_has_weight(k: int, max_rank: int)
    requires
        1 <= k,
        first_rank(k) <= max_rank < first_rank(33),
    ensures
        has_weight(k),
{
    if k >= 33 {
        if k > 33 {
            lemma_first_rank_increases(33, k);
        }
    }
}

/// The number of buckets is the number `n` such that buckets `1..=n` start by `max_rank`
/// and the others do not.
pub proof fn lemma_layout_len(max_rank: int, n: int)
    requires
        0 <= n <= 32,
        forall|k: int| 1 <= k <= n ==> first_rank(k) <= max_rank,
        forall|k: int| n < k <= 32 ==> first_rank(k) > max_rank,
    ensures
        layout_len(max_rank) == n,
{
    lemma_started_by(max_rank, n, 32);
}

proof fn lemma_started_by(max_rank: int, n: int, j: int)
    requires
        0 <= n <= 32,
        0 <= j <= 32,
        forall|k: int| 1 <= k <= n ==> first_rank(k) <= max_rank,
        forall|k: int| n < k <= 32 ==> first_rank(k) > max_rank,
    ensures
        buckets_started_by(max_rank, j) == if j <= n {
            j
        } else {
            n
        },
    decreases j,
{
    if j > 0 {
        lemma_started_by(max_rank, n, j - 1);
    }
}

/// The buckets of the layout are exactly buckets `1..=layout_len(max_rank)`:
/// those start at or before `max_rank`, and every later one starts after it.
pub proof fn lemma_layout_len_characterized(max_rank: int)
    requires
        0 <= max_rank < first_rank(33),
    ensures
        layout_len(max_rank) <= 32,
        forall|k: int| 1 <= k <= layout_len(max_rank) ==> first_rank(k) <= max_rank,
        forall|k: int| layout_len(max_rank) < k ==> first_rank(k) > max_rank,
{
    lemma_started_by_characterized(max_rank, 32);
    assert forall|k: int| layout_len(max_rank) < k implies first_rank(k) > max_rank by {
        if k > 33 {
            lemma_first_rank_increases(33, k);
        }
    }
}

proof fn lemma_started_by_characterized(max_rank: int, j: int)
    requires
        0 <= j,
    ensures
        buckets_started_by(max_rank, j) <= j,
        forall|k: int| 1 <= k <= buckets_started_by(max_rank, j) ==> first_rank(k) <= max_rank,
        forall|k: int| buckets_started_by(max_rank, j) < k <= j ==> first_rank(k) > max_rank,
    decreases j,
{
    if j > 0 {
        lemma_started_by_characterized(max_rank, j - 1);
        let c = buckets_started_by(max_rank, j - 1);
        if first_rank(j) <= max_rank {
            if c < j - 1 {
                lemma_first_rank_increases(j - 1, j);
                assert(first_rank(j - 1) > max_rank);
            }
        }
    }
}

/// Bucket `k` ends just before bucket `k + 1` starts, or at `max_rank`.
proof fn lemma_last_rank_bounds(k: int, max_rank: int)
    requires
        1 <= k,
        first_rank(k) <= max_rank,
    ensures
        first_rank(k) <= last_rank(k, max_rank) <= max_rank,
        last_rank(k, max_rank) < first_rank(k + 1),
        first_rank(k + 1) <= max_rank ==> last_rank(k, max_rank) + 1 == first_rank(k + 1),
{
    if k > 11 {
        vstd::arithmetic::power2::lemma_pow2_pos((k - 11) as nat);
    }
}

/// The fields of entry `i` of the layout, without casts.
proof fn lemma_layout_entry(max_rank: u32, minimum_bid: u64, i: int)
    requires
        max_rank < first_rank(33),
        0 <= i < layout(max_rank as int, minimum_bid).len(),
    ensures
        1 <= first_rank(i + 1) <= max_rank,
        i + 1 <= 32,
        layout(max_rank as int, minimum_bid)[i].rank_start == first_rank(i + 1),
        layout(max_rank as int, minimum_bid)[i].rank_end == last_rank(i + 1, max_rank as int),
        layout(max_rank as int, minimum_bid)[i].participant_count == bucket_size(
            i + 1,
            max_rank as int,
        ),
        layout(max_rank as int, minimum_bid)[i].bucket == i + 1,
        layout(max_rank as int, minimum_bid)[i].weight == weight_for_bucket(i + 1),
        first_rank(i + 1) <= last_rank(i + 1, max_rank as int) <= max_rank,
        last_rank(i + 1, max_rank as int) < first_rank(i + 2),
        first_rank(i + 2) <= max_rank ==> last_rank(i + 1, max_rank as int) + 1 == first_rank(i + 2),
{
    lemma_layout_len_characterized(max_rank as int);
    if i > 0 {
        lemma_first_rank_increases(1, i + 1);
    }
    lemma_last_rank_bounds(i + 1, max_rank as int);
    lemma_started_bucket_has_weight(i + 1, max_rank as int);
}

/// The layout covers ranks `1..=max_rank` with adjacent, non-empty buckets
/// numbered from 1, and each of the first eleven buckets holds one rank.
pub proof fn lemma_layout_is_partition(max_rank: u32, minimum_bid: u64)
    requires
        max_rank < first_rank(33),
    ensures
        ({
            let l = layout(max_rank as int, minimum_bid);
            &&& l.len() > 0 <==> max_rank >= 1
            &&& l.len() > 0 ==> l[0].rank_start == 1 && l[l.len() - 1].rank_end == max_rank
            &&& forall|i: int|
                0 <= i < l.len() - 1 ==> #[trigger] l[i + 1].rank_start == l[i].rank_end + 1
            &&& forall|i: int|
                0 <= i < l.len() ==> {
                    &&& 1 <= (#[trigger] l[i]).rank_start <= l[i].rank_end <= max_rank
                    &&& l[i].participant_count == l[i].rank_end - l[i].rank_start + 1
                    &&& l[i].bucket == i + 1
                    &&& i < 11 ==> l[i].participant_count == 1
                }
        }),
{
    lemma_rank_limit();
    lemma_layout_len_characterized(max_rank as int);
    let l = layout(max_rank as int, minimum_bid);
    let n = l.len() as int;
    if max_rank >= 1 {
        assert(first_rank(1) == 1);
        assert(n > 0);
        lemma_layout_entry(max_rank, minimum_bid, 0);
        lemma_layout_entry(max_rank, minimum_bid, n - 1);
        assert(first_rank(n + 1) > max_rank);
        assert(first_rank(n + 1) == first_rank(n) + bucket_span(n));
        assert(l[n - 1].rank_end == max_rank);
    } else {
        assert(first_rank(1) == 1);
        assert(n == 0);
    }
    assert forall|i: int| 0 <= i < l.len() - 1 implies #[trigger] l[i + 1].rank_start
        == l[i].rank_end + 1 by {
        lemma_layout_entry(max_rank, minimum_bid, i);
        lemma_layout_entry(max_rank, minimum_bid, i + 1);
    }
    assert forall|i: int| 0 <= i < l.len() implies {
        &&& 1 <= (#[trigger] l[i]).rank_start <= l[i].rank_end <= max_rank
        &&& l[i].participant_count == l[i].rank_end - l[i].rank_start + 1
        &&& l[i].bucket == i + 1
        &&& i < 11 ==> l[i].participant_count == 1
    } by {
        lemma_layout_entry(max_rank, minimum_bid, i);
    }
}

/// Every rank in `1..=max_rank` lies in exactly one bucket of the layout,
/// and no other rank lies in any.
pub proof fn lemma_rank_in_one_bucket(max_rank: u32, minimum_bid: u64, rank: int)
    requires
        max_rank < first_rank(33),
    ensures
        ({
            let l = layout(max_rank as int, minimum_bid);
            &&& (exists|i: int|
                0 <= i < l.len() && (#[trigger] l[i]).rank_start <= rank <= l[i].rank_end) <==> 1
                <= rank <= max_rank
            &&& forall|i: int, j: int|
                #![trigger l[i], l[j]]
                0 <= i < l.len() && 0 <= j < l.len() && l[i].rank_start <= rank <= l[i].rank_end
                    && l[j].rank_start <= rank <= l[j].rank_end ==> i == j
        }),
{
    lemma_layout_is_partition(max_rank, minimum_bid);
    lemma_layout_len_characterized(max_rank as int);
    let l = layout(max_rank as int, minimum_bid);
    if 1 <= rank <= max_rank {
        let i = lemma_find_bucket(max_rank, minimum_bid, rank, 0);
        assert(l[i].rank_start <= rank <= l[i].rank_end);
    }
    assert forall|i: int, j: int|
        #![trigger l[i], l[j]]
        0 <= i < l.len() && 0 <= j < l.len() && l[i].rank_start <= rank <= l[i].rank_end
            && l[j].rank_start <= rank <= l[j].rank_end implies i == j by {
        if i < j {
            lemma_ends_before(max_rank, minimum_bid, i, j);
        } else if j < i {
            lemma_ends_before(max_rank, minimum_bid, j, i);
        }
    }
}

/// An earlier bucket of the layout ends before a later one starts.
proof fn lemma_ends_before(max_rank: u32, minimum_bid: u64, i: int, j: int)
    requires
        max_rank < first_rank(33),
        0 <= i < j < layout(max_rank as int, minimum_bid).len(),
    ensures
        layout(max_rank as int, minimum_bid)[i].rank_end < layout(
            max_rank as int,
            minimum_bid,
        )[j].rank_start,
{
    lemma_layout_entry(max_rank, minimum_bid, i);
    lemma_layout_entry(max_rank, minimum_bid, j);
    if i + 2 < j + 1 {
        lemma_first_rank_increases(i + 2, j + 1);
    }
}

/// Finds the bucket, at position `from` or later, that holds `rank`.
proof fn lemma_find_bucket(max_rank: u32, minimum_bid: u64, rank: int, from: int) -> (i: int)
    requires
        max_rank < first_rank(33),
        1 <= rank <= max_rank,
        0 <= from < layout(max_rank as int, minimum_bid).len(),
        layout(max_rank as int, minimum_bid)[from].rank_start <= rank,
    ensures
        from <= i < layout(max_rank as int, minimum_bid).len(),
        layout(max_rank as int, minimum_bid)[i].rank_start <= rank <= layout(
            max_rank as int,
            minimum_bid,
        )[i].rank_end,
    decreases layout(max_rank as int, minimum_bid).len() - from,
{
    lemma_layout_is_partition(max_rank, minimum_bid);
    let l = layout(max_rank as int, minimum_bid);
    if rank <= l[from].rank_end {
        from
    } else {
        if from + 1 < l.len() {
            lemma_find_bucket(max_rank, minimum_bid, rank, from + 1)
        } else {
            from
        }
    }
}

/// The participant counts of the layout add up to `max_rank`.
pub proof fn lemma_participants_sum(max_rank: u32, minimum_bid: u64)
    requires
        max_rank < first_rank(33),
    ensures
        sum_participants(layout(max_rank as int, minimum_bid)) == max_rank,
{
    lemma_layout_is_partition(max_rank, minimum_bid);
    let l = layout(max_rank as int, minimum_bid);
    lemma_participants_prefix(max_rank, minimum_bid, l.len() as int);
    assert(l.take(l.len() as int) == l);
}

proof fn lemma_participants_prefix(max_rank: u32, minimum_bid: u64, i: int)
    requires
        max_rank < first_rank(33),
        0 <= i <= layout(max_rank as int, minimum_bid).len(),
    ensures
        i == 0 ==> sum_participants(layout(max_rank as int, minimum_bid).take(i)) == 0,
        i > 0 ==> sum_participants(layout(max_rank as int, minimum_bid).take(i)) == layout(
            max_rank as int,
            minimum_bid,
        )[i - 1].rank_end,
    decreases i,
{
    lemma_layout_is_partition(max_rank, minimum_bid);
    let l = layout(max_rank as int, minimum_bid);
    if i > 0 {
        lemma_participants_prefix(max_rank, minimum_bid, i - 1);
        assert(l.take(i).drop_last() == l.take(i - 1));
    }
}

/// Where no guaranteed prize overflows, the guaranteed prizes of the layout
/// add up to the minimum bid once per rank.
pub proof fn lemma_guaranteed_sum(max_rank: u32, minimum_bid: u64)
    requires
        max_rank < first_rank(33),
        forall|k: int|
            1 <= k && first_rank(k) <= max_rank ==> minimum_bid * #[trigger] bucket_size(
                k,
                max_rank as int,
            ) <= u64::MAX,
    ensures
        sum_guaranteed(layout(max_rank as int, minimum_bid)) == minimum_bid * max_rank,
{
    let l = layout(max_rank as int, minimum_bid);
    lemma_guaranteed_prefix(max_rank, minimum_bid, l.len() as int);
    lemma_participants_sum(max_rank, minimum_bid);
    assert(l.take(l.len() as int) == l);
}

proof fn lemma_guaranteed_prefix(max_rank: u32, minimum_bid: u64, i: int)
    requires
        max_rank < first_rank(33),
        forall|k: int|
            1 <= k && first_rank(k) <= max_rank ==> minimum_bid * #[trigger] bucket_size(
                k,
                max_rank as int,
            ) <= u64::MAX,
        0 <= i <= layout(max_rank as int, minimum_bid).len(),
    ensures
        sum_guaranteed(layout(max_rank as int, minimum_bid).take(i)) == minimum_bid
            * sum_participants(layout(max_rank as int, minimum_bid).take(i)),
    decreases i,
{
    let l = layout(max_rank as int, minimum_bid);
    if i > 0 {
        lemma_guaranteed_prefix(max_rank, minimum_bid, i - 1);
        assert(l.take(i).drop_last() == l.take(i - 1));
        lemma_layout_entry(max_rank, minimum_bid, i - 1);
        let c = bucket_size(i, max_rank as int);
        assert(minimum_bid * c <= u64::MAX);
        assert(l[i - 1].guaranteed_prize == minimum_bid * c);
        vstd::arithmetic::mul::lemma_mul_is_distributive_add(
            minimum_bid as int,
            sum_participants(l.take(i - 1)),
            c,
        );
    }
}

/// Once the buckets are stored, looking up any rank in `1..=max_rank` finds the
/// one bucket that holds it, and looking up any other rank finds nothing.
pub proof fn lemma_stored_layout_finds_rank(
    max_rank: u32,
    minimum_bid: u64,
    weight_prizes: Seq<u64>,
    rank: int,
)
    requires
        max_rank < first_rank(33),
        weight_prizes.len() == layout_len(max_rank as int),
    ensures
        rank_bucket(stored_layout(max_rank as int, minimum_bid, weight_prizes), rank) is Some
            <==> 1 <= rank <= max_rank,
        rank_bucket(stored_layout(max_rank as int, minimum_bid, weight_prizes), rank) matches Some(
            b,
        ) ==> exists|i: int|
            0 <= i < layout_len(max_rank as int) && b == stored_layout(
                max_rank as int,
                minimum_bid,
                weight_prizes,
            )[i] && b.covers(rank) && b.bucket == i + 1,
{
    let l = layout(max_rank as int, minimum_bid);
    let s = stored_layout(max_rank as int, minimum_bid, weight_prizes);
    lemma_rank_bucket_is_first_cover(s, rank, 0);
    lemma_rank_in_one_bucket(max_rank, minimum_bid, rank);
    lemma_layout_is_partition(max_rank, minimum_bid);
    assert forall|i: int| 0 <= i < s.len() implies (#[trigger] s[i]).covers(rank) == (
    l[i].rank_start <= rank <= l[i].rank_end) by {}
    if 1 <= rank <= max_rank {
        let i = choose|i: int| 0 <= i < l.len() && (#[trigger] l[i]).rank_start <= rank <= l[i].rank_end;
        assert(s[i].covers(rank));
    }
}

/// `per * count <= x < (per + 1) * count` for `per = x / count`.
proof fn lemma_div_brackets(x: int, count: int)
    requires
        x >= 0,
        count > 0,
    ensures
        (x / count) * count <= x < (x / count + 1) * count,
{
    vstd::arithmetic::div_mod::lemma_fundamental_div_mod(x, count);
    vstd::arithmetic::div_mod::lemma_mod_bound(x, count);
    vstd::arithmetic::mul::lemma_mul_is_distributive_add_other_way(count, x / count, 1);
    vstd::arithmetic::mul::lemma_mul_is_commutative(count, x / count);
}

/// The stored buckets cover ranks `1..=max_rank` with adjacent ranges
/// numbered from 1, each guarantees the minimum bid, and each splits its
/// weighted prize evenly over the ranks it holds: its per-bid prize times its
/// number of ranks is at most the prize, and one more per bid would exceed it.
pub proof fn lemma_stored_prizes_split_evenly(
    max_rank: u32,
    minimum_bid: u64,
    weight_prizes: Seq<u64>,
)
    requires
        max_rank < first_rank(33),
        weight_prizes.len() == layout_len(max_rank as int),
    ensures
        ({
            let s = stored_layout(max_rank as int, minimum_bid, weight_prizes);
            &&& s.len() > 0 <==> max_rank >= 1
            &&& s.len() > 0 ==> s[0].rank_start == 1 && s[s.len() - 1].rank_end == max_rank
            &&& forall|i: int|
                0 <= i < s.len() - 1 ==> #[trigger] s[i + 1].rank_start == s[i].rank_end + 1
            &&& forall|i: int|
                0 <= i < s.len() ==> {
                    let count = (#[trigger] s[i]).rank_end - s[i].rank_start + 1;
                    &&& 1 <= s[i].rank_start <= s[i].rank_end <= max_rank
                    &&& s[i].bucket == i + 1
                    &&& s[i].guaranteed_prize_per_bid == minimum_bid
                    &&& s[i].weight_prize_per_bid * count <= weight_prizes[i]
                    &&& weight_prizes[i] < (s[i].weight_prize_per_bid + 1) * count
                }
        }),
{
    lemma_layout_is_partition(max_rank, minimum_bid);
    let l = layout(max_rank as int, minimum_bid);
    let s = stored_layout(max_rank as int, minimum_bid, weight_prizes);
    assert forall|i: int| 0 <= i < s.len() - 1 implies #[trigger] s[i + 1].rank_start
        == s[i].rank_end + 1 by {
        assert(l[i + 1].rank_start == l[i].rank_end + 1);
    }
    assert forall|i: int| 0 <= i < s.len() implies {
        let count = (#[trigger] s[i]).rank_end - s[i].rank_start + 1;
        &&& 1 <= s[i].rank_start <= s[i].rank_end <= max_rank
        &&& s[i].bucket == i + 1
        &&& s[i].guaranteed_prize_per_bid == minimum_bid
        &&& s[i].weight_prize_per_bid * count <= weight_prizes[i]
        &&& weight_prizes[i] < (s[i].weight_prize_per_bid + 1) * count
    } by {
        assert(1 <= (l[i]).rank_start <= l[i].rank_end <= max_rank);
        let count = l[i].rank_end - l[i].rank_start + 1;
        assert(l[i].participant_count == count);
        lemma_div_brackets(weight_prizes[i] as int, count);
        assert(weight_prizes[i] as int / count <= weight_prizes[i]) by {
            vstd::arithmetic::div_mod::lemma_div_is_ordered_by_denominator(
                weight_prizes[i] as int, 1, count);
        }
    }
}

/// What each laid-out bucket holds: bucket `i + 1` holds one rank for the
/// first eleven buckets and `2^(i - 10) + 1` ranks after that, unless it is
/// the last bucket and `max_rank` cuts it off; its total weight is its weight
/// times its number of ranks, and its guaranteed prize is the minimum bid
/// times its number of ranks.
pub proof fn lemma_layout_fields(max_rank: u32, minimum_bid: u64)
    requires
        max_rank < first_rank(33),
        forall|k: int|
            1 <= k && first_rank(k) <= max_rank ==> minimum_bid * #[trigger] bucket_size(
                k,
                max_rank as int,
            ) <= u64::MAX,
    ensures
        forall|i: int|
            0 <= i < layout(max_rank as int, minimum_bid).len() ==> {
                let b = #[trigger] layout(max_rank as int, minimum_bid)[i];
                &&& b.participant_count == b.rank_end - b.rank_start + 1
                &&& i < 11 ==> b.participant_count == 1
                &&& 11 <= i && i + 1 < layout(max_rank as int, minimum_bid).len()
                    ==> b.participant_count == pow2((i - 10) as nat) + 1
                &&& b.weight == weight_for_bucket(i + 1)
                &&& b.total_weight == b.weight * b.participant_count
                &&& b.guaranteed_prize_per_bid == minimum_bid
                &&& b.guaranteed_prize == minimum_bid * b.participant_count
                &&& b.weight_prize == 0
                &&& b.weight_prize_per_bid == 0
            },
{
    let l = layout(max_rank as int, minimum_bid);
    lemma_layout_is_partition(max_rank, minimum_bid);
    assert forall|i: int| 0 <= i < l.len() implies {
        let b = #[trigger] l[i];
        &&& b.participant_count == b.rank_end - b.rank_start + 1
        &&& i < 11 ==> b.participant_count == 1
        &&& 11 <= i && i + 1 < l.len() ==> b.participant_count == pow2((i - 10) as nat) + 1
        &&& b.weight == weight_for_bucket(i + 1)
        &&& b.total_weight == b.weight * b.participant_count
        &&& b.guaranteed_prize_per_bid == minimum_bid
        &&& b.guaranteed_prize == minimum_bid * b.participant_count
        &&& b.weight_prize == 0
        &&& b.weight_prize_per_bid == 0
    } by {
        lemma_layout_entry(max_rank, minimum_bid, i);
        let c = bucket_size(i + 1, max_rank as int);
        if i + 1 < l.len() {
            lemma_layout_entry(max_rank, minimum_bid, i + 1);
        }
        let w = weight_for_bucket(i + 1);
        assert(0 <= w <= 100000);
        assert(1 <= c <= 0xffff_ffff);
        assert(w * c <= 100000 * 0xffff_ffff) by (nonlinear_arith)
            requires
                0 <= w <= 100000,
                1 <= c <= 0xffff_ffff,
        ;
        assert(0 <= w * c) by (nonlinear_arith)
            requires
                0 <= w,
                1 <= c,
        ;
        assert(0 <= minimum_bid * c) by (nonlinear_arith)
            requires
                0 <= minimum_bid,
                1 <= c,
        ;
    }
}

/// Each weighted bucket of the layout weighs at least as much as any later one.
pub proof fn lemma_layout_weights_nonincreasing(max_rank: u32, minimum_bid: u64, i: int, j: int)
    requires
        max_rank < first_rank(33),
        0 <= i <= j < layout(max_rank as int, minimum_bid).len(),
    ensures
        layout(max_rank as int, minimum_bid)[i].weight >= layout(
            max_rank as int,
            minimum_bid,
        )[j].weight,
{
    lemma_layout_len_characterized(max_rank as int);
    crate::model::bucket::lemma_weights_nonincreasing(i + 1, j + 1);
}

// ---------------------------------------------------------------------------
// The layout in code
// ---------------------------------------------------------------------------

/// The buckets of a contest before the weighted prizes are shared out, with
/// the sum of their total weights and the part of the pot left to share.
pub struct BucketPlan {
    pub buckets: Vec<TempBucket>,
    pub total_weight: u64,
    pub prize_left_after_guaranteed: u64,
}

/// `num::pow` on `u32`: `base` raised to `exp`.
///
/// Trusted: `num::pow` squares and multiplies by `base`, and every
/// intermediate value is at most the result, so where the result fits in
/// `u32` it returns `base^exp` and does not overflow.
#[verifier::external_body]
fn pow_u32(base: u32, exp: usize) -> (r: u32)
    requires
        pow(base as int, exp as nat) <= u32::MAX,
    ensures
        r == pow(base as int, exp as nat),
{
    num::pow(base, exp)
}

/// Lays out the buckets for ranks `1..=max_rank` and splits the pot.
///
/// Returns `None` exactly on the inputs where the computation overflows or
/// needs a bucket past the last one with a weight (`plan_fits` is false).
pub fn plan_buckets(
    total_pot: u64,
    minimum_bid: u64,
    total_winners: u32,
    max_rank: u32,
    company_share: u32,
) -> (r: Option<BucketPlan>)
    ensures
        r is Some <==> plan_fits(total_pot, minimum_bid, total_winners, max_rank, company_share),
        r matches Some(p) ==> {
            &&& p.buckets@ == layout(max_rank as int, minimum_bid)
            &&& p.total_weight == sum_total_weight(p.buckets@)
            &&& p.prize_left_after_guaranteed == prize_left(
                total_pot as int,
                minimum_bid as int,
                total_winners as int,
                company_share as int,
            )
        },
        // What is left to share: the pot less the house's cut (in hundredths
        // of a percent, rounded down) and less the winners' minimum bids.
        r matches Some(p) ==> p.prize_left_after_guaranteed == total_pot - (company_share
            * total_pot) / 10000 - total_winners * minimum_bid,
        // The buckets cover ranks 1..=max_rank with adjacent ranges numbered from 1.
        r matches Some(p) ==> (p.buckets@.len() > 0 <==> max_rank >= 1),
        r matches Some(p) ==> (p.buckets@.len() > 0 ==> p.buckets@[0].rank_start == 1
            && p.buckets@[p.buckets@.len() - 1].rank_end == max_rank),
        r matches Some(p) ==> forall|i: int|
            0 <= i < p.buckets@.len() - 1 ==> #[trigger] p.buckets@[i + 1].rank_start
                == p.buckets@[i].rank_end + 1,
        r matches Some(p) ==> forall|i: int|
            0 <= i < p.buckets@.len() ==> {
                let b = #[trigger] p.buckets@[i];
                &&& 1 <= b.rank_start <= b.rank_end <= max_rank
                &&& b.bucket == i + 1
                &&& b.participant_count == b.rank_end - b.rank_start + 1
                &&& i < 11 ==> b.participant_count == 1
                &&& 11 <= i && i + 1 < p.buckets@.len() ==> b.participant_count == pow2(
                    (i - 10) as nat,
                ) + 1
                &&& b.weight == weight_for_bucket(i + 1)
                &&& b.total_weight == b.weight * b.participant_count
                &&& b.guaranteed_prize_per_bid == minimum_bid
                &&& b.guaranteed_prize == minimum_bid * b.participant_count
            },
{
    proof {
        lemma_rank_limit();
        lemma2_to64();
    }
    let share_of_pot = match (company_share as u64).checked_mul(total_pot) {
        Some(x) => x,
        None => return None,
    };
    let house_cut = share_of_pot / 10000;
    if house_cut > total_pot {
        return None;
    }
    let prize_for_bidders = total_pot - house_cut;
    let total_guaranteed_prize = match (total_winners as u64).checked_mul(minimum_bid) {
        Some(x) => x,
        None => return None,
    };
    if total_guaranteed_prize > prize_for_bidders {
        return None;
    }
    let prize_left_after_guaranteed = prize_for_bidders - total_guaranteed_prize;

    let mut bucket_count: u8 = 1;
    let mut power: usize = 0;
    let mut rank_start: u32 = 1;
    let mut total_weight: u64 = 0;
    let mut buckets: Vec<TempBucket> = Vec::new();

    while rank_start <= max_rank
        invariant
            company_share * total_pot <= u64::MAX,
            house_cut_of(total_pot as int, company_share as int) <= total_pot,
            total_winners * minimum_bid <= u64::MAX,
            total_winners * minimum_bid <= total_pot - house_cut_of(total_pot as int, company_share as int),
            prize_left_after_guaranteed == prize_left(
                total_pot as int,
                minimum_bid as int,
                total_winners as int,
                company_share as int,
            ),
            first_rank(33) == 4194335,
            first_rank(32) == 2097182,
            pow2(21) == 0x200000,
            1 <= bucket_count <= 33,
            rank_start <= max_rank + 1,
            rank_start <= max_rank ==> rank_start == first_rank(bucket_count as int),
            rank_start > max_rank ==> first_rank(bucket_count as int) > max_rank,
            power == if bucket_count <= 12 {
                0
            } else {
                bucket_count - 12
            },
            buckets@.len() == bucket_count - 1,
            forall|i: int|
                0 <= i < buckets@.len() ==> #[trigger] buckets@[i] == planned_bucket(
                    i + 1,
                    max_rank as int,
                    minimum_bid,
                ),
            forall|k: int| 1 <= k < bucket_count ==> first_rank(k) <= max_rank,
            forall|k: int|
                1 <= k < bucket_count ==> minimum_bid * #[trigger] bucket_size(k, max_rank as int)
                    <= u64::MAX,
            total_weight == sum_total_weight(buckets@),
            total_weight <= (bucket_count - 1) * (100000 * 0xffff_ffffu64),
        decreases max_rank + 1 - rank_start,
    {
        let ghost k = bucket_count as int;
        if bucket_count > 32 {
            // Bucket 33 would have no weight.
            assert(!plan_fits(total_pot, minimum_bid, total_winners, max_rank, company_share));
            return None;
        }
        proof {
            lemma_first_rank_value(k);
            if k < 32 {
                lemma_first_rank_increases(k, 32);
            }
        }
        let mut rank_end: u32;
        if bucket_count > 11 {
            power = power + 1;
            proof {
                lemma_pow2(power as nat);
                if power < 21 {
                    lemma_pow2_strictly_increases(power as nat, 21);
                }
            }
            rank_end = pow_u32(2, power) + rank_start;
        } else {
            rank_end = rank_start;
        }
        if rank_end > max_rank {
            rank_end = max_rank;
        }
        assert(rank_end == last_rank(k, max_rank as int));
        let participant_count = 1 + rank_end - rank_start;
        let mut bucket = TempBucket {
            guaranteed_prize_per_bid: minimum_bid,
            guaranteed_prize: 0,
            rank_start: rank_start,
            rank_end: 0,
            weight: 0,
            total_weight: 0,
            participant_count: 0,
            weight_prize: 0,
            weight_prize_per_bid: 0,
            bucket: bucket_count,
        };
        bucket.rank_end = rank_end;
        bucket.participant_count = participant_count;
        bucket.weight = bucket.get_weight_by_bucket(bucket_count);
        assert(bucket.weight <= 100000);
        assert(bucket.weight as u64 * participant_count as u64 <= 100000 * 0xffff_ffffu64)
            by (nonlinear_arith)
            requires
                bucket.weight <= 100000,
        ;
        bucket.total_weight = bucket.weight as u64 * participant_count as u64;
        total_weight = total_weight + bucket.total_weight;
        bucket.guaranteed_prize = match bucket.guaranteed_prize_per_bid.checked_mul(
            participant_count as u64,
        ) {
            Some(g) => g,
            None => {
                assert(minimum_bid * bucket_size(k, max_rank as int) > u64::MAX);
                return None;
            },
        };
        assert(bucket == planned_bucket(k, max_rank as int, minimum_bid));
        let ghost old_buckets = buckets@;
        buckets.push(bucket);
        assert(buckets@.drop_last() == old_buckets);
        bucket_count = bucket_count + 1;
        rank_start = rank_end + 1;
    }
    proof {
        let n = bucket_count - 1;
        assert forall|j: int| n < j <= 32 implies first_rank(j) > max_rank by {
            if j > n + 1 {
                lemma_first_rank_increases(n + 1, j);
            }
        }
        lemma_layout_len(max_rank as int, n as int);
        assert(buckets@ =~= layout(max_rank as int, minimum_bid));
        assert forall|k: int| 1 <= k && first_rank(k) <= max_rank implies minimum_bid
            * #[trigger] bucket_size(k, max_rank as int) <= u64::MAX by {
            if k > n {
                if k > n + 1 {
                    lemma_first_rank_increases(n + 1, k);
                }
            }
        }
    }
    proof {
        lemma_layout_is_partition(max_rank, minimum_bid);
        lemma_layout_fields(max_rank, minimum_bid);
    }
    Some(BucketPlan { buckets, total_weight, prize_left_after_guaranteed })
}

} // verus!
