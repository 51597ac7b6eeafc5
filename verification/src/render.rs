//! The renderer-facing logic: row ordering, column fitting, row coloring,
//! footer totals and the warmup countdown.
//!
//! Drawing itself is presentation and lives outside the library; everything
//! here computes plain values the drawing consumes, each pinned down by an
//! exact contract.

use vstd::prelude::*;

verus! {

use crate::snapshot::StatsSnapshot;
use vstd::relations::sorted_by;

/// Sort key of a snapshot's mean: rows without a mean sort before all
/// others, so regions that have not answered yet surface at the top.
pub open spec fn avg_key(s: StatsSnapshot) -> int {
    match s.avg {
        Option::None => -1,
        Option::Some(v) => v as int,
    }
}

/// Row order: by mean latency, unavailable means first, ties broken by
/// region identifier.
pub open spec fn snapshot_le(a: StatsSnapshot, b: StatsSnapshot) -> bool {
    avg_key(a) < avg_key(b) || (avg_key(a) == avg_key(b) && a.region_id <= b.region_id)
}

/// [`snapshot_le`] as a value, for the sortedness predicate.
pub open spec fn snapshot_le_fn() -> spec_fn(StatsSnapshot, StatsSnapshot) -> bool {
    |a: StatsSnapshot, b: StatsSnapshot| snapshot_le(a, b)
}

/// Compares two snapshots in row order.
pub fn compare_snapshot(lhs: &StatsSnapshot, rhs: &StatsSnapshot) -> (r: core::cmp::Ordering)
    ensures
        r is Less <==> (avg_key(*lhs) < avg_key(*rhs) || (avg_key(*lhs) == avg_key(*rhs)
            && lhs.region_id < rhs.region_id)),
        r is Equal <==> (avg_key(*lhs) == avg_key(*rhs) && lhs.region_id == rhs.region_id),
        r is Greater <==> (avg_key(*rhs) < avg_key(*lhs) || (avg_key(*lhs) == avg_key(*rhs)
            && rhs.region_id < lhs.region_id)),
{
    match (lhs.avg, rhs.avg) {
        (Option::None, Option::Some(_)) => core::cmp::Ordering::Less,
        (Option::Some(_), Option::None) => core::cmp::Ordering::Greater,
        (Option::Some(x), Option::Some(y)) => {
            if x < y {
                core::cmp::Ordering::Less
            } else if y < x {
                core::cmp::Ordering::Greater
            } else {
                compare_region(lhs.region_id, rhs.region_id)
            }
        },
        (Option::None, Option::None) => compare_region(lhs.region_id, rhs.region_id),
    }
}

/// Compares the tie-breaking region identifiers.
fn compare_region(a: usize, b: usize) -> (r: core::cmp::Ordering)
    ensures
        r is Less <==> a < b,
        r is Equal <==> a == b,
        r is Greater <==> a > b,
{
    if a < b {
        core::cmp::Ordering::Less
    } else if b < a {
        core::cmp::Ordering::Greater
    } else {
        core::cmp::Ordering::Equal
    }
}

/// Whether `a` may stand before `b` in the rendered table.
fn snapshot_le_exec(a: &StatsSnapshot, b: &StatsSnapshot) -> (r: bool)
    ensures
        r == snapshot_le(*a, *b),
{
    match (a.avg, b.avg) {
        (Option::None, Option::None) => a.region_id <= b.region_id,
        (Option::None, Option::Some(_)) => true,
        (Option::Some(_), Option::None) => false,
        (Option::Some(x), Option::Some(y)) => x < y || (x == y && a.region_id <= b.region_id),
    }
}

/// Sorts the rows into render order: ascending by mean latency with
/// unavailable means first, ties broken by region identifier. The rows are
/// permuted, never altered.
pub fn sort_snapshots(v: &mut Vec<StatsSnapshot>)
    ensures
        sorted_by(final(v)@, snapshot_le_fn()),
        final(v)@.to_multiset() == old(v)@.to_multiset(),
        final(v)@.len() == old(v)@.len(),
{
    broadcast use vstd::seq_lib::to_multiset_update;
    broadcast use vstd::multiset::group_multiset_axioms;

    let ghost w0 = v@;
    let len = v.len();
    let mut i: usize = 1;
    while i < len
        invariant
            1 <= i <= len || len == 0,
            v@.len() == len,
            v@.to_multiset() == w0.to_multiset(),
            forall|k1: int, k2: int| 0 <= k1 < k2 < i ==> snapshot_le(v@[k1], v@[k2]),
        decreases len - i,
    {
        let mut j: usize = i;
        while j > 0 && !snapshot_le_exec(&v[j - 1], &v[j])
            invariant
                0 <= j <= i < len,
                v@.len() == len,
                v@.to_multiset() == w0.to_multiset(),
                forall|k1: int, k2: int|
                    0 <= k1 < k2 <= i && k1 != j && k2 != j ==> snapshot_le(v@[k1], v@[k2]),
                forall|k: int| j < k <= i ==> snapshot_le(v@[j as int], #[trigger] v@[k]),
            decreases j,
        {
            let ghost before = v@;
            let a = v[j - 1];
            let b = v[j];
            v.set(j - 1, b);
            v.set(j, a);
            proof {
                broadcast use vstd::seq_lib::group_to_multiset_ensures;

                let s1 = before.update(j - 1, b);
                assert(s1[j as int] == b);
                assert(v@ == s1.update(j as int, a));
                assert(before[j - 1] == a && 0 <= j - 1 < before.len());
                assert(before.to_multiset().count(a) > 0);
                assert(v@.to_multiset() =~= before.to_multiset());
                assert(snapshot_le(b, a));
            }
            j = j - 1;
        }
        proof {
            assert forall|k1: int, k2: int| 0 <= k1 < k2 <= i implies snapshot_le(
                v@[k1],
                v@[k2],
            ) by {
                if k2 == j {
                    assert(snapshot_le(v@[j - 1], v@[j as int]));
                    if k1 < j - 1 {
                        assert(snapshot_le(v@[k1], v@[j - 1]));
                    }
                }
            }
        }
        i = i + 1;
    }
    assert(sorted_by(v@, snapshot_le_fn()));
}

/// Reusable scratch space for the render loop: the row order of the last
/// frame, kept allocated between frames.
pub struct RenderBuffers {
    /// Indices of the rows in render order.
    pub sorted_indices: Vec<usize>,
}

impl RenderBuffers {
    /// Creates scratch space for a table of `capacity` rows.
    pub fn new(capacity: usize) -> (r: RenderBuffers)
        ensures
            r.sorted_indices@ == Seq::<usize>::empty(),
    {
        RenderBuffers { sorted_indices: Vec::with_capacity(capacity) }
    }

    /// Forgets the previous frame's order.
    pub fn clear(&mut self)
        ensures
            final(self).sorted_indices@ == Seq::<usize>::empty(),
    {
        self.sorted_indices.clear();
    }
}

/// How many of the eight columns fit a terminal `width` characters wide:
/// the region column is 28 wide, every statistic column 11, with two of
/// spacing each and two of border, hidden right to left when the terminal
/// narrows; the region and one statistic always stay.
pub fn calc_visible_columns(width: u16) -> (r: usize)
    ensures
        r == (if width >= 123 {
            8int
        } else if width >= 110 {
            7int
        } else if width >= 97 {
            6int
        } else if width >= 84 {
            5int
        } else if width >= 71 {
            4int
        } else if width >= 58 {
            3int
        } else {
            2int
        }),
{
    if width >= 123 {
        8
    } else if width >= 110 {
        7
    } else if width >= 97 {
        6
    } else if width >= 84 {
        5
    } else if width >= 71 {
        4
    } else if width >= 58 {
        3
    } else {
        2
    }
}

/// The coloring of the `Last` cell.
#[derive(Clone, Copy, Debug, PartialEq, Eq, Structural)]
pub enum LatencyTone {
    /// The last sample was no worse than the mean.
    Good,
    /// The last sample was above the mean.
    Bad,
    /// Not enough data to judge.
    Unknown,
}

/// Tone of the `Last` cell: bad when the last sample exceeds the mean,
/// good when both exist otherwise, unknown while either is missing.
pub fn style_for_last(last: Option<u64>, avg: Option<u64>) -> (r: LatencyTone)
    ensures
        r == (match (last, avg) {
            (Option::Some(l), Option::Some(a)) => if l > a {
                LatencyTone::Bad
            } else {
                LatencyTone::Good
            },
            _ => LatencyTone::Unknown,
        }),
{
    match (last, avg) {
        (Option::Some(l), Option::Some(a)) => if l > a {
            LatencyTone::Bad
        } else {
            LatencyTone::Good
        },
        _ => LatencyTone::Unknown,
    }
}

/// Exact sum of the sample counts of a row sequence.
pub open spec fn sum_samples(s: Seq<StatsSnapshot>) -> int
    decreases s.len(),
{
    if s.len() == 0 {
        0
    } else {
        sum_samples(s.drop_last()) + s.last().total_samples
    }
}

/// Total of the rows' sample counts, saturating at `u64::MAX`.
pub fn total_sample_count(snapshots: &Vec<StatsSnapshot>) -> (r: u64)
    ensures
        sum_samples(snapshots@) <= u64::MAX ==> r == sum_samples(snapshots@),
        sum_samples(snapshots@) > u64::MAX ==> r == u64::MAX,
{
    let mut total: u64 = 0;
    let mut i: usize = 0;
    while i < snapshots.len()
        invariant
            i <= snapshots@.len(),
            sum_samples(snapshots@.subrange(0, i as int)) <= u64::MAX ==> total == sum_samples(
                snapshots@.subrange(0, i as int),
            ),
            sum_samples(snapshots@.subrange(0, i as int)) > u64::MAX ==> total == u64::MAX,
        decreases snapshots@.len() - i,
    {
        proof {
            let pre = snapshots@.subrange(0, i as int);
            assert(snapshots@.subrange(0, i + 1).drop_last() =~= pre);
            lemma_sum_samples_nonneg(pre);
        }
        let s = snapshots[i].total_samples;
        total = if total > u64::MAX - s {
            u64::MAX
        } else {
            total + s
        };
        i = i + 1;
    }
    proof {
        assert(snapshots@.subrange(0, snapshots@.len() as int) =~= snapshots@);
    }
    total
}

/// A sum of sample counts is never negative.
proof fn lemma_sum_samples_nonneg(s: Seq<StatsSnapshot>)
    ensures
        sum_samples(s) >= 0,
    decreases s.len(),
{
    if s.len() > 0 {
        lemma_sum_samples_nonneg(s.drop_last());
    }
}

/// Seconds left to display during warmup: the remaining time rounded up to
/// whole seconds.
pub fn remaining_display_seconds(remaining_ms: u64) -> (r: u64)
    ensures
        r == (remaining_ms + 999) / 1000,
{
    proof {
        let q = remaining_ms as int / 1000;
        let m = remaining_ms as int % 1000;
        vstd::arithmetic::div_mod::lemma_fundamental_div_mod(remaining_ms as int, 1000);
        if m == 0 {
            vstd::arithmetic::div_mod::lemma_div_multiples_vanish_fancy(q, 999, 1000);
            assert(1000 * q + 999 == remaining_ms + 999);
        } else {
            vstd::arithmetic::div_mod::lemma_div_multiples_vanish_fancy(q + 1, m - 1, 1000);
            assert(1000 * (q + 1) + (m - 1) == remaining_ms + 999);
        }
    }
    remaining_ms / 1000 + (if remaining_ms % 1000 > 0 {
        1
    } else {
        0
    })
}

/// Which of the four spinner frames to show after `elapsed_ms` of warmup;
/// the spinner advances every 150 milliseconds.
pub fn spinner_step(elapsed_ms: u64) -> (r: usize)
    ensures
        r == (elapsed_ms as int / 150) % 4,
{
    ((elapsed_ms / 150) % 4) as usize
}

} // verus!
