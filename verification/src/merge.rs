//! The mathematical model of the clock-table merge.
//!
//! Merging an external snapshot folds its entries into the tracked table:
//! an entry whose probe id is already tracked raises the tracked count to
//! the maximum of the two counts (observed progress never decreases); an
//! unknown probe id is appended. The laws at the bottom of this module are
//! the heart of the causal-history engine: merging is monotonic, and
//! merging the same snapshot twice changes nothing beyond the first merge.

use vstd::prelude::*;

use crate::clock::LogicalClock;

verus! {

/// The larger of two counts.
pub open spec fn max_u32(a: u32, b: u32) -> u32 {
    if a >= b {
        a
    } else {
        b
    }
}

/// The index of the first entry of `t` tracking `id`, or -1 if `id` is
/// untracked.
pub open spec fn find_clock(t: Seq<LogicalClock>, id: u32) -> int
    decreases t.len(),
{
    if t.len() == 0 {
        -1
    } else if t[0].id == id {
        0
    } else {
        let r = find_clock(t.skip(1), id);
        if r == -1 {
            -1
        } else {
            r + 1
        }
    }
}

/// No two entries of `t` track the same probe id.
pub open spec fn unique_ids(t: Seq<LogicalClock>) -> bool {
    forall|i: int, j: int| 0 <= i < j < t.len() ==> t[i].id != t[j].id
}

/// Some entry of `t` tracks `e.id` with a count at least `e.count`.
pub open spec fn dominates_entry(t: Seq<LogicalClock>, e: LogicalClock) -> bool {
    exists|i: int| 0 <= i < t.len() && t[i].id == e.id && t[i].count >= e.count
}

/// Every entry of `ext` is dominated by `t`.
pub open spec fn dominates(t: Seq<LogicalClock>, ext: Seq<LogicalClock>) -> bool {
    forall|j: int| 0 <= j < ext.len() ==> dominates_entry(t, #[trigger] ext[j])
}

/// One external entry folded into the table.
pub open spec fn merge_entry(t: Seq<LogicalClock>, e: LogicalClock) -> Seq<LogicalClock> {
    let i = find_clock(t, e.id);
    if i == -1 {
        t.push(e)
    } else {
        t.update(i, LogicalClock { id: e.id, count: max_u32(t[i].count, e.count) })
    }
}

/// An external snapshot folded into the table, entry by entry, in order.
pub open spec fn merge_seq(t: Seq<LogicalClock>, ext: Seq<LogicalClock>) -> Seq<LogicalClock>
    decreases ext.len(),
{
    if ext.len() == 0 {
        t
    } else {
        merge_seq(merge_entry(t, ext[0]), ext.skip(1))
    }
}

/// `find_clock` returns -1 exactly when no entry tracks `id`, and otherwise
/// the first index that does.
pub proof fn lemma_find_clock(t: Seq<LogicalClock>, id: u32)
    ensures
        find_clock(t, id) == -1 ==> forall|k: int| 0 <= k < t.len() ==> t[k].id != id,
        find_clock(t, id) != -1 ==> 0 <= find_clock(t, id) < t.len() && t[find_clock(
            t,
            id,
        )].id == id && forall|k: int| 0 <= k < find_clock(t, id) ==> t[k].id != id,
    decreases t.len(),
{
    if t.len() == 0 {
    } else if t[0].id == id {
    } else {
        lemma_find_clock(t.skip(1), id);
        let r = find_clock(t.skip(1), id);
        if r == -1 {
            assert forall|k: int| 0 <= k < t.len() implies t[k].id != id by {
                if k > 0 {
                    assert(t.skip(1)[k - 1] == t[k]);
                }
            }
        } else {
            assert(t.skip(1)[r] == t[r + 1]);
            assert forall|k: int| 0 <= k < r + 1 implies t[k].id != id by {
                if k > 0 {
                    assert(t.skip(1)[k - 1] == t[k]);
                }
            }
        }
    }
}

/// Folding in one entry keeps every tracked id in place, never decreases a
/// count, dominates the folded entry, and preserves id uniqueness.
pub proof fn lemma_merge_entry_frame(t: Seq<LogicalClock>, e: LogicalClock)
    ensures
        t.len() <= merge_entry(t, e).len() <= t.len() + 1,
        forall|i: int|
            0 <= i < t.len() ==> #[trigger] merge_entry(t, e)[i].id == t[i].id && merge_entry(
                t,
                e,
            )[i].count >= t[i].count,
        dominates_entry(merge_entry(t, e), e),
        unique_ids(t) ==> unique_ids(merge_entry(t, e)),
{
    lemma_find_clock(t, e.id);
    let i = find_clock(t, e.id);
    let m = merge_entry(t, e);
    if i == -1 {
        assert(m[t.len() as int].id == e.id && m[t.len() as int].count >= e.count);
        if unique_ids(t) {
            assert forall|p: int, q: int| 0 <= p < q < m.len() implies m[p].id != m[q].id by {
                if q == t.len() {
                    assert(t[p].id != e.id);
                }
            }
        }
    } else {
        assert(m[i].id == e.id && m[i].count >= e.count);
        assert(dominates_entry(m, e));
        if unique_ids(t) {
            assert forall|p: int, q: int| 0 <= p < q < m.len() implies m[p].id != m[q].id by {
                assert(m[p].id == t[p].id && m[q].id == t[q].id);
            }
        }
    }
}

/// Folding in one entry preserves domination of any already dominated
/// entry.
proof fn lemma_merge_entry_preserves_domination(
    t: Seq<LogicalClock>,
    e: LogicalClock,
    d: LogicalClock,
)
    requires
        dominates_entry(t, d),
    ensures
        dominates_entry(merge_entry(t, e), d),
{
    let w = choose|w: int| 0 <= w < t.len() && t[w].id == d.id && t[w].count >= d.count;
    lemma_merge_entry_frame(t, e);
    assert(merge_entry(t, e)[w].id == d.id && merge_entry(t, e)[w].count >= d.count);
}

/// Merge monotonicity: a merge never moves, removes or decreases a tracked
/// clock — every previously tracked entry keeps its position and id, and
/// its count after the merge is at least its count before.
pub proof fn lemma_merge_seq_monotonic(t: Seq<LogicalClock>, ext: Seq<LogicalClock>)
    ensures
        merge_seq(t, ext).len() >= t.len(),
        forall|i: int|
            0 <= i < t.len() ==> #[trigger] merge_seq(t, ext)[i].id == t[i].id && merge_seq(
                t,
                ext,
            )[i].count >= t[i].count,
    decreases ext.len(),
{
    if ext.len() > 0 {
        let t1 = merge_entry(t, ext[0]);
        lemma_merge_entry_frame(t, ext[0]);
        lemma_merge_seq_monotonic(t1, ext.skip(1));
    }
}

/// A merge preserves id uniqueness of the table.
pub proof fn lemma_merge_seq_unique(t: Seq<LogicalClock>, ext: Seq<LogicalClock>)
    requires
        unique_ids(t),
    ensures
        unique_ids(merge_seq(t, ext)),
    decreases ext.len(),
{
    if ext.len() > 0 {
        lemma_merge_entry_frame(t, ext[0]);
        lemma_merge_seq_unique(merge_entry(t, ext[0]), ext.skip(1));
    }
}

/// A merge preserves domination of any already dominated entry.
proof fn lemma_merge_seq_preserves_domination(
    t: Seq<LogicalClock>,
    ext: Seq<LogicalClock>,
    d: LogicalClock,
)
    requires
        dominates_entry(t, d),
    ensures
        dominates_entry(merge_seq(t, ext), d),
    decreases ext.len(),
{
    if ext.len() > 0 {
        lemma_merge_entry_preserves_domination(t, ext[0], d);
        lemma_merge_seq_preserves_domination(merge_entry(t, ext[0]), ext.skip(1), d);
    }
}

/// After a merge, the table dominates every entry of the merged snapshot.
pub proof fn lemma_merge_seq_dominates(t: Seq<LogicalClock>, ext: Seq<LogicalClock>)
    ensures
        dominates(merge_seq(t, ext), ext),
    decreases ext.len(),
{
    if ext.len() > 0 {
        let t1 = merge_entry(t, ext[0]);
        lemma_merge_entry_frame(t, ext[0]);
        lemma_merge_seq_dominates(t1, ext.skip(1));
        lemma_merge_seq_preserves_domination(t1, ext.skip(1), ext[0]);
        assert forall|j: int| 0 <= j < ext.len() implies dominates_entry(
            merge_seq(t, ext),
            #[trigger] ext[j],
        ) by {
            if j > 0 {
                assert(ext.skip(1)[j - 1] == ext[j]);
                assert(dominates_entry(merge_seq(t1, ext.skip(1)), ext.skip(1)[j - 1]));
            }
        }
    }
}

/// Folding in an entry that the table already dominates changes nothing.
proof fn lemma_merge_entry_noop(t: Seq<LogicalClock>, e: LogicalClock)
    requires
        unique_ids(t),
        dominates_entry(t, e),
    ensures
        merge_entry(t, e) == t,
{
    let w = choose|w: int| 0 <= w < t.len() && t[w].id == e.id && t[w].count >= e.count;
    lemma_find_clock(t, e.id);
    let i = find_clock(t, e.id);
    assert(i != -1);
    // The dominating witness and the first matching index both carry
    // `e.id`: by uniqueness they are the same entry, whose count already
    // dominates, so the update rewrites the entry with itself.
    assert(i == w || (i < w && t[i].id == t[w].id) || (w < i && t[w].id != e.id));
    assert(i == w);
    assert(LogicalClock { id: e.id, count: max_u32(t[i].count, e.count) } == t[i]);
    assert(t.update(i, t[i]) =~= t);
}

/// Merging a snapshot that the table already dominates changes nothing.
proof fn lemma_merge_seq_noop(t: Seq<LogicalClock>, ext: Seq<LogicalClock>)
    requires
        unique_ids(t),
        dominates(t, ext),
    ensures
        merge_seq(t, ext) == t,
    decreases ext.len(),
{
    if ext.len() > 0 {
        lemma_merge_entry_noop(t, ext[0]);
        assert forall|j: int| 0 <= j < ext.skip(1).len() implies dominates_entry(
            t,
            #[trigger] ext.skip(1)[j],
        ) by {
            assert(ext.skip(1)[j] == ext[j + 1]);
        }
        lemma_merge_seq_noop(t, ext.skip(1));
    }
}

/// Merge idempotence: merging the same snapshot twice leaves the clock
/// table exactly as merging it once does.
pub proof fn lemma_merge_idempotent(t: Seq<LogicalClock>, ext: Seq<LogicalClock>)
    requires
        unique_ids(t),
    ensures
        merge_seq(merge_seq(t, ext), ext) == merge_seq(t, ext),
{
    let m = merge_seq(t, ext);
    lemma_merge_seq_unique(t, ext);
    lemma_merge_seq_dominates(t, ext);
    lemma_merge_seq_noop(m, ext);
}

/// Unrolling a merge from the right: merging `ext.push(e)` is merging
/// `ext`, then folding in `e`.
pub proof fn lemma_merge_seq_snoc(t: Seq<LogicalClock>, ext: Seq<LogicalClock>, e: LogicalClock)
    ensures
        merge_seq(t, ext.push(e)) == merge_entry(merge_seq(t, ext), e),
    decreases ext.len(),
{
    if ext.len() == 0 {
        assert(ext.push(e)[0] == e);
        assert(ext.push(e).skip(1) =~= Seq::<LogicalClock>::empty());
        assert(merge_seq(t, ext.push(e)) == merge_seq(merge_entry(t, e), ext.push(e).skip(1)));
        assert(merge_seq(merge_entry(t, e), ext.push(e).skip(1)) == merge_entry(t, e));
        assert(merge_seq(t, ext) == t);
    } else {
        assert(ext.push(e)[0] == ext[0]);
        assert(ext.push(e).skip(1) =~= ext.skip(1).push(e));
        let t1 = merge_entry(t, ext[0]);
        lemma_merge_seq_snoc(t1, ext.skip(1), e);
        assert(merge_seq(t, ext.push(e)) == merge_seq(t1, ext.skip(1).push(e)));
        assert(merge_seq(t1, ext.skip(1).push(e)) == merge_entry(merge_seq(t1, ext.skip(1)), e));
        assert(merge_seq(t, ext) == merge_seq(t1, ext.skip(1)));
    }
}

} // verus!
