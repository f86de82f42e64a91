//! What holds of a site's history under every sequence of checks.

use crate::uptime::{
    availability_hundredths, begun, completed, count_status, ends_pending, lemma_counts_disjoint,
    percent_hundredths, resolved_count, HistoryEntry, UptimeStatus,
};
use vstd::prelude::*;

verus! {

/// One operation on a history: a check begins, or a check resolves to a sample.
pub enum HistoryStep {
    Begin,
    Complete(HistoryEntry),
}

/// History after one operation.
pub open spec fn step_history(h: Seq<HistoryEntry>, s: HistoryStep, capacity: nat) -> Seq<
    HistoryEntry,
> {
    match s {
        HistoryStep::Begin => begun(h, capacity),
        HistoryStep::Complete(e) => completed(h, e, capacity),
    }
}

/// History after the operations of `steps`, in order.
pub open spec fn replay(h: Seq<HistoryEntry>, steps: Seq<HistoryStep>, capacity: nat) -> Seq<
    HistoryEntry,
>
    decreases steps.len(),
{
    if steps.len() == 0 {
        h
    } else {
        step_history(replay(h, steps.drop_last(), capacity), steps.last(), capacity)
    }
}

/// No sample but the newest is a placeholder.
pub open spec fn pending_only_last(h: Seq<HistoryEntry>) -> bool {
    forall|i: int| 0 <= i < h.len() - 1 ==> (#[trigger] h[i]).status != UptimeStatus::Loading
}

/// No sample is a placeholder.
pub open spec fn settled(h: Seq<HistoryEntry>) -> bool {
    forall|i: int| 0 <= i < h.len() ==> (#[trigger] h[i]).status != UptimeStatus::Loading
}

/// Every sample is a placeholder.
pub open spec fn all_pending(h: Seq<HistoryEntry>) -> bool {
    forall|i: int| 0 <= i < h.len() ==> (#[trigger] h[i]).status == UptimeStatus::Loading
}

/// A check begins only on a history whose newest sample is not a placeholder.
pub open spec fn one_check_at_a_time(
    h: Seq<HistoryEntry>,
    steps: Seq<HistoryStep>,
    capacity: nat,
) -> bool
    decreases steps.len(),
{
    steps.len() == 0 || {
        &&& one_check_at_a_time(h, steps.drop_last(), capacity)
        &&& steps.last() is Begin ==> !ends_pending(replay(h, steps.drop_last(), capacity))
    }
}

/// One operation never takes a history beyond its capacity.
pub proof fn lemma_step_bounded(h: Seq<HistoryEntry>, s: HistoryStep, capacity: nat)
    requires
        h.len() <= capacity,
    ensures
        step_history(h, s, capacity).len() <= capacity,
{
}

/// A history that starts within its capacity stays within it under every
/// sequence of begun and resolved checks.
pub proof fn lemma_replay_bounded(h: Seq<HistoryEntry>, steps: Seq<HistoryStep>, capacity: nat)
    requires
        h.len() <= capacity,
    ensures
        replay(h, steps, capacity).len() <= capacity,
    decreases steps.len(),
{
    if steps.len() > 0 {
        lemma_replay_bounded(h, steps.drop_last(), capacity);
        lemma_step_bounded(replay(h, steps.drop_last(), capacity), steps.last(), capacity);
    }
}

/// A resolved check leaves placeholders only at the newest position, whatever
/// it resolved to.
pub proof fn lemma_completed_keeps_pending_last(
    h: Seq<HistoryEntry>,
    e: HistoryEntry,
    capacity: nat,
)
    requires
        pending_only_last(h),
    ensures
        pending_only_last(completed(h, e, capacity)),
        e.status != UptimeStatus::Loading ==> settled(completed(h, e, capacity)),
{
    let r = completed(h, e, capacity);
    if ends_pending(h) {
        assert forall|i: int| 0 <= i < r.len() - 1 implies (#[trigger] r[i]).status
            != UptimeStatus::Loading by {
            assert(r[i] == h[i]);
        }
    } else {
        assert forall|i: int| 0 <= i < r.len() - 1 implies (#[trigger] r[i]).status
            != UptimeStatus::Loading by {
            if h.len() + 1 > capacity {
                assert(r[i] == h[i + 1]);
            } else {
                assert(r[i] == h[i]);
            }
        }
    }
}

/// A check that begins on a history without a trailing placeholder leaves at
/// most one placeholder, at the newest position.
pub proof fn lemma_begun_keeps_pending_last(h: Seq<HistoryEntry>, capacity: nat)
    requires
        pending_only_last(h),
        !ends_pending(h),
    ensures
        pending_only_last(begun(h, capacity)),
{
    let r = begun(h, capacity);
    assert forall|i: int| 0 <= i < r.len() - 1 implies (#[trigger] r[i]).status
        != UptimeStatus::Loading by {
        if h.len() + 1 > capacity {
            assert(r[i] == h[i + 1]);
        } else {
            assert(r[i] == h[i]);
        }
    }
}

/// Where no check begins while another is in flight, a history never holds a
/// placeholder at any position but the newest.
pub proof fn lemma_replay_keeps_pending_last(
    h: Seq<HistoryEntry>,
    steps: Seq<HistoryStep>,
    capacity: nat,
)
    requires
        pending_only_last(h),
        one_check_at_a_time(h, steps, capacity),
    ensures
        pending_only_last(replay(h, steps, capacity)),
    decreases steps.len(),
{
    if steps.len() > 0 {
        let before = replay(h, steps.drop_last(), capacity);
        lemma_replay_keeps_pending_last(h, steps.drop_last(), capacity);
        match steps.last() {
            HistoryStep::Begin => lemma_begun_keeps_pending_last(before, capacity),
            HistoryStep::Complete(e) => lemma_completed_keeps_pending_last(before, e, capacity),
        }
    }
}

/// A history with placeholders only at the newest position holds at most one.
pub proof fn lemma_pending_only_last_counts(h: Seq<HistoryEntry>)
    requires
        pending_only_last(h),
    ensures
        count_status(h, UptimeStatus::Loading) == if ends_pending(h) {
            1nat
        } else {
            0nat
        },
{
    if h.len() > 0 {
        let front = h.drop_last();
        assert forall|i: int| 0 <= i < front.len() implies (#[trigger] front[i]).status
            != UptimeStatus::Loading by {
            assert(front[i] == h[i]);
        }
        lemma_settled_counts(front);
    }
}

/// A history without placeholders counts none.
pub proof fn lemma_settled_counts(h: Seq<HistoryEntry>)
    requires
        settled(h),
    ensures
        count_status(h, UptimeStatus::Loading) == 0,
    decreases h.len(),
{
    if h.len() > 0 {
        let front = h.drop_last();
        assert forall|i: int| 0 <= i < front.len() implies (#[trigger] front[i]).status
            != UptimeStatus::Loading by {
            assert(front[i] == h[i]);
        }
        lemma_settled_counts(front);
        assert(h.last() == h[h.len() - 1]);
    }
}

/// The availability of a history that holds only placeholders is 0.
pub proof fn lemma_all_pending_availability(h: Seq<HistoryEntry>)
    requires
        all_pending(h),
    ensures
        resolved_count(h) == 0,
        availability_hundredths(h) == 0,
    decreases h.len(),
{
    if h.len() > 0 {
        let front = h.drop_last();
        assert forall|i: int| 0 <= i < front.len() implies (#[trigger] front[i]).status
            == UptimeStatus::Loading by {
            assert(front[i] == h[i]);
        }
        lemma_all_pending_availability(front);
        assert(h.last() == h[h.len() - 1]);
    }
}

/// `h` without its placeholders.
pub open spec fn without_pending(h: Seq<HistoryEntry>) -> Seq<HistoryEntry> {
    h.filter(|e: HistoryEntry| e.status != UptimeStatus::Loading)
}

/// Placeholders count for nothing: a history has the availability of the
/// same history without its placeholders.
pub proof fn lemma_pending_is_left_out(h: Seq<HistoryEntry>)
    ensures
        settled(without_pending(h)),
        without_pending(h).len() == resolved_count(h),
        count_status(without_pending(h), UptimeStatus::Up) == count_status(h, UptimeStatus::Up),
        resolved_count(without_pending(h)) == resolved_count(h),
        availability_hundredths(without_pending(h)) == availability_hundredths(h),
    decreases h.len(),
{
    reveal(Seq::filter);
    let kept = without_pending(h);
    if h.len() > 0 {
        let front = h.drop_last();
        let kept_front = without_pending(front);
        lemma_pending_is_left_out(front);
        lemma_counts_disjoint(front, UptimeStatus::Up, UptimeStatus::Loading);
        if h.last().status != UptimeStatus::Loading {
            assert(kept == kept_front.push(h.last()));
            assert(kept.drop_last() =~= kept_front);
            assert(kept.last() == h.last());
            assert forall|i: int| 0 <= i < kept.len() implies (#[trigger] kept[i]).status
                != UptimeStatus::Loading by {
                if i < kept_front.len() {
                    assert(kept[i] == kept_front[i]);
                }
            }
        } else {
            assert(kept == kept_front);
        }
    }
    lemma_settled_counts(kept);
}

/// A resolved check replaces a trailing placeholder in place: the length and
/// every older sample stay. Without a trailing placeholder the sample is
/// added: the history grows by one, or, at capacity, keeps its length and
/// loses its oldest sample.
pub proof fn lemma_completed_shape(h: Seq<HistoryEntry>, e: HistoryEntry, capacity: nat)
    requires
        h.len() <= capacity,
    ensures
        ends_pending(h) ==> {
            &&& completed(h, e, capacity).len() == h.len()
            &&& completed(h, e, capacity).last() == e
            &&& completed(h, e, capacity).drop_last() == h.drop_last()
        },
        !ends_pending(h) && h.len() < capacity ==> completed(h, e, capacity) == h.push(e),
        !ends_pending(h) && h.len() == capacity && capacity > 0 ==> {
            &&& completed(h, e, capacity).len() == capacity
            &&& completed(h, e, capacity) == h.drop_first().push(e)
        },
{
    let r = completed(h, e, capacity);
    if ends_pending(h) {
        assert(r.drop_last() =~= h.drop_last());
    } else if h.len() == capacity && capacity > 0 {
        assert(r =~= h.drop_first().push(e));
    }
}

/// The availability figure is the exact share rounded to the nearest
/// hundredth of a percent: it differs from `10000 * part / whole` by at most
/// one half.
pub proof fn lemma_percent_nearest(part: nat, whole: nat)
    requires
        whole > 0,
    ensures
        2 * percent_hundredths(part, whole) * whole <= 20000 * part + whole,
        20000 * part + whole < 2 * (percent_hundredths(part, whole) + 1) * whole,
        part <= whole ==> percent_hundredths(part, whole) <= 10000,
        part == 0 ==> percent_hundredths(part, whole) == 0,
        part == whole ==> percent_hundredths(part, whole) == 10000,
{
    let n = (20000 * part + whole) as int;
    let d = (2 * whole) as int;
    let q = n / d;
    assert(q == percent_hundredths(part, whole));
    assert(q * d <= n < (q + 1) * d) by (nonlinear_arith)
        requires
            q == n / d,
            d > 0,
    ;
    assert(2 * q * whole == q * d) by (nonlinear_arith)
        requires
            d == 2 * whole,
    ;
    assert(2 * (q + 1) * whole == (q + 1) * d) by (nonlinear_arith)
        requires
            d == 2 * whole,
    ;
    if part <= whole {
        assert(q <= 10000) by (nonlinear_arith)
            requires
                q * d <= n,
                n == 20000 * part + whole,
                d == 2 * whole,
                part <= whole,
                whole > 0,
        ;
    }
    if part == 0 {
        assert(q == 0) by (nonlinear_arith)
            requires
                q * d <= n,
                n == whole,
                d == 2 * whole,
                whole > 0,
                q >= 0,
        ;
    }
    if part == whole {
        assert(q == 10000) by (nonlinear_arith)
            requires
                q * d <= n < (q + 1) * d,
                n == 20001 * whole,
                d == 2 * whole,
                whole > 0,
        ;
    }
}

} // verus!
