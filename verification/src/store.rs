//! The timeline store: one bounded history per site, found by the site's id.

use crate::uptime::{
    availability_hundredths, begin_history, begun, calculate_uptime_percentage, complete_history,
    completed, ends_pending, history_to_vec, is_loading, snapshot_seq, HistoryEntry, SnapshotView,
    UptimeHistory, UptimeStatus, MAX_HISTORY_ENTRIES,
};
use crate::uptime_proofs::{
    lemma_begun_keeps_pending_last, lemma_completed_keeps_pending_last, pending_only_last,
    settled,
};
use std::collections::VecDeque;
use vstd::prelude::*;

verus! {

/// What a timeline holds, as plain values.
pub struct TimelineView {
    pub site_id: Seq<char>,
    pub history: Seq<HistoryEntry>,
    pub last_status: Option<UptimeStatus>,
}

/// History of one site, with the most recent status that is not `Loading`.
pub struct Timeline {
    site_id: String,
    history: VecDeque<HistoryEntry>,
    last_status: Option<UptimeStatus>,
}

impl View for Timeline {
    type V = TimelineView;

    closed spec fn view(&self) -> TimelineView {
        TimelineView {
            site_id: self.site_id@,
            history: self.history@,
            last_status: self.last_status,
        }
    }
}

/// A timeline for `id` that holds nothing yet.
pub open spec fn fresh_timeline(id: Seq<char>) -> TimelineView {
    TimelineView { site_id: id, history: Seq::empty(), last_status: None }
}

/// Timeline after a check of the site has begun.
pub open spec fn begun_timeline(t: TimelineView, capacity: nat) -> TimelineView {
    TimelineView { history: begun(t.history, capacity), ..t }
}

/// Timeline after a check of the site resolved to `e`. A status other than
/// `Loading` becomes the most recent status.
pub open spec fn completed_timeline(t: TimelineView, e: HistoryEntry, capacity: nat) -> TimelineView {
    TimelineView {
        history: completed(t.history, e, capacity),
        last_status: if e.status != UptimeStatus::Loading {
            Some(e.status)
        } else {
            t.last_status
        },
        ..t
    }
}

/// Whether a timeline for `id` is among `ts`.
pub open spec fn has_site(ts: Seq<TimelineView>, id: Seq<char>) -> bool {
    exists|i: int| 0 <= i < ts.len() && (#[trigger] ts[i]).site_id == id
}

/// The timeline for `id` among `ts`; a fresh one where there is none.
pub open spec fn timeline_of(ts: Seq<TimelineView>, id: Seq<char>) -> TimelineView {
    if has_site(ts, id) {
        ts[choose|i: int| 0 <= i < ts.len() && (#[trigger] ts[i]).site_id == id]
    } else {
        fresh_timeline(id)
    }
}

/// `ts` with a timeline for `id`, added at the end where there was none.
pub open spec fn with_site(ts: Seq<TimelineView>, id: Seq<char>) -> Seq<TimelineView> {
    if has_site(ts, id) {
        ts
    } else {
        ts.push(fresh_timeline(id))
    }
}

/// `ts` after a check of `id` has begun; the timeline is created where the
/// site is new.
pub open spec fn with_check_begun(ts: Seq<TimelineView>, id: Seq<char>, capacity: nat) -> Seq<
    TimelineView,
> {
    let known = with_site(ts, id);
    Seq::new(
        known.len(),
        |i: int|
            if known[i].site_id == id {
                begun_timeline(known[i], capacity)
            } else {
                known[i]
            },
    )
}

/// `ts` after a check of `id` resolved to `e`; the timeline is created where
/// the site is new.
pub open spec fn with_check_completed(
    ts: Seq<TimelineView>,
    id: Seq<char>,
    e: HistoryEntry,
    capacity: nat,
) -> Seq<TimelineView> {
    let known = with_site(ts, id);
    Seq::new(
        known.len(),
        |i: int|
            if known[i].site_id == id {
                completed_timeline(known[i], e, capacity)
            } else {
                known[i]
            },
    )
}

/// Status that a timeline shows: `Loading` while a check is in flight or
/// before the first one resolved, else the most recent resolved status.
pub open spec fn shown_status(t: TimelineView) -> UptimeStatus {
    if ends_pending(t.history) {
        UptimeStatus::Loading
    } else {
        match t.last_status {
            Some(s) => s,
            None => UptimeStatus::Loading,
        }
    }
}

/// Response time of the newest sample, where it has one.
pub open spec fn latest_response_time(h: Seq<HistoryEntry>) -> Option<u64> {
    if h.len() == 0 {
        None
    } else {
        h.last().response_time_ms
    }
}

/// The projection of a timeline at time `now`.
pub open spec fn snapshot_view(t: TimelineView, now: u64) -> SnapshotView {
    SnapshotView {
        site_id: t.site_id,
        status: shown_status(t),
        timestamp: now,
        history: t.history,
        uptime_percentage: availability_hundredths(t.history) as u64,
        response_time_ms: latest_response_time(t.history),
    }
}

/// The projections of all of `ts` at time `now`, in the order of `ts`.
pub open spec fn snapshot_views(ts: Seq<TimelineView>, now: u64) -> Seq<SnapshotView> {
    Seq::new(ts.len(), |i: int| snapshot_view(ts[i], now))
}

/// No two timelines of `ts` carry the same id.
pub open spec fn distinct_sites(ts: Seq<TimelineView>) -> bool {
    forall|i: int, j: int|
        0 <= i < j < ts.len() ==> (#[trigger] ts[i]).site_id != (#[trigger] ts[j]).site_id
}

/// Validity of a set of timelines: no id twice, every history within
/// `capacity`, and no recorded status that is `Loading`.
pub open spec fn timelines_wf(ts: Seq<TimelineView>, capacity: nat) -> bool {
    &&& distinct_sites(ts)
    &&& forall|i: int| 0 <= i < ts.len() ==> (#[trigger] ts[i]).history.len() <= capacity
    &&& forall|i: int|
        0 <= i < ts.len() ==> (#[trigger] ts[i]).last_status != Some(UptimeStatus::Loading)
}

/// Store of the timelines of all sites seen so far, in the order in which they
/// were first seen.
pub struct TimelineStore {
    timelines: Vec<Timeline>,
    capacity: usize,
}

impl TimelineStore {
    /// The timelines held, in the order in which the sites were first seen.
    pub closed spec fn view(&self) -> Seq<TimelineView> {
        Seq::new(self.timelines@.len(), |i: int| self.timelines@[i]@)
    }

    /// Number of samples that each history keeps.
    pub closed spec fn spec_capacity(&self) -> nat {
        self.capacity as nat
    }

    /// Validity of the store.
    pub open spec fn wf(&self) -> bool {
        timelines_wf(self@, self.spec_capacity())
    }

    /// An empty store whose histories keep `MAX_HISTORY_ENTRIES` samples.
    pub fn new() -> (store: TimelineStore)
        ensures
            store.wf(),
            store@ == Seq::<TimelineView>::empty(),
            store.spec_capacity() == MAX_HISTORY_ENTRIES,
    {
        TimelineStore::with_capacity(MAX_HISTORY_ENTRIES)
    }

    /// An empty store whose histories keep `capacity` samples.
    pub fn with_capacity(capacity: usize) -> (store: TimelineStore)
        ensures
            store.wf(),
            store@ == Seq::<TimelineView>::empty(),
            store.spec_capacity() == capacity,
    {
        let store = TimelineStore { timelines: Vec::new(), capacity };
        assert(store@ =~= Seq::<TimelineView>::empty());
        store
    }

    /// Number of samples that each history keeps.
    pub fn capacity(&self) -> (n: usize)
        ensures
            n == self.spec_capacity(),
    {
        self.capacity
    }

    /// Number of sites with a timeline.
    pub fn len(&self) -> (n: usize)
        ensures
            n == self@.len(),
    {
        self.timelines.len()
    }

    /// Position of the timeline of `site_id`, if the store has one.
    fn position(&self, site_id: &String) -> (found: Option<usize>)
        ensures
            match found {
                Some(i) => i < self@.len() && self@[i as int].site_id == site_id@,
                None => !has_site(self@, site_id@),
            },
    {
        let mut i: usize = 0;
        while i < self.timelines.len()
            invariant
                i <= self.timelines@.len(),
                forall|j: int| 0 <= j < i ==> (#[trigger] self@[j]).site_id != site_id@,
            decreases self.timelines@.len() - i,
        {
            if self.timelines[i].site_id == *site_id {
                return Some(i);
            }
            i = i + 1;
        }
        None
    }

    /// Whether the store has a timeline for `site_id`.
    pub fn contains(&self, site_id: &str) -> (known: bool)
        ensures
            known == has_site(self@, site_id@),
    {
        let id = site_id.to_owned();
        self.position(&id).is_some()
    }

    /// Position of the timeline of `site_id`, which is created at the end
    /// where the site is new.
    fn position_or_insert(&mut self, site_id: &String) -> (i: usize)
        requires
            old(self).wf(),
        ensures
            final(self).wf(),
            final(self).spec_capacity() == old(self).spec_capacity(),
            final(self)@ == with_site(old(self)@, site_id@),
            i < final(self)@.len(),
            final(self)@[i as int].site_id == site_id@,
    {
        match self.position(site_id) {
            Some(i) => i,
            None => {
                let i = self.timelines.len();
                self.timelines.push(
                    Timeline {
                        site_id: site_id.clone(),
                        history: VecDeque::new(),
                        last_status: None,
                    },
                );
                assert(self@ =~= old(self)@.push(fresh_timeline(site_id@)));
                i
            },
        }
    }

    /// Makes sure that the store has a timeline for `site_id`, without
    /// recording anything in it.
    pub fn ensure_site(&mut self, site_id: &str)
        requires
            old(self).wf(),
        ensures
            final(self).wf(),
            final(self).spec_capacity() == old(self).spec_capacity(),
            final(self)@ == with_site(old(self)@, site_id@),
    {
        let id = site_id.to_owned();
        let _ = self.position_or_insert(&id);
    }

    /// Records that a check of `site_id` has begun: its history gets a
    /// `Loading` sample, also where it already ends with one.
    pub fn begin_check(&mut self, site_id: &str)
        requires
            old(self).wf(),
        ensures
            final(self).wf(),
            final(self).spec_capacity() == old(self).spec_capacity(),
            final(self)@ == with_check_begun(old(self)@, site_id@, old(self).spec_capacity()),
    {
        let id = site_id.to_owned();
        let i = self.position_or_insert(&id);
        let ghost known = self@;
        let capacity = self.capacity;
        let timeline = &mut self.timelines[i];
        begin_history(&mut timeline.history, capacity);
        assert(self@ =~= with_check_begun(old(self)@, site_id@, old(self).spec_capacity())) by {
            assert forall|j: int| 0 <= j < known.len() implies #[trigger] self@[j] == if known[j].site_id
                == site_id@ {
                begun_timeline(known[j], capacity as nat)
            } else {
                known[j]
            } by {
                if j != i {
                    assert(known[j].site_id != known[i as int].site_id);
                }
            }
        }
    }

    /// Records that a check of `site_id` resolved: a trailing `Loading` sample
    /// of its history is replaced in place, otherwise the sample is added and
    /// the oldest one leaves at capacity.
    pub fn complete_check(
        &mut self,
        site_id: &str,
        status: UptimeStatus,
        response_time_ms: Option<u64>,
    )
        requires
            old(self).wf(),
        ensures
            final(self).wf(),
            final(self).spec_capacity() == old(self).spec_capacity(),
            final(self)@ == with_check_completed(
                old(self)@,
                site_id@,
                (HistoryEntry { status, response_time_ms }),
                old(self).spec_capacity(),
            ),
    {
        let id = site_id.to_owned();
        let i = self.position_or_insert(&id);
        let ghost known = self@;
        let ghost e = HistoryEntry { status, response_time_ms };
        let capacity = self.capacity;
        let timeline = &mut self.timelines[i];
        complete_history(&mut timeline.history, status, response_time_ms, capacity);
        if !is_loading(status) {
            timeline.last_status = Some(status);
        }
        assert(self@ =~= with_check_completed(old(self)@, site_id@, e, old(self).spec_capacity()))
            by {
            assert forall|j: int| 0 <= j < known.len() implies #[trigger] self@[j] == if known[j].site_id
                == site_id@ {
                completed_timeline(known[j], e, capacity as nat)
            } else {
                known[j]
            } by {
                if j != i {
                    assert(known[j].site_id != known[i as int].site_id);
                }
            }
        }
    }

    /// The projection of the timeline at position `i`, stamped with `now`.
    fn snapshot_at(&self, i: usize, now: u64) -> (snapshot: UptimeHistory)
        requires
            i < self@.len(),
        ensures
            snapshot@ == snapshot_view(self@[i as int], now),
    {
        let timeline = &self.timelines[i];
        let n = timeline.history.len();
        let pending = n > 0 && is_loading(timeline.history[n - 1].status);
        let status = if pending {
            UptimeStatus::Loading
        } else {
            match timeline.last_status {
                Some(s) => s,
                None => UptimeStatus::Loading,
            }
        };
        let response_time_ms = if n == 0 {
            None
        } else {
            timeline.history[n - 1].response_time_ms
        };
        UptimeHistory {
            site_id: timeline.site_id.clone(),
            status,
            timestamp: now,
            history: history_to_vec(&timeline.history),
            uptime_percentage: calculate_uptime_percentage(&timeline.history),
            response_time_ms,
        }
    }

    /// The projection of the state of `site_id` at time `now`; `None` where
    /// the store has no timeline for it.
    pub fn snapshot(&self, site_id: &str, now: u64) -> (snapshot: Option<UptimeHistory>)
        requires
            self.wf(),
        ensures
            snapshot is Some <==> has_site(self@, site_id@),
            snapshot matches Some(s) ==> s@ == snapshot_view(timeline_of(self@, site_id@), now),
    {
        let id = site_id.to_owned();
        match self.position(&id) {
            Some(i) => {
                proof {
                    lemma_timeline_of(self@, i as int);
                }
                Some(self.snapshot_at(i, now))
            },
            None => None,
        }
    }

    /// The projections of all sites at time `now`, in the order in which the
    /// sites were first seen.
    pub fn snapshot_all(&self, now: u64) -> (snapshots: Vec<UptimeHistory>)
        ensures
            snapshot_seq(snapshots@) == snapshot_views(self@, now),
    {
        let mut snapshots: Vec<UptimeHistory> = Vec::new();
        let mut i: usize = 0;
        while i < self.timelines.len()
            invariant
                i <= self.timelines@.len(),
                snapshots@.len() == i,
                forall|j: int| 0 <= j < i ==> (#[trigger] snapshots@[j])@ == snapshot_view(self@[j], now),
            decreases self.timelines@.len() - i,
        {
            let snapshot = self.snapshot_at(i, now);
            snapshots.push(snapshot);
            i = i + 1;
        }
        assert(snapshot_seq(snapshots@) =~= snapshot_views(self@, now));
        snapshots
    }

    /// The samples of `site_id`, oldest first; empty where the store has no
    /// timeline for it.
    pub fn history_of(&self, site_id: &str) -> (samples: Vec<HistoryEntry>)
        requires
            self.wf(),
        ensures
            samples@ == timeline_of(self@, site_id@).history,
    {
        let id = site_id.to_owned();
        match self.position(&id) {
            Some(i) => {
                proof {
                    lemma_timeline_of(self@, i as int);
                }
                history_to_vec(&self.timelines[i].history)
            },
            None => Vec::new(),
        }
    }
}

/// In a valid set of timelines the timeline of an id is the one that carries
/// the id.
pub proof fn lemma_timeline_of(ts: Seq<TimelineView>, i: int)
    requires
        distinct_sites(ts),
        0 <= i < ts.len(),
    ensures
        has_site(ts, ts[i].site_id),
        timeline_of(ts, ts[i].site_id) == ts[i],
{
    let id = ts[i].site_id;
    let k = choose|k: int| 0 <= k < ts.len() && (#[trigger] ts[k]).site_id == id;
    if k < i {
        assert(ts[k].site_id != ts[i].site_id);
    } else if i < k {
        assert(ts[i].site_id != ts[k].site_id);
    }
}

/// `ts` with the timeline of `id` replaced by what `change` makes of it; the
/// timeline is created where the site is new.
pub open spec fn changed_at(
    ts: Seq<TimelineView>,
    id: Seq<char>,
    change: spec_fn(TimelineView) -> TimelineView,
) -> Seq<TimelineView> {
    let known = with_site(ts, id);
    Seq::new(
        known.len(),
        |i: int|
            if known[i].site_id == id {
                change(known[i])
            } else {
                known[i]
            },
    )
}

/// A change to the timeline of one site reaches that timeline and leaves the
/// timeline of every other site as it was.
pub proof fn lemma_changed_at(
    ts: Seq<TimelineView>,
    id: Seq<char>,
    change: spec_fn(TimelineView) -> TimelineView,
    other: Seq<char>,
)
    requires
        distinct_sites(ts),
        forall|t: TimelineView| (#[trigger] change(t)).site_id == t.site_id,
    ensures
        distinct_sites(changed_at(ts, id, change)),
        has_site(changed_at(ts, id, change), id),
        timeline_of(changed_at(ts, id, change), id) == change(timeline_of(ts, id)),
        other != id ==> has_site(changed_at(ts, id, change), other) == has_site(ts, other),
        other != id ==> timeline_of(changed_at(ts, id, change), other) == timeline_of(ts, other),
{
    let known = with_site(ts, id);
    let r = changed_at(ts, id, change);
    assert forall|i: int| 0 <= i < r.len() implies (#[trigger] r[i]).site_id == known[i].site_id by {}
    // the site has exactly one position among the known timelines
    let p = if has_site(ts, id) {
        choose|i: int| 0 <= i < ts.len() && (#[trigger] ts[i]).site_id == id
    } else {
        ts.len() as int
    };
    assert(0 <= p < known.len() && known[p].site_id == id);
    assert(distinct_sites(known)) by {
        assert forall|i: int, j: int| 0 <= i < j < known.len() implies (#[trigger] known[i]).site_id
            != (#[trigger] known[j]).site_id by {
            if j < ts.len() {
                assert(ts[i].site_id != ts[j].site_id);
            } else {
                assert(known[i] == ts[i]);
            }
        }
    }
    assert(distinct_sites(r)) by {
        assert forall|i: int, j: int| 0 <= i < j < r.len() implies (#[trigger] r[i]).site_id != (
        #[trigger] r[j]).site_id by {
            assert(known[i].site_id != known[j].site_id);
        }
    }
    assert(r[p].site_id == id);
    lemma_timeline_of(r, p);
    assert(known[p] == timeline_of(ts, id)) by {
        if has_site(ts, id) {
            lemma_timeline_of(ts, p);
        }
    }
    if other != id {
        if has_site(ts, other) {
            let c = choose|i: int| 0 <= i < ts.len() && (#[trigger] ts[i]).site_id == other;
            assert(known[c] == ts[c]);
            assert(r[c] == ts[c]);
            lemma_timeline_of(ts, c);
            lemma_timeline_of(r, c);
        } else {
            assert forall|i: int| 0 <= i < r.len() implies (#[trigger] r[i]).site_id != other by {
                if i < ts.len() {
                    assert(known[i] == ts[i]);
                }
            }
        }
    }
}

/// A begun check reaches the timeline of its site and no other.
pub proof fn lemma_check_begun(ts: Seq<TimelineView>, id: Seq<char>, capacity: nat, other: Seq<char>)
    requires
        timelines_wf(ts, capacity),
    ensures
        timelines_wf(with_check_begun(ts, id, capacity), capacity),
        has_site(with_check_begun(ts, id, capacity), id),
        timeline_of(with_check_begun(ts, id, capacity), id) == begun_timeline(
            timeline_of(ts, id),
            capacity,
        ),
        other != id ==> has_site(with_check_begun(ts, id, capacity), other) == has_site(ts, other),
        other != id ==> timeline_of(with_check_begun(ts, id, capacity), other) == timeline_of(
            ts,
            other,
        ),
{
    let change = |t: TimelineView| begun_timeline(t, capacity);
    let r = with_check_begun(ts, id, capacity);
    assert(r =~= changed_at(ts, id, change));
    lemma_changed_at(ts, id, change, other);
    let known = with_site(ts, id);
    assert forall|i: int| 0 <= i < r.len() implies (#[trigger] r[i]).history.len() <= capacity && r[i].last_status
        != Some(UptimeStatus::Loading) by {
        if i < ts.len() {
            assert(known[i] == ts[i]);
        }
    }
}

/// A resolved check reaches the timeline of its site and no other.
pub proof fn lemma_check_completed(
    ts: Seq<TimelineView>,
    id: Seq<char>,
    e: HistoryEntry,
    capacity: nat,
    other: Seq<char>,
)
    requires
        timelines_wf(ts, capacity),
    ensures
        timelines_wf(with_check_completed(ts, id, e, capacity), capacity),
        has_site(with_check_completed(ts, id, e, capacity), id),
        timeline_of(with_check_completed(ts, id, e, capacity), id) == completed_timeline(
            timeline_of(ts, id),
            e,
            capacity,
        ),
        other != id ==> has_site(with_check_completed(ts, id, e, capacity), other) == has_site(
            ts,
            other,
        ),
        other != id ==> timeline_of(with_check_completed(ts, id, e, capacity), other)
            == timeline_of(ts, other),
{
    let change = |t: TimelineView| completed_timeline(t, e, capacity);
    let r = with_check_completed(ts, id, e, capacity);
    assert(r =~= changed_at(ts, id, change));
    lemma_changed_at(ts, id, change, other);
    let known = with_site(ts, id);
    assert forall|i: int| 0 <= i < r.len() implies (#[trigger] r[i]).history.len() <= capacity && r[i].last_status
        != Some(UptimeStatus::Loading) by {
        if i < ts.len() {
            assert(known[i] == ts[i]);
        }
    }
}

/// No timeline holds a placeholder at any position but the newest.
pub open spec fn one_pending_each(ts: Seq<TimelineView>) -> bool {
    forall|i: int| 0 <= i < ts.len() ==> pending_only_last((#[trigger] ts[i]).history)
}

/// No timeline holds a placeholder.
pub open spec fn all_settled(ts: Seq<TimelineView>) -> bool {
    forall|i: int| 0 <= i < ts.len() ==> settled((#[trigger] ts[i]).history)
}

/// A resolved check leaves every timeline with placeholders at the newest
/// position only, and where it resolved to `Up` or `Down` its own timeline
/// with none.
pub proof fn lemma_completed_keeps_one_pending(
    ts: Seq<TimelineView>,
    id: Seq<char>,
    e: HistoryEntry,
    capacity: nat,
)
    requires
        timelines_wf(ts, capacity),
        one_pending_each(ts),
    ensures
        one_pending_each(with_check_completed(ts, id, e, capacity)),
        e.status != UptimeStatus::Loading ==> settled(
            timeline_of(with_check_completed(ts, id, e, capacity), id).history,
        ),
{
    let known = with_site(ts, id);
    let r = with_check_completed(ts, id, e, capacity);
    assert forall|i: int| 0 <= i < known.len() implies pending_only_last(
        (#[trigger] known[i]).history,
    ) by {
        if i < ts.len() {
            assert(known[i] == ts[i]);
        }
    }
    assert forall|i: int| 0 <= i < r.len() implies pending_only_last((#[trigger] r[i]).history) by {
        assert(pending_only_last(known[i].history));
        lemma_completed_keeps_pending_last(known[i].history, e, capacity);
    }
    lemma_check_completed(ts, id, e, capacity, id);
    let t = timeline_of(ts, id);
    assert(pending_only_last(t.history)) by {
        if has_site(ts, id) {
            let c = choose|i: int| 0 <= i < ts.len() && (#[trigger] ts[i]).site_id == id;
            assert(pending_only_last(ts[c].history));
        }
    }
    lemma_completed_keeps_pending_last(t.history, e, capacity);
}

/// A check that begins for a site whose timeline does not end with a
/// placeholder leaves every timeline with placeholders at the newest
/// position only.
pub proof fn lemma_begun_keeps_one_pending(ts: Seq<TimelineView>, id: Seq<char>, capacity: nat)
    requires
        timelines_wf(ts, capacity),
        one_pending_each(ts),
        !ends_pending(timeline_of(ts, id).history),
    ensures
        one_pending_each(with_check_begun(ts, id, capacity)),
{
    let known = with_site(ts, id);
    let r = with_check_begun(ts, id, capacity);
    assert forall|i: int| 0 <= i < r.len() implies pending_only_last((#[trigger] r[i]).history) by {
        if i < ts.len() {
            assert(known[i] == ts[i]);
            assert(pending_only_last(ts[i].history));
            if known[i].site_id == id {
                lemma_timeline_of(ts, i);
                lemma_begun_keeps_pending_last(ts[i].history, capacity);
            }
        } else {
            assert(known[i] == fresh_timeline(id));
            lemma_begun_keeps_pending_last(Seq::<HistoryEntry>::empty(), capacity);
        }
    }
}

} // verus!
