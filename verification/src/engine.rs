//! The engine: the tick cycle of the scheduler over the timeline store and
//! the update bus.
//!
//! The engine decides; its caller does the waiting. The caller fires a tick,
//! runs the probes that the engine hands out, and reports each result back.

use crate::bus::{
    announced, delivered, emptied, event_seq, has_subscriber, mailbox_of, subscribers_wf, without,
    BusEvent, EventView, SubscriberView, UpdateBus,
};
use crate::config::{site_seq, Config, Site, SiteView};
use crate::scheduler::{
    dispatched, distinct_probes, find_probe, first_probe, halted, handed_out, has_probe,
    lemma_batch_drains, lemma_has_first_probe, may_tick, next_probe, outstanding, probe_seq,
    released, scheduler_wf, stop_requested, Phase, ProbeRequest, ProbeView, Scheduler,
    SchedulerView, DEFAULT_CONCURRENT_PROBES,
};
use crate::store::{
    all_settled, begun_timeline, has_site, lemma_begun_keeps_one_pending, lemma_check_begun,
    lemma_check_completed, lemma_completed_keeps_one_pending, lemma_timeline_of,
    one_pending_each, snapshot_view, snapshot_views, timeline_of, timelines_wf, with_check_begun,
    with_check_completed, with_site, TimelineStore, TimelineView,
};
use crate::uptime::{
    count_status, ends_pending, is_loading, snapshot_seq, HistoryEntry, SnapshotView,
    UptimeHistory, UptimeStatus, MAX_HISTORY_ENTRIES,
};
use crate::uptime_proofs::{lemma_pending_only_last_counts, pending_only_last, settled};
use vstd::prelude::*;

verus! {

/// Number of events a subscriber's mailbox holds by default before it drops
/// updates.
pub const DEFAULT_MAILBOX_LIMIT: usize = 1024;

/// The probes of a tick: one for each site that is not disabled, in the
/// order of the configuration. Of several entries with one name the first
/// that is not disabled counts.
pub open spec fn planned_probes(sites: Seq<SiteView>) -> Seq<ProbeView>
    decreases sites.len(),
{
    if sites.len() == 0 {
        Seq::empty()
    } else if sites.last().disabled || has_probe(
        planned_probes(sites.drop_last()),
        sites.last().name,
    ) {
        planned_probes(sites.drop_last())
    } else {
        planned_probes(sites.drop_last()).push(
            ProbeView { site_id: sites.last().name, url: sites.last().url },
        )
    }
}

/// The timelines after a check has begun for each of `probes`, in order.
pub open spec fn begin_all(ts: Seq<TimelineView>, probes: Seq<ProbeView>, capacity: nat) -> Seq<
    TimelineView,
>
    decreases probes.len(),
{
    if probes.len() == 0 {
        ts
    } else {
        with_check_begun(
            begin_all(ts, probes.drop_last(), capacity),
            probes.last().site_id,
            capacity,
        )
    }
}

/// The timelines after each site of `probes` got a timeline, in order, where
/// it had none.
pub open spec fn track_all(ts: Seq<TimelineView>, probes: Seq<ProbeView>) -> Seq<TimelineView>
    decreases probes.len(),
{
    if probes.len() == 0 {
        ts
    } else {
        with_site(track_all(ts, probes.drop_last()), probes.last().site_id)
    }
}

/// The snapshots of the sites of `probes`, in order, taken from `ts`.
pub open spec fn batch_views(ts: Seq<TimelineView>, probes: Seq<ProbeView>, now: u64) -> Seq<
    SnapshotView,
> {
    Seq::new(probes.len(), |i: int| snapshot_view(timeline_of(ts, probes[i].site_id), now))
}

/// Beginning the checks of a tick keeps the timelines valid and leaves a
/// timeline for every site of the tick.
pub proof fn lemma_begin_all(ts: Seq<TimelineView>, probes: Seq<ProbeView>, capacity: nat)
    requires
        timelines_wf(ts, capacity),
    ensures
        timelines_wf(begin_all(ts, probes, capacity), capacity),
        forall|i: int|
            0 <= i < probes.len() ==> has_site(
                begin_all(ts, probes, capacity),
                (#[trigger] probes[i]).site_id,
            ),
    decreases probes.len(),
{
    if probes.len() > 0 {
        let front = probes.drop_last();
        let before = begin_all(ts, front, capacity);
        let id = probes.last().site_id;
        lemma_begin_all(ts, front, capacity);
        assert forall|i: int| 0 <= i < probes.len() implies has_site(
            begin_all(ts, probes, capacity),
            (#[trigger] probes[i]).site_id,
        ) by {
            lemma_check_begun(before, id, capacity, probes[i].site_id);
            if i < front.len() {
                assert(front[i] == probes[i]);
            }
        }
        lemma_check_begun(before, id, capacity, id);
    }
}

/// A tick leaves alone every site that it has no probe for: a disabled site,
/// or one that the configuration does not name.
pub proof fn lemma_begin_all_skips(
    ts: Seq<TimelineView>,
    probes: Seq<ProbeView>,
    capacity: nat,
    id: Seq<char>,
)
    requires
        timelines_wf(ts, capacity),
        forall|i: int| 0 <= i < probes.len() ==> (#[trigger] probes[i]).site_id != id,
    ensures
        has_site(begin_all(ts, probes, capacity), id) == has_site(ts, id),
        timeline_of(begin_all(ts, probes, capacity), id) == timeline_of(ts, id),
    decreases probes.len(),
{
    if probes.len() > 0 {
        let front = probes.drop_last();
        assert forall|i: int| 0 <= i < front.len() implies (#[trigger] front[i]).site_id != id by {
            assert(front[i] == probes[i]);
        }
        lemma_begin_all_skips(ts, front, capacity, id);
        lemma_begin_all(ts, front, capacity);
        assert(probes.last() == probes[probes.len() - 1]);
        lemma_check_begun(begin_all(ts, front, capacity), probes.last().site_id, capacity, id);
    }
}

/// A tick begins exactly one check for a site that it has exactly one probe
/// for: the site's timeline gets one placeholder.
pub proof fn lemma_begin_all_reaches(
    ts: Seq<TimelineView>,
    probes: Seq<ProbeView>,
    capacity: nat,
    k: int,
)
    requires
        timelines_wf(ts, capacity),
        0 <= k < probes.len(),
        forall|j: int| 0 <= j < probes.len() && j != k ==> (#[trigger] probes[j]).site_id
            != probes[k].site_id,
    ensures
        timeline_of(begin_all(ts, probes, capacity), probes[k].site_id) == begun_timeline(
            timeline_of(ts, probes[k].site_id),
            capacity,
        ),
    decreases probes.len(),
{
    let id = probes[k].site_id;
    let front = probes.drop_last();
    let before = begin_all(ts, front, capacity);
    lemma_begin_all(ts, front, capacity);
    assert(probes.last() == probes[probes.len() - 1]);
    if k == probes.len() - 1 {
        assert forall|j: int| 0 <= j < front.len() implies (#[trigger] front[j]).site_id != id by {
            assert(front[j] == probes[j]);
        }
        lemma_begin_all_skips(ts, front, capacity, id);
        lemma_check_begun(before, id, capacity, id);
    } else {
        assert(front[k] == probes[k]);
        assert forall|j: int| 0 <= j < front.len() && j != k implies (#[trigger] front[j]).site_id
            != front[k].site_id by {
            assert(front[j] == probes[j]);
        }
        lemma_begin_all_reaches(ts, front, capacity, k);
        lemma_check_begun(before, probes.last().site_id, capacity, id);
    }
}

/// Where no check is in flight and the tick plans no site twice, the tick
/// leaves every timeline with at most one placeholder, at its newest
/// position.
pub proof fn lemma_tick_keeps_one_pending(
    ts: Seq<TimelineView>,
    probes: Seq<ProbeView>,
    capacity: nat,
)
    requires
        timelines_wf(ts, capacity),
        all_settled(ts),
        forall|i: int, j: int|
            0 <= i < j < probes.len() ==> (#[trigger] probes[i]).site_id != (
            #[trigger] probes[j]).site_id,
    ensures
        one_pending_each(begin_all(ts, probes, capacity)),
    decreases probes.len(),
{
    if probes.len() == 0 {
        assert forall|i: int| 0 <= i < ts.len() implies pending_only_last(
            (#[trigger] ts[i]).history,
        ) by {
            assert(settled(ts[i].history));
        }
    } else {
        let front = probes.drop_last();
        let before = begin_all(ts, front, capacity);
        let id = probes.last().site_id;
        assert forall|i: int, j: int| 0 <= i < j < front.len() implies (#[trigger] front[i]).site_id
            != (#[trigger] front[j]).site_id by {
            assert(front[i] == probes[i]);
            assert(front[j] == probes[j]);
        }
        lemma_tick_keeps_one_pending(ts, front, capacity);
        lemma_begin_all(ts, front, capacity);
        // the tick has not touched the timeline of its last site yet
        assert forall|i: int| 0 <= i < front.len() implies (#[trigger] front[i]).site_id != id by {
            assert(front[i] == probes[i]);
            assert(probes.last() == probes[probes.len() - 1]);
        }
        lemma_begin_all_skips(ts, front, capacity, id);
        assert(!ends_pending(timeline_of(ts, id).history)) by {
            if has_site(ts, id) {
                let c = choose|i: int| 0 <= i < ts.len() && (#[trigger] ts[i]).site_id == id;
                assert(settled(ts[c].history));
                if ts[c].history.len() > 0 {
                    assert(ts[c].history.last() == ts[c].history[ts[c].history.len() - 1]);
                }
            }
        }
        lemma_begun_keeps_one_pending(before, id, capacity);
    }
}

/// A site that every entry of the configuration disables, or that none
/// names, sees nothing of a tick: no probe is planned for it, its timeline
/// stays as it was, and the tick's update carries no snapshot of it.
pub proof fn lemma_disabled_site_untouched(
    sites: Seq<SiteView>,
    ts: Seq<TimelineView>,
    capacity: nat,
    id: Seq<char>,
    now: u64,
)
    requires
        timelines_wf(ts, capacity),
        forall|j: int| 0 <= j < sites.len() && (#[trigger] sites[j]).name == id ==> sites[j].disabled,
    ensures
        forall|i: int|
            0 <= i < planned_probes(sites).len() ==> (#[trigger] planned_probes(sites)[i]).site_id
                != id,
        has_site(begin_all(ts, planned_probes(sites), capacity), id) == has_site(ts, id),
        timeline_of(begin_all(ts, planned_probes(sites), capacity), id) == timeline_of(ts, id),
        forall|i: int|
            0 <= i < planned_probes(sites).len() ==> (#[trigger] batch_views(
                begin_all(ts, planned_probes(sites), capacity),
                planned_probes(sites),
                now,
            )[i]).site_id != id,
{
    let probes = planned_probes(sites);
    let after = begin_all(ts, probes, capacity);
    lemma_planned_probes(sites);
    assert forall|i: int| 0 <= i < probes.len() implies (#[trigger] probes[i]).site_id != id by {
        let j = choose|j: int|
            0 <= j < sites.len() && !(#[trigger] sites[j]).disabled && sites[j].name
                == probes[i].site_id;
        assert(!sites[j].disabled);
    }
    lemma_begin_all_skips(ts, probes, capacity, id);
    assert forall|i: int| 0 <= i < probes.len() implies (#[trigger] batch_views(
        after,
        probes,
        now,
    )[i]).site_id != id by {
        lemma_timeline_of_id(after, probes[i].site_id);
        assert(probes[i].site_id != id);
    }
}

/// The timeline of an id carries that id.
pub proof fn lemma_timeline_of_id(ts: Seq<TimelineView>, id: Seq<char>)
    ensures
        timeline_of(ts, id).site_id == id,
{
}

/// Every probe of a tick belongs to a site of the configuration that is not
/// disabled, every such site has a probe, and no site has two.
pub proof fn lemma_planned_probes(sites: Seq<SiteView>)
    ensures
        planned_probes(sites).len() <= sites.len(),
        distinct_probes(planned_probes(sites)),
        forall|i: int|
            0 <= i < planned_probes(sites).len() ==> exists|j: int|
                0 <= j < sites.len() && !(#[trigger] sites[j]).disabled && sites[j].name == (
                #[trigger] planned_probes(sites)[i]).site_id,
        forall|j: int|
            0 <= j < sites.len() && !(#[trigger] sites[j]).disabled ==> has_probe(
                planned_probes(sites),
                sites[j].name,
            ),
    decreases sites.len(),
{
    if sites.len() > 0 {
        let front = sites.drop_last();
        lemma_planned_probes(front);
        let before = planned_probes(front);
        let probes = planned_probes(sites);
        let last = sites.last();
        assert(last == sites[sites.len() - 1]);
        assert forall|i: int| 0 <= i < probes.len() implies exists|j: int|
            0 <= j < sites.len() && !(#[trigger] sites[j]).disabled && sites[j].name == (
            #[trigger] probes[i]).site_id by {
            if i < before.len() {
                assert(probes[i] == before[i]);
                let j = choose|j: int|
                    0 <= j < front.len() && !(#[trigger] front[j]).disabled && front[j].name
                        == before[i].site_id;
                assert(sites[j] == front[j]);
            } else {
                assert(!sites[sites.len() - 1].disabled);
            }
        }
        assert forall|j: int| 0 <= j < sites.len() && !(#[trigger] sites[j]).disabled implies has_probe(
            probes,
            sites[j].name,
        ) by {
            if j < front.len() {
                assert(front[j] == sites[j]);
                let k = choose|k: int|
                    0 <= k < before.len() && (#[trigger] before[k]).site_id == front[j].name;
                assert(probes[k] == before[k]);
            } else if has_probe(before, last.name) {
                let k = choose|k: int|
                    0 <= k < before.len() && (#[trigger] before[k]).site_id == last.name;
                assert(probes[k] == before[k]);
            } else {
                assert(probes[probes.len() - 1].site_id == last.name);
            }
        }
        assert forall|i: int, j: int| 0 <= i < j < probes.len() implies (#[trigger] probes[i]).site_id
            != (#[trigger] probes[j]).site_id by {
            if j < before.len() {
                assert(probes[i] == before[i]);
                assert(probes[j] == before[j]);
            } else {
                assert(probes[i] == before[i]);
            }
        }
    }
}

/// Marks every enabled site as pending: begins a check for each planned
/// probe and gives the probes of the tick, in the order of `sites`.
pub fn mark_all_pending(history: &mut TimelineStore, sites: &Vec<Site>) -> (probes: Vec<
    ProbeRequest,
>)
    requires
        old(history).wf(),
    ensures
        final(history).wf(),
        final(history).spec_capacity() == old(history).spec_capacity(),
        probe_seq(probes@) == planned_probes(site_seq(sites@)),
        final(history)@ == begin_all(
            old(history)@,
            planned_probes(site_seq(sites@)),
            old(history).spec_capacity(),
        ),
{
    let mut probes: Vec<ProbeRequest> = Vec::new();
    let ghost all = site_seq(sites@);
    let ghost capacity = history.spec_capacity();
    let mut i: usize = 0;
    assert(all.subrange(0, 0) =~= Seq::<SiteView>::empty());
    assert(probe_seq(probes@) =~= Seq::<ProbeView>::empty());
    while i < sites.len()
        invariant
            i <= sites@.len(),
            all == site_seq(sites@),
            history.wf(),
            history.spec_capacity() == capacity,
            probe_seq(probes@) == planned_probes(all.subrange(0, i as int)),
            history@ == begin_all(old(history)@, planned_probes(all.subrange(0, i as int)), capacity),
        decreases sites@.len() - i,
    {
        let site = &sites[i];
        proof {
            let next = all.subrange(0, i as int + 1);
            assert(next.drop_last() =~= all.subrange(0, i as int));
            assert(next.last() == site@);
        }
        if !site.disabled && find_probe(&probes, site.name.as_str()).is_none() {
            let ghost before = probe_seq(probes@);
            history.begin_check(site.name.as_str());
            probes.push(ProbeRequest { site_id: site.name.clone(), url: site.url.clone() });
            proof {
                let probe = ProbeView { site_id: site@.name, url: site@.url };
                assert(probe_seq(probes@) =~= before.push(probe));
                assert(before.push(probe).drop_last() =~= before);
            }
        }
        i = i + 1;
    }
    assert(all.subrange(0, i as int) =~= all);
    probes
}

/// Makes sure that every enabled site has a timeline, without recording
/// anything: a site that is new gets an empty timeline, in the order of
/// `sites`.
pub fn track_sites(history: &mut TimelineStore, sites: &Vec<Site>)
    requires
        old(history).wf(),
    ensures
        final(history).wf(),
        final(history).spec_capacity() == old(history).spec_capacity(),
        final(history)@ == track_all(old(history)@, planned_probes(site_seq(sites@))),
{
    let mut seen: Vec<ProbeRequest> = Vec::new();
    let ghost all = site_seq(sites@);
    let ghost capacity = history.spec_capacity();
    let mut i: usize = 0;
    assert(all.subrange(0, 0) =~= Seq::<SiteView>::empty());
    assert(probe_seq(seen@) =~= Seq::<ProbeView>::empty());
    while i < sites.len()
        invariant
            i <= sites@.len(),
            all == site_seq(sites@),
            history.wf(),
            history.spec_capacity() == capacity,
            probe_seq(seen@) == planned_probes(all.subrange(0, i as int)),
            history@ == track_all(old(history)@, planned_probes(all.subrange(0, i as int))),
        decreases sites@.len() - i,
    {
        let site = &sites[i];
        proof {
            let next = all.subrange(0, i as int + 1);
            assert(next.drop_last() =~= all.subrange(0, i as int));
            assert(next.last() == site@);
        }
        if !site.disabled && find_probe(&seen, site.name.as_str()).is_none() {
            let ghost before = probe_seq(seen@);
            history.ensure_site(site.name.as_str());
            seen.push(ProbeRequest { site_id: site.name.clone(), url: site.url.clone() });
            proof {
                let probe = ProbeView { site_id: site@.name, url: site@.url };
                assert(probe_seq(seen@) =~= before.push(probe));
                assert(before.push(probe).drop_last() =~= before);
            }
        }
        i = i + 1;
    }
    assert(all.subrange(0, i as int) =~= all);
}

/// The snapshots of the sites of `probes` at time `now`, in order.
fn batch_snapshot(history: &TimelineStore, probes: &Vec<ProbeRequest>, now: u64) -> (batch: Vec<
    UptimeHistory,
>)
    requires
        history.wf(),
        forall|i: int| 0 <= i < probes@.len() ==> has_site(history@, (#[trigger] probes@[i]).site_id@),
    ensures
        snapshot_seq(batch@) == batch_views(history@, probe_seq(probes@), now),
{
    let mut batch: Vec<UptimeHistory> = Vec::new();
    let mut i: usize = 0;
    while i < probes.len()
        invariant
            i <= probes@.len(),
            history.wf(),
            forall|i: int|
                0 <= i < probes@.len() ==> has_site(history@, (#[trigger] probes@[i]).site_id@),
            batch@.len() == i,
            forall|j: int|
                0 <= j < i ==> (#[trigger] batch@[j])@ == snapshot_view(
                    timeline_of(history@, probes@[j].site_id@),
                    now,
                ),
        decreases probes@.len() - i,
    {
        assert(has_site(history@, probes@[i as int].site_id@));
        match history.snapshot(probes[i].site_id.as_str(), now) {
            Some(snapshot) => {
                batch.push(snapshot);
            },
            None => {
                assert(false);
            },
        }
        i = i + 1;
    }
    assert(snapshot_seq(batch@) =~= batch_views(history@, probe_seq(probes@), now));
    batch
}

/// The checks in flight and the placeholders agree: no site has two probes
/// outstanding, no timeline holds a placeholder at any position but the
/// newest, and a timeline ends with a placeholder only while a probe of its
/// site is outstanding.
pub open spec fn checks_tracked(ts: Seq<TimelineView>, s: SchedulerView) -> bool {
    &&& distinct_probes(outstanding(s))
    &&& one_pending_each(ts)
    &&& forall|i: int|
        0 <= i < ts.len() && ends_pending((#[trigger] ts[i]).history) ==> has_probe(
            outstanding(s),
            ts[i].site_id,
        )
}

/// A tick keeps the checks in flight and the placeholders in agreement.
pub proof fn lemma_tick_tracks(
    ts: Seq<TimelineView>,
    s: SchedulerView,
    planned: Seq<ProbeView>,
    capacity: nat,
)
    requires
        timelines_wf(ts, capacity),
        scheduler_wf(s),
        checks_tracked(ts, s),
        may_tick(s),
        distinct_probes(planned),
    ensures
        checks_tracked(begin_all(ts, planned, capacity), dispatched(s, planned)),
{
    let after = begin_all(ts, planned, capacity);
    let next = dispatched(s, planned);
    assert(outstanding(s).len() == 0);
    assert(all_settled(ts)) by {
        assert forall|i: int| 0 <= i < ts.len() implies settled((#[trigger] ts[i]).history) by {
            let h = ts[i].history;
            assert(pending_only_last(h));
            if ends_pending(h) {
                assert(has_probe(outstanding(s), ts[i].site_id));
            }
            assert forall|k: int| 0 <= k < h.len() implies (#[trigger] h[k]).status
                != UptimeStatus::Loading by {
                if k == h.len() - 1 {
                    assert(h.last() == h[k]);
                }
            }
        }
    }
    lemma_tick_keeps_one_pending(ts, planned, capacity);
    lemma_begin_all(ts, planned, capacity);
    assert(outstanding(next) =~= planned);
    assert forall|i: int| 0 <= i < after.len() && ends_pending(
        (#[trigger] after[i]).history,
    ) implies has_probe(outstanding(next), after[i].site_id) by {
        let id = after[i].site_id;
        if !has_probe(planned, id) {
            lemma_begin_all_skips(ts, planned, capacity, id);
            lemma_timeline_of(after, i);
            assert(has_site(ts, id));
            let c = choose|c: int| 0 <= c < ts.len() && (#[trigger] ts[c]).site_id == id;
            assert(settled(ts[c].history));
            let h = ts[c].history;
            assert(h.last() == h[h.len() - 1]);
        }
    }
}

/// The result of a running probe keeps the checks in flight and the
/// placeholders in agreement.
pub proof fn lemma_result_tracks(
    ts: Seq<TimelineView>,
    s: SchedulerView,
    id: Seq<char>,
    e: HistoryEntry,
    capacity: nat,
)
    requires
        timelines_wf(ts, capacity),
        scheduler_wf(s),
        checks_tracked(ts, s),
        has_probe(s.running, id),
        e.status != UptimeStatus::Loading,
    ensures
        checks_tracked(with_check_completed(ts, id, e, capacity), released(s, id)),
{
    let after = with_check_completed(ts, id, e, capacity);
    let next = released(s, id);
    let before = outstanding(s);
    lemma_has_first_probe(s.running, id);
    let p = first_probe(s.running, id);
    lemma_batch_drains(s, Seq::empty(), id);
    let left = outstanding(next);
    assert(left == before.remove(p));
    assert(before[p] == s.running[p]);
    assert(distinct_probes(left)) by {
        assert forall|i: int, j: int| 0 <= i < j < left.len() implies (#[trigger] left[i]).site_id
            != (#[trigger] left[j]).site_id by {
            let i2 = if i < p { i } else { i + 1 };
            let j2 = if j < p { j } else { j + 1 };
            assert(left[i] == before[i2]);
            assert(left[j] == before[j2]);
            assert(before[i2].site_id != before[j2].site_id);
        }
    }
    lemma_completed_keeps_one_pending(ts, id, e, capacity);
    lemma_check_completed(ts, id, e, capacity, id);
    assert forall|i: int| 0 <= i < after.len() && ends_pending(
        (#[trigger] after[i]).history,
    ) implies has_probe(left, after[i].site_id) by {
        let other = after[i].site_id;
        lemma_timeline_of(after, i);
        if other == id {
            let h = after[i].history;
            assert(settled(h));
            assert(h.last() == h[h.len() - 1]);
        } else {
            lemma_check_completed(ts, id, e, capacity, other);
            assert(has_site(after, other));
            let c = choose|c: int| 0 <= c < ts.len() && (#[trigger] ts[c]).site_id == other;
            lemma_timeline_of(ts, c);
            assert(ends_pending(ts[c].history));
            let q = choose|q: int| 0 <= q < before.len() && (#[trigger] before[q]).site_id == other;
            assert(q != p);
            let q2 = if q < p { q } else { q - 1 };
            assert(left[q2] == before[q]);
        }
    }
}

/// State of the uptime engine: the configuration it watches, the timeline
/// store, the update bus and the scheduler.
pub struct UptimeState {
    config: Config,
    history: TimelineStore,
    config_file_path: String,
    events: UpdateBus,
    scheduler: Scheduler,
}

impl UptimeState {
    /// The configuration; its sites are the targets of each tick.
    pub closed spec fn spec_config(&self) -> Config {
        self.config
    }

    /// Path of the configuration file.
    pub closed spec fn spec_config_file_path(&self) -> String {
        self.config_file_path
    }

    /// The timelines of the store, in the order in which the sites were
    /// first seen.
    pub closed spec fn timelines(&self) -> Seq<TimelineView> {
        self.history@
    }

    /// Number of samples that each history keeps.
    pub closed spec fn capacity(&self) -> nat {
        self.history.spec_capacity()
    }

    /// The subscribers of the bus, in the order in which they subscribed.
    pub closed spec fn subscribers(&self) -> Seq<SubscriberView> {
        self.events@
    }

    /// The id that the next subscriber gets.
    pub closed spec fn next_subscriber_id(&self) -> u64 {
        self.events.spec_next_id()
    }

    /// Number of events a mailbox holds before it drops updates.
    pub closed spec fn mailbox_limit(&self) -> nat {
        self.events.spec_mailbox_limit()
    }

    /// Whether the bus has been closed.
    pub closed spec fn bus_closed(&self) -> bool {
        self.events.spec_closed()
    }

    /// What the scheduler holds.
    pub closed spec fn schedule(&self) -> SchedulerView {
        self.scheduler@
    }

    /// Validity of the engine: its store, its bus and its scheduler are
    /// valid, and the checks in flight agree with the placeholders.
    pub open spec fn wf(&self) -> bool {
        &&& timelines_wf(self.timelines(), self.capacity())
        &&& subscribers_wf(self.subscribers(), self.next_subscriber_id())
        &&& scheduler_wf(self.schedule())
        &&& checks_tracked(self.timelines(), self.schedule())
    }

    /// An idle engine for `config` with the default limits: histories of
    /// `MAX_HISTORY_ENTRIES` samples, `DEFAULT_CONCURRENT_PROBES` probes at a
    /// time and mailboxes of `DEFAULT_MAILBOX_LIMIT` events.
    pub fn new(config: Config, config_file_path: String) -> (state: UptimeState)
        ensures
            state.wf(),
            state.spec_config() == config,
            state.spec_config_file_path() == config_file_path,
            state.timelines().len() == 0,
            state.capacity() == MAX_HISTORY_ENTRIES,
            state.subscribers().len() == 0,
            state.next_subscriber_id() == 0,
            state.mailbox_limit() == DEFAULT_MAILBOX_LIMIT,
            !state.bus_closed(),
            state.schedule() == (SchedulerView {
                phase: Phase::Idle,
                running: Seq::empty(),
                waiting: Seq::empty(),
                concurrency: DEFAULT_CONCURRENT_PROBES as nat,
                shutdown_requested: false,
            }),
    {
        UptimeState {
            config,
            history: TimelineStore::new(),
            config_file_path,
            events: UpdateBus::new(DEFAULT_MAILBOX_LIMIT),
            scheduler: Scheduler::with_default_limit(),
        }
    }

    /// An idle engine for `config` whose histories keep `capacity` samples,
    /// which runs `concurrency` probes at a time and whose mailboxes hold
    /// `mailbox_limit` events; `None` for a `concurrency` of 0.
    pub fn with_limits(
        config: Config,
        config_file_path: String,
        capacity: usize,
        concurrency: usize,
        mailbox_limit: usize,
    ) -> (state: Option<UptimeState>)
        ensures
            state is Some <==> concurrency >= 1,
            state matches Some(s) ==> {
                &&& s.wf()
                &&& s.spec_config() == config
                &&& s.spec_config_file_path() == config_file_path
                &&& s.timelines().len() == 0
                &&& s.capacity() == capacity
                &&& s.subscribers().len() == 0
                &&& s.next_subscriber_id() == 0
                &&& s.mailbox_limit() == mailbox_limit
                &&& !s.bus_closed()
                &&& s.schedule() == (SchedulerView {
                    phase: Phase::Idle,
                    running: Seq::empty(),
                    waiting: Seq::empty(),
                    concurrency: concurrency as nat,
                    shutdown_requested: false,
                })
            },
    {
        match Scheduler::new(concurrency) {
            Some(scheduler) => Some(
                UptimeState {
                    config,
                    history: TimelineStore::with_capacity(capacity),
                    config_file_path,
                    events: UpdateBus::new(mailbox_limit),
                    scheduler,
                },
            ),
            None => None,
        }
    }

    /// The configuration.
    pub fn config(&self) -> (config: &Config)
        ensures
            *config == self.spec_config(),
    {
        &self.config
    }

    /// Path of the configuration file.
    pub fn config_file_path(&self) -> (path: &String)
        ensures
            *path == self.spec_config_file_path(),
    {
        &self.config_file_path
    }

    /// The timeline store, to read.
    pub fn history(&self) -> (store: &TimelineStore)
        ensures
            store@ == self.timelines(),
            store.spec_capacity() == self.capacity(),
    {
        &self.history
    }

    /// The update bus, to read.
    pub fn events(&self) -> (bus: &UpdateBus)
        ensures
            bus@ == self.subscribers(),
            bus.spec_next_id() == self.next_subscriber_id(),
            bus.spec_mailbox_limit() == self.mailbox_limit(),
            bus.spec_closed() == self.bus_closed(),
    {
        &self.events
    }

    /// The scheduler, to read.
    pub fn scheduler(&self) -> (scheduler: &Scheduler)
        ensures
            scheduler@ == self.schedule(),
    {
        &self.scheduler
    }

    /// Whether the driver should fire another tick: the scheduler has not
    /// stopped and no shutdown has been requested.
    pub fn is_running(&self) -> (running: bool)
        ensures
            running == (self.schedule().phase != Phase::Stopped
                && !self.schedule().shutdown_requested),
    {
        self.scheduler.is_running()
    }

    /// Fires a tick at time `now` and gives the probes to start.
    ///
    /// While a batch is running, after a shutdown request or once stopped,
    /// the tick does nothing. Where the bus is closed the scheduler stops
    /// and nothing else happens. Otherwise a check begins for every planned
    /// site, one update with the snapshots of these sites goes to the bus,
    /// and the first probes are handed out, as many as may run at once; the
    /// others wait for a slot.
    pub fn start_tick(&mut self, now: u64) -> (probes: Vec<ProbeRequest>)
        requires
            old(self).wf(),
        ensures
            final(self).wf(),
            final(self).spec_config() == old(self).spec_config(),
            final(self).spec_config_file_path() == old(self).spec_config_file_path(),
            final(self).capacity() == old(self).capacity(),
            final(self).next_subscriber_id() == old(self).next_subscriber_id(),
            final(self).mailbox_limit() == old(self).mailbox_limit(),
            final(self).bus_closed() == old(self).bus_closed(),
            !may_tick(old(self).schedule()) ==> {
                &&& probes@.len() == 0
                &&& final(self).timelines() == old(self).timelines()
                &&& final(self).subscribers() == old(self).subscribers()
                &&& final(self).schedule() == old(self).schedule()
            },
            may_tick(old(self).schedule()) && old(self).bus_closed() ==> {
                &&& probes@.len() == 0
                &&& final(self).timelines() == old(self).timelines()
                &&& final(self).subscribers() == old(self).subscribers()
                &&& final(self).schedule() == halted(old(self).schedule())
            },
            may_tick(old(self).schedule()) && !old(self).bus_closed() ==> {
                let planned = planned_probes(site_seq(old(self).spec_config().sites@));
                &&& final(self).timelines() == begin_all(
                    old(self).timelines(),
                    planned,
                    old(self).capacity(),
                )
                &&& final(self).subscribers() == delivered(
                    old(self).subscribers(),
                    EventView::Update(batch_views(final(self).timelines(), planned, now)),
                    old(self).mailbox_limit(),
                )
                &&& final(self).schedule() == dispatched(old(self).schedule(), planned)
                &&& probe_seq(probes@) == handed_out(old(self).schedule(), planned)
            },
    {
        if !self.scheduler.may_tick() {
            return Vec::new();
        }
        if self.events.is_closed() {
            self.scheduler.halt();
            return Vec::new();
        }
        let ghost planned = planned_probes(site_seq(self.config.sites@));
        let planned_probes = mark_all_pending(&mut self.history, &self.config.sites);
        proof {
            lemma_planned_probes(site_seq(self.config.sites@));
            lemma_begin_all(old(self).history@, planned, old(self).history.spec_capacity());
            lemma_tick_tracks(
                old(self).history@,
                old(self).scheduler@,
                planned,
                old(self).history.spec_capacity(),
            );
            assert forall|i: int| 0 <= i < planned_probes@.len() implies has_site(
                self.history@,
                (#[trigger] planned_probes@[i]).site_id@,
            ) by {
                assert(probe_seq(planned_probes@)[i] == planned[i]);
            }
        }
        let batch = batch_snapshot(&self.history, &planned_probes, now);
        let _ = self.events.publish(&batch);
        self.scheduler.dispatch(planned_probes)
    }

    /// Reports that the probe of `site_id` resolved at time `now`, and gives
    /// the probe to start in its place, if one waits.
    ///
    /// A report for a site of which no probe runs, or one that resolves to
    /// `Loading`, is ignored. Otherwise the result is recorded in the site's
    /// history and one update with the site's snapshot goes to the bus,
    /// unless the bus is closed. The slot that the probe held goes to the
    /// probe that has waited longest; where none waits the slot is freed,
    /// and the last slot freed ends the batch: the scheduler is idle again,
    /// or stopped where shutdown was requested.
    pub fn finish_probe(
        &mut self,
        site_id: &str,
        status: UptimeStatus,
        response_time_ms: Option<u64>,
        now: u64,
    ) -> (next: Vec<ProbeRequest>)
        requires
            old(self).wf(),
        ensures
            final(self).wf(),
            final(self).spec_config() == old(self).spec_config(),
            final(self).spec_config_file_path() == old(self).spec_config_file_path(),
            final(self).capacity() == old(self).capacity(),
            final(self).next_subscriber_id() == old(self).next_subscriber_id(),
            final(self).mailbox_limit() == old(self).mailbox_limit(),
            final(self).bus_closed() == old(self).bus_closed(),
            !accepts(old(self).schedule(), site_id@, status) ==> {
                &&& next@.len() == 0
                &&& final(self).timelines() == old(self).timelines()
                &&& final(self).subscribers() == old(self).subscribers()
                &&& final(self).schedule() == old(self).schedule()
            },
            accepts(old(self).schedule(), site_id@, status) ==> {
                &&& final(self).timelines() == with_check_completed(
                    old(self).timelines(),
                    site_id@,
                    (HistoryEntry { status, response_time_ms }),
                    old(self).capacity(),
                )
                &&& final(self).subscribers() == if old(self).bus_closed() {
                    old(self).subscribers()
                } else {
                    delivered(
                        old(self).subscribers(),
                        EventView::Update(
                            seq![snapshot_view(timeline_of(final(self).timelines(), site_id@), now)],
                        ),
                        old(self).mailbox_limit(),
                    )
                }
                &&& final(self).schedule() == released(old(self).schedule(), site_id@)
                &&& probe_seq(next@) == match next_probe(old(self).schedule(), site_id@) {
                    Some(probe) => seq![probe],
                    None => Seq::empty(),
                }
            },
    {
        let mut next: Vec<ProbeRequest> = Vec::new();
        if is_loading(status) || !self.scheduler.is_probing(site_id) {
            return next;
        }
        proof {
            lemma_result_tracks(
                self.history@,
                self.scheduler@,
                site_id@,
                HistoryEntry { status, response_time_ms },
                self.history.spec_capacity(),
            );
            lemma_check_completed(
                self.history@,
                site_id@,
                HistoryEntry { status, response_time_ms },
                self.history.spec_capacity(),
                site_id@,
            );
        }
        self.history.complete_check(site_id, status, response_time_ms);
        match self.history.snapshot(site_id, now) {
            Some(snapshot) => {
                let mut update: Vec<UptimeHistory> = Vec::new();
                update.push(snapshot);
                assert(snapshot_seq(update@) =~= seq![
                    snapshot_view(timeline_of(self.history@, site_id@), now),
                ]);
                let _ = self.events.publish(&update);
            },
            None => {
                assert(false);
            },
        }
        match self.scheduler.release(site_id) {
            Some(probe) => {
                next.push(probe);
                assert(probe_seq(next@) =~= seq![probe@]);
            },
            None => {
                assert(probe_seq(next@) =~= Seq::empty());
            },
        }
        next
    }

    /// Requests shutdown with the notice `reason`.
    ///
    /// The first request sends one control event with `reason` to every
    /// subscriber and keeps every later tick from starting a batch; probes
    /// that run or wait may still finish. With no batch running the
    /// scheduler stops at once. A later request changes nothing.
    pub fn shutdown(&mut self, reason: &str)
        requires
            old(self).wf(),
        ensures
            final(self).wf(),
            final(self).schedule().shutdown_requested,
            final(self).spec_config() == old(self).spec_config(),
            final(self).spec_config_file_path() == old(self).spec_config_file_path(),
            final(self).timelines() == old(self).timelines(),
            final(self).capacity() == old(self).capacity(),
            final(self).next_subscriber_id() == old(self).next_subscriber_id(),
            final(self).mailbox_limit() == old(self).mailbox_limit(),
            final(self).bus_closed() == old(self).bus_closed(),
            old(self).schedule().shutdown_requested ==> {
                &&& final(self).subscribers() == old(self).subscribers()
                &&& final(self).schedule() == old(self).schedule()
            },
            !old(self).schedule().shutdown_requested ==> {
                &&& final(self).subscribers() == announced(
                    old(self).subscribers(),
                    EventView::Control(reason@),
                )
                &&& final(self).schedule() == stop_requested(old(self).schedule())
            },
    {
        if self.scheduler.request_stop() {
            self.events.announce(reason);
        }
    }

    /// Adds a subscriber and gives its id. Its stream starts with one update
    /// that carries the snapshot of every site known at time `now`. `None`,
    /// with the engine unchanged, where the bus is closed or has no id left.
    pub fn subscribe(&mut self, now: u64) -> (id: Option<u64>)
        requires
            old(self).wf(),
        ensures
            final(self).wf(),
            final(self).spec_config() == old(self).spec_config(),
            final(self).spec_config_file_path() == old(self).spec_config_file_path(),
            final(self).timelines() == old(self).timelines(),
            final(self).capacity() == old(self).capacity(),
            final(self).schedule() == old(self).schedule(),
            final(self).mailbox_limit() == old(self).mailbox_limit(),
            final(self).bus_closed() == old(self).bus_closed(),
            id is Some <==> !old(self).bus_closed() && old(self).next_subscriber_id() < u64::MAX,
            id is None ==> {
                &&& final(self).subscribers() == old(self).subscribers()
                &&& final(self).next_subscriber_id() == old(self).next_subscriber_id()
            },
            id matches Some(n) ==> {
                &&& n == old(self).next_subscriber_id()
                &&& final(self).next_subscriber_id() == n + 1
                &&& final(self).subscribers() == old(self).subscribers().push(
                    SubscriberView {
                        id: n,
                        mailbox: seq![
                            EventView::Update(snapshot_views(old(self).timelines(), now)),
                        ],
                    },
                )
            },
    {
        let initial = self.history.snapshot_all(now);
        self.events.subscribe(initial)
    }

    /// Makes sure that every enabled site of the configuration has a
    /// timeline, so that a subscriber sees it before its first check.
    pub fn track_enabled_sites(&mut self)
        requires
            old(self).wf(),
        ensures
            final(self).wf(),
            final(self).capacity() == old(self).capacity(),
            final(self).timelines() == track_all(
                old(self).timelines(),
                planned_probes(site_seq(old(self).spec_config().sites@)),
            ),
            final(self).spec_config() == old(self).spec_config(),
            final(self).spec_config_file_path() == old(self).spec_config_file_path(),
            final(self).subscribers() == old(self).subscribers(),
            final(self).next_subscriber_id() == old(self).next_subscriber_id(),
            final(self).mailbox_limit() == old(self).mailbox_limit(),
            final(self).bus_closed() == old(self).bus_closed(),
            final(self).schedule() == old(self).schedule(),
    {
        proof {
            lemma_track_all_tracks(
                self.history@,
                self.scheduler@,
                planned_probes(site_seq(self.config.sites@)),
            );
        }
        track_sites(&mut self.history, &self.config.sites);
    }

    /// Takes the events that wait for the subscriber `id`, oldest first, and
    /// leaves its mailbox empty. Gives nothing where there is no such
    /// subscriber.
    pub fn take_events(&mut self, id: u64) -> (events: Vec<BusEvent>)
        requires
            old(self).wf(),
        ensures
            final(self).wf(),
            event_seq(events@) == mailbox_of(old(self).subscribers(), id),
            final(self).subscribers() == emptied(old(self).subscribers(), id),
            final(self).next_subscriber_id() == old(self).next_subscriber_id(),
            final(self).mailbox_limit() == old(self).mailbox_limit(),
            final(self).bus_closed() == old(self).bus_closed(),
            final(self).spec_config() == old(self).spec_config(),
            final(self).spec_config_file_path() == old(self).spec_config_file_path(),
            final(self).timelines() == old(self).timelines(),
            final(self).capacity() == old(self).capacity(),
            final(self).schedule() == old(self).schedule(),
    {
        self.events.take_events(id)
    }

    /// Removes the subscriber `id`; says whether there was one.
    pub fn unsubscribe(&mut self, id: u64) -> (removed: bool)
        requires
            old(self).wf(),
        ensures
            final(self).wf(),
            removed == has_subscriber(old(self).subscribers(), id),
            final(self).subscribers() == without(old(self).subscribers(), id),
            !has_subscriber(final(self).subscribers(), id),
            final(self).next_subscriber_id() == old(self).next_subscriber_id(),
            final(self).mailbox_limit() == old(self).mailbox_limit(),
            final(self).bus_closed() == old(self).bus_closed(),
            final(self).spec_config() == old(self).spec_config(),
            final(self).spec_config_file_path() == old(self).spec_config_file_path(),
            final(self).timelines() == old(self).timelines(),
            final(self).capacity() == old(self).capacity(),
            final(self).schedule() == old(self).schedule(),
    {
        self.events.unsubscribe(id)
    }

    /// Closes the bus: it takes no update and no subscriber from now on, and
    /// the next tick stops the scheduler.
    pub fn close_bus(&mut self)
        requires
            old(self).wf(),
        ensures
            final(self).wf(),
            final(self).bus_closed(),
            final(self).subscribers() == old(self).subscribers(),
            final(self).next_subscriber_id() == old(self).next_subscriber_id(),
            final(self).mailbox_limit() == old(self).mailbox_limit(),
            final(self).spec_config() == old(self).spec_config(),
            final(self).spec_config_file_path() == old(self).spec_config_file_path(),
            final(self).timelines() == old(self).timelines(),
            final(self).capacity() == old(self).capacity(),
            final(self).schedule() == old(self).schedule(),
    {
        self.events.close();
    }

    /// Replaces the configuration. The next tick reads the new sites; the
    /// histories stay, also those of sites that the new configuration does
    /// not name.
    pub fn replace_config(&mut self, config: Config)
        requires
            old(self).wf(),
        ensures
            final(self).wf(),
            final(self).spec_config() == config,
            final(self).spec_config_file_path() == old(self).spec_config_file_path(),
            final(self).timelines() == old(self).timelines(),
            final(self).capacity() == old(self).capacity(),
            final(self).subscribers() == old(self).subscribers(),
            final(self).next_subscriber_id() == old(self).next_subscriber_id(),
            final(self).mailbox_limit() == old(self).mailbox_limit(),
            final(self).bus_closed() == old(self).bus_closed(),
            final(self).schedule() == old(self).schedule(),
    {
        self.config = config;
    }
}

/// Whether the engine takes the report that the probe of `id` resolved to
/// `status`: a probe of the site runs, and the status is not `Loading`.
pub open spec fn accepts(s: SchedulerView, id: Seq<char>, status: UptimeStatus) -> bool {
    has_probe(s.running, id) && status != UptimeStatus::Loading
}

/// Giving sites an empty timeline keeps the timelines valid and the checks
/// in flight and the placeholders in agreement.
pub proof fn lemma_track_all_tracks(ts: Seq<TimelineView>, s: SchedulerView, probes: Seq<ProbeView>)
    requires
        checks_tracked(ts, s),
    ensures
        checks_tracked(track_all(ts, probes), s),
    decreases probes.len(),
{
    if probes.len() > 0 {
        let before = track_all(ts, probes.drop_last());
        lemma_track_all_tracks(ts, s, probes.drop_last());
        let after = track_all(ts, probes);
        assert forall|i: int| 0 <= i < after.len() implies pending_only_last(
            (#[trigger] after[i]).history,
        ) && (ends_pending(after[i].history) ==> has_probe(outstanding(s), after[i].site_id)) by {
            if i < before.len() {
                assert(after[i] == before[i]);
                assert(pending_only_last(before[i].history));
            }
        }
    }
}

/// In every valid state of the engine each history is within its capacity
/// and holds at most one placeholder, at its newest position, and no more
/// probes run than the limit allows.
pub proof fn lemma_engine_bounds(state: &UptimeState, i: int)
    requires
        state.wf(),
        0 <= i < state.timelines().len(),
    ensures
        state.timelines()[i].history.len() <= state.capacity(),
        pending_only_last(state.timelines()[i].history),
        count_status(state.timelines()[i].history, UptimeStatus::Loading) <= 1,
        state.schedule().running.len() <= state.schedule().concurrency,
{
    lemma_pending_only_last_counts(state.timelines()[i].history);
}

} // verus!
