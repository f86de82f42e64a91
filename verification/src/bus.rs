//! The update bus: fan-out of snapshot updates and control notices to the
//! mailboxes of the subscribers.

use crate::uptime::{snapshot_seq, SnapshotView, UptimeHistory};
use vstd::prelude::*;

verus! {

/// What an event says, as plain values.
pub enum EventView {
    Update(Seq<SnapshotView>),
    Control(Seq<char>),
}

/// One event of a subscriber's stream.
#[derive(Debug, Clone)]
pub enum BusEvent {
    /// Snapshots of one or more sites.
    Update(Vec<UptimeHistory>),
    /// An out-of-band notice, such as a shutdown message.
    Control(String),
}

impl View for BusEvent {
    type V = EventView;

    open spec fn view(&self) -> EventView {
        match self {
            BusEvent::Update(snapshots) => EventView::Update(snapshot_seq(snapshots@)),
            BusEvent::Control(message) => EventView::Control(message@),
        }
    }
}

/// What a vector of events says, element by element.
pub open spec fn event_seq(events: Seq<BusEvent>) -> Seq<EventView> {
    Seq::new(events.len(), |i: int| events[i]@)
}

/// A copy of `snapshots` that says the same.
pub fn duplicate_snapshots(snapshots: &Vec<UptimeHistory>) -> (copy: Vec<UptimeHistory>)
    ensures
        snapshot_seq(copy@) == snapshot_seq(snapshots@),
{
    let mut copy: Vec<UptimeHistory> = Vec::new();
    let mut i: usize = 0;
    while i < snapshots.len()
        invariant
            i <= snapshots@.len(),
            copy@.len() == i,
            forall|j: int| 0 <= j < i ==> (#[trigger] copy@[j])@ == snapshots@[j]@,
        decreases snapshots@.len() - i,
    {
        copy.push(snapshots[i].duplicate());
        i = i + 1;
    }
    assert(snapshot_seq(copy@) =~= snapshot_seq(snapshots@));
    copy
}

/// What a subscriber holds, as plain values.
pub struct SubscriberView {
    pub id: u64,
    pub mailbox: Seq<EventView>,
}

/// A live consumer of the bus: its id and the events not yet taken.
pub struct Subscriber {
    id: u64,
    mailbox: Vec<BusEvent>,
}

impl View for Subscriber {
    type V = SubscriberView;

    closed spec fn view(&self) -> SubscriberView {
        SubscriberView { id: self.id, mailbox: event_seq(self.mailbox@) }
    }
}

/// Whether a subscriber with `id` is among `subs`.
pub open spec fn has_subscriber(subs: Seq<SubscriberView>, id: u64) -> bool {
    exists|i: int| 0 <= i < subs.len() && (#[trigger] subs[i]).id == id
}

/// Mailbox of the subscriber `id` among `subs`; empty where there is none.
pub open spec fn mailbox_of(subs: Seq<SubscriberView>, id: u64) -> Seq<EventView> {
    if has_subscriber(subs, id) {
        subs[choose|i: int| 0 <= i < subs.len() && (#[trigger] subs[i]).id == id].mailbox
    } else {
        Seq::empty()
    }
}

/// `subs` after `event` went to every mailbox that holds fewer than `limit`
/// events; a full mailbox drops the event.
pub open spec fn delivered(subs: Seq<SubscriberView>, event: EventView, limit: nat) -> Seq<
    SubscriberView,
> {
    Seq::new(
        subs.len(),
        |i: int|
            if subs[i].mailbox.len() < limit {
                SubscriberView { mailbox: subs[i].mailbox.push(event), ..subs[i] }
            } else {
                subs[i]
            },
    )
}

/// `subs` after `event` went to every mailbox, full or not.
pub open spec fn announced(subs: Seq<SubscriberView>, event: EventView) -> Seq<SubscriberView> {
    Seq::new(
        subs.len(),
        |i: int| SubscriberView { mailbox: subs[i].mailbox.push(event), ..subs[i] },
    )
}

/// `subs` after the mailbox of `id` was emptied.
pub open spec fn emptied(subs: Seq<SubscriberView>, id: u64) -> Seq<SubscriberView> {
    Seq::new(
        subs.len(),
        |i: int|
            if subs[i].id == id {
                SubscriberView { mailbox: Seq::empty(), ..subs[i] }
            } else {
                subs[i]
            },
    )
}

/// `subs` without the subscribers whose id is `id`.
pub open spec fn without(subs: Seq<SubscriberView>, id: u64) -> Seq<SubscriberView> {
    subs.filter(|s: SubscriberView| s.id != id)
}

/// Validity of a set of subscribers: no id twice, and every id below the
/// next one to be given out.
pub open spec fn subscribers_wf(subs: Seq<SubscriberView>, next_id: u64) -> bool {
    &&& forall|i: int, j: int| 0 <= i < j < subs.len() ==> (#[trigger] subs[i]).id != (#[trigger] subs[j]).id
    &&& forall|i: int| 0 <= i < subs.len() ==> (#[trigger] subs[i]).id < next_id
}

/// Broadcast of events to independent subscribers. Delivery is best effort: a
/// subscriber whose mailbox is full misses an update, and no subscriber holds
/// up another.
pub struct UpdateBus {
    subscribers: Vec<Subscriber>,
    next_id: u64,
    mailbox_limit: usize,
    closed: bool,
}

impl UpdateBus {
    /// The subscribers, in the order in which they subscribed.
    pub closed spec fn view(&self) -> Seq<SubscriberView> {
        Seq::new(self.subscribers@.len(), |i: int| self.subscribers@[i]@)
    }

    /// The id that the next subscriber gets.
    pub closed spec fn spec_next_id(&self) -> u64 {
        self.next_id
    }

    /// Number of events a mailbox holds before it drops updates.
    pub closed spec fn spec_mailbox_limit(&self) -> nat {
        self.mailbox_limit as nat
    }

    /// Whether the bus has been closed.
    pub closed spec fn spec_closed(&self) -> bool {
        self.closed
    }

    /// Validity of the bus.
    pub open spec fn wf(&self) -> bool {
        subscribers_wf(self@, self.spec_next_id())
    }

    /// An open bus without subscribers whose mailboxes hold up to
    /// `mailbox_limit` events.
    pub fn new(mailbox_limit: usize) -> (bus: UpdateBus)
        ensures
            bus.wf(),
            bus@ == Seq::<SubscriberView>::empty(),
            bus.spec_next_id() == 0,
            bus.spec_mailbox_limit() == mailbox_limit,
            !bus.spec_closed(),
    {
        let bus = UpdateBus { subscribers: Vec::new(), next_id: 0, mailbox_limit, closed: false };
        assert(bus@ =~= Seq::<SubscriberView>::empty());
        bus
    }

    /// Whether the bus has been closed.
    pub fn is_closed(&self) -> (closed: bool)
        ensures
            closed == self.spec_closed(),
    {
        self.closed
    }

    /// Number of subscribers.
    pub fn subscriber_count(&self) -> (n: usize)
        ensures
            n == self@.len(),
    {
        self.subscribers.len()
    }

    /// Closes the bus: from now on it takes no update and no subscriber. The
    /// mailboxes stay as they are.
    pub fn close(&mut self)
        ensures
            final(self)@ == old(self)@,
            final(self).spec_next_id() == old(self).spec_next_id(),
            final(self).spec_mailbox_limit() == old(self).spec_mailbox_limit(),
            final(self).spec_closed(),
    {
        self.closed = true;
    }

    /// Position of the subscriber `id`, if there is one.
    fn position(&self, id: u64) -> (found: Option<usize>)
        ensures
            match found {
                Some(i) => i < self@.len() && self@[i as int].id == id,
                None => !has_subscriber(self@, id),
            },
    {
        let mut i: usize = 0;
        while i < self.subscribers.len()
            invariant
                i <= self.subscribers@.len(),
                forall|j: int| 0 <= j < i ==> (#[trigger] self@[j]).id != id,
            decreases self.subscribers@.len() - i,
        {
            if self.subscribers[i].id == id {
                return Some(i);
            }
            i = i + 1;
        }
        None
    }

    /// Adds a subscriber whose mailbox starts with one `Update` event that
    /// carries `initial`, and gives its id. `None`, with the bus unchanged,
    /// where the bus is closed or has no id left.
    pub fn subscribe(&mut self, initial: Vec<UptimeHistory>) -> (id: Option<u64>)
        requires
            old(self).wf(),
        ensures
            final(self).wf(),
            final(self).spec_mailbox_limit() == old(self).spec_mailbox_limit(),
            final(self).spec_closed() == old(self).spec_closed(),
            id is Some <==> !old(self).spec_closed() && old(self).spec_next_id() < u64::MAX,
            id is None ==> {
                &&& final(self)@ == old(self)@
                &&& final(self).spec_next_id() == old(self).spec_next_id()
            },
            id matches Some(n) ==> {
                &&& n == old(self).spec_next_id()
                &&& final(self).spec_next_id() == n + 1
                &&& final(self)@ == old(self)@.push(
                    SubscriberView {
                        id: n,
                        mailbox: seq![EventView::Update(snapshot_seq(initial@))],
                    },
                )
            },
    {
        if self.closed || self.next_id == u64::MAX {
            return None;
        }
        let id = self.next_id;
        let mut mailbox: Vec<BusEvent> = Vec::new();
        mailbox.push(BusEvent::Update(initial));
        assert(event_seq(mailbox@) =~= seq![EventView::Update(snapshot_seq(initial@))]);
        self.subscribers.push(Subscriber { id, mailbox });
        self.next_id = id + 1;
        assert(self@ =~= old(self)@.push(
            SubscriberView { id, mailbox: seq![EventView::Update(snapshot_seq(initial@))] },
        ));
        Some(id)
    }

    /// Removes the subscriber `id`; says whether there was one.
    pub fn unsubscribe(&mut self, id: u64) -> (removed: bool)
        requires
            old(self).wf(),
        ensures
            final(self).wf(),
            final(self).spec_next_id() == old(self).spec_next_id(),
            final(self).spec_mailbox_limit() == old(self).spec_mailbox_limit(),
            final(self).spec_closed() == old(self).spec_closed(),
            removed == has_subscriber(old(self)@, id),
            !has_subscriber(final(self)@, id),
            final(self)@ == without(old(self)@, id),
    {
        match self.position(id) {
            Some(i) => {
                let _ = self.subscribers.remove(i);
                proof {
                    let before = old(self)@;
                    assert(self@ =~= before.remove(i as int));
                    lemma_without_at(before, old(self).spec_next_id(), i as int);
                }
                true
            },
            None => {
                proof {
                    lemma_without_absent(old(self)@, id);
                }
                false
            },
        }
    }

    /// Sends an `Update` event with a copy of `snapshots` to every subscriber
    /// whose mailbox has room, and says whether the bus took it: a closed bus
    /// takes nothing.
    pub fn publish(&mut self, snapshots: &Vec<UptimeHistory>) -> (taken: bool)
        requires
            old(self).wf(),
        ensures
            final(self).wf(),
            final(self).spec_next_id() == old(self).spec_next_id(),
            final(self).spec_mailbox_limit() == old(self).spec_mailbox_limit(),
            final(self).spec_closed() == old(self).spec_closed(),
            taken == !old(self).spec_closed(),
            taken ==> final(self)@ == delivered(
                old(self)@,
                EventView::Update(snapshot_seq(snapshots@)),
                old(self).spec_mailbox_limit(),
            ),
            !taken ==> final(self)@ == old(self)@,
    {
        if self.closed {
            return false;
        }
        let ghost event = EventView::Update(snapshot_seq(snapshots@));
        let ghost before = self@;
        let ghost limit = self.spec_mailbox_limit();
        let mut i: usize = 0;
        while i < self.subscribers.len()
            invariant
                i <= self.subscribers@.len(),
                self@.len() == before.len(),
                self.next_id == old(self).next_id,
                self.mailbox_limit == old(self).mailbox_limit,
                self.closed == old(self).closed,
                limit == self.mailbox_limit as nat,
                event == EventView::Update(snapshot_seq(snapshots@)),
                forall|j: int| 0 <= j < i ==> (#[trigger] self@[j]) == delivered(before, event, limit)[j],
                forall|j: int| i <= j < before.len() ==> (#[trigger] self@[j]) == before[j],
            decreases self.subscribers@.len() - i,
        {
            let limit_here = self.mailbox_limit;
            let ghost current = self@;
            assert(self@[i as int] == before[i as int]);
            let ghost entry = self.subscribers@[i as int];
            let sub = &mut self.subscribers[i];
            assert(*sub == entry);
            if sub.mailbox.len() < limit_here {
                let ghost mailbox_before = sub.mailbox@;
                sub.mailbox.push(BusEvent::Update(duplicate_snapshots(snapshots)));
                assert(event_seq(sub.mailbox@) =~= event_seq(mailbox_before).push(event));
            }
            assert(sub@ == delivered(before, event, limit)[i as int]);
            assert forall|j: int| 0 <= j < i + 1 implies (#[trigger] self@[j]) == delivered(
                before,
                event,
                limit,
            )[j] by {
                if j < i {
                    assert(self@[j] == current[j]);
                }
            }
            assert forall|j: int| i + 1 <= j < before.len() implies (#[trigger] self@[j])
                == before[j] by {
                assert(self@[j] == current[j]);
            }
            i = i + 1;
        }
        assert(self@ =~= delivered(before, event, limit));
        true
    }

    /// Sends a `Control` event with `message` to every subscriber, whatever
    /// its mailbox holds, on a closed bus too.
    pub fn announce(&mut self, message: &str)
        requires
            old(self).wf(),
        ensures
            final(self).wf(),
            final(self).spec_next_id() == old(self).spec_next_id(),
            final(self).spec_mailbox_limit() == old(self).spec_mailbox_limit(),
            final(self).spec_closed() == old(self).spec_closed(),
            final(self)@ == announced(old(self)@, EventView::Control(message@)),
    {
        let ghost event = EventView::Control(message@);
        let ghost before = self@;
        let mut i: usize = 0;
        while i < self.subscribers.len()
            invariant
                i <= self.subscribers@.len(),
                self@.len() == before.len(),
                self.next_id == old(self).next_id,
                self.mailbox_limit == old(self).mailbox_limit,
                self.closed == old(self).closed,
                event == EventView::Control(message@),
                forall|j: int| 0 <= j < i ==> (#[trigger] self@[j]) == announced(before, event)[j],
                forall|j: int| i <= j < before.len() ==> (#[trigger] self@[j]) == before[j],
            decreases self.subscribers@.len() - i,
        {
            let ghost current = self@;
            assert(self@[i as int] == before[i as int]);
            let ghost entry = self.subscribers@[i as int];
            let sub = &mut self.subscribers[i];
            assert(*sub == entry);
            let ghost mailbox_before = sub.mailbox@;
            sub.mailbox.push(BusEvent::Control(message.to_owned()));
            assert(event_seq(sub.mailbox@) =~= event_seq(mailbox_before).push(event));
            assert(sub@ == announced(before, event)[i as int]);
            assert forall|j: int| 0 <= j < i + 1 implies (#[trigger] self@[j]) == announced(
                before,
                event,
            )[j] by {
                if j < i {
                    assert(self@[j] == current[j]);
                }
            }
            assert forall|j: int| i + 1 <= j < before.len() implies (#[trigger] self@[j])
                == before[j] by {
                assert(self@[j] == current[j]);
            }
            i = i + 1;
        }
        assert(self@ =~= announced(before, event));
    }

    /// Takes the events waiting for the subscriber `id`, oldest first, and
    /// leaves its mailbox empty. Gives nothing where there is no such
    /// subscriber.
    pub fn take_events(&mut self, id: u64) -> (events: Vec<BusEvent>)
        requires
            old(self).wf(),
        ensures
            final(self).wf(),
            final(self).spec_next_id() == old(self).spec_next_id(),
            final(self).spec_mailbox_limit() == old(self).spec_mailbox_limit(),
            final(self).spec_closed() == old(self).spec_closed(),
            event_seq(events@) == mailbox_of(old(self)@, id),
            final(self)@ == emptied(old(self)@, id),
    {
        let mut events: Vec<BusEvent> = Vec::new();
        match self.position(id) {
            Some(i) => {
                proof {
                    lemma_mailbox_of(old(self)@, old(self).spec_next_id(), i as int);
                }
                let sub = &mut self.subscribers[i];
                std::mem::swap(&mut events, &mut sub.mailbox);
                assert(event_seq(sub.mailbox@) =~= Seq::<EventView>::empty());
                assert(self@ =~= emptied(old(self)@, id)) by {
                    let before = old(self)@;
                    assert forall|j: int| 0 <= j < before.len() implies #[trigger] self@[j]
                        == emptied(before, id)[j] by {
                        if j < i {
                            assert(before[j].id != before[i as int].id);
                        } else if j > i {
                            assert(before[i as int].id != before[j].id);
                        }
                    }
                }
            },
            None => {
                assert(event_seq(events@) =~= Seq::<EventView>::empty());
                assert(self@ =~= emptied(old(self)@, id));
            },
        }
        events
    }

    /// Number of events waiting for the subscriber `id`; 0 where there is no
    /// such subscriber.
    pub fn waiting_events(&self, id: u64) -> (n: usize)
        requires
            self.wf(),
        ensures
            n == mailbox_of(self@, id).len(),
    {
        match self.position(id) {
            Some(i) => {
                proof {
                    lemma_mailbox_of(self@, self.spec_next_id(), i as int);
                }
                self.subscribers[i].mailbox.len()
            },
            None => 0,
        }
    }
}

/// Among valid subscribers the mailbox of an id is that of the subscriber
/// that carries the id.
pub proof fn lemma_mailbox_of(subs: Seq<SubscriberView>, next_id: u64, i: int)
    requires
        subscribers_wf(subs, next_id),
        0 <= i < subs.len(),
    ensures
        has_subscriber(subs, subs[i].id),
        mailbox_of(subs, subs[i].id) == subs[i].mailbox,
{
    let id = subs[i].id;
    let k = choose|k: int| 0 <= k < subs.len() && (#[trigger] subs[k]).id == id;
    if k < i {
        assert(subs[k].id != subs[i].id);
    } else if i < k {
        assert(subs[i].id != subs[k].id);
    }
}

/// Removing an id that no subscriber carries changes nothing.
pub proof fn lemma_without_absent(subs: Seq<SubscriberView>, id: u64)
    requires
        !has_subscriber(subs, id),
    ensures
        without(subs, id) == subs,
    decreases subs.len(),
{
    reveal(Seq::filter);
    if subs.len() > 0 {
        let front = subs.drop_last();
        assert forall|i: int| 0 <= i < front.len() implies (#[trigger] front[i]).id != id by {
            assert(front[i] == subs[i]);
        }
        lemma_without_absent(front, id);
        assert(subs.last() == subs[subs.len() - 1]);
        assert(subs.last().id != id);
        assert(front.push(subs.last()) =~= subs);
    }
}

/// Among valid subscribers, removing the id of the one at position `i` takes
/// out that one and no other.
pub proof fn lemma_without_at(subs: Seq<SubscriberView>, next_id: u64, i: int)
    requires
        subscribers_wf(subs, next_id),
        0 <= i < subs.len(),
    ensures
        without(subs, subs[i].id) == subs.remove(i),
        subscribers_wf(subs.remove(i), next_id),
        !has_subscriber(subs.remove(i), subs[i].id),
    decreases subs.len(),
{
    reveal(Seq::filter);
    let id = subs[i].id;
    let front = subs.drop_last();
    let rest = subs.remove(i);
    assert forall|j: int| 0 <= j < rest.len() implies (#[trigger] rest[j]).id != id by {
        if j < i {
            assert(rest[j] == subs[j]);
            assert(subs[j].id != subs[i].id);
        } else {
            assert(rest[j] == subs[j + 1]);
            assert(subs[i].id != subs[j + 1].id);
        }
    }
    assert forall|a: int, b: int| 0 <= a < b < rest.len() implies (#[trigger] rest[a]).id != (
    #[trigger] rest[b]).id by {
        let a2 = if a < i { a } else { a + 1 };
        let b2 = if b < i { b } else { b + 1 };
        assert(rest[a] == subs[a2]);
        assert(rest[b] == subs[b2]);
        assert(subs[a2].id != subs[b2].id);
    }
    assert forall|j: int| 0 <= j < rest.len() implies (#[trigger] rest[j]).id < next_id by {
        let j2 = if j < i { j } else { j + 1 };
        assert(rest[j] == subs[j2]);
    }
    if i == subs.len() - 1 {
        assert forall|j: int| 0 <= j < front.len() implies (#[trigger] front[j]).id != id by {
            assert(front[j] == subs[j]);
            assert(subs[j].id != subs[i].id);
        }
        lemma_without_absent(front, id);
        assert(rest =~= front);
    } else {
        assert(front[i] == subs[i]);
        assert forall|a: int, b: int| 0 <= a < b < front.len() implies (#[trigger] front[a]).id != (
        #[trigger] front[b]).id by {
            assert(front[a] == subs[a]);
            assert(front[b] == subs[b]);
        }
        assert forall|j: int| 0 <= j < front.len() implies (#[trigger] front[j]).id < next_id by {
            assert(front[j] == subs[j]);
        }
        lemma_without_at(front, next_id, i);
        assert(subs.last() == subs[subs.len() - 1]);
        assert(subs[i].id != subs[subs.len() - 1].id);
        assert(rest =~= front.remove(i).push(subs.last()));
    }
}

/// Events only ever join the end of a mailbox: an update or a notice leaves
/// what a subscriber already holds in place and in order, so the first event
/// of a stream stays the first.
pub proof fn lemma_events_append(
    subs: Seq<SubscriberView>,
    event: EventView,
    limit: nat,
    i: int,
)
    requires
        0 <= i < subs.len(),
    ensures
        delivered(subs, event, limit)[i].id == subs[i].id,
        subs[i].mailbox.is_prefix_of(delivered(subs, event, limit)[i].mailbox),
        announced(subs, event)[i].id == subs[i].id,
        announced(subs, event)[i].mailbox == subs[i].mailbox.push(event),
        subs[i].mailbox.is_prefix_of(announced(subs, event)[i].mailbox),
{
}

} // verus!
