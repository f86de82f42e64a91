//! The scheduler's place in the tick cycle and its concurrency limiter.

use vstd::prelude::*;

verus! {

/// Seconds between two ticks of the scheduler.
pub const TICK_INTERVAL_SECS: u64 = 5;

/// Seconds after which a probe that got no response gives up.
pub const PROBE_TIMEOUT_SECS: u64 = 10;

/// Number of probes that run at the same time by default.
pub const DEFAULT_CONCURRENT_PROBES: usize = 10;

/// Where the scheduler stands in its cycle. A tick leads from `Idle` through
/// marking every enabled site as pending and handing out its probes to
/// `AwaitBatch`, and the last result of the batch leads back to `Idle`.
#[derive(Debug, Clone, Copy, PartialEq, Eq, Structural)]
pub enum Phase {
    /// No batch is running; a tick may start one.
    Idle,
    /// Probes of the current tick are in flight.
    AwaitBatch,
    /// The scheduler has stopped and starts no tick again.
    Stopped,
}

/// What a probe request says, as plain values.
pub struct ProbeView {
    pub site_id: Seq<char>,
    pub url: Seq<char>,
}

/// One probe to run: the site and the address to check.
#[derive(Debug, Clone, PartialEq, Eq)]
pub struct ProbeRequest {
    /// Id of the site.
    pub site_id: String,
    /// Address to check.
    pub url: String,
}

impl View for ProbeRequest {
    type V = ProbeView;

    open spec fn view(&self) -> ProbeView {
        ProbeView { site_id: self.site_id@, url: self.url@ }
    }
}

impl ProbeRequest {
    /// A copy that says the same as `self`.
    pub fn duplicate(&self) -> (copy: ProbeRequest)
        ensures
            copy@ == self@,
    {
        ProbeRequest { site_id: self.site_id.clone(), url: self.url.clone() }
    }
}

/// What a vector of probe requests says, element by element.
pub open spec fn probe_seq(probes: Seq<ProbeRequest>) -> Seq<ProbeView> {
    Seq::new(probes.len(), |i: int| probes[i]@)
}

/// Whether one of `probes` is for the site `id`.
pub open spec fn has_probe(probes: Seq<ProbeView>, id: Seq<char>) -> bool {
    exists|i: int| 0 <= i < probes.len() && (#[trigger] probes[i]).site_id == id
}

/// Whether `i` is the position of the first of `probes` for the site `id`.
pub open spec fn is_first_probe(probes: Seq<ProbeView>, id: Seq<char>, i: int) -> bool {
    &&& 0 <= i < probes.len()
    &&& probes[i].site_id == id
    &&& forall|j: int| 0 <= j < i ==> (#[trigger] probes[j]).site_id != id
}

/// Position of the first of `probes` for the site `id`.
pub open spec fn first_probe(probes: Seq<ProbeView>, id: Seq<char>) -> int {
    choose|i: int| is_first_probe(probes, id, i)
}

/// No two of `probes` are for the same site.
pub open spec fn distinct_probes(probes: Seq<ProbeView>) -> bool {
    forall|i: int, j: int|
        0 <= i < j < probes.len() ==> (#[trigger] probes[i]).site_id != (
        #[trigger] probes[j]).site_id
}

/// What the scheduler holds, as plain values.
pub struct SchedulerView {
    /// Place in the tick cycle.
    pub phase: Phase,
    /// Probes that are running, in the order in which they started.
    pub running: Seq<ProbeView>,
    /// Probes of the current tick that wait for a free slot, oldest first.
    pub waiting: Seq<ProbeView>,
    /// Number of probes that may run at the same time.
    pub concurrency: nat,
    /// Whether shutdown has been requested.
    pub shutdown_requested: bool,
}

/// Validity of a scheduler: at least one probe may run, no more probes run
/// than may, a batch is awaited exactly while probes run, and probes wait
/// only while every slot is taken.
pub open spec fn scheduler_wf(s: SchedulerView) -> bool {
    &&& s.concurrency >= 1
    &&& s.running.len() <= s.concurrency
    &&& (s.phase == Phase::AwaitBatch <==> s.running.len() > 0)
    &&& (s.waiting.len() > 0 ==> s.running.len() == s.concurrency)
}

/// Whether a tick may start a batch: none is running, the scheduler has not
/// stopped and no shutdown has been requested.
pub open spec fn may_tick(s: SchedulerView) -> bool {
    s.phase == Phase::Idle && !s.shutdown_requested
}

/// Number of probes that a tick hands out at once.
pub open spec fn first_wave(probes: nat, concurrency: nat) -> nat {
    if probes <= concurrency {
        probes
    } else {
        concurrency
    }
}

/// The probes of the current tick that have not resolved yet: those that
/// run, then those that wait.
pub open spec fn outstanding(s: SchedulerView) -> Seq<ProbeView> {
    s.running + s.waiting
}

/// The scheduler after a tick handed in the probes `planned`: the first
/// wave runs and the others wait. A scheduler that may not tick stays as it
/// is.
pub open spec fn dispatched(s: SchedulerView, planned: Seq<ProbeView>) -> SchedulerView {
    if may_tick(s) {
        let first = first_wave(planned.len(), s.concurrency);
        SchedulerView {
            phase: if first > 0 {
                Phase::AwaitBatch
            } else {
                Phase::Idle
            },
            running: planned.subrange(0, first as int),
            waiting: planned.subrange(first as int, planned.len() as int),
            ..s
        }
    } else {
        s
    }
}

/// The probes that a tick hands out at once: the first wave of `planned`,
/// and nothing where the scheduler may not tick.
pub open spec fn handed_out(s: SchedulerView, planned: Seq<ProbeView>) -> Seq<ProbeView> {
    if may_tick(s) {
        planned.subrange(0, first_wave(planned.len(), s.concurrency) as int)
    } else {
        Seq::empty()
    }
}

/// The scheduler after the running probe of the site `id` resolved. Its
/// slot goes to the probe that has waited longest; where none waits the
/// slot is freed, and the last slot freed ends the batch. Where no probe of
/// that site runs nothing changes.
pub open spec fn released(s: SchedulerView, id: Seq<char>) -> SchedulerView {
    if !has_probe(s.running, id) {
        s
    } else {
        let rest = s.running.remove(first_probe(s.running, id));
        if s.waiting.len() > 0 {
            SchedulerView { running: rest.push(s.waiting[0]), waiting: s.waiting.drop_first(), ..s }
        } else {
            SchedulerView {
                running: rest,
                phase: if rest.len() > 0 {
                    Phase::AwaitBatch
                } else if s.shutdown_requested {
                    Phase::Stopped
                } else {
                    Phase::Idle
                },
                ..s
            }
        }
    }
}

/// The probe that takes the slot of the probe of `id` when it resolves, if
/// that probe runs and another waits.
pub open spec fn next_probe(s: SchedulerView, id: Seq<char>) -> Option<ProbeView> {
    if has_probe(s.running, id) && s.waiting.len() > 0 {
        Some(s.waiting[0])
    } else {
        None
    }
}

/// The scheduler after shutdown was requested: it stops at once where no
/// batch runs, and after the batch where one runs.
pub open spec fn stop_requested(s: SchedulerView) -> SchedulerView {
    SchedulerView {
        shutdown_requested: true,
        phase: if s.phase == Phase::Idle {
            Phase::Stopped
        } else {
            s.phase
        },
        ..s
    }
}

/// The scheduler after it was halted: stopped, where no batch runs.
pub open spec fn halted(s: SchedulerView) -> SchedulerView {
    if s.running.len() == 0 {
        SchedulerView { phase: Phase::Stopped, ..s }
    } else {
        s
    }
}

/// The scheduler of the tick cycle. It knows the probes in flight, lets no
/// more run than its limit, and queues the others.
pub struct Scheduler {
    phase: Phase,
    running: Vec<ProbeRequest>,
    waiting: Vec<ProbeRequest>,
    concurrency: usize,
    shutdown_requested: bool,
}

impl View for Scheduler {
    type V = SchedulerView;

    closed spec fn view(&self) -> SchedulerView {
        SchedulerView {
            phase: self.phase,
            running: probe_seq(self.running@),
            waiting: probe_seq(self.waiting@),
            concurrency: self.concurrency as nat,
            shutdown_requested: self.shutdown_requested,
        }
    }
}

/// Position of the first of `probes` for the site `site_id`, if there is
/// one.
pub fn find_probe(probes: &Vec<ProbeRequest>, site_id: &str) -> (found: Option<usize>)
    ensures
        match found {
            Some(i) => is_first_probe(probe_seq(probes@), site_id@, i as int),
            None => !has_probe(probe_seq(probes@), site_id@),
        },
{
    let wanted = site_id.to_owned();
    let mut i: usize = 0;
    while i < probes.len()
        invariant
            i <= probes@.len(),
            wanted@ == site_id@,
            forall|j: int| 0 <= j < i ==> (#[trigger] probe_seq(probes@)[j]).site_id != site_id@,
        decreases probes@.len() - i,
    {
        if probes[i].site_id == wanted {
            assert(probe_seq(probes@)[i as int].site_id == site_id@);
            return Some(i);
        }
        i = i + 1;
    }
    None
}

impl Scheduler {
    /// Validity of the scheduler.
    pub open spec fn wf(&self) -> bool {
        scheduler_wf(self@)
    }

    /// An idle scheduler that lets `concurrency` probes run at the same
    /// time; `None` for a limit of 0, under which no probe could ever run.
    pub fn new(concurrency: usize) -> (scheduler: Option<Scheduler>)
        ensures
            scheduler is Some <==> concurrency >= 1,
            scheduler matches Some(s) ==> s.wf() && s@ == (SchedulerView {
                phase: Phase::Idle,
                running: Seq::empty(),
                waiting: Seq::empty(),
                concurrency: concurrency as nat,
                shutdown_requested: false,
            }),
    {
        if concurrency == 0 {
            return None;
        }
        let scheduler = Scheduler {
            phase: Phase::Idle,
            running: Vec::new(),
            waiting: Vec::new(),
            concurrency,
            shutdown_requested: false,
        };
        assert(scheduler@.running =~= Seq::empty());
        assert(scheduler@.waiting =~= Seq::empty());
        Some(scheduler)
    }

    /// An idle scheduler with the default limit of
    /// `DEFAULT_CONCURRENT_PROBES` probes.
    pub fn with_default_limit() -> (scheduler: Scheduler)
        ensures
            scheduler.wf(),
            scheduler@ == (SchedulerView {
                phase: Phase::Idle,
                running: Seq::empty(),
                waiting: Seq::empty(),
                concurrency: DEFAULT_CONCURRENT_PROBES as nat,
                shutdown_requested: false,
            }),
    {
        let scheduler = Scheduler {
            phase: Phase::Idle,
            running: Vec::new(),
            waiting: Vec::new(),
            concurrency: DEFAULT_CONCURRENT_PROBES,
            shutdown_requested: false,
        };
        assert(scheduler@.running =~= Seq::empty());
        assert(scheduler@.waiting =~= Seq::empty());
        scheduler
    }

    /// Place in the tick cycle.
    pub fn phase(&self) -> (phase: Phase)
        ensures
            phase == self@.phase,
    {
        self.phase
    }

    /// Number of probes that are running.
    pub fn in_flight(&self) -> (n: usize)
        ensures
            n == self@.running.len(),
    {
        self.running.len()
    }

    /// Number of probes that wait for a slot.
    pub fn waiting_count(&self) -> (n: usize)
        ensures
            n == self@.waiting.len(),
    {
        self.waiting.len()
    }

    /// Number of probes that may run at the same time.
    pub fn concurrency(&self) -> (n: usize)
        ensures
            n == self@.concurrency,
    {
        self.concurrency
    }

    /// Whether a probe of the site `site_id` is running.
    pub fn is_probing(&self, site_id: &str) -> (probing: bool)
        ensures
            probing == has_probe(self@.running, site_id@),
    {
        find_probe(&self.running, site_id).is_some()
    }

    /// Whether shutdown has been requested.
    pub fn is_shutdown_requested(&self) -> (requested: bool)
        ensures
            requested == self@.shutdown_requested,
    {
        self.shutdown_requested
    }

    /// Whether a tick may start a batch.
    pub fn may_tick(&self) -> (may: bool)
        ensures
            may == may_tick(self@),
    {
        let idle = match self.phase {
            Phase::Idle => true,
            _ => false,
        };
        idle && !self.shutdown_requested
    }

    /// Whether the driver should fire another tick: the scheduler has not
    /// stopped and no shutdown has been requested.
    pub fn is_running(&self) -> (running: bool)
        ensures
            running == (self@.phase != Phase::Stopped && !self@.shutdown_requested),
    {
        let stopped = match self.phase {
            Phase::Stopped => true,
            _ => false,
        };
        !stopped && !self.shutdown_requested
    }

    /// Whether a batch is running.
    pub fn is_awaiting_batch(&self) -> (awaiting: bool)
        ensures
            awaiting == (self@.phase == Phase::AwaitBatch),
    {
        match self.phase {
            Phase::AwaitBatch => true,
            _ => false,
        }
    }

    /// Takes the probes of a tick and hands out those that start at once: as
    /// many as may run, in order. The others wait for a slot. A scheduler
    /// that may not tick takes none and hands out none.
    pub fn dispatch(&mut self, planned: Vec<ProbeRequest>) -> (first: Vec<ProbeRequest>)
        requires
            old(self).wf(),
        ensures
            final(self).wf(),
            final(self)@ == dispatched(old(self)@, probe_seq(planned@)),
            probe_seq(first@) == handed_out(old(self)@, probe_seq(planned@)),
    {
        let mut first: Vec<ProbeRequest> = Vec::new();
        if !self.may_tick() {
            assert(probe_seq(first@) =~= Seq::empty());
            return first;
        }
        let mut running = planned;
        let count = if running.len() <= self.concurrency {
            running.len()
        } else {
            self.concurrency
        };
        let waiting = running.split_off(count);
        assert(probe_seq(running@) =~= probe_seq(planned@).subrange(0, count as int));
        assert(probe_seq(waiting@) =~= probe_seq(planned@).subrange(
            count as int,
            planned@.len() as int,
        ));
        let mut i: usize = 0;
        while i < running.len()
            invariant
                i <= running@.len(),
                first@.len() == i,
                forall|j: int| 0 <= j < i ==> (#[trigger] first@[j])@ == running@[j]@,
            decreases running@.len() - i,
        {
            first.push(running[i].duplicate());
            i = i + 1;
        }
        assert(probe_seq(first@) =~= probe_seq(running@));
        self.running = running;
        self.waiting = waiting;
        if count > 0 {
            self.phase = Phase::AwaitBatch;
        }
        first
    }

    /// Records that the running probe of the site `site_id` resolved, and
    /// gives the probe that takes its slot, if one waits. Where no probe of
    /// that site runs nothing changes.
    pub fn release(&mut self, site_id: &str) -> (next: Option<ProbeRequest>)
        requires
            old(self).wf(),
        ensures
            final(self).wf(),
            final(self)@ == released(old(self)@, site_id@),
            match next {
                Some(probe) => next_probe(old(self)@, site_id@) == Some(probe@),
                None => next_probe(old(self)@, site_id@) is None,
            },
    {
        let position = match find_probe(&self.running, site_id) {
            Some(i) => i,
            None => {
                return None;
            },
        };
        proof {
            lemma_first_probe(self@.running, site_id@, position as int);
        }
        let ghost before = self.running@;
        let _ = self.running.remove(position);
        assert(probe_seq(self.running@) =~= probe_seq(before).remove(position as int));
        if self.waiting.len() > 0 {
            let ghost queue = self.waiting@;
            let ghost rest = self.running@;
            let probe = self.waiting.remove(0);
            let next = probe.duplicate();
            self.running.push(probe);
            assert(probe_seq(self.waiting@) =~= probe_seq(queue).drop_first());
            assert(probe_seq(self.running@) =~= probe_seq(rest).push(probe_seq(queue)[0]));
            Some(next)
        } else {
            if self.running.len() == 0 {
                if self.shutdown_requested {
                    self.phase = Phase::Stopped;
                } else {
                    self.phase = Phase::Idle;
                }
            }
            None
        }
    }

    /// Requests shutdown and says whether this was the first request. No
    /// tick starts a batch from now on; a batch that runs may finish.
    pub fn request_stop(&mut self) -> (first: bool)
        requires
            old(self).wf(),
        ensures
            final(self).wf(),
            first == !old(self)@.shutdown_requested,
            first ==> final(self)@ == stop_requested(old(self)@),
            !first ==> final(self)@ == old(self)@,
    {
        if self.shutdown_requested {
            return false;
        }
        self.shutdown_requested = true;
        match self.phase {
            Phase::Idle => {
                self.phase = Phase::Stopped;
            },
            _ => {},
        }
        true
    }

    /// Stops the scheduler for good where no batch runs, as after a bus that
    /// takes no more updates.
    pub fn halt(&mut self)
        requires
            old(self).wf(),
        ensures
            final(self).wf(),
            final(self)@ == halted(old(self)@),
    {
        if self.running.len() == 0 {
            self.phase = Phase::Stopped;
        }
    }
}

/// The first probe of a site is where a search from the front finds it.
pub proof fn lemma_first_probe(probes: Seq<ProbeView>, id: Seq<char>, i: int)
    requires
        is_first_probe(probes, id, i),
    ensures
        has_probe(probes, id),
        first_probe(probes, id) == i,
{
    let k = first_probe(probes, id);
    assert(is_first_probe(probes, id, k));
    if k < i {
        assert(probes[k].site_id != id);
    } else if i < k {
        assert(probes[i].site_id != id);
    }
}

/// Where a probe of a site runs, there is a first one.
pub proof fn lemma_has_first_probe(probes: Seq<ProbeView>, id: Seq<char>)
    requires
        has_probe(probes, id),
    ensures
        is_first_probe(probes, id, first_probe(probes, id)),
    decreases probes.len(),
{
    let w = choose|i: int| 0 <= i < probes.len() && (#[trigger] probes[i]).site_id == id;
    let front = probes.subrange(0, w);
    if has_probe(front, id) {
        lemma_has_first_probe(front, id);
        let k = first_probe(front, id);
        assert(is_first_probe(front, id, k));
        assert(probes[k] == front[k]);
        assert forall|j: int| 0 <= j < k implies (#[trigger] probes[j]).site_id != id by {
            assert(front[j] == probes[j]);
        }
        assert(is_first_probe(probes, id, k));
    } else {
        assert forall|j: int| 0 <= j < w implies (#[trigger] probes[j]).site_id != id by {
            assert(front[j] == probes[j]);
        }
        assert(is_first_probe(probes, id, w));
    }
}

/// In every valid state of the scheduler no more probes run than the limit
/// allows, whatever was dispatched or released before.
pub proof fn lemma_in_flight_bounded(s: SchedulerView, planned: Seq<ProbeView>, id: Seq<char>)
    requires
        scheduler_wf(s),
    ensures
        s.running.len() <= s.concurrency,
        scheduler_wf(dispatched(s, planned)),
        dispatched(s, planned).running.len() <= s.concurrency,
        handed_out(s, planned).len() <= s.concurrency,
        scheduler_wf(released(s, id)),
        released(s, id).running.len() <= s.concurrency,
        scheduler_wf(stop_requested(s)),
        scheduler_wf(halted(s)),
{
    if has_probe(s.running, id) {
        lemma_has_first_probe(s.running, id);
    }
}

/// Once shutdown is requested no tick starts a batch, and the scheduler has
/// stopped as soon as no probe runs.
pub proof fn lemma_no_tick_after_stop(s: SchedulerView, planned: Seq<ProbeView>, id: Seq<char>)
    requires
        scheduler_wf(s),
        s.shutdown_requested,
    ensures
        dispatched(s, planned) == s,
        handed_out(s, planned).len() == 0,
        released(s, id).shutdown_requested,
        released(s, id).running.len() == 0 && s.running.len() > 0 ==> released(s, id).phase
            == Phase::Stopped,
        stop_requested(s).shutdown_requested,
{
    if has_probe(s.running, id) {
        lemma_has_first_probe(s.running, id);
    }
}

/// A batch ends exactly when every probe of its tick has resolved: a tick
/// leaves outstanding the probes it planned, each result of a running probe
/// takes that probe away and no other, and a batch is awaited exactly while
/// a probe is outstanding.
pub proof fn lemma_batch_drains(s: SchedulerView, planned: Seq<ProbeView>, id: Seq<char>)
    requires
        scheduler_wf(s),
    ensures
        (s.phase == Phase::AwaitBatch) == (outstanding(s).len() > 0),
        may_tick(s) ==> outstanding(dispatched(s, planned)) == planned,
        has_probe(s.running, id) ==> outstanding(released(s, id)) == outstanding(s).remove(
            first_probe(s.running, id),
        ),
        !has_probe(s.running, id) ==> released(s, id) == s,
{
    if may_tick(s) {
        assert(outstanding(dispatched(s, planned)) =~= planned);
    }
    if has_probe(s.running, id) {
        lemma_has_first_probe(s.running, id);
        assert(outstanding(released(s, id)) =~= outstanding(s).remove(first_probe(s.running, id)));
    }
}

} // verus!
