//! Status samples, the bounded history of one site and its availability.

use std::collections::VecDeque;
use vstd::prelude::*;

verus! {

/// Number of samples a site's history keeps by default.
pub const MAX_HISTORY_ENTRIES: usize = 20;

/// Outcome of one check of a site.
#[derive(Debug, Clone, Copy, PartialEq, Eq, Structural)]
pub enum UptimeStatus {
    /// The site answered with a success status.
    Up,
    /// The site did not answer, or answered with an error.
    Down,
    /// A check is in flight; the sample is a placeholder.
    Loading,
}

/// One sample of a site's history.
#[derive(Debug, Clone, Copy, PartialEq, Eq)]
pub struct HistoryEntry {
    /// Recorded status of the check.
    pub status: UptimeStatus,
    /// Time the check took, in milliseconds; absent while it is in flight.
    pub response_time_ms: Option<u64>,
}

/// The placeholder sample that marks a check in flight.
pub open spec fn pending_entry() -> HistoryEntry {
    HistoryEntry { status: UptimeStatus::Loading, response_time_ms: None }
}

/// Whether the newest sample of `h` is a placeholder.
pub open spec fn ends_pending(h: Seq<HistoryEntry>) -> bool {
    h.len() > 0 && h.last().status == UptimeStatus::Loading
}

/// `h` with `e` added at the end, the oldest sample leaving when the result
/// would hold more than `capacity` samples.
pub open spec fn appended(h: Seq<HistoryEntry>, e: HistoryEntry, capacity: nat) -> Seq<HistoryEntry> {
    if h.len() + 1 > capacity {
        h.push(e).subrange(1, h.len() as int + 1)
    } else {
        h.push(e)
    }
}

/// History after a check of it has begun: a placeholder is added.
pub open spec fn begun(h: Seq<HistoryEntry>, capacity: nat) -> Seq<HistoryEntry> {
    appended(h, pending_entry(), capacity)
}

/// History after a check resolved to `e`: a trailing placeholder is replaced
/// in place, otherwise `e` is added.
pub open spec fn completed(h: Seq<HistoryEntry>, e: HistoryEntry, capacity: nat) -> Seq<HistoryEntry> {
    if ends_pending(h) {
        h.update(h.len() - 1, e)
    } else {
        appended(h, e, capacity)
    }
}

/// Adds `entry` to the history, evicting the oldest sample beyond `capacity`.
pub fn append_bounded(site_history: &mut VecDeque<HistoryEntry>, entry: HistoryEntry, capacity: usize)
    ensures
        final(site_history)@ == appended(old(site_history)@, entry, capacity as nat),
        old(site_history)@.len() <= capacity ==> final(site_history)@.len() <= capacity,
{
    site_history.push_back(entry);
    if site_history.len() > capacity {
        let _ = site_history.pop_front();
    }
}

/// Records the resolved check `(final_status, response_time_ms)` in a history
/// bounded by `capacity`.
pub fn complete_history(
    site_history: &mut VecDeque<HistoryEntry>,
    final_status: UptimeStatus,
    response_time_ms: Option<u64>,
    capacity: usize,
)
    ensures
        final(site_history)@ == completed(
            old(site_history)@,
            (HistoryEntry { status: final_status, response_time_ms }),
            capacity as nat,
        ),
        old(site_history)@.len() <= capacity ==> final(site_history)@.len() <= capacity,
{
    let entry = HistoryEntry { status: final_status, response_time_ms };
    let n = site_history.len();
    if n > 0 && is_loading(site_history[n - 1].status) {
        let _ = site_history.pop_back();
        site_history.push_back(entry);
        assert(site_history@ =~= old(site_history)@.update(n - 1, entry));
    } else {
        append_bounded(site_history, entry, capacity);
    }
}

/// Whether `status` is the placeholder status.
pub fn is_loading(status: UptimeStatus) -> (b: bool)
    ensures
        b == (status == UptimeStatus::Loading),
{
    match status {
        UptimeStatus::Loading => true,
        _ => false,
    }
}

/// Replaces a trailing `Loading` sample with the final status, or adds the
/// final status and keeps the history within `MAX_HISTORY_ENTRIES`.
pub fn apply_final_status(
    site_history: &mut VecDeque<HistoryEntry>,
    final_status: UptimeStatus,
    response_time_ms: Option<u64>,
)
    ensures
        final(site_history)@ == completed(
            old(site_history)@,
            (HistoryEntry { status: final_status, response_time_ms }),
            MAX_HISTORY_ENTRIES as nat,
        ),
        old(site_history)@.len() <= MAX_HISTORY_ENTRIES ==> final(site_history)@.len()
            <= MAX_HISTORY_ENTRIES,
{
    complete_history(site_history, final_status, response_time_ms, MAX_HISTORY_ENTRIES);
}

/// Marks a check of the site as begun: adds a placeholder sample, keeping the
/// history within `capacity`.
pub fn begin_history(site_history: &mut VecDeque<HistoryEntry>, capacity: usize)
    ensures
        final(site_history)@ == begun(old(site_history)@, capacity as nat),
        old(site_history)@.len() <= capacity ==> final(site_history)@.len() <= capacity,
{
    append_bounded(
        site_history,
        HistoryEntry { status: UptimeStatus::Loading, response_time_ms: None },
        capacity,
    );
}

/// Number of samples of `h` whose status is `s`.
pub open spec fn count_status(h: Seq<HistoryEntry>, s: UptimeStatus) -> nat
    decreases h.len(),
{
    if h.len() == 0 {
        0
    } else {
        count_status(h.drop_last(), s) + if h.last().status == s {
            1nat
        } else {
            0nat
        }
    }
}

/// Number of samples of `h` that are not placeholders.
pub open spec fn resolved_count(h: Seq<HistoryEntry>) -> nat {
    (h.len() - count_status(h, UptimeStatus::Loading)) as nat
}

/// `part` out of `whole` as a percentage in hundredths of a percent, rounded
/// to the nearest hundredth with halves going up; 0 when `whole` is 0.
pub open spec fn percent_hundredths(part: nat, whole: nat) -> nat {
    if whole == 0 {
        0
    } else {
        (20000 * part + whole) / (2 * whole)
    }
}

/// Availability of a history in hundredths of a percent: the `Up` samples out
/// of the samples that are not placeholders.
pub open spec fn availability_hundredths(h: Seq<HistoryEntry>) -> nat {
    percent_hundredths(count_status(h, UptimeStatus::Up), resolved_count(h))
}

/// Two different statuses together never count more often than there are
/// samples.
pub proof fn lemma_counts_disjoint(h: Seq<HistoryEntry>, s: UptimeStatus, t: UptimeStatus)
    requires
        s != t,
    ensures
        count_status(h, s) + count_status(h, t) <= h.len(),
    decreases h.len(),
{
    if h.len() > 0 {
        lemma_counts_disjoint(h.drop_last(), s, t);
    }
}

/// Counts the samples of the history with status `wanted`.
pub fn count_entries(site_history: &VecDeque<HistoryEntry>, wanted: UptimeStatus) -> (n: usize)
    ensures
        n == count_status(site_history@, wanted),
{
    let mut n: usize = 0;
    let mut i: usize = 0;
    while i < site_history.len()
        invariant
            i <= site_history@.len(),
            n == count_status(site_history@.subrange(0, i as int), wanted),
            n <= i,
        decreases site_history@.len() - i,
    {
        let entry = site_history[i];
        proof {
            let next = site_history@.subrange(0, i as int + 1);
            assert(next.drop_last() =~= site_history@.subrange(0, i as int));
            assert(next.last() == site_history@[i as int]);
        }
        if same_status(entry.status, wanted) {
            n = n + 1;
        }
        i = i + 1;
    }
    assert(site_history@.subrange(0, i as int) =~= site_history@);
    n
}

/// Whether two statuses are the same.
pub fn same_status(a: UptimeStatus, b: UptimeStatus) -> (r: bool)
    ensures
        r == (a == b),
{
    match (a, b) {
        (UptimeStatus::Up, UptimeStatus::Up) => true,
        (UptimeStatus::Down, UptimeStatus::Down) => true,
        (UptimeStatus::Loading, UptimeStatus::Loading) => true,
        _ => false,
    }
}

/// Availability of a site in hundredths of a percent (7500 stands for 75.00):
/// the share of `Up` among the samples that are not `Loading`, and 0 when
/// there is no such sample.
pub fn calculate_uptime_percentage(site_history: &VecDeque<HistoryEntry>) -> (pct: u64)
    ensures
        pct == availability_hundredths(site_history@),
        pct <= 10000,
{
    let up_count = count_entries(site_history, UptimeStatus::Up);
    let loading_count = count_entries(site_history, UptimeStatus::Loading);
    proof {
        lemma_counts_disjoint(site_history@, UptimeStatus::Up, UptimeStatus::Loading);
    }
    let count_excluding_loading = site_history.len() - loading_count;
    percentage_of(up_count, count_excluding_loading)
}

/// `part` out of `whole` in hundredths of a percent, rounded to the nearest
/// hundredth; 0 when `whole` is 0.
fn percentage_of(part: usize, whole: usize) -> (pct: u64)
    requires
        part <= whole,
    ensures
        pct == percent_hundredths(part as nat, whole as nat),
        pct <= 10000,
{
    if whole == 0 {
        0
    } else {
        let p: u128 = part as u128;
        let w: u128 = whole as u128;
        let q: u128 = (20000 * p + w) / (2 * w);
        assert(q <= 10000) by (nonlinear_arith)
            requires
                q == (20000 * p + w) / (2 * w),
                p <= w,
                w > 0,
        ;
        q as u64
    }
}

/// What a snapshot of a site says, as plain values.
pub struct SnapshotView {
    pub site_id: Seq<char>,
    pub status: UptimeStatus,
    pub timestamp: u64,
    pub history: Seq<HistoryEntry>,
    pub uptime_percentage: u64,
    pub response_time_ms: Option<u64>,
}

/// Read-only projection of a site's state, as it is sent to subscribers.
#[derive(Debug, Clone)]
pub struct UptimeHistory {
    /// Identifier of the site (its name).
    pub site_id: String,
    /// Current status of the site.
    pub status: UptimeStatus,
    /// Unix time, in seconds, at which the projection was made.
    pub timestamp: u64,
    /// The site's samples, oldest first.
    pub history: Vec<HistoryEntry>,
    /// Availability in hundredths of a percent (7500 stands for 75.00).
    pub uptime_percentage: u64,
    /// Time the latest check took, in milliseconds, where known.
    pub response_time_ms: Option<u64>,
}

impl View for UptimeHistory {
    type V = SnapshotView;

    open spec fn view(&self) -> SnapshotView {
        SnapshotView {
            site_id: self.site_id@,
            status: self.status,
            timestamp: self.timestamp,
            history: self.history@,
            uptime_percentage: self.uptime_percentage,
            response_time_ms: self.response_time_ms,
        }
    }
}

/// What a vector of snapshots says, element by element.
pub open spec fn snapshot_seq(snapshots: Seq<UptimeHistory>) -> Seq<SnapshotView> {
    Seq::new(snapshots.len(), |i: int| snapshots[i]@)
}

impl UptimeHistory {
    /// A copy that says the same as `self`.
    pub fn duplicate(&self) -> (copy: UptimeHistory)
        ensures
            copy@ == self@,
    {
        let mut history: Vec<HistoryEntry> = Vec::new();
        let mut i: usize = 0;
        while i < self.history.len()
            invariant
                i <= self.history@.len(),
                history@ == self.history@.subrange(0, i as int),
            decreases self.history@.len() - i,
        {
            history.push(self.history[i]);
            assert(history@ =~= self.history@.subrange(0, i as int + 1));
            i = i + 1;
        }
        assert(history@ =~= self.history@);
        UptimeHistory {
            site_id: self.site_id.clone(),
            status: self.status,
            timestamp: self.timestamp,
            history,
            uptime_percentage: self.uptime_percentage,
            response_time_ms: self.response_time_ms,
        }
    }
}

/// The samples of a history as a vector, oldest first.
pub fn history_to_vec(site_history: &VecDeque<HistoryEntry>) -> (v: Vec<HistoryEntry>)
    ensures
        v@ == site_history@,
{
    let mut v: Vec<HistoryEntry> = Vec::new();
    let mut i: usize = 0;
    while i < site_history.len()
        invariant
            i <= site_history@.len(),
            v@ == site_history@.subrange(0, i as int),
        decreases site_history@.len() - i,
    {
        v.push(site_history[i]);
        assert(v@ =~= site_history@.subrange(0, i as int + 1));
        i = i + 1;
    }
    assert(v@ =~= site_history@);
    v
}

/// Builds the projection of a site from its parts, stamped with `timestamp`.
pub fn uptime_history_at(
    site_name: &str,
    current_status: UptimeStatus,
    site_history: &VecDeque<HistoryEntry>,
    uptime_percentage: u64,
    response_time_ms: Option<u64>,
    timestamp: u64,
) -> (snapshot: UptimeHistory)
    ensures
        snapshot@ == (SnapshotView {
            site_id: site_name@,
            status: current_status,
            timestamp,
            history: site_history@,
            uptime_percentage,
            response_time_ms,
        }),
{
    UptimeHistory {
        site_id: site_name.to_owned(),
        status: current_status,
        timestamp,
        history: history_to_vec(site_history),
        uptime_percentage,
        response_time_ms,
    }
}

/// Asks `std::time::SystemTime::elapsed` how long ago the Unix epoch was and
/// gives the whole seconds; nothing where the clock stands before the epoch.
/// Nothing is promised of the value: it is whatever the clock says.
#[verifier::external_body]
fn system_clock_reading() -> (elapsed: Option<u64>) {
    match std::time::UNIX_EPOCH.elapsed() {
        Ok(elapsed) => Some(elapsed.as_secs()),
        Err(_) => None,
    }
}

/// The timestamp that stands for a reading of the clock: the seconds read,
/// and 0 for a clock that stands before the Unix epoch.
pub fn seconds_or_zero(reading: Option<u64>) -> (seconds: u64)
    ensures
        seconds == match reading {
            Some(s) => s,
            None => 0,
        },
{
    match reading {
        Some(s) => s,
        None => 0,
    }
}

/// Current Unix time in whole seconds, as the system clock gives it; 0 where
/// the clock stands before the Unix epoch.
pub fn current_timestamp() -> (seconds: u64) {
    seconds_or_zero(system_clock_reading())
}

/// Builds the projection of a site from its parts, stamped with the current
/// time.
pub fn create_uptime_history(
    site_name: &str,
    current_status: UptimeStatus,
    site_history: &VecDeque<HistoryEntry>,
    uptime_percentage: u64,
    response_time_ms: Option<u64>,
) -> (snapshot: UptimeHistory)
    ensures
        snapshot@ == (SnapshotView {
            site_id: site_name@,
            status: current_status,
            timestamp: snapshot@.timestamp,
            history: site_history@,
            uptime_percentage,
            response_time_ms,
        }),
{
    let timestamp = current_timestamp();
    uptime_history_at(
        site_name,
        current_status,
        site_history,
        uptime_percentage,
        response_time_ms,
        timestamp,
    )
}

/// Result of one probe of a site.
#[derive(Debug, Clone, Copy, PartialEq, Eq)]
pub struct SiteCheckResult {
    /// Classification of the attempt.
    pub status: UptimeStatus,
    /// Wall-clock time the attempt took, in milliseconds.
    pub response_time_ms: Option<u64>,
}

/// Classification of a probe from what came back: `Up` for a status code of
/// the success class (200 to 299), `Down` for every other code and for an
/// attempt that gave no response (a transport error or a timeout).
pub open spec fn classification(http_status: Option<u16>) -> UptimeStatus {
    match http_status {
        Some(code) => if 200 <= code < 300 {
            UptimeStatus::Up
        } else {
            UptimeStatus::Down
        },
        None => UptimeStatus::Down,
    }
}

/// Milliseconds as they are reported: the measured value, or `u64::MAX` where
/// it does not fit.
pub open spec fn reported_millis(elapsed_ms: u128) -> u64 {
    if elapsed_ms <= u64::MAX {
        elapsed_ms as u64
    } else {
        u64::MAX
    }
}

/// Turns the outcome of one probe into its result: the classification of the
/// response and the elapsed time, which is reported on failure too.
pub fn site_check_result(http_status: Option<u16>, elapsed_ms: u128) -> (result: SiteCheckResult)
    ensures
        result.status == classification(http_status),
        result.response_time_ms == Some(reported_millis(elapsed_ms)),
{
    let status = match http_status {
        Some(code) => {
            if 200 <= code && code < 300 {
                UptimeStatus::Up
            } else {
                UptimeStatus::Down
            }
        },
        None => UptimeStatus::Down,
    };
    let response_time_ms: u64 = if elapsed_ms <= u64::MAX as u128 {
        elapsed_ms as u64
    } else {
        u64::MAX
    };
    SiteCheckResult { status, response_time_ms: Some(response_time_ms) }
}

/// The result that stands for a probe that ended without an outcome: the
/// site counts as `Down`, and no time was measured.
pub fn aborted_check_result() -> (result: SiteCheckResult)
    ensures
        result.status == UptimeStatus::Down,
        result.response_time_ms is None,
{
    SiteCheckResult { status: UptimeStatus::Down, response_time_ms: None }
}

} // verus!
