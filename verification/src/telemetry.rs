//! Telemetry: what is forwarded to the collector, and whether anything is.

use crate::engine::UptimeState;
use crate::text::{is_blank, is_blank_text};
use crate::uptime::{is_loading, snapshot_seq, SnapshotView, UptimeHistory, UptimeStatus};
use vstd::prelude::*;

verus! {

/// A click on a site of the dashboard, as the page reports it.
#[derive(Debug, Clone)]
pub struct SiteClickEvent {
    pub site_name: String,
    pub site_url: String,
}

impl SiteClickEvent {
    /// Whether the event names a site and an address: neither is empty or
    /// made of white space alone.
    pub fn is_complete(&self) -> (complete: bool)
        ensures
            complete == (!is_blank(self.site_name@) && !is_blank(self.site_url@)),
    {
        !is_blank_text(self.site_name.as_str()) && !is_blank_text(self.site_url.as_str())
    }
}

/// One header of the request that carried a click.
#[derive(Debug, Clone)]
pub struct HeaderRecord {
    pub name: String,
    pub value: String,
}

/// What is forwarded for a click.
#[derive(Debug, Clone)]
pub struct ClickTelemetryPayload {
    /// Name of the dashboard that sends the payload.
    pub dashboard_name: String,
    /// Unix time, in seconds, at which the payload was made.
    pub generated_at: u64,
    pub site_name: String,
    pub site_url: String,
    pub headers: Vec<HeaderRecord>,
}

/// What the latest status of a site says, as plain values.
pub struct SiteStatusView {
    pub site_id: Seq<char>,
    pub status: UptimeStatus,
    pub timestamp: u64,
    pub response_time_ms: Option<u64>,
}

/// Latest status of one site, as it is forwarded.
#[derive(Debug, Clone)]
pub struct TelemetrySiteStatus {
    pub site_id: String,
    pub status: UptimeStatus,
    pub timestamp: u64,
    pub response_time_ms: Option<u64>,
}

impl View for TelemetrySiteStatus {
    type V = SiteStatusView;

    open spec fn view(&self) -> SiteStatusView {
        SiteStatusView {
            site_id: self.site_id@,
            status: self.status,
            timestamp: self.timestamp,
            response_time_ms: self.response_time_ms,
        }
    }
}

/// What a vector of site statuses says, element by element.
pub open spec fn status_seq(statuses: Seq<TelemetrySiteStatus>) -> Seq<SiteStatusView> {
    Seq::new(statuses.len(), |i: int| statuses[i]@)
}

/// What is forwarded for the uptime of all sites.
#[derive(Debug, Clone)]
pub struct UptimeTelemetryPayload {
    /// Name of the dashboard that sends the payload.
    pub dashboard_name: String,
    /// Unix time, in seconds, at which the payload was made.
    pub generated_at: u64,
    /// Latest status of each site whose status is known.
    pub uptime: Vec<TelemetrySiteStatus>,
}

/// The status that is forwarded for a snapshot.
pub open spec fn forwarded_status(snapshot: SnapshotView) -> SiteStatusView {
    SiteStatusView {
        site_id: snapshot.site_id,
        status: snapshot.status,
        timestamp: snapshot.timestamp,
        response_time_ms: snapshot.response_time_ms,
    }
}

/// The statuses that are forwarded for `snapshots`: one for each snapshot
/// whose status is not `Loading`, in order.
pub open spec fn forwarded(snapshots: Seq<SnapshotView>) -> Seq<SiteStatusView>
    decreases snapshots.len(),
{
    if snapshots.len() == 0 {
        Seq::empty()
    } else if snapshots.last().status == UptimeStatus::Loading {
        forwarded(snapshots.drop_last())
    } else {
        forwarded(snapshots.drop_last()).push(forwarded_status(snapshots.last()))
    }
}

/// Where telemetry goes: the endpoint and the dashboard name that the
/// configuration gives.
pub open spec fn destination(endpoint: Option<String>, site_name: String) -> Option<
    (Seq<char>, Seq<char>),
> {
    match endpoint {
        Some(e) => if is_blank(e@) {
            None
        } else {
            Some((e@, site_name@))
        },
        None => None,
    }
}

/// The text of both parts of an optional pair of strings.
pub open spec fn pair_text(pair: Option<(String, String)>) -> Option<(Seq<char>, Seq<char>)> {
    match pair {
        Some((a, b)) => Some((a@, b@)),
        None => None,
    }
}

/// The endpoint to which telemetry goes and the name of the dashboard, where
/// the configuration names an endpoint that is not empty.
pub fn telemetry_destination(state: &UptimeState) -> (target: Option<(String, String)>)
    ensures
        pair_text(target) == destination(
            state.spec_config().opentelemetry_endpoint,
            state.spec_config().site_name,
        ),
{
    let config = state.config();
    match &config.opentelemetry_endpoint {
        Some(endpoint) => {
            if is_blank_text(endpoint.as_str()) {
                None
            } else {
                Some((endpoint.clone(), config.site_name.clone()))
            }
        },
        None => None,
    }
}

/// The payload that reports `snapshots`: the latest status of every site
/// whose status is not `Loading`.
pub fn uptime_telemetry_payload(
    snapshots: &Vec<UptimeHistory>,
    dashboard_name: String,
    generated_at: u64,
) -> (payload: UptimeTelemetryPayload)
    ensures
        payload.dashboard_name == dashboard_name,
        payload.generated_at == generated_at,
        status_seq(payload.uptime@) == forwarded(snapshot_seq(snapshots@)),
{
    let mut uptime: Vec<TelemetrySiteStatus> = Vec::new();
    let ghost all = snapshot_seq(snapshots@);
    let mut i: usize = 0;
    assert(all.subrange(0, 0) =~= Seq::<SnapshotView>::empty());
    assert(status_seq(uptime@) =~= Seq::<SiteStatusView>::empty());
    while i < snapshots.len()
        invariant
            i <= snapshots@.len(),
            all == snapshot_seq(snapshots@),
            status_seq(uptime@) == forwarded(all.subrange(0, i as int)),
        decreases snapshots@.len() - i,
    {
        let snapshot = &snapshots[i];
        proof {
            let next = all.subrange(0, i as int + 1);
            assert(next.drop_last() =~= all.subrange(0, i as int));
            assert(next.last() == snapshot@);
        }
        if !is_loading(snapshot.status) {
            let ghost before = status_seq(uptime@);
            uptime.push(
                TelemetrySiteStatus {
                    site_id: snapshot.site_id.clone(),
                    status: snapshot.status,
                    timestamp: snapshot.timestamp,
                    response_time_ms: snapshot.response_time_ms,
                },
            );
            assert(status_seq(uptime@) =~= before.push(forwarded_status(snapshot@)));
        }
        i = i + 1;
    }
    assert(all.subrange(0, i as int) =~= all);
    UptimeTelemetryPayload { dashboard_name, generated_at, uptime }
}

/// The payload to send to `endpoint` for the current state of all sites;
/// nothing where the endpoint is empty.
pub fn uptime_snapshot_payload(
    state: &UptimeState,
    dashboard_name: String,
    endpoint: &str,
    now: u64,
) -> (payload: Option<UptimeTelemetryPayload>)
    ensures
        payload is None <==> is_blank(endpoint@),
        payload matches Some(p) ==> {
            &&& p.dashboard_name == dashboard_name
            &&& p.generated_at == now
            &&& status_seq(p.uptime@) == forwarded(
                crate::store::snapshot_views(state.timelines(), now),
            )
        },
{
    if is_blank_text(endpoint) {
        return None;
    }
    let snapshots = state.history().snapshot_all(now);
    Some(uptime_telemetry_payload(&snapshots, dashboard_name, now))
}

/// The payload that reports a click.
pub fn click_telemetry_payload(
    click: &SiteClickEvent,
    dashboard_name: String,
    generated_at: u64,
    headers: Vec<HeaderRecord>,
) -> (payload: ClickTelemetryPayload)
    ensures
        payload.dashboard_name == dashboard_name,
        payload.generated_at == generated_at,
        payload.site_name@ == click.site_name@,
        payload.site_url@ == click.site_url@,
        payload.headers == headers,
{
    ClickTelemetryPayload {
        dashboard_name,
        generated_at,
        site_name: click.site_name.clone(),
        site_url: click.site_url.clone(),
        headers,
    }
}

} // verus!
