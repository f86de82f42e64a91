use iron_shield::bus::{BusEvent, UpdateBus};
use iron_shield::config::{Clock, Config, Site};
use iron_shield::engine::{mark_all_pending, track_sites, UptimeState, DEFAULT_MAILBOX_LIMIT};
use iron_shield::scheduler::{
    find_probe, Phase, ProbeRequest, Scheduler, DEFAULT_CONCURRENT_PROBES, PROBE_TIMEOUT_SECS,
    TICK_INTERVAL_SECS,
};
use iron_shield::store::TimelineStore;
use iron_shield::telemetry::{
    click_telemetry_payload, telemetry_destination, uptime_snapshot_payload,
    uptime_telemetry_payload, HeaderRecord, SiteClickEvent,
};
use iron_shield::uptime::{HistoryEntry, UptimeStatus};

fn site(name: &str, disabled: bool) -> Site {
    Site {
        name: name.to_string(),
        url: format!("https://{name}.example"),
        category: String::new(),
        tags: vec![],
        monitor_interval_secs: 5,
        disabled,
        uptime_percentage: 0,
    }
}

fn config_of(sites: Vec<Site>) -> Config {
    Config {
        site_name: "Dash".to_string(),
        clock: Clock::NoClock,
        opentelemetry_endpoint: None,
        sites,
    }
}

fn engine_with(names: &[&str]) -> UptimeState {
    UptimeState::new(
        config_of(names.iter().map(|n| site(n, false)).collect()),
        "config.json5".to_string(),
    )
}

fn statuses(events: &[BusEvent]) -> Vec<Vec<(String, UptimeStatus)>> {
    events
        .iter()
        .map(|event| match event {
            BusEvent::Update(snapshots) => snapshots
                .iter()
                .map(|s| (s.site_id.clone(), s.status))
                .collect(),
            BusEvent::Control(message) => vec![(format!("control: {message}"), UptimeStatus::Loading)],
        })
        .collect()
}

fn entry(status: UptimeStatus, ms: Option<u64>) -> HistoryEntry {
    HistoryEntry { status, response_time_ms: ms }
}

#[test]
fn store_begin_and_complete_per_site() {
    let mut store = TimelineStore::new();
    assert_eq!(store.capacity(), 20);
    assert_eq!(store.len(), 0);
    assert!(!store.contains("a"));

    store.begin_check("a");
    assert!(store.contains("a"));
    assert_eq!(store.history_of("a"), vec![entry(UptimeStatus::Loading, None)]);

    store.complete_check("a", UptimeStatus::Up, Some(30));
    assert_eq!(store.history_of("a"), vec![entry(UptimeStatus::Up, Some(30))]);

    // a result without a begun check is added, and creates the timeline
    store.complete_check("b", UptimeStatus::Down, Some(9));
    store.complete_check("b", UptimeStatus::Up, Some(8));
    assert_eq!(
        store.history_of("b"),
        vec![entry(UptimeStatus::Down, Some(9)), entry(UptimeStatus::Up, Some(8))]
    );
    assert_eq!(store.history_of("a").len(), 1);
    assert_eq!(store.len(), 2);
    assert_eq!(store.history_of("unknown"), vec![]);
    assert!(!store.contains("unknown"));
}

#[test]
fn store_keeps_every_history_within_capacity() {
    let mut store = TimelineStore::with_capacity(4);
    for round in 0..30u64 {
        for name in ["a", "b", "c"] {
            store.begin_check(name);
            assert!(store.history_of(name).len() <= 4);
            let status = if round % 2 == 0 { UptimeStatus::Up } else { UptimeStatus::Down };
            store.complete_check(name, status, Some(round));
            assert!(store.history_of(name).len() <= 4);
        }
    }
    assert_eq!(store.history_of("a").len(), 4);
    assert_eq!(
        store.history_of("a").iter().map(|e| e.response_time_ms).collect::<Vec<_>>(),
        vec![Some(26), Some(27), Some(28), Some(29)]
    );
    assert_eq!(store.len(), 3);
}

#[test]
fn store_ensure_site_records_nothing() {
    let mut store = TimelineStore::new();
    store.ensure_site("a");
    store.ensure_site("a");
    assert_eq!(store.len(), 1);
    assert!(store.contains("a"));
    assert_eq!(store.history_of("a"), vec![]);
    let snapshot = store.snapshot("a", 5).unwrap();
    assert_eq!(snapshot.status, UptimeStatus::Loading);
    assert_eq!(snapshot.uptime_percentage, 0);
    assert_eq!(snapshot.response_time_ms, None);
}

#[test]
fn store_snapshot_projects_the_timeline() {
    let mut store = TimelineStore::new();
    assert!(store.snapshot("a", 1).is_none());
    store.complete_check("a", UptimeStatus::Up, Some(10));
    store.complete_check("a", UptimeStatus::Up, Some(11));
    store.complete_check("a", UptimeStatus::Down, Some(12));

    let resolved = store.snapshot("a", 1000).unwrap();
    assert_eq!(resolved.site_id, "a");
    assert_eq!(resolved.status, UptimeStatus::Down);
    assert_eq!(resolved.timestamp, 1000);
    assert_eq!(resolved.history.len(), 3);
    assert_eq!(resolved.uptime_percentage, 6667);
    assert_eq!(resolved.response_time_ms, Some(12));

    // a pending sample shows as Loading and stays out of the availability
    store.begin_check("a");
    let pending = store.snapshot("a", 1001).unwrap();
    assert_eq!(pending.status, UptimeStatus::Loading);
    assert_eq!(pending.history.len(), 4);
    assert_eq!(pending.uptime_percentage, 6667);
    assert_eq!(pending.response_time_ms, None);

    store.complete_check("a", UptimeStatus::Up, Some(13));
    let again = store.snapshot("a", 1002).unwrap();
    assert_eq!(again.status, UptimeStatus::Up);
    assert_eq!(again.history.len(), 4);
    assert_eq!(again.uptime_percentage, 7500);
    assert_eq!(again.response_time_ms, Some(13));
}

#[test]
fn store_snapshot_all_is_in_first_seen_order() {
    let mut store = TimelineStore::new();
    store.begin_check("b");
    store.complete_check("a", UptimeStatus::Up, Some(1));
    store.begin_check("c");
    store.complete_check("b", UptimeStatus::Down, Some(2));
    let all = store.snapshot_all(9);
    assert_eq!(
        all.iter().map(|s| (s.site_id.as_str(), s.status, s.timestamp)).collect::<Vec<_>>(),
        vec![
            ("b", UptimeStatus::Down, 9),
            ("a", UptimeStatus::Up, 9),
            ("c", UptimeStatus::Loading, 9)
        ]
    );
    assert!(TimelineStore::new().snapshot_all(1).is_empty());
}

#[test]
fn bus_fans_out_independent_copies() {
    let mut store = TimelineStore::new();
    store.complete_check("a", UptimeStatus::Up, Some(1));
    let mut bus = UpdateBus::new(8);
    let first = bus.subscribe(vec![]).unwrap();
    let second = bus.subscribe(store.snapshot_all(1)).unwrap();
    assert_ne!(first, second);
    assert_eq!(bus.subscriber_count(), 2);
    assert_eq!(bus.waiting_events(first), 1);

    assert!(bus.publish(&store.snapshot_all(2)));
    bus.announce("bye");

    let taken = bus.take_events(second);
    assert_eq!(
        statuses(&taken),
        vec![
            vec![("a".to_string(), UptimeStatus::Up)],
            vec![("a".to_string(), UptimeStatus::Up)],
            vec![("control: bye".to_string(), UptimeStatus::Loading)],
        ]
    );
    // taking empties one mailbox and leaves the other
    assert_eq!(bus.waiting_events(second), 0);
    assert!(bus.take_events(second).is_empty());
    assert_eq!(bus.waiting_events(first), 3);
    assert_eq!(bus.take_events(first).len(), 3);
    assert!(bus.take_events(99).is_empty());
    assert_eq!(bus.waiting_events(99), 0);
}

#[test]
fn bus_drops_updates_for_a_full_mailbox_only() {
    let mut bus = UpdateBus::new(2);
    let slow = bus.subscribe(vec![]).unwrap();
    let fast = bus.subscribe(vec![]).unwrap();
    assert!(bus.publish(&vec![]));
    // `fast` reads, `slow` does not
    assert_eq!(bus.take_events(fast).len(), 2);
    assert!(bus.publish(&vec![]));
    assert!(bus.publish(&vec![]));
    assert_eq!(bus.waiting_events(slow), 2);
    assert_eq!(bus.waiting_events(fast), 2);
    // a notice reaches a full mailbox too
    bus.announce("stop");
    assert_eq!(bus.waiting_events(slow), 3);
    assert_eq!(bus.waiting_events(fast), 3);
    assert!(matches!(bus.take_events(slow).last(), Some(BusEvent::Control(m)) if m == "stop"));
}

#[test]
fn bus_unsubscribe_and_close() {
    let mut bus = UpdateBus::new(4);
    let a = bus.subscribe(vec![]).unwrap();
    let b = bus.subscribe(vec![]).unwrap();
    let c = bus.subscribe(vec![]).unwrap();
    assert!(bus.unsubscribe(b));
    assert!(!bus.unsubscribe(b));
    assert_eq!(bus.subscriber_count(), 2);
    assert!(bus.publish(&vec![]));
    assert_eq!(bus.waiting_events(a), 2);
    assert_eq!(bus.waiting_events(b), 0);
    assert_eq!(bus.waiting_events(c), 2);
    // ids are not given out again
    let d = bus.subscribe(vec![]).unwrap();
    assert!(d != a && d != b && d != c);

    assert!(!bus.is_closed());
    bus.close();
    assert!(bus.is_closed());
    assert!(!bus.publish(&vec![]));
    assert_eq!(bus.waiting_events(a), 2);
    assert!(bus.subscribe(vec![]).is_none());
    assert_eq!(bus.subscriber_count(), 3);
}

#[test]
fn new_subscriber_gets_full_state_first() {
    let mut engine = engine_with(&["a", "b"]);
    let probes = engine.start_tick(100);
    assert_eq!(probes.len(), 2);
    assert!(engine.finish_probe("a", UptimeStatus::Up, Some(20), 101).is_empty());

    let id = engine.subscribe(102).unwrap();
    let first = engine.take_events(id);
    assert_eq!(first.len(), 1);
    assert_eq!(
        statuses(&first),
        vec![vec![
            ("a".to_string(), UptimeStatus::Up),
            ("b".to_string(), UptimeStatus::Loading)
        ]]
    );
    match &first[0] {
        BusEvent::Update(snapshots) => {
            assert_eq!(snapshots[0].timestamp, 102);
            assert_eq!(snapshots[0].response_time_ms, Some(20));
            assert_eq!(snapshots[0].uptime_percentage, 10000);
        }
        BusEvent::Control(_) => panic!("the first event is an update"),
    }

    // what follows comes after it
    let id2 = engine.subscribe(103).unwrap();
    engine.finish_probe("b", UptimeStatus::Down, Some(30), 104);
    let events = engine.take_events(id2);
    assert_eq!(
        statuses(&events),
        vec![
            vec![
                ("a".to_string(), UptimeStatus::Up),
                ("b".to_string(), UptimeStatus::Loading)
            ],
            vec![("b".to_string(), UptimeStatus::Down)],
        ]
    );
}

#[test]
fn subscriber_of_an_empty_engine_gets_an_empty_update() {
    let mut engine = engine_with(&[]);
    let id = engine.subscribe(1).unwrap();
    let events = engine.take_events(id);
    assert_eq!(events.len(), 1);
    assert!(matches!(&events[0], BusEvent::Update(s) if s.is_empty()));
}

#[test]
fn at_most_ten_probes_run_with_twenty_five_targets() {
    let names: Vec<String> = (0..25).map(|i| format!("site{i}")).collect();
    let refs: Vec<&str> = names.iter().map(|s| s.as_str()).collect();
    let mut engine = engine_with(&refs);
    assert_eq!(engine.scheduler().concurrency(), 10);

    let mut running: Vec<ProbeRequest> = engine.start_tick(1);
    assert_eq!(running.len(), 10);
    assert_eq!(engine.scheduler().in_flight(), 10);
    assert_eq!(engine.scheduler().waiting_count(), 15);
    assert_eq!(engine.scheduler().phase(), Phase::AwaitBatch);
    assert_eq!(running[0].site_id, "site0");
    assert_eq!(running[0].url, "https://site0.example");
    assert_eq!(running[9].site_id, "site9");

    let mut started = running.len();
    let mut finished = 0;
    let mut most = running.len();
    while !running.is_empty() {
        let probe = running.remove(0);
        let next = engine.finish_probe(&probe.site_id, UptimeStatus::Up, Some(5), 2);
        finished += 1;
        assert!(next.len() <= 1);
        started += next.len();
        running.extend(next);
        assert_eq!(engine.scheduler().in_flight(), running.len());
        assert!(engine.scheduler().in_flight() <= 10);
        most = most.max(running.len());
    }
    assert_eq!(started, 25);
    assert_eq!(finished, 25);
    assert_eq!(most, 10);
    assert_eq!(engine.scheduler().phase(), Phase::Idle);
    assert_eq!(engine.scheduler().in_flight(), 0);
    assert!((engine.scheduler().waiting_count() == 0));
    for name in &names {
        assert_eq!(engine.history().history_of(name), vec![entry(UptimeStatus::Up, Some(5))]);
    }
}

#[test]
fn probes_are_handed_out_in_configuration_order() {
    let mut engine = UptimeState::with_limits(
        config_of(vec![site("a", false), site("b", false), site("c", false), site("d", false)]),
        "config.json5".to_string(),
        20,
        2,
        16,
    )
    .unwrap();
    let first = engine.start_tick(1);
    assert_eq!(first.iter().map(|p| p.site_id.as_str()).collect::<Vec<_>>(), vec!["a", "b"]);
    // results may come in any order; the slot goes to the probe that waited longest
    let next = engine.finish_probe("b", UptimeStatus::Up, Some(1), 2);
    assert_eq!(next.iter().map(|p| p.site_id.as_str()).collect::<Vec<_>>(), vec!["c"]);
    let next = engine.finish_probe("a", UptimeStatus::Down, Some(1), 2);
    assert_eq!(next.iter().map(|p| p.site_id.as_str()).collect::<Vec<_>>(), vec!["d"]);
    assert_eq!(engine.scheduler().in_flight(), 2);
    assert!(engine.finish_probe("d", UptimeStatus::Up, Some(1), 2).is_empty());
    assert_eq!(engine.scheduler().in_flight(), 1);
    assert!(engine.scheduler().is_awaiting_batch());
    assert!(engine.finish_probe("c", UptimeStatus::Up, Some(1), 2).is_empty());
    assert_eq!(engine.scheduler().in_flight(), 0);
    assert!(!engine.scheduler().is_awaiting_batch());
    assert_eq!(engine.scheduler().phase(), Phase::Idle);
}

#[test]
fn batch_update_comes_before_completion_updates() {
    let mut engine = engine_with(&["a", "b"]);
    let id = engine.subscribe(0).unwrap();
    engine.start_tick(10);
    engine.finish_probe("b", UptimeStatus::Down, Some(7), 11);
    engine.finish_probe("a", UptimeStatus::Up, Some(9), 12);
    let events = engine.take_events(id);
    assert_eq!(
        statuses(&events),
        vec![
            vec![],
            vec![
                ("a".to_string(), UptimeStatus::Loading),
                ("b".to_string(), UptimeStatus::Loading)
            ],
            vec![("b".to_string(), UptimeStatus::Down)],
            vec![("a".to_string(), UptimeStatus::Up)],
        ]
    );
}

#[test]
fn tick_does_not_race_with_a_running_batch() {
    let mut engine = engine_with(&["a"]);
    assert_eq!(engine.start_tick(1).len(), 1);
    // the batch is still running: the tick does nothing
    assert!(engine.start_tick(2).is_empty());
    assert_eq!(engine.history().history_of("a"), vec![entry(UptimeStatus::Loading, None)]);
    assert_eq!(engine.scheduler().in_flight(), 1);
    engine.finish_probe("a", UptimeStatus::Up, Some(3), 3);
    assert_eq!(engine.history().history_of("a"), vec![entry(UptimeStatus::Up, Some(3))]);
    assert_eq!(engine.start_tick(4).len(), 1);
    assert_eq!(
        engine.history().history_of("a"),
        vec![entry(UptimeStatus::Up, Some(3)), entry(UptimeStatus::Loading, None)]
    );
}

#[test]
fn result_without_a_running_probe_is_ignored() {
    let mut engine = engine_with(&["a"]);
    let id = engine.subscribe(0).unwrap();
    assert!(engine.finish_probe("a", UptimeStatus::Up, Some(3), 1).is_empty());
    assert_eq!(engine.history().len(), 0);
    assert_eq!(engine.events().waiting_events(id), 1);
    assert_eq!(engine.scheduler().phase(), Phase::Idle);
}

#[test]
fn disabled_target_gets_no_activity() {
    let mut engine = UptimeState::new(
        config_of(vec![site("a", false), site("b", false)]),
        "config.json5".to_string(),
    );
    let id = engine.subscribe(0).unwrap();
    for probe in engine.start_tick(1) {
        engine.finish_probe(&probe.site_id, UptimeStatus::Up, Some(1), 1);
    }
    assert_eq!(engine.history().history_of("b").len(), 1);
    engine.take_events(id);

    // `b` is disabled from now on
    engine.replace_config(config_of(vec![site("a", false), site("b", true)]));
    for tick in 2..5u64 {
        let probes = engine.start_tick(tick);
        assert_eq!(probes.iter().map(|p| p.site_id.as_str()).collect::<Vec<_>>(), vec!["a"]);
        assert_eq!(engine.history().history_of("b"), vec![entry(UptimeStatus::Up, Some(1))]);
        for probe in probes {
            engine.finish_probe(&probe.site_id, UptimeStatus::Down, Some(tick), tick);
        }
    }
    assert_eq!(engine.history().history_of("a").len(), 4);
    assert_eq!(engine.history().history_of("b"), vec![entry(UptimeStatus::Up, Some(1))]);
    for update in statuses(&engine.take_events(id)) {
        assert!(update.iter().all(|(site, _)| site == "a"));
    }
}

#[test]
fn tick_with_nothing_enabled_stays_idle() {
    let mut engine = UptimeState::new(
        config_of(vec![site("a", true)]),
        "config.json5".to_string(),
    );
    let id = engine.subscribe(0).unwrap();
    assert!(engine.start_tick(1).is_empty());
    assert_eq!(engine.scheduler().phase(), Phase::Idle);
    assert_eq!(engine.history().len(), 0);
    // the tick still sends its update, which is empty
    let events = engine.take_events(id);
    assert_eq!(statuses(&events), vec![vec![], vec![]]);
}

#[test]
fn shutdown_notifies_every_subscriber_once() {
    let mut engine = engine_with(&["a"]);
    let one = engine.subscribe(0).unwrap();
    let two = engine.subscribe(0).unwrap();
    engine.take_events(one);
    engine.take_events(two);

    engine.shutdown("Server is shutting down for maintenance");
    engine.shutdown("again");
    assert!(engine.scheduler().is_shutdown_requested());
    assert!(!engine.is_running());
    assert_eq!(engine.scheduler().phase(), Phase::Stopped);
    for id in [one, two] {
        let events = engine.take_events(id);
        assert_eq!(events.len(), 1);
        assert!(matches!(&events[0], BusEvent::Control(m) if m == "Server is shutting down for maintenance"));
    }
    // no tick after shutdown
    assert!(engine.start_tick(5).is_empty());
    assert_eq!(engine.history().len(), 0);
    assert_eq!(engine.events().waiting_events(one), 0);
}

#[test]
fn shutdown_lets_the_running_batch_drain() {
    let mut engine = UptimeState::with_limits(
        config_of(vec![site("a", false), site("b", false)]),
        "config.json5".to_string(),
        20,
        1,
        16,
    )
    .unwrap();
    let id = engine.subscribe(0).unwrap();
    let first = engine.start_tick(1);
    assert_eq!(first.len(), 1);
    engine.shutdown("bye");
    assert_eq!(engine.scheduler().phase(), Phase::AwaitBatch);
    assert!(!engine.is_running());
    // the waiting probe of the batch still runs
    let next = engine.finish_probe("a", UptimeStatus::Up, Some(1), 2);
    assert_eq!(next.len(), 1);
    assert_eq!(next[0].site_id, "b");
    assert!(engine.finish_probe("b", UptimeStatus::Down, Some(1), 3).is_empty());
    assert_eq!(engine.scheduler().phase(), Phase::Stopped);
    assert!(engine.start_tick(4).is_empty());
    assert_eq!(engine.history().history_of("a"), vec![entry(UptimeStatus::Up, Some(1))]);
    assert_eq!(engine.history().history_of("b"), vec![entry(UptimeStatus::Down, Some(1))]);
    let events = engine.take_events(id);
    assert_eq!(events.len(), 5);
    assert_eq!(
        events.iter().filter(|e| matches!(e, BusEvent::Control(_))).count(),
        1
    );
}

#[test]
fn closed_bus_stops_the_scheduler() {
    let mut engine = engine_with(&["a"]);
    engine.close_bus();
    assert!(engine.start_tick(1).is_empty());
    assert_eq!(engine.scheduler().phase(), Phase::Stopped);
    assert!(!engine.is_running());
    assert_eq!(engine.scheduler().in_flight(), 0);
    assert!(engine.start_tick(2).is_empty());
    assert!(engine.subscribe(3).is_none());
    assert_eq!(engine.history().len(), 0);
}

#[test]
fn engine_defaults() {
    let engine = engine_with(&[]);
    assert_eq!(DEFAULT_CONCURRENT_PROBES, 10);
    assert_eq!(PROBE_TIMEOUT_SECS, 10);
    assert_eq!(TICK_INTERVAL_SECS, 5);
    assert_eq!(engine.scheduler().concurrency(), DEFAULT_CONCURRENT_PROBES);
    assert_eq!(engine.history().capacity(), 20);
    assert!(DEFAULT_MAILBOX_LIMIT >= 1);
    assert!(engine.scheduler().may_tick());
}

#[test]
fn engine_needs_room_for_one_probe() {
    assert!(UptimeState::with_limits(config_of(vec![]), String::new(), 20, 0, 16).is_none());
    assert!(UptimeState::with_limits(config_of(vec![]), String::new(), 20, 1, 16).is_some());
    assert!(Scheduler::new(0).is_none());
}

#[test]
fn scheduler_cycle() {
    let probe = |name: &str| ProbeRequest { site_id: name.to_string(), url: String::new() };
    let mut scheduler = Scheduler::new(2).unwrap();
    assert_eq!(scheduler.phase(), Phase::Idle);
    assert_eq!(scheduler.release("a"), None);
    assert!(scheduler.dispatch(vec![]).is_empty());
    assert_eq!(scheduler.phase(), Phase::Idle);

    let first = scheduler.dispatch(vec![probe("a"), probe("b"), probe("c")]);
    assert_eq!(first, vec![probe("a"), probe("b")]);
    assert_eq!(scheduler.in_flight(), 2);
    assert_eq!(scheduler.waiting_count(), 1);
    assert!(scheduler.is_awaiting_batch());
    assert!(!scheduler.may_tick());
    assert!(scheduler.is_probing("a"));
    assert!(scheduler.is_probing("b"));
    // `c` waits: it is not running yet
    assert!(!scheduler.is_probing("c"));
    // a batch is running: nothing more is taken
    assert!(scheduler.dispatch(vec![probe("d")]).is_empty());
    assert_eq!(scheduler.waiting_count(), 1);

    // a result for a probe that does not run changes nothing
    assert_eq!(scheduler.release("c"), None);
    assert_eq!(scheduler.release("zzz"), None);
    assert_eq!(scheduler.in_flight(), 2);
    assert_eq!(scheduler.waiting_count(), 1);

    assert_eq!(scheduler.release("b"), Some(probe("c")));
    assert_eq!(scheduler.in_flight(), 2);
    assert!(scheduler.is_probing("c"));
    assert!(!scheduler.is_probing("b"));
    assert_eq!(scheduler.release("b"), None);
    assert_eq!(scheduler.in_flight(), 2);
    assert_eq!(scheduler.release("a"), None);
    assert_eq!(scheduler.in_flight(), 1);
    assert!(scheduler.request_stop());
    assert!(!scheduler.request_stop());
    assert_eq!(scheduler.phase(), Phase::AwaitBatch);
    assert_eq!(scheduler.release("c"), None);
    assert_eq!(scheduler.phase(), Phase::Stopped);
    assert!(!scheduler.is_running());
    assert!(scheduler.dispatch(vec![probe("e")]).is_empty());
    assert_eq!(scheduler.in_flight(), 0);
}

#[test]
fn scheduler_halt_waits_for_the_batch() {
    let probe = |name: &str| ProbeRequest { site_id: name.to_string(), url: String::new() };
    let mut scheduler = Scheduler::new(1).unwrap();
    scheduler.dispatch(vec![probe("a")]);
    scheduler.halt();
    assert_eq!(scheduler.phase(), Phase::AwaitBatch);
    scheduler.release("a");
    assert_eq!(scheduler.phase(), Phase::Idle);
    scheduler.halt();
    assert_eq!(scheduler.phase(), Phase::Stopped);
    assert!(!scheduler.is_running());
}

#[test]
fn find_probe_finds_the_first() {
    let probe = |name: &str| ProbeRequest { site_id: name.to_string(), url: String::new() };
    let probes = vec![probe("a"), probe("b"), probe("a")];
    assert_eq!(find_probe(&probes, "a"), Some(0));
    assert_eq!(find_probe(&probes, "b"), Some(1));
    assert_eq!(find_probe(&probes, "c"), None);
    assert_eq!(find_probe(&vec![], "a"), None);
    assert_eq!(probe("a").duplicate(), probe("a"));
}

#[test]
fn report_for_a_site_that_is_not_probed_is_ignored() {
    let mut engine = UptimeState::with_limits(
        config_of(vec![site("a", false), site("b", false)]),
        String::new(),
        20,
        1,
        16,
    )
    .unwrap();
    let id = engine.subscribe(0).unwrap();
    assert_eq!(engine.start_tick(1).len(), 1);
    let before = engine.events().waiting_events(id);
    // `b` waits, `c` is unknown
    assert!(engine.finish_probe("b", UptimeStatus::Up, Some(1), 2).is_empty());
    assert!(engine.finish_probe("c", UptimeStatus::Up, Some(1), 2).is_empty());
    // a report that resolves nothing is no result
    assert!(engine.finish_probe("a", UptimeStatus::Loading, None, 2).is_empty());
    assert_eq!(engine.scheduler().in_flight(), 1);
    assert_eq!(engine.scheduler().waiting_count(), 1);
    assert_eq!(engine.history().history_of("a"), vec![entry(UptimeStatus::Loading, None)]);
    assert_eq!(engine.history().history_of("b"), vec![entry(UptimeStatus::Loading, None)]);
    assert!(!engine.history().contains("c"));
    assert_eq!(engine.events().waiting_events(id), before);
    // the result of `a` is taken once
    let next = engine.finish_probe("a", UptimeStatus::Up, Some(1), 3);
    assert_eq!(next.len(), 1);
    assert!(engine.finish_probe("a", UptimeStatus::Down, Some(2), 3).is_empty());
    assert_eq!(engine.history().history_of("a"), vec![entry(UptimeStatus::Up, Some(1))]);
}

#[test]
fn a_site_named_twice_is_probed_once() {
    let mut twin = site("a", false);
    twin.url = "https://other.example".to_string();
    let mut engine = UptimeState::new(
        config_of(vec![site("a", true), site("a", false), site("b", false), twin]),
        String::new(),
    );
    let probes = engine.start_tick(1);
    assert_eq!(
        probes,
        vec![
            ProbeRequest { site_id: "a".to_string(), url: "https://a.example".to_string() },
            ProbeRequest { site_id: "b".to_string(), url: "https://b.example".to_string() },
        ]
    );
    assert_eq!(engine.history().history_of("a"), vec![entry(UptimeStatus::Loading, None)]);
    for probe in probes {
        engine.finish_probe(&probe.site_id, UptimeStatus::Up, Some(1), 2);
    }
    assert_eq!(engine.history().history_of("a"), vec![entry(UptimeStatus::Up, Some(1))]);
    assert_eq!(engine.scheduler().phase(), Phase::Idle);
}

#[test]
fn no_history_holds_a_placeholder_between_ticks() {
    let mut engine = UptimeState::with_limits(
        config_of(vec![site("a", false), site("b", false), site("c", false)]),
        String::new(),
        3,
        2,
        4,
    )
    .unwrap();
    for tick in 0..10u64 {
        let mut running = engine.start_tick(tick);
        while let Some(probe) = running.pop() {
            for name in ["a", "b", "c"] {
                let history = engine.history().history_of(name);
                let pending = history.iter().filter(|e| e.status == UptimeStatus::Loading).count();
                assert!(pending <= 1);
                assert!(pending == 0 || history.last().unwrap().status == UptimeStatus::Loading);
                assert!(history.len() <= 3);
            }
            let status = if tick % 2 == 0 { UptimeStatus::Up } else { UptimeStatus::Down };
            running.extend(engine.finish_probe(&probe.site_id, status, Some(tick), tick));
        }
        for name in ["a", "b", "c"] {
            assert!(engine
                .history()
                .history_of(name)
                .iter()
                .all(|e| e.status != UptimeStatus::Loading));
        }
    }
}

#[test]
fn tracked_sites_show_before_their_first_check() {
    let mut engine = UptimeState::new(
        config_of(vec![site("a", false), site("b", true), site("c", false)]),
        "config.json5".to_string(),
    );
    engine.track_enabled_sites();
    engine.track_enabled_sites();
    let id = engine.subscribe(3).unwrap();
    let events = engine.take_events(id);
    assert_eq!(
        statuses(&events),
        vec![vec![
            ("a".to_string(), UptimeStatus::Loading),
            ("c".to_string(), UptimeStatus::Loading)
        ]]
    );
    assert!(engine.unsubscribe(id));
    assert!(!engine.unsubscribe(id));
    assert!(engine.take_events(id).is_empty());

    let mut store = TimelineStore::new();
    track_sites(&mut store, &vec![site("x", true), site("y", false)]);
    assert!(!store.contains("x"));
    assert!(store.contains("y"));
    assert!(store.history_of("y").is_empty());
}

#[test]
fn mark_all_pending_plans_enabled_sites() {
    let mut store = TimelineStore::new();
    store.complete_check("c", UptimeStatus::Up, Some(1));
    let sites = vec![site("a", false), site("b", true), site("c", false)];
    let probes = mark_all_pending(&mut store, &sites);
    assert_eq!(
        probes,
        vec![
            ProbeRequest { site_id: "a".to_string(), url: "https://a.example".to_string() },
            ProbeRequest { site_id: "c".to_string(), url: "https://c.example".to_string() },
        ]
    );
    assert!(!store.contains("b"));
    assert_eq!(store.history_of("a"), vec![entry(UptimeStatus::Loading, None)]);
    assert_eq!(store.history_of("c").len(), 2);
    let snapshot = store.snapshot("c", 4).unwrap();
    assert_eq!(snapshot.status, UptimeStatus::Loading);
    assert_eq!(snapshot.uptime_percentage, 10000);
}

#[test]
fn telemetry_destination_needs_an_endpoint() {
    let mut engine = engine_with(&[]);
    assert_eq!(telemetry_destination(&engine), None);
    let mut config = config_of(vec![]);
    config.opentelemetry_endpoint = Some("   ".to_string());
    engine.replace_config(config);
    assert_eq!(telemetry_destination(&engine), None);
    let mut config = config_of(vec![]);
    config.opentelemetry_endpoint = Some("https://otel.example/".to_string());
    engine.replace_config(config);
    assert_eq!(
        telemetry_destination(&engine),
        Some(("https://otel.example/".to_string(), "Dash".to_string()))
    );
}

#[test]
fn uptime_telemetry_leaves_out_pending_sites() {
    let mut engine = engine_with(&["a", "b", "c"]);
    engine.start_tick(1);
    engine.finish_probe("a", UptimeStatus::Up, Some(11), 2);
    engine.finish_probe("c", UptimeStatus::Down, Some(13), 2);

    let payload = uptime_telemetry_payload(&engine.history().snapshot_all(50), "Dash".to_string(), 51);
    assert_eq!(payload.dashboard_name, "Dash");
    assert_eq!(payload.generated_at, 51);
    assert_eq!(
        payload
            .uptime
            .iter()
            .map(|s| (s.site_id.as_str(), s.status, s.timestamp, s.response_time_ms))
            .collect::<Vec<_>>(),
        vec![
            ("a", UptimeStatus::Up, 50, Some(11)),
            ("c", UptimeStatus::Down, 50, Some(13))
        ]
    );

    assert!(uptime_snapshot_payload(&engine, "Dash".to_string(), "  ", 60).is_none());
    let sent = uptime_snapshot_payload(&engine, "Dash".to_string(), "https://otel.example", 60)
        .unwrap();
    assert_eq!(sent.generated_at, 60);
    assert_eq!(sent.uptime.len(), 2);
    assert_eq!(sent.uptime[0].timestamp, 60);
}

#[test]
fn click_telemetry() {
    let click = SiteClickEvent {
        site_name: "Docs".to_string(),
        site_url: "https://docs.example.com".to_string(),
    };
    assert!(click.is_complete());
    assert!(!SiteClickEvent { site_name: " ".to_string(), site_url: "x".to_string() }.is_complete());
    assert!(!SiteClickEvent { site_name: "x".to_string(), site_url: "".to_string() }.is_complete());
    let headers = vec![HeaderRecord { name: "user-agent".to_string(), value: "t".to_string() }];
    let payload = click_telemetry_payload(&click, "Dash".to_string(), 7, headers);
    assert_eq!(payload.dashboard_name, "Dash");
    assert_eq!(payload.generated_at, 7);
    assert_eq!(payload.site_name, "Docs");
    assert_eq!(payload.site_url, "https://docs.example.com");
    assert_eq!(payload.headers.len(), 1);
    assert_eq!(payload.headers[0].name, "user-agent");
}
