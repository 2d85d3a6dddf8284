use vigil::aggregator::{decide_notification, evaluate_replica, scan_and_bump_states, BumpedStates};
use vigil::config::{
    ConfigMetrics, ConfigNotify, ConfigNotifyReminderBackoffFunction, ConfigProbe,
    ConfigProbeService, ConfigProbeServiceNode, ConfigProbeServiceNodeHTTPMethod,
};
use vigil::mode::Mode;
use vigil::notifier::{
    dispatch_outcome, dispatch_startup_notification, dispatch_step, DispatchStep, Notification,
    WebHookPayloadType,
};
use vigil::payload::{ManagerProberAlertsResponsePayload, StatusReportResponsePayload};
use vigil::prober::{http_verdict, latency_status};
use vigil::replica::ReplicaURL;
use vigil::report::{handle_health, handle_load, HandleHealthError, HandleLoadError};
use vigil::resolver::{map_poll_replicas, map_script_replicas, ProbeReplica, ProbeReplicaTarget};
use vigil::states::{
    ServiceStatesNotifier, ServiceStatesProbeNodeReplica, ServiceStatesProbeNodeReplicaLoad,
    ServiceStatesProbeNodeReplicaLoadQueue, ServiceStatesProbeNodeReplicaMetrics,
    ServiceStatesProbeNodeReplicaReport, Store,
};
use vigil::status::Status;
use vigil::store::{initialize_store, validate_identifiers, ConfigError};
use vigil::topology::{ManagerProberAlertsIgnoredResolveRequestPayload, QueueLoad};

fn node(id: &str, mode: Mode, replicas: Option<Vec<&str>>, scripts: Option<Vec<&str>>) -> ConfigProbeServiceNode {
    ConfigProbeServiceNode {
        id: id.to_string(),
        label: format!("{} label", id),
        mode,
        replicas: replicas.map(|v| v.into_iter().map(String::from).collect()),
        scripts: scripts.map(|v| v.into_iter().map(String::from).collect()),
        http_headers: vec![("X-Check".to_string(), "1".to_string())],
        http_method: None,
        http_body: None,
        http_body_healthy_match: None,
        reveal_replica_name: false,
        rabbitmq_queue: None,
        rabbitmq_queue_nack_healthy_below: None,
        rabbitmq_queue_nack_dead_above: None,
    }
}

fn service(id: &str, nodes: Vec<ConfigProbeServiceNode>) -> ConfigProbeService {
    ConfigProbeService { id: id.to_string(), label: format!("{} label", id), node: nodes }
}

fn target(p: &str, n: &str, r: &str) -> ProbeReplicaTarget {
    ProbeReplicaTarget { probe_id: p.to_string(), node_id: n.to_string(), replica_id: r.to_string() }
}

fn replica<'a>(store: &'a Store, p: &str, n: &str, r: &str) -> &'a ServiceStatesProbeNodeReplica {
    &store.states.probes[p].nodes[n].replicas[r]
}

fn notify_conf(interval: Option<u64>, f: ConfigNotifyReminderBackoffFunction, limit: u16) -> Option<ConfigNotify> {
    Some(ConfigNotify {
        startup_notification: true,
        reminder_interval: interval,
        reminder_backoff_function: f,
        reminder_backoff_limit: limit,
    })
}

const A: &str = "http://a.example/health";
const B: &str = "http://b.example/health";

fn api_web_store() -> Store {
    let conf = ConfigProbe { service: vec![service("api", vec![node("web", Mode::Poll, Some(vec![A, B]), None)])] };
    initialize_store(&conf).expect("valid topology")
}

#[test]
fn store_is_built_in_configuration_order() {
    let conf = ConfigProbe {
        service: vec![
            service("api", vec![node("web", Mode::Poll, Some(vec![A, B, A]), None), node("jobs", Mode::Script, None, Some(vec!["/bin/a", "/bin/b"]))]),
            service("db", vec![node("main", Mode::Push, None, None)]),
        ],
    };
    let store = initialize_store(&conf).expect("valid topology");
    assert_eq!(store.states.status, Status::Healthy);
    assert_eq!(store.states.notifier, ServiceStatesNotifier { reminder_backoff_counter: 1, reminder_ignore_until: None });
    let ids: Vec<&String> = store.states.probes.keys().collect();
    assert_eq!(ids, vec!["api", "db"]);
    let api = &store.states.probes["api"];
    let node_ids: Vec<&String> = api.nodes.keys().collect();
    assert_eq!(node_ids, vec!["web", "jobs"]);
    let web = &api.nodes["web"];
    let replica_ids: Vec<&String> = web.replicas.keys().collect();
    assert_eq!(replica_ids, vec![A, B]);
    assert_eq!(web.http_headers, vec![("X-Check".to_string(), "1".to_string())]);
    let jobs = &api.nodes["jobs"];
    let script_ids: Vec<&String> = jobs.replicas.keys().collect();
    assert_eq!(script_ids, vec!["0", "1"]);
    assert_eq!(jobs.replicas["1"].script, Some("/bin/b".to_string()));
    assert_eq!(store.states.probes["db"].nodes["main"].replicas.len(), 0);
}

#[test]
fn duplicate_identifiers_are_rejected() {
    let conf = ConfigProbe { service: vec![service("api", vec![]), service("api", vec![])] };
    match initialize_store(&conf) {
        Err(ConfigError::DuplicateService { service }) => assert_eq!(service, "api"),
        other => panic!("unexpected {:?}", other.err()),
    }
    let conf = ConfigProbe {
        service: vec![service("api", vec![node("web", Mode::Push, None, None), node("web", Mode::Local, None, None)])],
    };
    match validate_identifiers(&conf) {
        Err(ConfigError::DuplicateNode { service, node }) => {
            assert_eq!(service, "api");
            assert_eq!(node, "web");
        },
        other => panic!("unexpected {:?}", other),
    }
    assert!(validate_identifiers(&ConfigProbe { service: vec![service("a", vec![]), service("b", vec![])] }).is_ok());
}

#[test]
fn checks_must_match_mode() {
    let conf = ConfigProbe { service: vec![service("api", vec![node("web", Mode::Push, Some(vec![A]), None)])] };
    assert!(matches!(initialize_store(&conf), Err(ConfigError::ReplicasOnNonPollNode { .. })));
    let conf = ConfigProbe { service: vec![service("api", vec![node("web", Mode::Poll, None, Some(vec!["/bin/a"]))])] };
    assert!(matches!(initialize_store(&conf), Err(ConfigError::ScriptsOnNonScriptNode { .. })));
    let conf = ConfigProbe { service: vec![service("api", vec![node("web", Mode::Poll, Some(vec!["gopher://x"]), None)])] };
    match initialize_store(&conf) {
        Err(ConfigError::InvalidReplicaUrl { replica, .. }) => assert_eq!(replica, "gopher://x"),
        other => panic!("unexpected {:?}", other.err()),
    }
}

#[test]
fn snapshots_copy_targets() {
    let conf = ConfigProbe {
        service: vec![service("api", vec![node("web", Mode::Poll, Some(vec![A, B]), None), node("jobs", Mode::Script, None, Some(vec!["/bin/a"]))])],
    };
    let store = initialize_store(&conf).unwrap();
    let polls = map_poll_replicas(&store.states);
    assert_eq!(polls.len(), 2);
    match &polls[1] {
        ProbeReplica::Poll(t, p) => {
            assert_eq!((t.probe_id.as_str(), t.node_id.as_str(), t.replica_id.as_str()), ("api", "web", B));
            assert!(matches!(&p.replica_url, ReplicaURL::HTTP(u) if u == B));
            assert_eq!(p.http_headers, vec![("X-Check".to_string(), "1".to_string())]);
        },
        _ => panic!("expected a poll target"),
    }
    let scripts = map_script_replicas(&store.states);
    assert_eq!(scripts.len(), 1);
    match &scripts[0] {
        ProbeReplica::Script(t, s) => {
            assert_eq!(t.replica_id, "0");
            assert_eq!(s.script, "/bin/a");
        },
        _ => panic!("expected a script target"),
    }
}

#[test]
fn example_end_to_end() {
    let mut store = api_web_store();
    let metrics = ConfigMetrics::default();
    // Replica A answers 200 in 10 ms, replica B answers 500.
    let a_up = http_verdict(200, metrics.poll_http_status_healthy_above, metrics.poll_http_status_healthy_below, None);
    let b_up = http_verdict(500, metrics.poll_http_status_healthy_above, metrics.poll_http_status_healthy_below, None);
    store.record_replica_result(&target("api", "web", A), latency_status(a_up, 10, metrics.poll_delay_sick), Some(10));
    store.record_replica_result(&target("api", "web", B), latency_status(b_up, 30, metrics.poll_delay_sick), Some(30));
    let notify = notify_conf(None, ConfigNotifyReminderBackoffFunction::Constant, 3);
    let bumped = scan_and_bump_states(&mut store, &metrics, &notify, 1_000_000, "12:00:00 UTC+00:00".to_string())
        .expect("entering dead notifies");
    assert_eq!(replica(&store, "api", "web", A).status, Status::Healthy);
    assert_eq!(replica(&store, "api", "web", A).metrics.latency, Some(10));
    assert_eq!(replica(&store, "api", "web", B).status, Status::Dead);
    assert_eq!(store.states.probes["api"].nodes["web"].status, Status::Dead);
    assert_eq!(store.states.probes["api"].status, Status::Dead);
    assert_eq!(store.states.status, Status::Dead);
    assert_eq!(store.states.date, Some("12:00:00 UTC+00:00".to_string()));
    assert_eq!(bumped.status, Status::Dead);
    assert!(bumped.changed);
    assert!(!bumped.startup);
    assert_eq!(bumped.replicas, vec![format!("api:web:{}", B)]);
    assert_eq!(store.notified, Some(1_000_000));
    // The next pass sees nothing new and stays silent.
    assert!(scan_and_bump_states(&mut store, &metrics, &notify, 1_010_000, "t".to_string()).is_none());
}

fn set_global(store: &mut Store, status: Status) {
    store.record_replica_result(&target("api", "web", A), status, Some(5));
    store.record_replica_result(&target("api", "web", B), Status::Healthy, Some(5));
}

#[test]
fn notification_firing_sequence() {
    let metrics = ConfigMetrics::default();
    let sequence = [Status::Healthy, Status::Healthy, Status::Dead, Status::Dead, Status::Dead, Status::Healthy];
    // Without reminders: only entering and leaving Dead notify.
    let mut store = api_web_store();
    let notify = notify_conf(None, ConfigNotifyReminderBackoffFunction::Constant, 3);
    let mut fired = Vec::new();
    for (index, status) in sequence.iter().enumerate() {
        set_global(&mut store, *status);
        let now = 1_000_000 + (index as u64) * 10_000;
        if let Some(b) = scan_and_bump_states(&mut store, &metrics, &notify, now, "t".to_string()) {
            assert!(b.changed);
            fired.push(index);
        }
    }
    assert_eq!(fired, vec![2, 5]);
    // With a 15 s reminder: 10 s later is too early, 20 s later is due.
    let mut store = api_web_store();
    let notify = notify_conf(Some(15), ConfigNotifyReminderBackoffFunction::Constant, 3);
    let mut fired = Vec::new();
    for (index, status) in sequence.iter().enumerate() {
        set_global(&mut store, *status);
        let now = 1_000_000 + (index as u64) * 10_000;
        if let Some(b) = scan_and_bump_states(&mut store, &metrics, &notify, now, "t".to_string()) {
            fired.push((index, b.changed));
        }
    }
    assert_eq!(fired, vec![(2, true), (4, false), (5, true)]);
    // Muted reminders stay silent.
    let mut store = api_web_store();
    store.set_reminder_ignore_until(Some(2_000_000));
    let mut fired = Vec::new();
    for (index, status) in sequence.iter().enumerate() {
        set_global(&mut store, *status);
        let now = 1_000_000 + (index as u64) * 10_000;
        if scan_and_bump_states(&mut store, &metrics, &notify, now, "t".to_string()).is_some() {
            fired.push(index);
        }
    }
    assert_eq!(fired, vec![2, 5]);
}

#[test]
fn backoff_growth_and_cap() {
    let notify = notify_conf(Some(60), ConfigNotifyReminderBackoffFunction::Square, 3);
    let mut notifier = ServiceStatesNotifier { reminder_backoff_counter: 1, reminder_ignore_until: None };
    let mut last = 0u64;
    let mut waits = Vec::new();
    // Probe each second after the last notification for the first moment a reminder fires.
    for _ in 0..4 {
        let mut now = last;
        loop {
            now += 1_000;
            let (fire, counter) = decide_notification(Status::Dead, Status::Dead, Some(last), &notifier, &notify, now);
            if fire {
                waits.push((now - last) / 1_000);
                notifier.reminder_backoff_counter = counter;
                last = now;
                break;
            }
        }
    }
    assert_eq!(waits, vec![60, 240, 540, 540]);
    assert_eq!(notifier.reminder_backoff_counter, 3);
    // Leaving Dead puts the counter back to 1.
    let (fire, counter) = decide_notification(Status::Dead, Status::Healthy, Some(last), &notifier, &notify, last + 1);
    assert!(fire);
    assert_eq!(counter, 1);
    // No backoff function: the counter never moves.
    let flat = notify_conf(Some(60), ConfigNotifyReminderBackoffFunction::Constant, 3);
    let one = ServiceStatesNotifier { reminder_backoff_counter: 1, reminder_ignore_until: None };
    assert_eq!(decide_notification(Status::Dead, Status::Dead, Some(0), &one, &flat, 60_000), (true, 1));
    assert_eq!(decide_notification(Status::Dead, Status::Dead, Some(0), &one, &flat, 59_999), (false, 1));
}

#[test]
fn backoff_counter_resets_in_the_store() {
    let metrics = ConfigMetrics::default();
    let notify = notify_conf(Some(1), ConfigNotifyReminderBackoffFunction::Linear, 5);
    let mut store = api_web_store();
    set_global(&mut store, Status::Dead);
    assert!(scan_and_bump_states(&mut store, &metrics, &notify, 0, "t".to_string()).is_some());
    assert!(scan_and_bump_states(&mut store, &metrics, &notify, 1_000, "t".to_string()).is_some());
    assert_eq!(store.states.notifier.reminder_backoff_counter, 2);
    assert!(scan_and_bump_states(&mut store, &metrics, &notify, 2_000, "t".to_string()).is_none());
    assert!(scan_and_bump_states(&mut store, &metrics, &notify, 3_000, "t".to_string()).is_some());
    assert_eq!(store.states.notifier.reminder_backoff_counter, 3);
    set_global(&mut store, Status::Sick);
    let b = scan_and_bump_states(&mut store, &metrics, &notify, 4_000, "t".to_string()).expect("leaving dead notifies");
    assert_eq!(b.status, Status::Sick);
    assert_eq!(store.states.notifier.reminder_backoff_counter, 1);
}

fn push_replica(load: Option<(i64, i64, bool, bool)>, report: Option<(u64, u64)>) -> ServiceStatesProbeNodeReplica {
    ServiceStatesProbeNodeReplica {
        status: Status::Healthy,
        url: None,
        script: None,
        metrics: ServiceStatesProbeNodeReplicaMetrics::empty(),
        load: load.map(|(cpu, ram, loaded, stalled)| ServiceStatesProbeNodeReplicaLoad {
            cpu,
            ram,
            queue: ServiceStatesProbeNodeReplicaLoadQueue { loaded, stalled },
        }),
        report: report.map(|(time, interval)| ServiceStatesProbeNodeReplicaReport { time, interval }),
    }
}

#[test]
fn push_replica_evaluation() {
    let m = ConfigMetrics::default();
    // Reported at 0 every 30 s; dead grace 20 s: dead from 50 s on, even with a nominal load.
    let nominal = push_replica(Some((1000, 1000, false, false)), Some((0, 30)));
    assert_eq!(evaluate_replica(Mode::Push, &nominal, &m, 49_999), Status::Healthy);
    assert_eq!(evaluate_replica(Mode::Push, &nominal, &m, 50_000), Status::Dead);
    let busy = push_replica(Some((9901, 1000, false, false)), Some((0, 30)));
    assert_eq!(evaluate_replica(Mode::Push, &busy, &m, 1_000), Status::Sick);
    let stalled = push_replica(Some((1000, 1000, true, true)), Some((0, 30)));
    assert_eq!(evaluate_replica(Mode::Push, &stalled, &m, 1_000), Status::Dead);
    let loaded = push_replica(Some((1000, 9900, true, false)), Some((0, 30)));
    assert_eq!(evaluate_replica(Mode::Push, &loaded, &m, 1_000), Status::Sick);
    // A report dated after now is not overdue.
    let ahead = push_replica(Some((1000, 1000, false, false)), Some((80_000, 0)));
    assert_eq!(evaluate_replica(Mode::Push, &ahead, &m, 0), Status::Healthy);
    let mut local = push_replica(None, Some((0, 30)));
    local.status = Status::Sick;
    assert_eq!(evaluate_replica(Mode::Local, &local, &m, 69_999), Status::Sick);
    assert_eq!(evaluate_replica(Mode::Local, &local, &m, 70_000), Status::Dead);
    local.status = Status::Dead;
    assert_eq!(evaluate_replica(Mode::Poll, &local, &m, 0), Status::Dead);
}

fn report_store() -> Store {
    let mut push = node("push", Mode::Push, None, None);
    push.rabbitmq_queue = Some("emails".to_string());
    let conf = ConfigProbe { service: vec![service("api", vec![push, node("local", Mode::Local, None, None)])] };
    initialize_store(&conf).unwrap()
}

#[test]
fn health_reports() {
    let mut store = report_store();
    assert_eq!(handle_health(&mut store, "api", "local", "r1", 30, &Status::Sick, 5_000), Ok(()));
    let r = replica(&store, "api", "local", "r1");
    assert_eq!(r.status, Status::Sick);
    assert_eq!(r.report, Some(ServiceStatesProbeNodeReplicaReport { time: 5_000, interval: 30 }));
    assert_eq!(handle_health(&mut store, "api", "push", "r1", 30, &Status::Sick, 5_000), Err(HandleHealthError::WrongMode));
    assert_eq!(handle_health(&mut store, "api", "nope", "r1", 30, &Status::Sick, 5_000), Err(HandleHealthError::NotFound));
    assert_eq!(handle_health(&mut store, "nope", "local", "r1", 30, &Status::Sick, 5_000), Err(HandleHealthError::NotFound));
    assert_eq!(store.states.probes["api"].nodes["push"].replicas.len(), 0);
}

#[test]
fn load_reports() {
    let mut store = report_store();
    match handle_load(&mut store, "api", "push", "r1", 10, 4_250, 9_949, 1_000) {
        Ok(Some(q)) => assert_eq!(q.queue, "emails"),
        other => panic!("unexpected {:?}", other.err()),
    }
    let r = replica(&store, "api", "push", "r1");
    let system = r.metrics.system.expect("system metrics");
    assert_eq!((system.cpu, system.ram), (43, 99));
    assert_eq!(r.load.map(|l| (l.cpu, l.ram)), Some((4_250, 9_949)));
    assert_eq!(handle_load(&mut store, "api", "push", "r1", 10, -1, 0, 1_000).err(), Some(HandleLoadError::InvalidLoad));
    assert_eq!(handle_load(&mut store, "api", "local", "r1", 10, 0, 0, 1_000).err(), Some(HandleLoadError::WrongMode));
    assert_eq!(handle_load(&mut store, "api", "gone", "r1", 10, 0, 0, 1_000).err(), Some(HandleLoadError::NotFound));
    // Queue flags found before survive the next report; a failed check keeps them.
    store.apply_queue_load("api", "push", Some(QueueLoad { loaded: true, stalled: false, ready: 600, nack: 3 }));
    store.apply_queue_load("api", "push", None);
    assert!(handle_load(&mut store, "api", "push", "r1", 10, 0, 0, 2_000).is_ok());
    let r = replica(&store, "api", "push", "r1");
    assert_eq!(r.load.map(|l| l.queue), Some(ServiceStatesProbeNodeReplicaLoadQueue { loaded: true, stalled: false }));
    assert_eq!(r.metrics.rabbitmq.map(|q| (q.queue_ready, q.queue_nack)), Some((600, 3)));
    assert_eq!(r.status, Status::Healthy);
}

#[test]
fn startup_and_dispatch() {
    let on = notify_conf(None, ConfigNotifyReminderBackoffFunction::Constant, 3);
    let b: BumpedStates = dispatch_startup_notification(&on).expect("announced");
    assert!(b.startup && b.changed && b.replicas.is_empty());
    assert_eq!(b.status, Status::Healthy);
    assert!(dispatch_startup_notification(&None).is_none());
    let n = Notification::from_bumped(b, "08:00:00 UTC+00:00".to_string());
    assert_eq!(n.time, "08:00:00 UTC+00:00");
    assert!(n.expected(false));
    assert!(!n.expected(true));
    assert_eq!(dispatch_step(false, 0, false), DispatchStep::Skipped);
    assert_eq!(dispatch_step(true, 0, false), DispatchStep::Attempt { hold_secs: 0 });
    assert_eq!(dispatch_step(true, 1, false), DispatchStep::Attempt { hold_secs: 2 });
    assert_eq!(dispatch_step(true, 2, true), DispatchStep::Delivered);
    assert_eq!(dispatch_step(true, 3, false), DispatchStep::Failed);
    assert_eq!(dispatch_outcome(DispatchStep::Failed), Some(Err(true)));
    assert_eq!(dispatch_outcome(DispatchStep::Skipped), Some(Err(false)));
    assert_eq!(dispatch_outcome(DispatchStep::Delivered), Some(Ok(())));
    assert_eq!(dispatch_outcome(DispatchStep::Attempt { hold_secs: 2 }), None);
}

#[test]
fn webhook_payload_type() {
    let mut n = Notification::from_bumped(
        BumpedStates { status: Status::Dead, replicas: vec!["api:web:a".to_string()], changed: true, startup: false },
        "t".to_string(),
    );
    assert_eq!(WebHookPayloadType::of(&n), WebHookPayloadType::Changed);
    assert_eq!(WebHookPayloadType::of(&n).as_str(), "changed");
    n.changed = false;
    assert_eq!(WebHookPayloadType::of(&n).as_str(), "reminder");
}

#[test]
fn status_report_summarises_the_tree() {
    let mut store = api_web_store();
    store.record_replica_result(&target("api", "web", B), Status::Sick, Some(7_000));
    let metrics = ConfigMetrics::default();
    let _ = scan_and_bump_states(&mut store, &metrics, &None, 0, "t".to_string());
    let report = StatusReportResponsePayload::build(&store.states, &"Status Page".to_string(), &"https://status.example".to_string());
    assert_eq!(report.health, Status::Sick);
    assert_eq!(report.page.name, "Status Page");
    assert_eq!(report.page.url, "https://status.example");
    assert_eq!(report.probes.len(), 1);
    assert_eq!(report.probes[0].name, "api label");
    assert_eq!(report.probes[0].status, Status::Sick);
    assert_eq!(report.probes[0].nodes[0].name, "web label");
    assert_eq!(report.probes[0].nodes[0].replicas, vec![Status::Healthy, Status::Sick]);
}

#[test]
fn post_method_is_kept_in_targets() {
    let mut web = node("web", Mode::Poll, Some(vec![A]), None);
    web.http_method = Some(ConfigProbeServiceNodeHTTPMethod::Post);
    web.http_body = Some("ping".to_string());
    web.http_body_healthy_match = Some("ok".to_string());
    let store = initialize_store(&ConfigProbe { service: vec![service("api", vec![web])] }).unwrap();
    match &map_poll_replicas(&store.states)[0] {
        ProbeReplica::Poll(_, p) => {
            assert_eq!(p.http_method, Some(ConfigProbeServiceNodeHTTPMethod::Post));
            assert_eq!(p.http_body, Some("ping".to_string()));
            assert_eq!(p.body_match, Some("ok".to_string()));
        },
        _ => panic!("expected a poll target"),
    }
}

#[test]
fn alerts_list_sick_and_dead_replicas() {
    let mut store = api_web_store();
    store.record_replica_result(&target("api", "web", A), Status::Dead, None);
    store.record_replica_result(&target("api", "web", B), Status::Sick, None);
    let alerts = ManagerProberAlertsResponsePayload::build(&store.states);
    assert_eq!(alerts.dead.len(), 1);
    assert_eq!((alerts.dead[0].probe.as_str(), alerts.dead[0].node.as_str(), alerts.dead[0].replica.as_str()), ("api", "web", A));
    assert_eq!(alerts.sick.len(), 1);
    assert_eq!(alerts.sick[0].replica, B);
    store.record_replica_result(&target("api", "web", A), Status::Healthy, None);
    assert!(ManagerProberAlertsResponsePayload::build(&store.states).dead.is_empty());
}

#[test]
fn reminder_mute_window() {
    let mut store = api_web_store();
    store.update_reminders_ignored(&ManagerProberAlertsIgnoredResolveRequestPayload { reminders_seconds: Some(600) }, 1_000_000);
    assert_eq!(store.states.notifier.reminder_ignore_until, Some(1_600_000));
    assert_eq!(store.states.reminders_ignored(1_000_000).reminders_seconds, Some(600));
    assert_eq!(store.states.reminders_ignored(1_599_500).reminders_seconds, Some(0));
    assert_eq!(store.states.reminders_ignored(1_600_001).reminders_seconds, None);
    store.update_reminders_ignored(&ManagerProberAlertsIgnoredResolveRequestPayload { reminders_seconds: None }, 1_000_000);
    assert_eq!(store.states.notifier.reminder_ignore_until, None);
    assert_eq!(store.states.reminders_ignored(0).reminders_seconds, None);
}
