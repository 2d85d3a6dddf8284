use vigil::config::{ConfigMetrics, ConfigPluginsRabbitMQ, ConfigProbeServiceNodeHTTPMethod};
use vigil::defaults;
use vigil::prober::{
    body_match_verdict, chunk_ranges, chunk_size, classify_queue, decimal_string, http_body_for, http_method_for,
    http_probe_url, http_verdict, icmp_timeout, icmp_verdict, latency_status, poll_step,
    queue_api_path, queue_recheck_delay, script_status, PollAttempt, PollStep,
    PROBE_HOLD_MILLISECONDS,
};
use vigil::replica::ReplicaURL;
use vigil::states::ServiceStatesProbeNodeRabbitMQ;
use vigil::status::{check_child_status, worse_of, Status};

#[test]
fn status_labels_and_icons() {
    assert_eq!(Status::Healthy.as_str(), "healthy");
    assert_eq!(Status::Sick.as_str(), "sick");
    assert_eq!(Status::Dead.as_str(), "dead");
    assert_eq!(Status::Dead.as_icon(), "\u{274c}");
    assert_eq!(Status::Sick.as_icon(), "\u{26a0}");
    assert_eq!(Status::Healthy.as_icon(), "\u{2705}");
}

#[test]
fn child_status_bumps_only_when_worse() {
    assert_eq!(check_child_status(&Status::Healthy, &Status::Dead), Some(Status::Dead));
    assert_eq!(check_child_status(&Status::Sick, &Status::Dead), Some(Status::Dead));
    assert_eq!(check_child_status(&Status::Dead, &Status::Dead), Some(Status::Dead));
    assert_eq!(check_child_status(&Status::Healthy, &Status::Sick), Some(Status::Sick));
    assert_eq!(check_child_status(&Status::Sick, &Status::Sick), Some(Status::Sick));
    assert_eq!(check_child_status(&Status::Dead, &Status::Sick), None);
    assert_eq!(check_child_status(&Status::Dead, &Status::Healthy), None);
    assert_eq!(worse_of(Status::Dead, Status::Sick), Status::Dead);
    assert_eq!(worse_of(Status::Healthy, Status::Sick), Status::Sick);
    assert_eq!(worse_of(Status::Sick, Status::Healthy), Status::Sick);
}

#[test]
fn latency_classification() {
    assert_eq!(latency_status(true, 4_999, 5), Status::Healthy);
    assert_eq!(latency_status(true, 5_000, 5), Status::Sick);
    assert_eq!(latency_status(true, 12_000, 5), Status::Sick);
    assert_eq!(latency_status(false, 10, 5), Status::Dead);
}

fn attempt(up: bool, elapsed_ms: u64) -> PollAttempt {
    PollAttempt { up, measured_ms: None, elapsed_ms }
}

#[test]
fn retry_converges_after_two_failures() {
    let retry = 3;
    let sick = 5;
    assert_eq!(poll_step(0, retry, None, sick), PollStep::Probe { hold_ms: PROBE_HOLD_MILLISECONDS });
    assert_eq!(poll_step(1, retry, Some(attempt(false, 600)), sick), PollStep::Probe { hold_ms: 500 });
    assert_eq!(poll_step(2, retry, Some(attempt(false, 1_200)), sick), PollStep::Probe { hold_ms: 500 });
    assert_eq!(
        poll_step(3, retry, Some(attempt(true, 1_800)), sick),
        PollStep::Done { status: Status::Healthy, latency_ms: 1_800 }
    );
    // The same success past the sick delay, counted from the start of the loop.
    assert_eq!(
        poll_step(3, retry, Some(attempt(true, 6_000)), sick),
        PollStep::Done { status: Status::Sick, latency_ms: 6_000 }
    );
}

#[test]
fn retry_gives_up_when_spent() {
    // `retry` 2 allows three probes in all.
    assert_eq!(poll_step(2, 2, Some(attempt(false, 100)), 5), PollStep::Probe { hold_ms: 500 });
    assert_eq!(poll_step(3, 2, Some(attempt(false, 100)), 5), PollStep::Done { status: Status::Dead, latency_ms: 100 });
}

#[test]
fn measured_latency_wins_over_wall_clock() {
    let a = PollAttempt { up: true, measured_ms: Some(40), elapsed_ms: 9_000 };
    assert_eq!(poll_step(1, 2, Some(a), 5), PollStep::Done { status: Status::Healthy, latency_ms: 40 });
}

#[test]
fn icmp_verdict_takes_worst_round_trip() {
    assert_eq!(icmp_verdict(&vec![Some(12), Some(30), Some(7)]), (true, Some(30)));
    assert_eq!(icmp_verdict(&vec![Some(12), None, Some(7)]), (false, None));
    assert_eq!(icmp_verdict(&vec![]), (false, None));
}

#[test]
fn icmp_timeout_is_bounded_by_dead_delay() {
    let mut m = ConfigMetrics::default();
    assert_eq!(icmp_timeout(&m), 1);
    m.poll_delay_dead = 0;
    assert_eq!(icmp_timeout(&m), 0);
}

#[test]
fn http_method_defaults() {
    assert_eq!(http_method_for(None, false), ConfigProbeServiceNodeHTTPMethod::Head);
    assert_eq!(http_method_for(None, true), ConfigProbeServiceNodeHTTPMethod::Get);
    assert_eq!(
        http_method_for(Some(ConfigProbeServiceNodeHTTPMethod::Post), false),
        ConfigProbeServiceNodeHTTPMethod::Post
    );
}

#[test]
fn http_body_only_for_writing_methods() {
    let body = Some("{\"ping\":1}".to_string());
    assert_eq!(http_body_for(ConfigProbeServiceNodeHTTPMethod::Post, &body), body);
    assert_eq!(http_body_for(ConfigProbeServiceNodeHTTPMethod::Patch, &None), Some(String::new()));
    assert_eq!(http_body_for(ConfigProbeServiceNodeHTTPMethod::Get, &body), None);
    assert_eq!(http_body_for(ConfigProbeServiceNodeHTTPMethod::Head, &body), None);
}

#[test]
fn http_verdict_range_and_body() {
    assert!(http_verdict(200, 200, 400, None));
    assert!(http_verdict(399, 200, 400, Some(true)));
    assert!(!http_verdict(400, 200, 400, None));
    assert!(!http_verdict(500, 200, 400, None));
    assert!(!http_verdict(199, 200, 400, None));
    assert!(!http_verdict(200, 200, 400, Some(false)));
}

#[test]
fn body_patterns() {
    let pattern = Some("^ok\\b".to_string());
    assert_eq!(body_match_verdict(&pattern, Some("ok then")), Some(true));
    assert_eq!(body_match_verdict(&pattern, Some("not ok")), Some(false));
    assert_eq!(body_match_verdict(&pattern, None), Some(false));
    assert_eq!(body_match_verdict(&None, Some("anything")), None);
    assert_eq!(body_match_verdict(&Some("(".to_string()), Some("(")), Some(false));
    assert!(!http_verdict(200, 200, 400, body_match_verdict(&pattern, Some("nope"))));
}

#[test]
fn http_probe_url_busts_caches() {
    assert_eq!(http_probe_url("https://a.example/health", 1700000000), "https://a.example/health?1700000000");
    assert_eq!(http_probe_url("https://a.example/health?x=1", 42), "https://a.example/health?x=1&42");
    assert_eq!(decimal_string(0), "0");
    assert_eq!(decimal_string(907), "907");
}

#[test]
fn script_exit_codes() {
    assert_eq!(script_status(Some(0)), Status::Healthy);
    assert_eq!(script_status(Some(1)), Status::Sick);
    assert_eq!(script_status(Some(2)), Status::Dead);
    assert_eq!(script_status(Some(-1)), Status::Dead);
    assert_eq!(script_status(None), Status::Dead);
}

#[test]
fn chunks_are_sized_by_parallelism() {
    assert_eq!(chunk_size(10, 4), 3);
    assert_eq!(chunk_size(8, 4), 2);
    assert_eq!(chunk_size(0, 4), 0);
    assert_eq!(chunk_size(3, 4), 1);
    assert_eq!(chunk_ranges(10, 4), vec![(0, 3), (3, 6), (6, 9), (9, 10)]);
    assert_eq!(chunk_ranges(3, 4), vec![(0, 1), (1, 2), (2, 3)]);
    assert_eq!(chunk_ranges(0, 4), vec![]);
    assert_eq!(chunk_ranges(5, 1), vec![(0, 5)]);
}

fn rabbitmq_conf() -> ConfigPluginsRabbitMQ {
    ConfigPluginsRabbitMQ {
        api_url: "http://127.0.0.1:15672".to_string(),
        auth_username: "guest".to_string(),
        auth_password: "guest".to_string(),
        virtualhost: "crisp".to_string(),
        queue_ready_healthy_below: 500,
        queue_nack_healthy_below: 100,
        queue_ready_dead_above: 20000,
        queue_nack_dead_above: 5000,
        queue_loaded_retry_delay: Some(500),
    }
}

#[test]
fn queue_classification() {
    let conf = rabbitmq_conf();
    let plain = ServiceStatesProbeNodeRabbitMQ { queue: "q".to_string(), queue_nack_healthy_below: None, queue_nack_dead_above: None };
    assert_eq!(classify_queue(10, 10, &conf, &plain), (false, false));
    assert_eq!(classify_queue(500, 0, &conf, &plain), (true, false));
    assert_eq!(classify_queue(0, 100, &conf, &plain), (true, false));
    assert_eq!(classify_queue(20001, 0, &conf, &plain), (true, true));
    assert_eq!(classify_queue(20000, 0, &conf, &plain), (true, false));
    let own = ServiceStatesProbeNodeRabbitMQ { queue: "q".to_string(), queue_nack_healthy_below: Some(10), queue_nack_dead_above: Some(20) };
    assert_eq!(classify_queue(0, 10, &conf, &own), (true, false));
    assert_eq!(classify_queue(0, 21, &conf, &own), (true, true));
    assert_eq!(queue_recheck_delay(true, &conf), Some(500));
    assert_eq!(queue_recheck_delay(false, &conf), None);
    assert_eq!(queue_api_path("crisp", "emails"), "/api/queues/crisp/emails");
}

#[test]
fn replica_urls_parse() {
    match ReplicaURL::parse_from("icmp://db.example.com") {
        Ok(ReplicaURL::ICMP(h)) => assert_eq!(h, "db.example.com"),
        other => panic!("unexpected {:?}", other),
    }
    match ReplicaURL::parse_from("icmp://[::1]") {
        Ok(ReplicaURL::ICMP(h)) => assert_eq!(h, "::1"),
        other => panic!("unexpected {:?}", other),
    }
    match ReplicaURL::parse_from("tcp://10.0.0.2:5432") {
        Ok(ReplicaURL::TCP(h, p)) => {
            assert_eq!(h, "10.0.0.2");
            assert_eq!(p, 5432);
        },
        other => panic!("unexpected {:?}", other),
    }
    match ReplicaURL::parse_from("HTTPS://Status.Example.com") {
        Ok(ReplicaURL::HTTPS(u)) => assert_eq!(u, "https://status.example.com/"),
        other => panic!("unexpected {:?}", other),
    }
    match ReplicaURL::parse_from("http://a.example/health") {
        Ok(ReplicaURL::HTTP(u)) => assert_eq!(u, "http://a.example/health"),
        other => panic!("unexpected {:?}", other),
    }
    assert!(ReplicaURL::parse_from("tcp://10.0.0.2").is_err());
    assert!(ReplicaURL::parse_from("icmp://host/path").is_err());
    assert!(ReplicaURL::parse_from("ftp://files.example").is_err());
    assert!(ReplicaURL::parse_from("not a url").is_err());
}

#[test]
fn default_values() {
    assert_eq!(defaults::server_log_level(), "error");
    assert_eq!(defaults::server_workers(), 4);
    assert_eq!(defaults::assets_path(), "./res/assets/");
    assert_eq!(defaults::branding_page_title(), "Status Page");
    assert_eq!(defaults::metrics_poll_interval(), 120);
    assert_eq!(defaults::metrics_poll_retry(), 2);
    assert_eq!(defaults::metrics_poll_http_status_healthy_above(), 200);
    assert_eq!(defaults::metrics_poll_http_status_healthy_below(), 400);
    assert_eq!(defaults::metrics_poll_delay_dead(), 10);
    assert_eq!(defaults::metrics_poll_delay_sick(), 5);
    assert_eq!(defaults::metrics_poll_parallelism(), 4);
    assert_eq!(defaults::metrics_push_delay_dead(), 20);
    assert_eq!(defaults::metrics_push_system_cpu_sick_above(), 9900);
    assert_eq!(defaults::metrics_push_system_ram_sick_above(), 9900);
    assert_eq!(defaults::metrics_script_interval(), 300);
    assert_eq!(defaults::script_parallelism(), 2);
    assert_eq!(defaults::metrics_local_delay_dead(), 40);
    assert!(defaults::notify_startup_notification());
    assert_eq!(defaults::notify_reminder_backoff_limit(), 3);
    assert_eq!(defaults::notify_email_smtp_host(), "localhost");
    assert_eq!(defaults::notify_email_smtp_port(), 587);
    assert!(defaults::notify_email_smtp_encrypt());
    assert!(!defaults::notify_slack_mention_channel());
    assert!(!defaults::notify_generic_reminders_only());
    assert!(!defaults::probe_service_node_reveal_replica_name());
    assert_eq!(
        defaults::notify_reminder_backoff_function(),
        vigil::config::ConfigNotifyReminderBackoffFunction::Constant
    );
}
