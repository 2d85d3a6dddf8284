use vstd::prelude::*;

use crate::config::{ConfigMetrics, ConfigNotifyReminderBackoffFunction};

verus! {

/// Log level when none is configured.
pub fn server_log_level() -> (r: String)
    ensures
        r@ == "error"@,
{
    proof {
        reveal_strlit("error");
    }
    "error".to_owned()
}

/// Worker threads of the HTTP server.
pub fn server_workers() -> (r: usize)
    ensures
        r == 4,
{
    4
}

/// Directory of the dashboard assets.
pub fn assets_path() -> (r: String)
    ensures
        r@ == "./res/assets/"@,
{
    proof {
        reveal_strlit("./res/assets/");
    }
    "./res/assets/".to_owned()
}

/// Title of the status page.
pub fn branding_page_title() -> (r: String)
    ensures
        r@ == "Status Page"@,
{
    proof {
        reveal_strlit("Status Page");
    }
    "Status Page".to_owned()
}

/// Seconds between two poll cycles.
pub fn metrics_poll_interval() -> (r: u64)
    ensures
        r == 120,
{
    120
}

/// Retries of a failed poll probe.
pub fn metrics_poll_retry() -> (r: u64)
    ensures
        r == 2,
{
    2
}

/// Lowest healthy HTTP status code.
pub fn metrics_poll_http_status_healthy_above() -> (r: u16)
    ensures
        r == 200,
{
    200
}

/// First HTTP status code past the healthy range.
pub fn metrics_poll_http_status_healthy_below() -> (r: u16)
    ensures
        r == 400,
{
    400
}

/// Seconds after which a poll probe gives up.
pub fn metrics_poll_delay_dead() -> (r: u64)
    ensures
        r == 10,
{
    10
}

/// Seconds from which a poll probe counts as sick.
pub fn metrics_poll_delay_sick() -> (r: u64)
    ensures
        r == 5,
{
    5
}

/// Poll workers per cycle.
pub fn metrics_poll_parallelism() -> (r: u16)
    ensures
        r == 4,
{
    4
}

/// Grace in seconds past a push replica's interval.
pub fn metrics_push_delay_dead() -> (r: u64)
    ensures
        r == 20,
{
    20
}

/// CPU load above which a push replica is sick, in ten-thousandths.
pub fn metrics_push_system_cpu_sick_above() -> (r: i64)
    ensures
        r == 9900,
{
    9900
}

/// RAM load above which a push replica is sick, in ten-thousandths.
pub fn metrics_push_system_ram_sick_above() -> (r: i64)
    ensures
        r == 9900,
{
    9900
}

/// Seconds between two script cycles.
pub fn metrics_script_interval() -> (r: u64)
    ensures
        r == 300,
{
    300
}

/// Script workers per cycle.
pub fn script_parallelism() -> (r: u16)
    ensures
        r == 2,
{
    2
}

/// Grace in seconds past a local replica's interval.
pub fn metrics_local_delay_dead() -> (r: u64)
    ensures
        r == 40,
{
    40
}

/// Whether boot-time health is announced.
pub fn notify_startup_notification() -> (r: bool)
    ensures
        r == true,
{
    true
}

/// Reminder backoff when none is configured.
pub fn notify_reminder_backoff_function() -> (r: ConfigNotifyReminderBackoffFunction)
    ensures
        r == ConfigNotifyReminderBackoffFunction::Constant,
{
    ConfigNotifyReminderBackoffFunction::Constant
}

/// Highest value of the reminder backoff counter.
pub fn notify_reminder_backoff_limit() -> (r: u16)
    ensures
        r == 3,
{
    3
}

/// SMTP host of the email backend.
pub fn notify_email_smtp_host() -> (r: String)
    ensures
        r@ == "localhost"@,
{
    proof {
        reveal_strlit("localhost");
    }
    "localhost".to_owned()
}

/// SMTP port of the email backend.
pub fn notify_email_smtp_port() -> (r: u16)
    ensures
        r == 587,
{
    587
}

/// Whether the email backend encrypts.
pub fn notify_email_smtp_encrypt() -> (r: bool)
    ensures
        r == true,
{
    true
}

/// Whether Slack messages mention the channel.
pub fn notify_slack_mention_channel() -> (r: bool)
    ensures
        r == false,
{
    false
}

/// Whether a backend takes reminders only.
pub fn notify_generic_reminders_only() -> (r: bool)
    ensures
        r == false,
{
    false
}

/// Whether the page shows replica names.
pub fn probe_service_node_reveal_replica_name() -> (r: bool)
    ensures
        r == false,
{
    false
}

impl Default for ConfigMetrics {
    fn default() -> (r: ConfigMetrics)
        ensures
            r.poll_interval == 120,
            r.poll_retry == 2,
            r.poll_http_status_healthy_above == 200,
            r.poll_http_status_healthy_below == 400,
            r.poll_delay_dead == 10,
            r.poll_delay_sick == 5,
            r.poll_parallelism == 4,
            r.push_delay_dead == 20,
            r.push_system_cpu_sick_above == 9900,
            r.push_system_ram_sick_above == 9900,
            r.script_interval == 300,
            r.script_parallelism == 2,
            r.local_delay_dead == 40,
    {
        ConfigMetrics {
            poll_interval: metrics_poll_interval(),
            poll_retry: metrics_poll_retry(),
            poll_http_status_healthy_above: metrics_poll_http_status_healthy_above(),
            poll_http_status_healthy_below: metrics_poll_http_status_healthy_below(),
            poll_delay_dead: metrics_poll_delay_dead(),
            poll_delay_sick: metrics_poll_delay_sick(),
            poll_parallelism: metrics_poll_parallelism(),
            push_delay_dead: metrics_push_delay_dead(),
            push_system_cpu_sick_above: metrics_push_system_cpu_sick_above(),
            push_system_ram_sick_above: metrics_push_system_ram_sick_above(),
            script_interval: metrics_script_interval(),
            script_parallelism: script_parallelism(),
            local_delay_dead: metrics_local_delay_dead(),
        }
    }
}

} // verus!
