use vstd::prelude::*;

use crate::mode::Mode;

verus! {

/// How reminder intervals grow while the global status stays dead.
#[derive(Clone, Copy, Debug, PartialEq, Eq, Structural)]
pub enum ConfigNotifyReminderBackoffFunction {
    /// No backoff: every reminder waits the base interval.
    Constant,
    Linear,
    Square,
    Cubic,
}

impl ConfigNotifyReminderBackoffFunction {
    /// The power to which the backoff counter is raised.
    pub open spec fn spec_exponent(self) -> nat {
        match self {
            ConfigNotifyReminderBackoffFunction::Constant => 0,
            ConfigNotifyReminderBackoffFunction::Linear => 1,
            ConfigNotifyReminderBackoffFunction::Square => 2,
            ConfigNotifyReminderBackoffFunction::Cubic => 3,
        }
    }

    pub fn exponent(&self) -> (r: u32)
        ensures
            r == self.spec_exponent(),
    {
        match self {
            ConfigNotifyReminderBackoffFunction::Constant => 0,
            ConfigNotifyReminderBackoffFunction::Linear => 1,
            ConfigNotifyReminderBackoffFunction::Square => 2,
            ConfigNotifyReminderBackoffFunction::Cubic => 3,
        }
    }
}

/// HTTP method of a poll check.
#[derive(Clone, Copy, Debug, PartialEq, Eq, Structural)]
pub enum ConfigProbeServiceNodeHTTPMethod {
    Head,
    Get,
    Post,
    Put,
    Patch,
}

/// Thresholds and timings of the probes and the aggregator. Loads are
/// fractions counted in ten-thousandths; delays are seconds.
pub struct ConfigMetrics {
    pub poll_interval: u64,
    pub poll_retry: u64,
    pub poll_http_status_healthy_above: u16,
    pub poll_http_status_healthy_below: u16,
    pub poll_delay_dead: u64,
    pub poll_delay_sick: u64,
    pub poll_parallelism: u16,
    pub push_delay_dead: u64,
    pub push_system_cpu_sick_above: i64,
    pub push_system_ram_sick_above: i64,
    pub script_interval: u64,
    pub script_parallelism: u16,
    pub local_delay_dead: u64,
}

/// Notification settings: the startup announcement and the reminders sent
/// while the global status stays dead.
pub struct ConfigNotify {
    pub startup_notification: bool,
    /// Base reminder interval in seconds; no reminders without it.
    pub reminder_interval: Option<u64>,
    pub reminder_backoff_function: ConfigNotifyReminderBackoffFunction,
    pub reminder_backoff_limit: u16,
}

/// The queue-depth check: where to ask and the thresholds of its verdict.
pub struct ConfigPluginsRabbitMQ {
    pub api_url: String,
    pub auth_username: String,
    pub auth_password: String,
    pub virtualhost: String,
    pub queue_ready_healthy_below: u32,
    pub queue_nack_healthy_below: u32,
    pub queue_ready_dead_above: u32,
    pub queue_nack_dead_above: u32,
    /// Delay in milliseconds before a loaded queue is asked again.
    pub queue_loaded_retry_delay: Option<u64>,
}

/// One node of a service as configured.
pub struct ConfigProbeServiceNode {
    pub id: String,
    pub label: String,
    pub mode: Mode,
    pub replicas: Option<Vec<String>>,
    pub scripts: Option<Vec<String>>,
    pub http_headers: Vec<(String, String)>,
    pub http_method: Option<ConfigProbeServiceNodeHTTPMethod>,
    pub http_body: Option<String>,
    pub http_body_healthy_match: Option<String>,
    pub reveal_replica_name: bool,
    pub rabbitmq_queue: Option<String>,
    pub rabbitmq_queue_nack_healthy_below: Option<u32>,
    pub rabbitmq_queue_nack_dead_above: Option<u32>,
}

/// One monitored service as configured.
pub struct ConfigProbeService {
    pub id: String,
    pub label: String,
    pub node: Vec<ConfigProbeServiceNode>,
}

pub struct ConfigProbe {
    pub service: Vec<ConfigProbeService>,
}

} // verus!
