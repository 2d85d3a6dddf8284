use vstd::prelude::*;

use crate::aggregator::BumpedStates;
use crate::config::ConfigNotify;
use crate::status::Status;

verus! {

/// Pause between two delivery attempts to one backend, in seconds.
pub const DISPATCH_TRY_WAIT_SECONDS: u64 = 2;

/// Delivery attempts made to one backend before giving up.
pub const DISPATCH_TRY_ATTEMPT_TIMES: u8 = 3;

/// Time limit of one delivery attempt, in seconds.
pub const DISPATCH_TIMEOUT_SECONDS: u64 = 10;

/// What the notification backends are handed.
pub struct Notification {
    pub status: Status,
    /// Clock text of the moment it was made.
    pub time: String,
    /// Full paths of the dead replicas.
    pub replicas: Vec<String>,
    pub changed: bool,
    pub startup: bool,
}

impl Notification {
    /// Whether a backend that wants reminders only (or not) takes this
    /// notification: such a backend skips changes of status.
    pub fn expected(&self, reminders_only: bool) -> (r: bool)
        ensures
            r == (!reminders_only || !self.changed),
    {
        !reminders_only || !self.changed
    }

    /// The notification of an aggregation outcome, stamped with `time`.
    pub fn from_bumped(bumped: BumpedStates, time: String) -> (r: Notification)
        ensures
            r.status == bumped.status,
            r.time == time,
            r.replicas == bumped.replicas,
            r.changed == bumped.changed,
            r.startup == bumped.startup,
    {
        Notification {
            status: bumped.status,
            time,
            replicas: bumped.replicas,
            changed: bumped.changed,
            startup: bumped.startup,
        }
    }
}

/// The announcement made once before the first aggregation pass, when it is
/// configured: healthy, changed, at startup, no replicas.
pub fn dispatch_startup_notification(notify: &Option<ConfigNotify>) -> (r: Option<BumpedStates>)
    ensures
        r is Some <==> (notify matches Some(n) && n.startup_notification),
        r matches Some(b) ==> b.status == Status::Healthy && b.replicas@.len() == 0 && b.changed && b.startup,
{
    match notify {
        Some(n) => {
            if n.startup_notification {
                Some(BumpedStates { status: Status::Healthy, replicas: Vec::new(), changed: true, startup: true })
            } else {
                None
            }
        },
        None => None,
    }
}

/// Next step of delivering one notification to one backend.
#[derive(Clone, Copy, Debug, PartialEq, Eq, Structural)]
pub enum DispatchStep {
    /// Pause this many seconds, then attempt delivery.
    Attempt { hold_secs: u64 },
    /// Delivered.
    Delivered,
    /// Every attempt failed: a failure to report.
    Failed,
    /// The backend does not take this notification: not an error.
    Skipped,
}

/// Decides the next step of a delivery after `attempts_made` attempts, the
/// last of which succeeded when `last_ok`: skip when the backend does not
/// take the notification; stop at the first success; otherwise try again,
/// pausing between attempts, up to the attempt limit.
pub fn dispatch_step(can_notify: bool, attempts_made: u8, last_ok: bool) -> (r: DispatchStep)
    ensures
        r == if !can_notify {
            DispatchStep::Skipped
        } else if attempts_made > 0 && last_ok {
            DispatchStep::Delivered
        } else if attempts_made >= DISPATCH_TRY_ATTEMPT_TIMES {
            DispatchStep::Failed
        } else if attempts_made == 0 {
            DispatchStep::Attempt { hold_secs: 0 }
        } else {
            DispatchStep::Attempt { hold_secs: DISPATCH_TRY_WAIT_SECONDS }
        },
{
    if !can_notify {
        DispatchStep::Skipped
    } else if attempts_made > 0 && last_ok {
        DispatchStep::Delivered
    } else if attempts_made >= DISPATCH_TRY_ATTEMPT_TIMES {
        DispatchStep::Failed
    } else if attempts_made == 0 {
        DispatchStep::Attempt { hold_secs: 0 }
    } else {
        DispatchStep::Attempt { hold_secs: DISPATCH_TRY_WAIT_SECONDS }
    }
}

/// What a finished delivery reports: `Ok` when delivered, `Err(true)` when
/// every attempt failed, `Err(false)` when skipped; `None` while it goes on.
pub fn dispatch_outcome(step: DispatchStep) -> (r: Option<Result<(), bool>>)
    ensures
        r == match step {
            DispatchStep::Delivered => Some(Ok::<(), bool>(())),
            DispatchStep::Failed => Some(Err::<(), bool>(true)),
            DispatchStep::Skipped => Some(Err::<(), bool>(false)),
            DispatchStep::Attempt { .. } => None::<Result<(), bool>>,
        },
{
    match step {
        DispatchStep::Delivered => Some(Ok(())),
        DispatchStep::Failed => Some(Err(true)),
        DispatchStep::Skipped => Some(Err(false)),
        DispatchStep::Attempt { .. } => None,
    }
}

/// Kind of event a web hook announces.
#[derive(Clone, Copy, Debug, PartialEq, Eq, Structural)]
pub enum WebHookPayloadType {
    Changed,
    Reminder,
}

impl WebHookPayloadType {
    /// A change of status, or a reminder that it stays as it is.
    pub fn of(notification: &Notification) -> (r: WebHookPayloadType)
        ensures
            r == if notification.changed {
                WebHookPayloadType::Changed
            } else {
                WebHookPayloadType::Reminder
            },
    {
        if notification.changed {
            WebHookPayloadType::Changed
        } else {
            WebHookPayloadType::Reminder
        }
    }

    pub fn as_str(&self) -> (r: &'static str)
        ensures
            r@ == match *self {
                WebHookPayloadType::Changed => "changed"@,
                WebHookPayloadType::Reminder => "reminder"@,
            },
    {
        match self {
            WebHookPayloadType::Changed => "changed",
            WebHookPayloadType::Reminder => "reminder",
        }
    }
}

} // verus!
