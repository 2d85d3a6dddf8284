use vstd::prelude::*;
use vstd::string::StringExecFns;

use crate::config::{ConfigMetrics, ConfigPluginsRabbitMQ, ConfigProbeServiceNodeHTTPMethod};
use crate::states::ServiceStatesProbeNodeRabbitMQ;
use crate::status::Status;

verus! {

/// Pause before each single-shot poll probe, in milliseconds.
pub const PROBE_HOLD_MILLISECONDS: u64 = 500;

/// Upper bound of the ICMP timeout, in seconds.
pub const PROBE_ICMP_TIMEOUT_SECONDS: u64 = 1;

/// Status of a finished check: down is dead; up is sick when it took
/// `sick_delay` seconds or more, healthy otherwise.
pub open spec fn latency_status_spec(up: bool, latency_ms: u64, sick_delay: u64) -> Status {
    if !up {
        Status::Dead
    } else if latency_ms >= sick_delay * 1000 {
        Status::Sick
    } else {
        Status::Healthy
    }
}

pub fn latency_status(up: bool, latency_ms: u64, sick_delay: u64) -> (r: Status)
    ensures
        r == latency_status_spec(up, latency_ms, sick_delay),
{
    if !up {
        Status::Dead
    } else if (latency_ms as u128) >= (sick_delay as u128) * 1000 {
        Status::Sick
    } else {
        Status::Healthy
    }
}

/// What one single-shot poll probe gave.
#[derive(Clone, Copy, Debug, PartialEq, Eq, Structural)]
pub struct PollAttempt {
    pub up: bool,
    /// Latency that the probe measured itself (the worst ICMP round trip).
    pub measured_ms: Option<u64>,
    /// Milliseconds from the start of the whole retry loop to the end of
    /// this probe.
    pub elapsed_ms: u64,
}

/// The latency a probe reports: its own measure, else the wall-clock time
/// since the retry loop started.
pub open spec fn attempt_latency(a: PollAttempt) -> u64 {
    match a.measured_ms {
        Some(ms) => ms,
        None => a.elapsed_ms,
    }
}

/// Next step of a poll check with retries.
#[derive(Clone, Copy, Debug, PartialEq, Eq, Structural)]
pub enum PollStep {
    /// Pause this many milliseconds, then probe once more.
    Probe { hold_ms: u64 },
    /// The check is over: status and latency in milliseconds.
    Done { status: Status, latency_ms: u64 },
}

pub open spec fn poll_step_spec(attempts_made: u64, retry: u64, last: Option<PollAttempt>, sick_delay: u64) -> PollStep {
    match last {
        None => PollStep::Probe { hold_ms: PROBE_HOLD_MILLISECONDS },
        Some(a) => if !a.up && attempts_made <= retry {
            PollStep::Probe { hold_ms: PROBE_HOLD_MILLISECONDS }
        } else {
            PollStep::Done {
                status: latency_status_spec(a.up, attempt_latency(a), sick_delay),
                latency_ms: attempt_latency(a),
            }
        },
    }
}

/// Decides the next step of a poll check after `attempts_made` probes, the
/// last of which gave `last`: probe again while down and the retries are
/// not spent (at most `retry + 1` probes), else finish with the status of
/// the last probe.
pub fn poll_step(attempts_made: u64, retry: u64, last: Option<PollAttempt>, sick_delay: u64) -> (r: PollStep)
    ensures
        r == poll_step_spec(attempts_made, retry, last, sick_delay),
{
    match last {
        None => PollStep::Probe { hold_ms: PROBE_HOLD_MILLISECONDS },
        Some(a) => {
            if !a.up && attempts_made <= retry {
                PollStep::Probe { hold_ms: PROBE_HOLD_MILLISECONDS }
            } else {
                let latency = match a.measured_ms {
                    Some(ms) => ms,
                    None => a.elapsed_ms,
                };
                PollStep::Done { status: latency_status(a.up, latency, sick_delay), latency_ms: latency }
            }
        },
    }
}

/// A poll check whose first two probes fail and whose third succeeds ends
/// after the third, healthy or sick by its latency, never dead, when at
/// least three retries are allowed. The latency is the time since the retry
/// loop started, unless the probe measured its own (the worst ICMP round
/// trip).
pub proof fn lemma_retry_convergence(first: PollAttempt, second: PollAttempt, third: PollAttempt, retry: u64, sick_delay: u64)
    requires
        !first.up,
        !second.up,
        third.up,
        retry >= 3,
    ensures
        poll_step_spec(0, retry, None, sick_delay) is Probe,
        poll_step_spec(1, retry, Some(first), sick_delay) is Probe,
        poll_step_spec(2, retry, Some(second), sick_delay) is Probe,
        third.measured_ms is None ==> attempt_latency(third) == third.elapsed_ms,
        poll_step_spec(3, retry, Some(third), sick_delay) == (PollStep::Done {
            status: if attempt_latency(third) >= sick_delay * 1000 {
                Status::Sick
            } else {
                Status::Healthy
            },
            latency_ms: attempt_latency(third),
        }),
{
}

/// A finished check is healthy under the sick delay, sick at or above it,
/// dead when it failed.
pub proof fn lemma_latency_classification(up: bool, latency_ms: u64, sick_delay: u64)
    ensures
        up && latency_ms < sick_delay * 1000 ==> latency_status_spec(up, latency_ms, sick_delay) == Status::Healthy,
        up && latency_ms >= sick_delay * 1000 ==> latency_status_spec(up, latency_ms, sick_delay) == Status::Sick,
        !up ==> latency_status_spec(up, latency_ms, sick_delay) == Status::Dead,
{
}

/// ICMP timeout in seconds: the fixed bound, or the dead delay when shorter.
pub fn icmp_timeout(metrics: &ConfigMetrics) -> (r: u64)
    ensures
        r == if metrics.poll_delay_dead < PROBE_ICMP_TIMEOUT_SECONDS {
            metrics.poll_delay_dead
        } else {
            PROBE_ICMP_TIMEOUT_SECONDS
        },
{
    if metrics.poll_delay_dead < PROBE_ICMP_TIMEOUT_SECONDS {
        metrics.poll_delay_dead
    } else {
        PROBE_ICMP_TIMEOUT_SECONDS
    }
}

/// Largest round trip of a sequence of answered pings.
pub open spec fn max_rtt(rtts: Seq<Option<u64>>) -> u64
    decreases rtts.len(),
{
    if rtts.len() == 0 {
        0
    } else {
        let rest = max_rtt(rtts.drop_last());
        let last = match rtts.last() {
            Some(v) => v,
            None => 0,
        };
        if last > rest {
            last
        } else {
            rest
        }
    }
}

/// Verdict of an ICMP check over every address a host resolved to, given
/// the round trip of each ping (`None` for one that failed): up when there
/// was at least one address and every ping answered; the latency is then
/// the largest round trip.
pub fn icmp_verdict(rtts: &Vec<Option<u64>>) -> (r: (bool, Option<u64>))
    ensures
        r.0 == (rtts@.len() > 0 && forall|i: int| 0 <= i < rtts@.len() ==> (#[trigger] rtts@[i]) is Some),
        r.0 ==> r.1 == Some(max_rtt(rtts@)),
        !r.0 ==> r.1 is None,
{
    if rtts.len() == 0 {
        return (false, None);
    }
    let mut max: u64 = 0;
    let mut i: usize = 0;
    while i < rtts.len()
        invariant
            i <= rtts@.len(),
            forall|k: int| 0 <= k < i ==> (#[trigger] rtts@[k]) is Some,
            max == max_rtt(rtts@.take(i as int)),
        decreases rtts@.len() - i,
    {
        assert(rtts@.take(i as int + 1).drop_last() =~= rtts@.take(i as int));
        match rtts[i] {
            Some(rtt) => {
                if rtt > max {
                    max = rtt;
                }
            },
            None => {
                return (false, None);
            },
        }
        i = i + 1;
    }
    assert(rtts@.take(rtts@.len() as int) =~= rtts@);
    (true, Some(max))
}

/// HTTP method of a check: the configured one, else `GET` when the body
/// must match a pattern (the body is needed), else `HEAD`.
pub fn http_method_for(method: Option<ConfigProbeServiceNodeHTTPMethod>, has_body_match: bool) -> (r: ConfigProbeServiceNodeHTTPMethod)
    ensures
        r == match method {
            Some(m) => m,
            None => if has_body_match {
                ConfigProbeServiceNodeHTTPMethod::Get
            } else {
                ConfigProbeServiceNodeHTTPMethod::Head
            },
        },
{
    match method {
        Some(m) => m,
        None => if has_body_match {
            ConfigProbeServiceNodeHTTPMethod::Get
        } else {
            ConfigProbeServiceNodeHTTPMethod::Head
        },
    }
}

/// Whether requests of this method carry the configured body.
pub open spec fn carries_body(m: ConfigProbeServiceNodeHTTPMethod) -> bool {
    m == ConfigProbeServiceNodeHTTPMethod::Post || m == ConfigProbeServiceNodeHTTPMethod::Put
        || m == ConfigProbeServiceNodeHTTPMethod::Patch
}

/// Body sent with a check: the configured one (empty when none) for `POST`,
/// `PUT` and `PATCH`; nothing for the other methods.
pub fn http_body_for(method: ConfigProbeServiceNodeHTTPMethod, body: &Option<String>) -> (r: Option<String>)
    ensures
        !carries_body(method) ==> r is None,
        carries_body(method) ==> (r matches Some(b) && b@ == match body {
            Some(s) => s@,
            None => Seq::<char>::empty(),
        }),
{
    match method {
        ConfigProbeServiceNodeHTTPMethod::Post | ConfigProbeServiceNodeHTTPMethod::Put | ConfigProbeServiceNodeHTTPMethod::Patch => {
            match body {
                Some(s) => Some(s.clone()),
                None => Some(String::new()),
            }
        },
        _ => None,
    }
}

/// Verdict of an HTTP check: the status code lies in `[above, below)` and,
/// where a body pattern is configured, the body matched it
/// (`body_matched` is `None` when there is no pattern).
pub fn http_verdict(status_code: u16, healthy_above: u16, healthy_below: u16, body_matched: Option<bool>) -> (r: bool)
    ensures
        r == (healthy_above <= status_code && status_code < healthy_below && body_matched != Some(false)),
{
    if status_code >= healthy_above && status_code < healthy_below {
        match body_matched {
            Some(false) => false,
            _ => true,
        }
    } else {
        false
    }
}

/// Whether `text` holds a match of the regular expression `pattern`;
/// `None` when `pattern` does not compile.
pub uninterp spec fn regex_match_of(pattern: Seq<char>, text: Seq<char>) -> Option<bool>;

/// Relies on regex::Regex::new, which compiles `pattern` or fails, and on
/// Regex::is_match, which tells whether `text` holds a match.
#[verifier::external_body]
fn regex_matches(pattern: &str, text: &str) -> (r: Option<bool>)
    ensures
        r == regex_match_of(pattern@, text@),
{
    match regex::Regex::new(pattern) {
        Ok(re) => Some(re.is_match(text)),
        Err(_) => None,
    }
}

/// Whether a response body passes the node's pattern: `None` when no
/// pattern is configured; otherwise the body must have been read and must
/// hold a match (a pattern that does not compile matches nothing).
pub fn body_match_verdict(pattern: &Option<String>, body: Option<&str>) -> (r: Option<bool>)
    ensures
        r == match pattern {
            None => None::<bool>,
            Some(p) => Some(
                match body {
                    Some(t) => regex_match_of(p@, t@) == Some(true),
                    None => false,
                },
            ),
        },
{
    match pattern {
        None => None,
        Some(p) => match body {
            Some(t) => match regex_matches(p.as_str(), t) {
                Some(true) => Some(true),
                _ => Some(false),
            },
            None => Some(false),
        },
    }
}

/// Decimal digits of `n`.
pub open spec fn decimal(n: nat) -> Seq<char>
    decreases n,
{
    if n < 10 {
        seq![digit_char(n)]
    } else {
        decimal(n / 10).push(digit_char(n % 10))
    }
}

pub open spec fn digit_char(d: nat) -> char {
    if d == 0 { '0' } else if d == 1 { '1' } else if d == 2 { '2' } else if d == 3 { '3' } else if d == 4 { '4' }
    else if d == 5 { '5' } else if d == 6 { '6' } else if d == 7 { '7' } else if d == 8 { '8' } else { '9' }
}

fn digit_str(d: u64) -> (r: &'static str)
    requires
        d < 10,
    ensures
        r@ == seq![digit_char(d as nat)],
{
    proof {
        reveal_strlit("0");
        reveal_strlit("1");
        reveal_strlit("2");
        reveal_strlit("3");
        reveal_strlit("4");
        reveal_strlit("5");
        reveal_strlit("6");
        reveal_strlit("7");
        reveal_strlit("8");
        reveal_strlit("9");
    }
    if d == 0 { "0" } else if d == 1 { "1" } else if d == 2 { "2" } else if d == 3 { "3" } else if d == 4 { "4" }
    else if d == 5 { "5" } else if d == 6 { "6" } else if d == 7 { "7" } else if d == 8 { "8" } else { "9" }
}

/// Writes `n` in decimal.
pub fn decimal_string(n: u64) -> (r: String)
    ensures
        r@ == decimal(n as nat),
    decreases n,
{
    if n < 10 {
        let mut s = String::new();
        s.append(digit_str(n));
        assert(s@ =~= decimal(n as nat));
        s
    } else {
        let mut s = decimal_string(n / 10);
        s.append(digit_str(n % 10));
        assert(s@ =~= decimal(n as nat));
        s
    }
}

/// Whether `s` holds the character `c`.
fn has_char(s: &str, c: char) -> (r: bool)
    ensures
        r == s@.contains(c),
{
    let n = s.unicode_len();
    let mut i: usize = 0;
    while i < n
        invariant
            i <= n,
            n == s@.len(),
            forall|k: int| 0 <= k < i ==> s@[k] != c,
        decreases n - i,
    {
        if s.get_char(i) == c {
            return true;
        }
        i = i + 1;
    }
    false
}

/// The URL of one HTTP check: `url`, then `&` when it already has a query
/// string (else `?`), then `stamp`, which defeats caches in between.
pub fn http_probe_url(url: &str, stamp: u64) -> (r: String)
    ensures
        r@ == url@ + (if url@.contains('?') { "&"@ } else { "?"@ }) + decimal(stamp as nat),
{
    proof {
        reveal_strlit("&");
        reveal_strlit("?");
    }
    let mut s = url.to_owned();
    if has_char(url, '?') {
        s.append("&");
    } else {
        s.append("?");
    }
    let digits = decimal_string(stamp);
    s.append(digits.as_str());
    s
}

/// Status of a script check from its exit code (`None` when it could not
/// run): 0 is healthy, 1 is sick, anything else is dead.
pub fn script_status(exit_code: Option<i32>) -> (r: Status)
    ensures
        r == match exit_code {
            Some(0) => Status::Healthy,
            Some(1) => Status::Sick,
            _ => Status::Dead,
        },
{
    match exit_code {
        Some(0) => Status::Healthy,
        Some(1) => Status::Sick,
        _ => Status::Dead,
    }
}

/// Size of the chunks that `parallelism` workers share `count` targets in:
/// `count / parallelism`, rounded up.
pub fn chunk_size(count: usize, parallelism: u16) -> (r: usize)
    requires
        parallelism > 0,
    ensures
        r as int == (count as int + parallelism as int - 1) / (parallelism as int),
{
    let p = parallelism as usize;
    let mut size = count / p;
    if count % p > 0 {
        assert(count / p * p + count % p == count) by (nonlinear_arith)
            requires p > 0;
        assert(count / p < usize::MAX) by (nonlinear_arith)
            requires p > 0, count % p > 0, count <= usize::MAX, count / p * p + count % p == count;
        size = size + 1;
    }
    proof {
        let c = count as int;
        let q = p as int;
        assert(c == q * (c / q) + c % q) by (nonlinear_arith) requires q > 0;
        assert((c + q - 1) / q == c / q + (c % q + q - 1) / q) by (nonlinear_arith)
            requires q > 0, c == q * (c / q) + c % q, 0 <= c % q < q;
        if c % q > 0 {
            assert((c % q + q - 1) / q == 1) by (nonlinear_arith) requires q > 0, 0 < c % q < q;
        } else {
            assert((q - 1) / q == 0) by (nonlinear_arith) requires q > 0;
        }
    }
    size
}

/// The chunks, as index ranges `[start, end)`, that `count` targets are cut
/// into for `parallelism` workers: consecutive chunks of `chunk_size`
/// targets each, the last one possibly shorter; none when there are no
/// targets.
pub fn chunk_ranges(count: usize, parallelism: u16) -> (r: Vec<(usize, usize)>)
    requires
        parallelism > 0,
    ensures
        ({
            let size = (count as int + parallelism as int - 1) / (parallelism as int);
            &&& count == 0 ==> r@.len() == 0
            &&& count > 0 ==> r@.len() == (count as int + size - 1) / size
            &&& forall|k: int| 0 <= k < r@.len() ==> (#[trigger] r@[k]).0 == k * size && r@[k].1 == if (k + 1) * size < count {
                (k + 1) * size
            } else {
                count as int
            }
        }),
{
    let size = chunk_size(count, parallelism);
    let mut ranges: Vec<(usize, usize)> = Vec::new();
    if size == 0 {
        assert(count == 0) by (nonlinear_arith)
            requires parallelism > 0, 0 == (count as int + parallelism as int - 1) / (parallelism as int), count >= 0;
        return ranges;
    }
    let mut start: usize = 0;
    while start < count
        invariant
            size > 0,
            start <= count,
            start < count ==> start as int == ranges@.len() * size,
            start == count && ranges@.len() > 0 ==> (ranges@.len() - 1) * size < count && count <= ranges@.len() * size,
            start == count && ranges@.len() == 0 ==> count == 0,
            forall|k: int| 0 <= k < ranges@.len() ==> (#[trigger] ranges@[k]).0 == k * size && ranges@[k].1 == if (k + 1) * size < count {
                (k + 1) * size
            } else {
                count as int
            },
        decreases count - start,
    {
        let ghost k = ranges@.len() as int;
        proof {
            assert((k + 1) * size == k * size + size) by (nonlinear_arith);
        }
        let end = if count - start > size { start + size } else { count };
        ranges.push((start, end));
        start = end;
    }
    proof {
        let n = ranges@.len() as int;
        let c = count as int;
        let sz = size as int;
        if c > 0 {
            assert((c + sz - 1) / sz == n) by (nonlinear_arith)
                requires sz > 0, (n - 1) * sz < c, c <= n * sz;
        }
    }
    ranges
}

/// Verdict of a queue-depth check: loaded when the ready or unacknowledged
/// count reaches its healthy threshold, stalled when one goes over its dead
/// threshold. The node's own unacknowledged thresholds win over the global
/// ones.
pub fn classify_queue(
    ready: u32,
    nack: u32,
    conf: &ConfigPluginsRabbitMQ,
    queue: &ServiceStatesProbeNodeRabbitMQ,
) -> (r: (bool, bool))
    ensures
        r.0 == (ready >= conf.queue_ready_healthy_below || nack >= match queue.queue_nack_healthy_below {
            Some(t) => t,
            None => conf.queue_nack_healthy_below,
        }),
        r.1 == (ready > conf.queue_ready_dead_above || nack > match queue.queue_nack_dead_above {
            Some(t) => t,
            None => conf.queue_nack_dead_above,
        }),
{
    let nack_healthy_below = match queue.queue_nack_healthy_below {
        Some(t) => t,
        None => conf.queue_nack_healthy_below,
    };
    let nack_dead_above = match queue.queue_nack_dead_above {
        Some(t) => t,
        None => conf.queue_nack_dead_above,
    };
    let loaded = ready >= conf.queue_ready_healthy_below || nack >= nack_healthy_below;
    let stalled = ready > conf.queue_ready_dead_above || nack > nack_dead_above;
    (loaded, stalled)
}

/// Whether a queue verdict is checked once more, and after how many
/// milliseconds: only a loaded queue, and only when a delay is configured.
pub fn queue_recheck_delay(loaded: bool, conf: &ConfigPluginsRabbitMQ) -> (r: Option<u64>)
    ensures
        r == if loaded {
            conf.queue_loaded_retry_delay
        } else {
            None::<u64>
        },
{
    if loaded {
        conf.queue_loaded_retry_delay
    } else {
        None
    }
}

/// Path of a queue in the broker's management API.
pub fn queue_api_path(virtualhost: &str, queue: &str) -> (r: String)
    ensures
        r@ == "/api/queues/"@ + virtualhost@ + "/"@ + queue@,
{
    proof {
        reveal_strlit("/api/queues/");
        reveal_strlit("/");
    }
    let mut s = String::new();
    s.append("/api/queues/");
    s.append(virtualhost);
    s.append("/");
    s.append(queue);
    assert(s@ =~= "/api/queues/"@ + virtualhost@ + "/"@ + queue@);
    s
}

} // verus!
