use vstd::prelude::*;
use vstd::string::StringExecFns;

use crate::config::{ConfigMetrics, ConfigNotify, ConfigNotifyReminderBackoffFunction};
use crate::maps::{
    node_entries, node_map_get_index, node_map_len, node_map_value_mut, probe_entries,
    probe_map_get_index, probe_map_len, probe_map_value_mut, replica_entries,
    replica_map_get_index, replica_map_len, replica_map_value_mut,
};
use crate::mode::Mode;
use crate::states::{
    ServiceStatesNotifier, ServiceStatesProbe, ServiceStatesProbeNode,
    ServiceStatesProbeNodeReplica, ServiceStatesProbeNodeReplicaReport, Store,
};
use crate::status::{is_worst_of, lemma_rollup_dead_sticky, lemma_rollup_is_max, rollup, worse_of, Status};

verus! {

/// The views of a sequence of strings.
pub open spec fn texts(v: Seq<String>) -> Seq<Seq<char>> {
    v.map_values(|s: String| s@)
}

/// Whether a report is overdue at `now`: it was made at least
/// `interval + grace` seconds earlier. A report dated after `now` is not.
pub open spec fn report_overdue(report: Option<ServiceStatesProbeNodeReplicaReport>, grace: u64, now: u64) -> bool {
    match report {
        Some(r) => now >= r.time && (now - r.time) >= (r.interval + grace) * 1000,
        None => false,
    }
}

/// Status of a push replica from its last report and load.
pub open spec fn push_status(replica: ServiceStatesProbeNodeReplica, m: ConfigMetrics, now: u64) -> Status {
    if report_overdue(replica.report, m.push_delay_dead, now) {
        Status::Dead
    } else {
        match replica.load {
            Some(l) => if l.cpu > m.push_system_cpu_sick_above || l.ram > m.push_system_ram_sick_above {
                Status::Sick
            } else if l.queue.stalled {
                Status::Dead
            } else if l.queue.loaded {
                Status::Sick
            } else {
                Status::Healthy
            },
            None => Status::Healthy,
        }
    }
}

/// Status of a replica at aggregation time: push and local replicas are
/// judged from what they reported, poll and script replicas keep the
/// status that their last check wrote.
pub open spec fn evaluated_status(mode: Mode, replica: ServiceStatesProbeNodeReplica, m: ConfigMetrics, now: u64) -> Status {
    match mode {
        Mode::Push => push_status(replica, m, now),
        Mode::Local => if report_overdue(replica.report, m.local_delay_dead, now) {
            Status::Dead
        } else {
            replica.status
        },
        _ => replica.status,
    }
}

pub open spec fn with_status(r: ServiceStatesProbeNodeReplica, s: Status) -> ServiceStatesProbeNodeReplica {
    ServiceStatesProbeNodeReplica { status: s, ..r }
}

pub open spec fn aggregated_replica(
    e: (Seq<char>, ServiceStatesProbeNodeReplica),
    mode: Mode,
    m: ConfigMetrics,
    now: u64,
) -> (Seq<char>, ServiceStatesProbeNodeReplica) {
    (e.0, with_status(e.1, evaluated_status(mode, e.1, m, now)))
}

pub open spec fn replica_statuses(s: Seq<(Seq<char>, ServiceStatesProbeNodeReplica)>) -> Seq<Status> {
    s.map_values(|e: (Seq<char>, ServiceStatesProbeNodeReplica)| e.1.status)
}

/// `probe:node:replica`, the full path of a replica.
pub open spec fn replica_path(probe_id: Seq<char>, node_id: Seq<char>, replica_id: Seq<char>) -> Seq<char> {
    probe_id + ":"@ + node_id + ":"@ + replica_id
}

/// Full paths of the dead replicas among `reps`, in order.
pub open spec fn dead_replica_paths(
    probe_id: Seq<char>,
    node_id: Seq<char>,
    reps: Seq<(Seq<char>, ServiceStatesProbeNodeReplica)>,
) -> Seq<Seq<char>>
    decreases reps.len(),
{
    if reps.len() == 0 {
        Seq::empty()
    } else {
        let rest = dead_replica_paths(probe_id, node_id, reps.drop_last());
        if reps.last().1.status == Status::Dead {
            rest.push(replica_path(probe_id, node_id, reps.last().0))
        } else {
            rest
        }
    }
}

/// `new` is `old` after one aggregation pass at `now`: each replica has its
/// evaluated status, the node has the worst of them, nothing else changed.
pub open spec fn node_rolled_up(old: ServiceStatesProbeNode, new: ServiceStatesProbeNode, m: ConfigMetrics, now: u64) -> bool {
    let o = replica_entries(old.replicas);
    let n = replica_entries(new.replicas);
    &&& n.len() == o.len()
    &&& forall|k: int| 0 <= k < o.len() ==> n[k] == #[trigger] aggregated_replica(o[k], old.mode, m, now)
    &&& new.status == rollup(replica_statuses(n))
    &&& new == (ServiceStatesProbeNode { status: new.status, replicas: new.replicas, ..old })
}

/// Whether a replica's report is overdue at `now`.
fn overdue(report: &Option<ServiceStatesProbeNodeReplicaReport>, grace: u64, now: u64) -> (r: bool)
    ensures
        r == report_overdue(*report, grace, now),
{
    match report {
        Some(rep) => {
            if now >= rep.time {
                let elapsed: u64 = now - rep.time;
                (elapsed as u128) >= ((rep.interval as u128) + (grace as u128)) * 1000
            } else {
                false
            }
        },
        None => false,
    }
}

/// Judges one replica at aggregation time.
pub fn evaluate_replica(mode: Mode, replica: &ServiceStatesProbeNodeReplica, metrics: &ConfigMetrics, now: u64) -> (r: Status)
    ensures
        r == evaluated_status(mode, *replica, *metrics, now),
{
    match mode {
        Mode::Push => {
            if overdue(&replica.report, metrics.push_delay_dead, now) {
                Status::Dead
            } else {
                match &replica.load {
                    Some(l) => {
                        if l.cpu > metrics.push_system_cpu_sick_above || l.ram > metrics.push_system_ram_sick_above {
                            Status::Sick
                        } else if l.queue.stalled {
                            Status::Dead
                        } else if l.queue.loaded {
                            Status::Sick
                        } else {
                            Status::Healthy
                        }
                    },
                    None => Status::Healthy,
                }
            }
        },
        Mode::Local => {
            if overdue(&replica.report, metrics.local_delay_dead, now) {
                Status::Dead
            } else {
                replica.status
            }
        },
        _ => replica.status,
    }
}

/// Builds `probe:node:replica`.
fn make_replica_path(probe_id: &str, node_id: &str, replica_id: &str) -> (r: String)
    ensures
        r@ == replica_path(probe_id@, node_id@, replica_id@),
{
    let mut path = probe_id.to_owned();
    path.append(":");
    path.append(node_id);
    path.append(":");
    path.append(replica_id);
    proof {
        reveal_strlit(":");
    }
    path
}

/// One aggregation pass over a node: evaluates its replicas, writes their
/// statuses back, sets the node to the worst of them and appends the paths
/// of the dead ones to `bumped`.
fn aggregate_node(
    node: &mut ServiceStatesProbeNode,
    probe_id: &str,
    node_id: &str,
    metrics: &ConfigMetrics,
    now: u64,
    bumped: &mut Vec<String>,
) -> (r: Status)
    requires
        old(node).wf(),
    ensures
        node_rolled_up(*old(node), *final(node), *metrics, now),
        final(node).wf(),
        r == final(node).status,
        texts(final(bumped)@) == texts(old(bumped)@) + dead_replica_paths(probe_id@, node_id@, replica_entries(final(node).replicas)),
{
    let ghost o = replica_entries(node.replicas);
    let ghost b0 = texts(bumped@);
    let mode = node.mode;
    let len = replica_map_len(&node.replicas);
    let mut node_status = Status::Healthy;
    let mut j: usize = 0;
    while j < len
        invariant
            j <= len,
            len == o.len(),
            replica_entries(node.replicas).len() == len,
            mode == old(node).mode,
            forall|k: int| 0 <= k < j ==> replica_entries(node.replicas)[k] == #[trigger] aggregated_replica(o[k], mode, *metrics, now),
            forall|k: int| j <= k < len ==> #[trigger] replica_entries(node.replicas)[k] == o[k],
            node_status == rollup(replica_statuses(replica_entries(node.replicas).take(j as int))),
            texts(bumped@) == b0 + dead_replica_paths(probe_id@, node_id@, replica_entries(node.replicas).take(j as int)),
            *node == (ServiceStatesProbeNode { replicas: node.replicas, ..*old(node) }),
        decreases len - j,
    {
        let ghost cur = replica_entries(node.replicas);
        let (status, path) = match replica_map_get_index(&node.replicas, j) {
            Some((rid, replica)) => {
                let status = evaluate_replica(mode, replica, metrics, now);
                let path = make_replica_path(probe_id, node_id, rid.as_str());
                (status, path)
            },
            None => {
                proof {
                    assert(false);
                }
                (Status::Healthy, String::new())
            },
        };
        let replica = replica_map_value_mut(&mut node.replicas, j);
        replica.status = status;
        let ghost nxt = replica_entries(node.replicas);
        assert(nxt[j as int] == aggregated_replica(o[j as int], mode, *metrics, now));
        assert(nxt.take(j as int) =~= cur.take(j as int));
        assert(nxt.take(j as int + 1).drop_last() =~= nxt.take(j as int));
        assert(replica_statuses(nxt.take(j as int + 1)).drop_last() =~= replica_statuses(nxt.take(j as int)));
        node_status = worse_of(node_status, status);
        let ghost before = bumped@;
        if status == Status::Dead {
            bumped.push(path);
            assert(texts(bumped@) =~= texts(before).push(path@));
        }
        j = j + 1;
    }
    node.status = node_status;
    proof {
        let n = replica_entries(node.replicas);
        assert(n.take(len as int) =~= n);
        assert forall|a: int, c: int| 0 <= a < n.len() && 0 <= c < n.len() && a != c implies n[a].0 != n[c].0 by {
            assert(n[a] == aggregated_replica(o[a], mode, *metrics, now));
            assert(n[c] == aggregated_replica(o[c], mode, *metrics, now));
        }
    }
    node_status
}


pub open spec fn node_statuses(s: Seq<(Seq<char>, ServiceStatesProbeNode)>) -> Seq<Status> {
    s.map_values(|e: (Seq<char>, ServiceStatesProbeNode)| e.1.status)
}

pub open spec fn probe_statuses(s: Seq<(Seq<char>, ServiceStatesProbe)>) -> Seq<Status> {
    s.map_values(|e: (Seq<char>, ServiceStatesProbe)| e.1.status)
}

/// Full paths of the dead replicas of the nodes `nodes` of probe `probe_id`.
pub open spec fn dead_node_paths(probe_id: Seq<char>, nodes: Seq<(Seq<char>, ServiceStatesProbeNode)>) -> Seq<Seq<char>>
    decreases nodes.len(),
{
    if nodes.len() == 0 {
        Seq::empty()
    } else {
        dead_node_paths(probe_id, nodes.drop_last()) + dead_replica_paths(
            probe_id,
            nodes.last().0,
            replica_entries(nodes.last().1.replicas),
        )
    }
}

/// Full paths of the dead replicas of the whole tree, in tree order.
pub open spec fn dead_paths(probes: Seq<(Seq<char>, ServiceStatesProbe)>) -> Seq<Seq<char>>
    decreases probes.len(),
{
    if probes.len() == 0 {
        Seq::empty()
    } else {
        dead_paths(probes.drop_last()) + dead_node_paths(probes.last().0, node_entries(probes.last().1.nodes))
    }
}

/// `new` is `old` after one aggregation pass at `now`: every node is rolled
/// up, the probe has the worst node status, nothing else changed.
pub open spec fn probe_rolled_up(old: ServiceStatesProbe, new: ServiceStatesProbe, m: ConfigMetrics, now: u64) -> bool {
    let o = node_entries(old.nodes);
    let n = node_entries(new.nodes);
    &&& n.len() == o.len()
    &&& forall|k: int| #![trigger n[k]] 0 <= k < o.len() ==> n[k].0 == o[k].0 && node_rolled_up(o[k].1, n[k].1, m, now)
    &&& new.status == rollup(node_statuses(n))
    &&& new == (ServiceStatesProbe { status: new.status, nodes: new.nodes, ..old })
}

/// The probes `new` are `old` after one aggregation pass at `now`.
pub open spec fn tree_rolled_up(
    old: Seq<(Seq<char>, ServiceStatesProbe)>,
    new: Seq<(Seq<char>, ServiceStatesProbe)>,
    m: ConfigMetrics,
    now: u64,
) -> bool {
    &&& new.len() == old.len()
    &&& forall|k: int| #![trigger new[k]] 0 <= k < old.len() ==> new[k].0 == old[k].0 && probe_rolled_up(old[k].1, new[k].1, m, now)
}

fn aggregate_probe(
    probe: &mut ServiceStatesProbe,
    probe_id: &str,
    metrics: &ConfigMetrics,
    now: u64,
    bumped: &mut Vec<String>,
) -> (r: Status)
    requires
        old(probe).wf(),
    ensures
        probe_rolled_up(*old(probe), *final(probe), *metrics, now),
        final(probe).wf(),
        r == final(probe).status,
        texts(final(bumped)@) == texts(old(bumped)@) + dead_node_paths(probe_id@, node_entries(final(probe).nodes)),
{
    let ghost o = node_entries(probe.nodes);
    let ghost b0 = texts(bumped@);
    let len = node_map_len(&probe.nodes);
    let mut probe_status = Status::Healthy;
    let mut j: usize = 0;
    while j < len
        invariant
            j <= len,
            len == o.len(),
            node_entries(probe.nodes).len() == len,
            forall|k: int| #![trigger node_entries(probe.nodes)[k]] 0 <= k < j ==> node_entries(probe.nodes)[k].0 == o[k].0
                && node_rolled_up(o[k].1, node_entries(probe.nodes)[k].1, *metrics, now)
                && node_entries(probe.nodes)[k].1.wf(),
            forall|k: int| j <= k < len ==> #[trigger] node_entries(probe.nodes)[k] == o[k],
            forall|k: int| 0 <= k < len ==> (#[trigger] o[k]).1.wf(),
            crate::maps::keys_unique(o),
            probe_status == rollup(node_statuses(node_entries(probe.nodes).take(j as int))),
            texts(bumped@) == b0 + dead_node_paths(probe_id@, node_entries(probe.nodes).take(j as int)),
            *probe == (ServiceStatesProbe { nodes: probe.nodes, ..*old(probe) }),
        decreases len - j,
    {
        let ghost cur = node_entries(probe.nodes);
        let node_id = match node_map_get_index(&probe.nodes, j) {
            Some((nid, _)) => nid.clone(),
            None => {
                proof {
                    assert(false);
                }
                String::new()
            },
        };
        assert(cur[j as int].1.wf());
        let node = node_map_value_mut(&mut probe.nodes, j);
        let status = aggregate_node(node, probe_id, node_id.as_str(), metrics, now, bumped);
        let ghost nxt = node_entries(probe.nodes);
        assert(nxt.take(j as int) =~= cur.take(j as int));
        assert(nxt.take(j as int + 1).drop_last() =~= nxt.take(j as int));
        assert(node_statuses(nxt.take(j as int + 1)).drop_last() =~= node_statuses(nxt.take(j as int)));
        assert(nxt.take(j as int + 1).last() == nxt[j as int]);
        probe_status = worse_of(probe_status, status);
        j = j + 1;
    }
    probe.status = probe_status;
    proof {
        let n = node_entries(probe.nodes);
        assert(n.take(len as int) =~= n);
        assert forall|a: int, c: int| 0 <= a < n.len() && 0 <= c < n.len() && a != c implies n[a].0 != n[c].0 by {
            assert(n[a].0 == o[a].0);
            assert(n[c].0 == o[c].0);
        }
        assert forall|k: int| 0 <= k < n.len() implies (#[trigger] n[k]).1.wf() by {
            assert(n[k].1.wf());
        }
    }
    probe_status
}

/// What one aggregation pass hands to the notifiers.
pub struct BumpedStates {
    pub status: Status,
    /// Full paths of the dead replicas.
    pub replicas: Vec<String>,
    /// Whether the global status changed in this pass.
    pub changed: bool,
    /// Whether this is the announcement made at startup.
    pub startup: bool,
}

/// The factor `counter^exponent` of the reminder backoff.
pub open spec fn backoff_factor(counter: u16, f: ConfigNotifyReminderBackoffFunction) -> int {
    match f {
        ConfigNotifyReminderBackoffFunction::Constant => 1,
        ConfigNotifyReminderBackoffFunction::Linear => counter as int,
        ConfigNotifyReminderBackoffFunction::Square => counter * counter,
        ConfigNotifyReminderBackoffFunction::Cubic => counter * counter * counter,
    }
}

/// Milliseconds to wait after the last notification before a reminder:
/// `interval × counter^exponent` seconds.
pub open spec fn reminder_wait(interval: u64, counter: u16, f: ConfigNotifyReminderBackoffFunction) -> int {
    interval * backoff_factor(counter, f) * 1000
}

/// Whether the operator has muted reminders at `now`.
pub open spec fn reminders_ignored(notifier: ServiceStatesNotifier, now: u64) -> bool {
    match notifier.reminder_ignore_until {
        Some(until) => now < until,
        None => false,
    }
}

/// Whether a reminder is due at `now`: one was sent before, reminders are
/// configured, the backoff wait has passed and reminders are not muted.
pub open spec fn reminder_due(notified: Option<u64>, notifier: ServiceStatesNotifier, notify: ConfigNotify, now: u64) -> bool {
    match (notified, notify.reminder_interval) {
        (Some(last), Some(interval)) => now >= last
            && now - last >= reminder_wait(interval, notifier.reminder_backoff_counter, notify.reminder_backoff_function)
            && !reminders_ignored(notifier, now),
        _ => false,
    }
}

/// A move into or out of `Dead`.
pub open spec fn transition_notifies(prev: Status, next: Status) -> bool {
    (prev != Status::Dead && next == Status::Dead) || (prev == Status::Dead && next != Status::Dead)
}

/// The global status stays dead and a reminder is due.
pub open spec fn reminder_fires(
    prev: Status,
    next: Status,
    notified: Option<u64>,
    notifier: ServiceStatesNotifier,
    notify: Option<ConfigNotify>,
    now: u64,
) -> bool {
    &&& prev == next
    &&& next == Status::Dead
    &&& match notify {
        Some(n) => reminder_due(notified, notifier, n, now),
        None => false,
    }
}

pub open spec fn notifies(
    prev: Status,
    next: Status,
    notified: Option<u64>,
    notifier: ServiceStatesNotifier,
    notify: Option<ConfigNotify>,
    now: u64,
) -> bool {
    transition_notifies(prev, next) || reminder_fires(prev, next, notified, notifier, notify, now)
}

/// The backoff counter after a pass: back to 1 on any change to a status
/// other than `Dead`; one up after a reminder while a backoff function is set
/// and the counter is under its limit; unchanged otherwise.
pub open spec fn next_counter(
    prev: Status,
    next: Status,
    notified: Option<u64>,
    notifier: ServiceStatesNotifier,
    notify: Option<ConfigNotify>,
    now: u64,
) -> u16 {
    let c = notifier.reminder_backoff_counter;
    if prev != next && next != Status::Dead {
        1
    } else if reminder_fires(prev, next, notified, notifier, notify, now)
        && notify->0.reminder_backoff_function != ConfigNotifyReminderBackoffFunction::Constant
        && c < notify->0.reminder_backoff_limit {
        (c + 1) as u16
    } else {
        c
    }
}

/// Whether the aggregation pass that moves the global status from `prev` to
/// `next` notifies, and the backoff counter after it.
pub fn decide_notification(
    prev: Status,
    next: Status,
    notified: Option<u64>,
    notifier: &ServiceStatesNotifier,
    notify: &Option<ConfigNotify>,
    now: u64,
) -> (r: (bool, u16))
    ensures
        r.0 == notifies(prev, next, notified, *notifier, *notify, now),
        r.1 == next_counter(prev, next, notified, *notifier, *notify, now),
{
    let changed = prev != next;
    let mut should_notify = (prev != Status::Dead && next == Status::Dead) || (prev == Status::Dead && next != Status::Dead);
    let mut counter = notifier.reminder_backoff_counter;
    if changed && next != Status::Dead {
        counter = 1;
    }
    if !changed && next == Status::Dead {
        if let Some(conf) = notify {
            if let (Some(last), Some(interval)) = (notified, conf.reminder_interval) {
                if now >= last {
                    let c = counter as u128;
                    assert(c * c <= 0xffff * 0xffff) by (nonlinear_arith)
                        requires c <= 0xffff;
                    let factor: u128 = match conf.reminder_backoff_function {
                        ConfigNotifyReminderBackoffFunction::Constant => 1,
                        ConfigNotifyReminderBackoffFunction::Linear => c,
                        ConfigNotifyReminderBackoffFunction::Square => c * c,
                        ConfigNotifyReminderBackoffFunction::Cubic => {
                            assert(c * c * c <= 0xffff * 0xffff * 0xffff) by (nonlinear_arith)
                                requires c <= 0xffff, c * c <= 0xffff * 0xffff;
                            c * c * c
                        },
                    };
                    assert(factor <= 0xffff_ffff_ffff) by (nonlinear_arith)
                        requires
                            c <= 0xffff,
                            factor == 1 || factor == c || factor == c * c || factor == c * c * c;
                    assert((interval as u128) * factor <= 0xffff_ffff_ffff_ffff * 0xffff_ffff_ffff) by (nonlinear_arith)
                        requires interval <= 0xffff_ffff_ffff_ffff, factor <= 0xffff_ffff_ffff;
                    let wait: u128 = (interval as u128) * factor * 1000;
                    let ignored = match notifier.reminder_ignore_until {
                        Some(until) => now < until,
                        None => false,
                    };
                    if ((now - last) as u128) >= wait && !ignored {
                        should_notify = true;
                        if conf.reminder_backoff_function != ConfigNotifyReminderBackoffFunction::Constant
                            && counter < conf.reminder_backoff_limit {
                            counter = counter + 1;
                        }
                    }
                }
            }
        }
    }
    (should_notify, counter)
}

/// One aggregation pass at `now` (milliseconds since the epoch; `now_text`
/// is its clock text). Every replica takes its evaluated status, every node,
/// probe and the global status the worst of their children; the reminder
/// counter moves on; when the pass notifies, the time is recorded and what
/// the notifiers need is returned.
pub fn scan_and_bump_states(
    store: &mut Store,
    metrics: &ConfigMetrics,
    notify: &Option<ConfigNotify>,
    now: u64,
    now_text: String,
) -> (r: Option<BumpedStates>)
    requires
        old(store).wf(),
    ensures
        final(store).wf(),
        tree_rolled_up(probe_entries(old(store).states.probes), probe_entries(final(store).states.probes), *metrics, now),
        final(store).states.status == rollup(probe_statuses(probe_entries(final(store).states.probes))),
        final(store).states.date == Some(now_text),
        final(store).states.notifier == (ServiceStatesNotifier {
            reminder_backoff_counter: next_counter(
                old(store).states.status,
                final(store).states.status,
                old(store).notified,
                old(store).states.notifier,
                *notify,
                now,
            ),
            ..old(store).states.notifier
        }),
        notifies(old(store).states.status, final(store).states.status, old(store).notified, old(store).states.notifier, *notify, now)
            ==> final(store).notified == Some(now),
        !notifies(old(store).states.status, final(store).states.status, old(store).notified, old(store).states.notifier, *notify, now)
            ==> final(store).notified == old(store).notified,
        r is Some <==> notifies(old(store).states.status, final(store).states.status, old(store).notified, old(store).states.notifier, *notify, now),
        r matches Some(b) ==> {
            &&& b.status == final(store).states.status
            &&& texts(b.replicas@) == dead_paths(probe_entries(final(store).states.probes))
            &&& b.changed == (old(store).states.status != final(store).states.status)
            &&& !b.startup
        },
{
    let ghost o = probe_entries(store.states.probes);
    let mut bumped: Vec<String> = Vec::new();
    assert(texts(bumped@) =~= Seq::<Seq<char>>::empty());
    let len = probe_map_len(&store.states.probes);
    let mut general_status = Status::Healthy;
    let mut i: usize = 0;
    while i < len
        invariant
            i <= len,
            len == o.len(),
            probe_entries(store.states.probes).len() == len,
            forall|k: int| #![trigger probe_entries(store.states.probes)[k]] 0 <= k < i ==> probe_entries(store.states.probes)[k].0 == o[k].0
                && probe_rolled_up(o[k].1, probe_entries(store.states.probes)[k].1, *metrics, now)
                && probe_entries(store.states.probes)[k].1.wf(),
            forall|k: int| i <= k < len ==> #[trigger] probe_entries(store.states.probes)[k] == o[k],
            forall|k: int| 0 <= k < len ==> (#[trigger] o[k]).1.wf(),
            crate::maps::keys_unique(o),
            general_status == rollup(probe_statuses(probe_entries(store.states.probes).take(i as int))),
            texts(bumped@) == dead_paths(probe_entries(store.states.probes).take(i as int)),
            store.states.status == old(store).states.status,
            store.states.notifier == old(store).states.notifier,
            store.notified == old(store).notified,
        decreases len - i,
    {
        let ghost cur = probe_entries(store.states.probes);
        let probe_id = match probe_map_get_index(&store.states.probes, i) {
            Some((pid, _)) => pid.clone(),
            None => {
                proof {
                    assert(false);
                }
                String::new()
            },
        };
        assert(cur[i as int].1.wf());
        let probe = probe_map_value_mut(&mut store.states.probes, i);
        let status = aggregate_probe(probe, probe_id.as_str(), metrics, now, &mut bumped);
        let ghost nxt = probe_entries(store.states.probes);
        assert(nxt.take(i as int) =~= cur.take(i as int));
        assert(nxt.take(i as int + 1).drop_last() =~= nxt.take(i as int));
        assert(probe_statuses(nxt.take(i as int + 1)).drop_last() =~= probe_statuses(nxt.take(i as int)));
        assert(nxt.take(i as int + 1).last() == nxt[i as int]);
        general_status = worse_of(general_status, status);
        i = i + 1;
    }
    proof {
        let n = probe_entries(store.states.probes);
        assert(n.take(len as int) =~= n);
        assert forall|a: int, c: int| 0 <= a < n.len() && 0 <= c < n.len() && a != c implies n[a].0 != n[c].0 by {
            assert(n[a].0 == o[a].0);
            assert(n[c].0 == o[c].0);
        }
        assert forall|k: int| 0 <= k < n.len() implies (#[trigger] n[k]).1.wf() by {
            assert(n[k].1.wf());
        }
    }
    let prev = store.states.status;
    let (should_notify, counter) = decide_notification(
        prev,
        general_status,
        store.notified,
        &store.states.notifier,
        notify,
        now,
    );
    store.states.notifier.reminder_backoff_counter = counter;
    store.states.status = general_status;
    store.states.date = Some(now_text);
    if should_notify {
        store.notified = Some(now);
        Some(BumpedStates { status: general_status, replicas: bumped, changed: prev != general_status, startup: false })
    } else {
        None
    }
}

/// After an aggregation pass, every container's status is the maximum
/// severity over its direct children: the global status over the probes,
/// each probe over its nodes, each node over its replicas.
pub proof fn lemma_rolled_up_status_is_worst_child(
    old: Seq<(Seq<char>, ServiceStatesProbe)>,
    new: Seq<(Seq<char>, ServiceStatesProbe)>,
    m: ConfigMetrics,
    now: u64,
    global: Status,
)
    requires
        tree_rolled_up(old, new, m, now),
        global == rollup(probe_statuses(new)),
    ensures
        is_worst_of(global, probe_statuses(new)),
        forall|i: int| 0 <= i < new.len() ==> is_worst_of(#[trigger] new[i].1.status, node_statuses(node_entries(new[i].1.nodes))),
        forall|i: int, j: int| 0 <= i < new.len() && 0 <= j < node_entries(new[i].1.nodes).len() ==> is_worst_of(
            #[trigger] node_entries(new[i].1.nodes)[j].1.status,
            replica_statuses(replica_entries(node_entries(new[i].1.nodes)[j].1.replicas)),
        ),
{
    lemma_rollup_is_max(probe_statuses(new));
    assert forall|i: int| 0 <= i < new.len() implies is_worst_of(#[trigger] new[i].1.status, node_statuses(node_entries(new[i].1.nodes))) by {
        assert(probe_rolled_up(old[i].1, new[i].1, m, now));
        lemma_rollup_is_max(node_statuses(node_entries(new[i].1.nodes)));
    }
    assert forall|i: int, j: int| 0 <= i < new.len() && 0 <= j < node_entries(new[i].1.nodes).len() implies is_worst_of(
        #[trigger] node_entries(new[i].1.nodes)[j].1.status,
        replica_statuses(replica_entries(node_entries(new[i].1.nodes)[j].1.replicas)),
    ) by {
        assert(probe_rolled_up(old[i].1, new[i].1, m, now));
        let o = node_entries(old[i].1.nodes);
        let n = node_entries(new[i].1.nodes);
        assert(node_rolled_up(o[j].1, n[j].1, m, now));
        lemma_rollup_is_max(replica_statuses(replica_entries(n[j].1.replicas)));
    }
}

/// After an aggregation pass, a node with a dead replica is dead, whatever
/// its other replicas are.
pub proof fn lemma_dead_replica_makes_node_dead(
    old: ServiceStatesProbeNode,
    new: ServiceStatesProbeNode,
    m: ConfigMetrics,
    now: u64,
    k: int,
)
    requires
        node_rolled_up(old, new, m, now),
        0 <= k < replica_entries(new.replicas).len(),
        replica_entries(new.replicas)[k].1.status == Status::Dead,
    ensures
        new.status == Status::Dead,
{
    let s = replica_statuses(replica_entries(new.replicas));
    assert(s[k] == Status::Dead);
    lemma_rollup_dead_sticky(s, k);
}

/// A push replica whose last report is at least `interval + dead grace`
/// old is dead, whatever load it reported.
pub proof fn lemma_overdue_push_replica_is_dead(replica: ServiceStatesProbeNodeReplica, m: ConfigMetrics, now: u64)
    requires
        replica.report matches Some(r) && now >= r.time && now - r.time >= (r.interval + m.push_delay_dead) * 1000,
    ensures
        evaluated_status(Mode::Push, replica, m, now) == Status::Dead,
{
}

/// A pass notifies whenever the global status enters or leaves `Dead`;
/// it never notifies while the status stays out of `Dead` or moves between
/// `Healthy` and `Sick`; while it stays dead it notifies exactly when a
/// reminder is due.
pub proof fn lemma_notification_firing(
    prev: Status,
    next: Status,
    notified: Option<u64>,
    notifier: ServiceStatesNotifier,
    notify: Option<ConfigNotify>,
    now: u64,
)
    ensures
        prev != Status::Dead && next == Status::Dead ==> notifies(prev, next, notified, notifier, notify, now),
        prev == Status::Dead && next != Status::Dead ==> notifies(prev, next, notified, notifier, notify, now),
        prev != Status::Dead && next != Status::Dead ==> !notifies(prev, next, notified, notifier, notify, now),
        prev == Status::Dead && next == Status::Dead ==> (notifies(prev, next, notified, notifier, notify, now) <==> (
            notify matches Some(n) && reminder_due(notified, notifier, n, now))),
{
}

/// Each reminder under a backoff function moves the counter one up until it
/// reaches its limit, where it stays; without a reminder it stays put;
/// leaving `Dead` puts it back to 1.
pub proof fn lemma_backoff_growth_and_reset(
    prev: Status,
    next: Status,
    notified: Option<u64>,
    notifier: ServiceStatesNotifier,
    n: ConfigNotify,
    now: u64,
)
    requires
        n.reminder_backoff_function != ConfigNotifyReminderBackoffFunction::Constant,
        notifier.reminder_backoff_counter <= n.reminder_backoff_limit,
    ensures
        reminder_fires(prev, next, notified, notifier, Some(n), now) ==> next_counter(prev, next, notified, notifier, Some(n), now) == (
            if notifier.reminder_backoff_counter < n.reminder_backoff_limit {
                notifier.reminder_backoff_counter + 1
            } else {
                n.reminder_backoff_limit as int
            }),
        prev == next && !reminder_fires(prev, next, notified, notifier, Some(n), now)
            ==> next_counter(prev, next, notified, notifier, Some(n), now) == notifier.reminder_backoff_counter,
        prev == Status::Dead && next != Status::Dead ==> next_counter(prev, next, notified, notifier, Some(n), now) == 1,
{
}

} // verus!
