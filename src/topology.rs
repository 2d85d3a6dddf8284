use vstd::prelude::*;

use crate::maps::{
    keys_unique, node_entries, node_map_index_of, node_map_value_mut,
    probe_entries, probe_map_get_index, probe_map_index_of, probe_map_value_mut, replica_entries,
    replica_map_index_of, replica_map_len, replica_map_value_mut,
};
use crate::resolver::ProbeReplicaTarget;
use crate::states::{
    ServiceStates, ServiceStatesProbe, ServiceStatesProbeNode, ServiceStatesProbeNodeReplica,
    ServiceStatesProbeNodeReplicaLoadQueue, ServiceStatesProbeNodeReplicaMetricsRabbitMQ, Store,
};
use crate::status::Status;

verus! {

/// Probe `pid` has a node `nid`.
pub open spec fn path_exists(probes: Seq<(Seq<char>, ServiceStatesProbe)>, pid: Seq<char>, nid: Seq<char>) -> bool {
    exists|i: int, j: int| #![trigger probes[i], node_entries(probes[i].1.nodes)[j]]
        0 <= i < probes.len() && 0 <= j < node_entries(probes[i].1.nodes).len() && probes[i].0 == pid
            && node_entries(probes[i].1.nodes)[j].0 == nid
}

/// The node `nid` of probe `pid`, if there is one.
pub open spec fn node_at(probes: Seq<(Seq<char>, ServiceStatesProbe)>, pid: Seq<char>, nid: Seq<char>) -> Option<ServiceStatesProbeNode> {
    if path_exists(probes, pid, nid) {
        let (i, j) = choose|i: int, j: int| #![trigger probes[i], node_entries(probes[i].1.nodes)[j]]
            0 <= i < probes.len() && 0 <= j < node_entries(probes[i].1.nodes).len() && probes[i].0 == pid
                && node_entries(probes[i].1.nodes)[j].0 == nid;
        Some(node_entries(probes[i].1.nodes)[j].1)
    } else {
        None
    }
}

/// The probe with key `pid` changed only in its node `nid`, as `rel` says.
pub open spec fn probe_node_changed(
    o: ServiceStatesProbe,
    n: ServiceStatesProbe,
    nid: Seq<char>,
    rel: spec_fn(ServiceStatesProbeNode, ServiceStatesProbeNode) -> bool,
) -> bool {
    let on = node_entries(o.nodes);
    let nn = node_entries(n.nodes);
    &&& n == (ServiceStatesProbe { nodes: n.nodes, ..o })
    &&& nn.len() == on.len()
    &&& forall|j: int| #![trigger nn[j]] 0 <= j < on.len() ==> nn[j].0 == on[j].0 && (on[j].0 != nid ==> nn[j].1 == on[j].1)
        && (on[j].0 == nid ==> rel(on[j].1, nn[j].1))
}

/// The tree `new` is `old` where only node `nid` of probe `pid` changed,
/// as `rel` says; nothing changed when there is no such node.
pub open spec fn node_changed_at(
    old: Seq<(Seq<char>, ServiceStatesProbe)>,
    new: Seq<(Seq<char>, ServiceStatesProbe)>,
    pid: Seq<char>,
    nid: Seq<char>,
    rel: spec_fn(ServiceStatesProbeNode, ServiceStatesProbeNode) -> bool,
) -> bool {
    &&& new.len() == old.len()
    &&& forall|i: int| #![trigger new[i]] 0 <= i < old.len() ==> new[i].0 == old[i].0 && (old[i].0 != pid ==> new[i].1 == old[i].1)
        && (old[i].0 == pid ==> probe_node_changed(old[i].1, new[i].1, nid, rel))
}

/// Finds node `nid` of probe `pid`: its probe's and its own position.
pub fn locate_node(states: &ServiceStates, pid: &str, nid: &str) -> (r: Option<(usize, usize)>)
    requires
        states.wf(),
    ensures
        match r {
            Some((i, j)) => i < probe_entries(states.probes).len() && probe_entries(states.probes)[i as int].0 == pid@
                && j < node_entries(probe_entries(states.probes)[i as int].1.nodes).len()
                && node_entries(probe_entries(states.probes)[i as int].1.nodes)[j as int].0 == nid@
                && node_at(probe_entries(states.probes), pid@, nid@) == Some(node_entries(probe_entries(states.probes)[i as int].1.nodes)[j as int].1),
            None => !path_exists(probe_entries(states.probes), pid@, nid@) && node_at(probe_entries(states.probes), pid@, nid@) is None,
        },
{
    let ghost p = probe_entries(states.probes);
    match probe_map_index_of(&states.probes, pid) {
        None => None,
        Some(i) => {
            match probe_map_get_index(&states.probes, i) {
                Some((_, probe)) => {
                    assert(p[i as int].1.wf());
                    match node_map_index_of(&probe.nodes, nid) {
                        None => {
                            assert(!path_exists(p, pid@, nid@)) by {
                                if path_exists(p, pid@, nid@) {
                                    let (a, b) = choose|a: int, b: int| #![trigger p[a], node_entries(p[a].1.nodes)[b]]
                                        0 <= a < p.len() && 0 <= b < node_entries(p[a].1.nodes).len() && p[a].0 == pid@
                                            && node_entries(p[a].1.nodes)[b].0 == nid@;
                                    assert(a == i as int);
                                }
                            }
                            None
                        },
                        Some(j) => {
                            proof {
                                let nn = node_entries(p[i as int].1.nodes);
                                assert(path_exists(p, pid@, nid@));
                                let (a, b) = choose|a: int, b: int| #![trigger p[a], node_entries(p[a].1.nodes)[b]]
                                    0 <= a < p.len() && 0 <= b < node_entries(p[a].1.nodes).len() && p[a].0 == pid@
                                        && node_entries(p[a].1.nodes)[b].0 == nid@;
                                assert(a == i as int);
                                assert(b == j as int);
                            }
                            Some((i, j))
                        },
                    }
                },
                None => {
                    assert(false);
                    None
                },
            }
        },
    }
}

/// Writing node `j` of probe `i` in place changes the tree only there.
pub proof fn lemma_node_changed_at(
    old: Seq<(Seq<char>, ServiceStatesProbe)>,
    new: Seq<(Seq<char>, ServiceStatesProbe)>,
    i: int,
    j: int,
    new_probe: ServiceStatesProbe,
    new_node: ServiceStatesProbeNode,
    pid: Seq<char>,
    nid: Seq<char>,
    rel: spec_fn(ServiceStatesProbeNode, ServiceStatesProbeNode) -> bool,
)
    requires
        keys_unique(old),
        0 <= i < old.len(),
        old[i].0 == pid,
        keys_unique(node_entries(old[i].1.nodes)),
        0 <= j < node_entries(old[i].1.nodes).len(),
        node_entries(old[i].1.nodes)[j].0 == nid,
        new == old.update(i, (pid, new_probe)),
        new_probe == (ServiceStatesProbe { nodes: new_probe.nodes, ..old[i].1 }),
        node_entries(new_probe.nodes) == node_entries(old[i].1.nodes).update(j, (nid, new_node)),
        rel(node_entries(old[i].1.nodes)[j].1, new_node),
    ensures
        node_changed_at(old, new, pid, nid, rel),
{
    assert forall|a: int| #![trigger new[a]] 0 <= a < old.len() implies new[a].0 == old[a].0 && (old[a].0 != pid ==> new[a].1 == old[a].1)
        && (old[a].0 == pid ==> probe_node_changed(old[a].1, new[a].1, nid, rel)) by {
        if a == i {
            let on = node_entries(old[i].1.nodes);
            let nn = node_entries(new_probe.nodes);
            assert forall|b: int| #![trigger nn[b]] 0 <= b < on.len() implies nn[b].0 == on[b].0 && (on[b].0 != nid ==> nn[b].1 == on[b].1)
                && (on[b].0 == nid ==> rel(on[b].1, nn[b].1)) by {
                if b != j && on[b].0 == nid {
                    assert(on[b].0 == on[j].0);
                }
            }
        } else if old[a].0 == pid {
            assert(old[a].0 == old[i].0);
        }
    }
}

/// A tree where no node `nid` of probe `pid` exists is its own image.
pub proof fn lemma_node_unchanged(
    old: Seq<(Seq<char>, ServiceStatesProbe)>,
    pid: Seq<char>,
    nid: Seq<char>,
    rel: spec_fn(ServiceStatesProbeNode, ServiceStatesProbeNode) -> bool,
)
    requires
        !path_exists(old, pid, nid),
    ensures
        node_changed_at(old, old, pid, nid, rel),
{
    assert forall|a: int| #![trigger old[a]] 0 <= a < old.len() && old[a].0 == pid implies probe_node_changed(old[a].1, old[a].1, nid, rel) by {
        {
            let on = node_entries(old[a].1.nodes);
            assert forall|b: int| #![trigger on[b]] 0 <= b < on.len() implies on[b].0 != nid by {
                if on[b].0 == nid {
                    assert(path_exists(old, pid, nid));
                }
            }
        }
    }
}

/// A change confined to one node keeps identifiers unique, when the change
/// keeps that node's replica identifiers unique.
pub proof fn lemma_node_change_keeps_wf(
    old: Seq<(Seq<char>, ServiceStatesProbe)>,
    new: Seq<(Seq<char>, ServiceStatesProbe)>,
    pid: Seq<char>,
    nid: Seq<char>,
    rel: spec_fn(ServiceStatesProbeNode, ServiceStatesProbeNode) -> bool,
)
    requires
        keys_unique(old),
        forall|i: int| 0 <= i < old.len() ==> (#[trigger] old[i]).1.wf(),
        node_changed_at(old, new, pid, nid, rel),
        forall|o: ServiceStatesProbeNode, n: ServiceStatesProbeNode| #[trigger] rel(o, n) && o.wf() ==> n.wf(),
    ensures
        keys_unique(new),
        forall|i: int| 0 <= i < new.len() ==> (#[trigger] new[i]).1.wf(),
{
    assert forall|a: int, b: int| 0 <= a < new.len() && 0 <= b < new.len() && a != b implies new[a].0 != new[b].0 by {
        assert(new[a].0 == old[a].0);
        assert(new[b].0 == old[b].0);
    }
    assert forall|i: int| 0 <= i < new.len() implies (#[trigger] new[i]).1.wf() by {
        assert(old[i].1.wf());
        if old[i].0 == pid {
            let on = node_entries(old[i].1.nodes);
            let nn = node_entries(new[i].1.nodes);
            assert(probe_node_changed(old[i].1, new[i].1, nid, rel));
            assert forall|a: int, b: int| 0 <= a < nn.len() && 0 <= b < nn.len() && a != b implies nn[a].0 != nn[b].0 by {
                assert(nn[a].0 == on[a].0);
                assert(nn[b].0 == on[b].0);
            }
            assert forall|j: int| 0 <= j < nn.len() implies (#[trigger] nn[j]).1.wf() by {
                assert(on[j].1.wf());
                if on[j].0 == nid {
                    assert(rel(on[j].1, nn[j].1));
                }
            }
        }
    }
}

/// Each replica of the node `o` became `f(key, replica)` in `n`; nothing
/// else changed.
pub open spec fn replicas_mapped(
    o: ServiceStatesProbeNode,
    n: ServiceStatesProbeNode,
    f: spec_fn(Seq<char>, ServiceStatesProbeNodeReplica) -> ServiceStatesProbeNodeReplica,
) -> bool {
    let oe = replica_entries(o.replicas);
    let ne = replica_entries(n.replicas);
    &&& n == (ServiceStatesProbeNode { replicas: n.replicas, ..o })
    &&& ne.len() == oe.len()
    &&& forall|k: int| #![trigger ne[k]] 0 <= k < oe.len() ==> ne[k] == (oe[k].0, f(oe[k].0, oe[k].1))
}

/// A replica after a check of it finished with `status` and `latency`.
pub open spec fn result_applied(r: ServiceStatesProbeNodeReplica, status: Status, latency: Option<u64>) -> ServiceStatesProbeNodeReplica {
    ServiceStatesProbeNodeReplica {
        status,
        metrics: crate::states::ServiceStatesProbeNodeReplicaMetrics { latency, ..r.metrics },
        ..r
    }
}

/// What a finished queue-depth check found: loaded, stalled, and the ready
/// and unacknowledged counts.
#[derive(Clone, Copy, Debug, PartialEq, Eq, Structural)]
pub struct QueueLoad {
    pub loaded: bool,
    pub stalled: bool,
    pub ready: u32,
    pub nack: u32,
}

/// A replica after a queue-depth check: its load (when it has one) takes
/// the flags, its metrics take the counts.
pub open spec fn queue_applied(r: ServiceStatesProbeNodeReplica, q: QueueLoad) -> ServiceStatesProbeNodeReplica {
    ServiceStatesProbeNodeReplica {
        load: match r.load {
            Some(l) => Some(crate::states::ServiceStatesProbeNodeReplicaLoad {
                queue: ServiceStatesProbeNodeReplicaLoadQueue { loaded: q.loaded, stalled: q.stalled },
                ..l
            }),
            None => None,
        },
        metrics: crate::states::ServiceStatesProbeNodeReplicaMetrics {
            rabbitmq: Some(ServiceStatesProbeNodeReplicaMetricsRabbitMQ { queue_ready: q.ready, queue_nack: q.nack }),
            ..r.metrics
        },
        ..r
    }
}

impl Store {
    /// Writes the outcome of one replica check. A replica that is no longer
    /// in the store is skipped.
    pub fn record_replica_result(&mut self, target: &ProbeReplicaTarget, status: Status, latency: Option<u64>)
        requires
            old(self).wf(),
        ensures
            final(self).wf(),
            final(self).states.status == old(self).states.status,
            final(self).states.date == old(self).states.date,
            final(self).states.notifier == old(self).states.notifier,
            final(self).notified == old(self).notified,
            node_changed_at(
                probe_entries(old(self).states.probes),
                probe_entries(final(self).states.probes),
                target.probe_id@,
                target.node_id@,
                |o: ServiceStatesProbeNode, n: ServiceStatesProbeNode| replicas_mapped(
                    o,
                    n,
                    |k: Seq<char>, r: ServiceStatesProbeNodeReplica| if k == target.replica_id@ {
                        result_applied(r, status, latency)
                    } else {
                        r
                    },
                ),
            ),
    {
        let ghost old_p = probe_entries(self.states.probes);
        let ghost rid = target.replica_id@;
        let ghost f = |k: Seq<char>, r: ServiceStatesProbeNodeReplica| if k == rid { result_applied(r, status, latency) } else { r };
        let ghost rel = |o: ServiceStatesProbeNode, n: ServiceStatesProbeNode| replicas_mapped(o, n, f);
        match locate_node(&self.states, target.probe_id.as_str(), target.node_id.as_str()) {
            None => {
                proof {
                    lemma_node_unchanged(old_p, target.probe_id@, target.node_id@, rel);
                }
            },
            Some((i, j)) => {
                assert(old_p[i as int].1.wf());
                let ghost on = node_entries(old_p[i as int].1.nodes)[j as int].1;
                let probe = probe_map_value_mut(&mut self.states.probes, i);
                let node = node_map_value_mut(&mut probe.nodes, j);
                assert(node.wf());
                let ghost oe = replica_entries(node.replicas);
                match replica_map_index_of(&node.replicas, target.replica_id.as_str()) {
                    Some(k) => {
                        let rep = replica_map_value_mut(&mut node.replicas, k);
                        rep.status = status;
                        rep.metrics.latency = latency;
                        proof {
                            let ne = replica_entries(node.replicas);
                            assert forall|m: int| #![trigger ne[m]] 0 <= m < oe.len() implies ne[m] == (oe[m].0, f(oe[m].0, oe[m].1)) by {
                                if m != k as int && oe[m].0 == rid {
                                    assert(oe[m].0 == oe[k as int].0);
                                }
                            }
                        }
                    },
                    None => {
                        proof {
                            assert forall|m: int| #![trigger oe[m]] 0 <= m < oe.len() implies oe[m] == (oe[m].0, f(oe[m].0, oe[m].1)) by {
                                assert(oe[m].0 != rid);
                            }
                        }
                    },
                }
                proof {
                    let new_p = probe_entries(self.states.probes);
                    lemma_node_changed_at(old_p, new_p, i as int, j as int, new_p[i as int].1, node_entries(new_p[i as int].1.nodes)[j as int].1, target.probe_id@, target.node_id@, rel);
                }
            },
        }
        proof {
            let new_p = probe_entries(self.states.probes);
            assert forall|o: ServiceStatesProbeNode, n: ServiceStatesProbeNode| #[trigger] rel(o, n) && o.wf() implies n.wf() by {
                let oe = replica_entries(o.replicas);
                let ne = replica_entries(n.replicas);
                assert forall|a: int, b: int| 0 <= a < ne.len() && 0 <= b < ne.len() && a != b implies ne[a].0 != ne[b].0 by {
                    assert(ne[a].0 == oe[a].0);
                    assert(ne[b].0 == oe[b].0);
                }
            }
            lemma_node_change_keeps_wf(old_p, new_p, target.probe_id@, target.node_id@, rel);
        }
    }

    /// Writes the outcome of a queue-depth check onto every replica of node
    /// `node_id` of probe `probe_id`. A failed check (`None`) changes
    /// nothing, so the flags found before stay.
    pub fn apply_queue_load(&mut self, probe_id: &str, node_id: &str, result: Option<QueueLoad>)
        requires
            old(self).wf(),
        ensures
            final(self).wf(),
            final(self).states.status == old(self).states.status,
            final(self).states.date == old(self).states.date,
            final(self).states.notifier == old(self).states.notifier,
            final(self).notified == old(self).notified,
            result is None ==> probe_entries(final(self).states.probes) == probe_entries(old(self).states.probes),
            result matches Some(q) ==> node_changed_at(
                probe_entries(old(self).states.probes),
                probe_entries(final(self).states.probes),
                probe_id@,
                node_id@,
                |o: ServiceStatesProbeNode, n: ServiceStatesProbeNode| replicas_mapped(
                    o,
                    n,
                    |k: Seq<char>, r: ServiceStatesProbeNodeReplica| queue_applied(r, q),
                ),
            ),
    {
        let q = match result {
            None => {
                return;
            },
            Some(q) => q,
        };
        let ghost old_p = probe_entries(self.states.probes);
        let ghost f = |k: Seq<char>, r: ServiceStatesProbeNodeReplica| queue_applied(r, q);
        let ghost rel = |o: ServiceStatesProbeNode, n: ServiceStatesProbeNode| replicas_mapped(o, n, f);
        match locate_node(&self.states, probe_id, node_id) {
            None => {
                proof {
                    lemma_node_unchanged(old_p, probe_id@, node_id@, rel);
                }
            },
            Some((i, j)) => {
                let probe = probe_map_value_mut(&mut self.states.probes, i);
                let node = node_map_value_mut(&mut probe.nodes, j);
                let ghost oe = replica_entries(node.replicas);
                let ghost on = *node;
                let len = replica_map_len(&node.replicas);
                let mut k: usize = 0;
                while k < len
                    invariant
                        k <= len,
                        len == oe.len(),
                        replica_entries(node.replicas).len() == len,
                        forall|m: int| #![trigger replica_entries(node.replicas)[m]] 0 <= m < len ==> replica_entries(node.replicas)[m] == if m < k {
                            (oe[m].0, queue_applied(oe[m].1, q))
                        } else {
                            oe[m]
                        },
                        *node == (ServiceStatesProbeNode { replicas: node.replicas, ..on }),
                    decreases len - k,
                {
                    let rep = replica_map_value_mut(&mut node.replicas, k);
                    rep.load = match rep.load {
                        Some(l) => Some(crate::states::ServiceStatesProbeNodeReplicaLoad {
                            cpu: l.cpu,
                            ram: l.ram,
                            queue: ServiceStatesProbeNodeReplicaLoadQueue { loaded: q.loaded, stalled: q.stalled },
                        }),
                        None => None,
                    };
                    rep.metrics.rabbitmq = Some(ServiceStatesProbeNodeReplicaMetricsRabbitMQ { queue_ready: q.ready, queue_nack: q.nack });
                    k = k + 1;
                }
                proof {
                    let new_p = probe_entries(self.states.probes);
                    lemma_node_changed_at(old_p, new_p, i as int, j as int, new_p[i as int].1, node_entries(new_p[i as int].1.nodes)[j as int].1, probe_id@, node_id@, rel);
                }
            },
        }
        proof {
            let new_p = probe_entries(self.states.probes);
            assert forall|o: ServiceStatesProbeNode, n: ServiceStatesProbeNode| #[trigger] rel(o, n) && o.wf() implies n.wf() by {
                let oe = replica_entries(o.replicas);
                let ne = replica_entries(n.replicas);
                assert forall|a: int, b: int| 0 <= a < ne.len() && 0 <= b < ne.len() && a != b implies ne[a].0 != ne[b].0 by {
                    assert(ne[a].0 == oe[a].0);
                    assert(ne[b].0 == oe[b].0);
                }
            }
            lemma_node_change_keeps_wf(old_p, new_p, probe_id@, node_id@, rel);
        }
    }

    /// Mutes reminders for `request.reminders_seconds` seconds from `now`
    /// (milliseconds since the epoch), or lifts the mute when it has none.
    pub fn update_reminders_ignored(&mut self, request: &ManagerProberAlertsIgnoredResolveRequestPayload, now: u64)
        ensures
            final(self).states.notifier.reminder_ignore_until == match request.reminders_seconds {
                Some(secs) => Some(if now + secs * 1000 > u64::MAX { u64::MAX } else { (now + secs * 1000) as u64 }),
                None => None::<u64>,
            },
            final(self).states.notifier.reminder_backoff_counter == old(self).states.notifier.reminder_backoff_counter,
            final(self).states.status == old(self).states.status,
            final(self).states.date == old(self).states.date,
            final(self).states.probes == old(self).states.probes,
            final(self).notified == old(self).notified,
    {
        let until = match request.reminders_seconds {
            Some(secs) => Some(now.saturating_add((secs as u64) * 1000)),
            None => None,
        };
        self.set_reminder_ignore_until(until);
    }

    /// Mutes reminders until `until` (milliseconds since the epoch), or
    /// lifts the mute with `None`.
    pub fn set_reminder_ignore_until(&mut self, until: Option<u64>)
        ensures
            final(self).states.notifier.reminder_ignore_until == until,
            final(self).states.notifier.reminder_backoff_counter == old(self).states.notifier.reminder_backoff_counter,
            final(self).states.status == old(self).states.status,
            final(self).states.date == old(self).states.date,
            final(self).states.probes == old(self).states.probes,
            final(self).notified == old(self).notified,
    {
        self.states.notifier.reminder_ignore_until = until;
    }
}

/// How long reminders should stay muted, as asked by an operator.
pub struct ManagerProberAlertsIgnoredResolveRequestPayload {
    pub reminders_seconds: Option<u16>,
}

/// How long reminders stay muted, in whole seconds.
pub struct ManagerProberAlertsIgnoredResolveResponsePayload {
    pub reminders_seconds: Option<u16>,
}

impl ServiceStates {
    /// Whole seconds left of the mute at `now`, if reminders are muted and
    /// the mute has not run out; past the largest `u16` it stays there.
    pub fn reminders_ignored(&self, now: u64) -> (r: ManagerProberAlertsIgnoredResolveResponsePayload)
        ensures
            r.reminders_seconds == match self.notifier.reminder_ignore_until {
                Some(until) => if until >= now {
                    Some(if (until - now) / 1000 > 0xffff { 0xffffu16 } else { ((until - now) / 1000) as u16 })
                } else {
                    None::<u16>
                },
                None => None::<u16>,
            },
    {
        let secs = match self.notifier.reminder_ignore_until {
            Some(until) => {
                if until >= now {
                    let left = (until - now) / 1000;
                    Some(if left > 0xffff { 0xffffu16 } else { left as u16 })
                } else {
                    None
                }
            },
            None => None,
        };
        ManagerProberAlertsIgnoredResolveResponsePayload { reminders_seconds: secs }
    }
}

} // verus!
