use vstd::prelude::*;

use crate::maps::{
    inserted, replica_map_get_index, replica_map_index_of, lemma_inserted_keys_unique, node_entries, node_map_get_index, node_map_value_mut,
    probe_entries, probe_map_get_index, probe_map_value_mut, replica_entries, replica_map_insert,
};
use crate::mode::Mode;
use crate::states::{
    ServiceStatesProbeNode, ServiceStatesProbeNodeRabbitMQ, ServiceStatesProbeNodeReplica,
    ServiceStatesProbeNodeReplicaLoad, ServiceStatesProbeNodeReplicaLoadQueue,
    ServiceStatesProbeNodeReplicaMetrics, ServiceStatesProbeNodeReplicaMetricsSystem,
    ServiceStatesProbeNodeReplicaReport, Store,
};
use crate::status::Status;
use crate::topology::{
    lemma_node_change_keeps_wf, lemma_node_changed_at, locate_node, node_at,
    node_changed_at,
};

verus! {

#[derive(Debug, PartialEq, Eq, Structural)]
pub enum HandleLoadError {
    /// A load is negative.
    InvalidLoad,
    /// The node is not in push mode.
    WrongMode,
    /// No such probe or node.
    NotFound,
}

#[derive(Debug, PartialEq, Eq, Structural)]
pub enum HandleHealthError {
    /// The node is not in local mode.
    WrongMode,
    /// No such probe or node.
    NotFound,
}

/// The replica a health report leaves: the reported health, reported now.
pub open spec fn health_replica(health: Status, interval: u64, now: u64) -> ServiceStatesProbeNodeReplica {
    ServiceStatesProbeNodeReplica {
        status: health,
        url: None,
        script: None,
        metrics: ServiceStatesProbeNodeReplicaMetrics { latency: None, system: None, rabbitmq: None },
        load: None,
        report: Some(ServiceStatesProbeNodeReplicaReport { time: now, interval }),
    }
}

/// The node after a report stored replica `rid` as `rep`.
pub open spec fn replica_stored(o: ServiceStatesProbeNode, n: ServiceStatesProbeNode, rid: Seq<char>, rep: ServiceStatesProbeNodeReplica) -> bool {
    &&& n == (ServiceStatesProbeNode { replicas: n.replicas, ..o })
    &&& replica_entries(n.replicas) == inserted(replica_entries(o.replicas), rid, rep)
}

/// Stores a health report of a local replica at `now` (milliseconds since
/// the epoch), declared to come every `interval` seconds. The replica is
/// created when the node does not know it yet.
pub fn handle_health(
    store: &mut Store,
    probe_id: &str,
    node_id: &str,
    replica_id: &str,
    interval: u64,
    health: &Status,
    now: u64,
) -> (r: Result<(), HandleHealthError>)
    requires
        old(store).wf(),
    ensures
        final(store).wf(),
        final(store).states.status == old(store).states.status,
        final(store).states.date == old(store).states.date,
        final(store).states.notifier == old(store).states.notifier,
        final(store).notified == old(store).notified,
        match node_at(probe_entries(old(store).states.probes), probe_id@, node_id@) {
            None => r == Err::<(), HandleHealthError>(HandleHealthError::NotFound),
            Some(n) => if n.mode != Mode::Local {
                r == Err::<(), HandleHealthError>(HandleHealthError::WrongMode)
            } else {
                r is Ok
            },
        },
        r is Ok ==> node_changed_at(
            probe_entries(old(store).states.probes),
            probe_entries(final(store).states.probes),
            probe_id@,
            node_id@,
            |o: ServiceStatesProbeNode, n: ServiceStatesProbeNode| replica_stored(o, n, replica_id@, health_replica(*health, interval, now)),
        ),
        r is Err ==> probe_entries(final(store).states.probes) == probe_entries(old(store).states.probes),
{
    let ghost old_p = probe_entries(store.states.probes);
    let ghost rep_spec = health_replica(*health, interval, now);
    let ghost rel = |o: ServiceStatesProbeNode, n: ServiceStatesProbeNode| replica_stored(o, n, replica_id@, rep_spec);
    let (i, j) = match locate_node(&store.states, probe_id, node_id) {
        None => {
            return Err(HandleHealthError::NotFound);
        },
        Some(ij) => ij,
    };
    let mode = match probe_map_get_index(&store.states.probes, i) {
        Some((_, probe)) => match node_map_get_index(&probe.nodes, j) {
            Some((_, node)) => node.mode,
            None => {
                assert(false);
                Mode::Local
            },
        },
        None => {
            assert(false);
            Mode::Local
        },
    };
    if mode != Mode::Local {
        return Err(HandleHealthError::WrongMode);
    }
    let rep = ServiceStatesProbeNodeReplica {
        status: *health,
        url: None,
        script: None,
        metrics: ServiceStatesProbeNodeReplicaMetrics::empty(),
        load: None,
        report: Some(ServiceStatesProbeNodeReplicaReport { time: now, interval }),
    };
    assert(rep == rep_spec);
    let key = replica_id.to_owned();
    assert(old_p[i as int].1.wf());
    let probe = probe_map_value_mut(&mut store.states.probes, i);
    let node = node_map_value_mut(&mut probe.nodes, j);
    proof {
        lemma_inserted_keys_unique(replica_entries(node.replicas), key@, rep);
    }
    replica_map_insert(&mut node.replicas, key, rep);
    proof {
        let new_p = probe_entries(store.states.probes);
        lemma_node_changed_at(old_p, new_p, i as int, j as int, new_p[i as int].1, node_entries(new_p[i as int].1.nodes)[j as int].1, probe_id@, node_id@, rel);
        assert forall|o: ServiceStatesProbeNode, n: ServiceStatesProbeNode| #[trigger] rel(o, n) && o.wf() implies n.wf() by {
            lemma_inserted_keys_unique(replica_entries(o.replicas), replica_id@, rep_spec);
        }
        lemma_node_change_keeps_wf(old_p, new_p, probe_id@, node_id@, rel);
    }
    Ok(())
}

/// A load (in ten-thousandths) as a whole percentage, rounded half up;
/// past the largest `u16` it stays there.
pub open spec fn load_percent(x: i64) -> u16 {
    if (x + 50) / 100 > 0xffff {
        0xffff
    } else {
        ((x + 50) / 100) as u16
    }
}

fn to_percent(x: i64) -> (r: u16)
    requires
        x >= 0,
    ensures
        r == load_percent(x),
{
    let p: i64 = if x > 0x7fff_ffff_0000_0000 { 0x7fff_ffff_0000_0000 / 100 } else { (x + 50) / 100 };
    if p > 0xffff {
        0xffff
    } else {
        p as u16
    }
}

/// The replica `rid` of a node's replicas, if it has one.
pub open spec fn replica_in(o: ServiceStatesProbeNode, rid: Seq<char>) -> Option<ServiceStatesProbeNodeReplica> {
    let e = replica_entries(o.replicas);
    if exists|k: int| 0 <= k < e.len() && e[k].0 == rid {
        Some(e[choose|k: int| 0 <= k < e.len() && e[k].0 == rid].1)
    } else {
        None
    }
}

/// The replica a load report leaves: the previous status, metrics and queue
/// flags are kept (healthy and empty for a new replica); the system metrics,
/// the load and the report are new.
pub open spec fn load_replica(prev: Option<ServiceStatesProbeNodeReplica>, interval: u64, cpu: i64, ram: i64, now: u64) -> ServiceStatesProbeNodeReplica {
    let metrics = match prev {
        Some(p) => p.metrics,
        None => ServiceStatesProbeNodeReplicaMetrics { latency: None, system: None, rabbitmq: None },
    };
    let queue = match prev {
        Some(p) => match p.load {
            Some(l) => l.queue,
            None => ServiceStatesProbeNodeReplicaLoadQueue { loaded: false, stalled: false },
        },
        None => ServiceStatesProbeNodeReplicaLoadQueue { loaded: false, stalled: false },
    };
    ServiceStatesProbeNodeReplica {
        status: match prev {
            Some(p) => p.status,
            None => Status::Healthy,
        },
        url: None,
        script: None,
        metrics: ServiceStatesProbeNodeReplicaMetrics {
            system: Some(ServiceStatesProbeNodeReplicaMetricsSystem { cpu: load_percent(cpu), ram: load_percent(ram) }),
            ..metrics
        },
        load: Some(ServiceStatesProbeNodeReplicaLoad { cpu, ram, queue }),
        report: Some(ServiceStatesProbeNodeReplicaReport { time: now, interval }),
    }
}

fn copy_queue(q: &Option<ServiceStatesProbeNodeRabbitMQ>) -> (r: Option<ServiceStatesProbeNodeRabbitMQ>)
    ensures
        r == *q,
{
    match q {
        Some(x) => Some(ServiceStatesProbeNodeRabbitMQ {
            queue: x.queue.clone(),
            queue_nack_healthy_below: x.queue_nack_healthy_below,
            queue_nack_dead_above: x.queue_nack_dead_above,
        }),
        None => None,
    }
}

/// Stores a load report of a push replica at `now` (milliseconds since the
/// epoch), declared to come every `interval` seconds; CPU and RAM loads are
/// in ten-thousandths. Returns the queue linked to the node, which the
/// caller may then check.
pub fn handle_load(
    store: &mut Store,
    probe_id: &str,
    node_id: &str,
    replica_id: &str,
    interval: u64,
    load_cpu: i64,
    load_ram: i64,
    now: u64,
) -> (r: Result<Option<ServiceStatesProbeNodeRabbitMQ>, HandleLoadError>)
    requires
        old(store).wf(),
    ensures
        final(store).wf(),
        final(store).states.status == old(store).states.status,
        final(store).states.date == old(store).states.date,
        final(store).states.notifier == old(store).states.notifier,
        final(store).notified == old(store).notified,
        load_cpu < 0 || load_ram < 0 ==> r == Err::<Option<ServiceStatesProbeNodeRabbitMQ>, HandleLoadError>(HandleLoadError::InvalidLoad),
        load_cpu >= 0 && load_ram >= 0 ==> match node_at(probe_entries(old(store).states.probes), probe_id@, node_id@) {
            None => r == Err::<Option<ServiceStatesProbeNodeRabbitMQ>, HandleLoadError>(HandleLoadError::NotFound),
            Some(n) => if n.mode != Mode::Push {
                r == Err::<Option<ServiceStatesProbeNodeRabbitMQ>, HandleLoadError>(HandleLoadError::WrongMode)
            } else {
                r == Ok::<Option<ServiceStatesProbeNodeRabbitMQ>, HandleLoadError>(n.rabbitmq)
            },
        },
        r is Ok ==> node_changed_at(
            probe_entries(old(store).states.probes),
            probe_entries(final(store).states.probes),
            probe_id@,
            node_id@,
            |o: ServiceStatesProbeNode, n: ServiceStatesProbeNode| replica_stored(
                o,
                n,
                replica_id@,
                load_replica(replica_in(o, replica_id@), interval, load_cpu, load_ram, now),
            ),
        ),
        r is Err ==> probe_entries(final(store).states.probes) == probe_entries(old(store).states.probes),
{
    if load_cpu < 0 || load_ram < 0 {
        return Err(HandleLoadError::InvalidLoad);
    }
    let ghost old_p = probe_entries(store.states.probes);
    let ghost rel = |o: ServiceStatesProbeNode, n: ServiceStatesProbeNode| replica_stored(
        o,
        n,
        replica_id@,
        load_replica(replica_in(o, replica_id@), interval, load_cpu, load_ram, now),
    );
    let (i, j) = match locate_node(&store.states, probe_id, node_id) {
        None => {
            return Err(HandleLoadError::NotFound);
        },
        Some(ij) => ij,
    };
    assert(old_p[i as int].1.wf());
    let (rep, queue) = match probe_map_get_index(&store.states.probes, i) {
        Some((_, probe)) => match node_map_get_index(&probe.nodes, j) {
            Some((_, node)) => {
                if node.mode != Mode::Push {
                    return Err(HandleLoadError::WrongMode);
                }
                let ghost e = replica_entries(node.replicas);
                let prev = replica_map_index_of(&node.replicas, replica_id);
                let (status, metrics, queue_flags) = match prev {
                    Some(k) => match replica_map_get_index(&node.replicas, k) {
                        Some((_, p)) => {
                            proof {
                                let c = choose|c: int| 0 <= c < e.len() && e[c].0 == replica_id@;
                                assert(c == k as int);
                            }
                            let q = match &p.load {
                                Some(l) => l.queue,
                                None => ServiceStatesProbeNodeReplicaLoadQueue { loaded: false, stalled: false },
                            };
                            (p.status, p.metrics, q)
                        },
                        None => {
                            assert(false);
                            (Status::Healthy, ServiceStatesProbeNodeReplicaMetrics::empty(), ServiceStatesProbeNodeReplicaLoadQueue { loaded: false, stalled: false })
                        },
                    },
                    None => (Status::Healthy, ServiceStatesProbeNodeReplicaMetrics::empty(), ServiceStatesProbeNodeReplicaLoadQueue { loaded: false, stalled: false }),
                };
                let rep = ServiceStatesProbeNodeReplica {
                    status,
                    url: None,
                    script: None,
                    metrics: ServiceStatesProbeNodeReplicaMetrics {
                        latency: metrics.latency,
                        system: Some(ServiceStatesProbeNodeReplicaMetricsSystem { cpu: to_percent(load_cpu), ram: to_percent(load_ram) }),
                        rabbitmq: metrics.rabbitmq,
                    },
                    load: Some(ServiceStatesProbeNodeReplicaLoad { cpu: load_cpu, ram: load_ram, queue: queue_flags }),
                    report: Some(ServiceStatesProbeNodeReplicaReport { time: now, interval }),
                };
                assert(rep == load_replica(replica_in(*node, replica_id@), interval, load_cpu, load_ram, now));
                (rep, copy_queue(&node.rabbitmq))
            },
            None => {
                assert(false);
                return Err(HandleLoadError::NotFound);
            },
        },
        None => {
            assert(false);
            return Err(HandleLoadError::NotFound);
        },
    };
    let key = replica_id.to_owned();
    let probe = probe_map_value_mut(&mut store.states.probes, i);
    let node = node_map_value_mut(&mut probe.nodes, j);
    proof {
        lemma_inserted_keys_unique(replica_entries(node.replicas), key@, rep);
    }
    replica_map_insert(&mut node.replicas, key, rep);
    proof {
        let new_p = probe_entries(store.states.probes);
        lemma_node_changed_at(old_p, new_p, i as int, j as int, new_p[i as int].1, node_entries(new_p[i as int].1.nodes)[j as int].1, probe_id@, node_id@, rel);
        assert forall|o: ServiceStatesProbeNode, n: ServiceStatesProbeNode| #[trigger] rel(o, n) && o.wf() implies n.wf() by {
            lemma_inserted_keys_unique(replica_entries(o.replicas), replica_id@, load_replica(replica_in(o, replica_id@), interval, load_cpu, load_ram, now));
        }
        lemma_node_change_keeps_wf(old_p, new_p, probe_id@, node_id@, rel);
    }
    Ok(queue)
}

} // verus!
