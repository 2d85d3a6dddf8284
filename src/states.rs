use vstd::prelude::*;

use indexmap::IndexMap;

use crate::config::ConfigProbeServiceNodeHTTPMethod;
use crate::maps::{keys_unique, node_entries, probe_entries, replica_entries};
use crate::mode::Mode;
use crate::replica::ReplicaURL;
use crate::status::Status;

verus! {

/// The whole monitored tree, with the global status and the reminder state.
pub struct ServiceStates {
    pub status: Status,
    /// Clock text of the last aggregation.
    pub date: Option<String>,
    pub probes: IndexMap<String, ServiceStatesProbe>,
    pub notifier: ServiceStatesNotifier,
}

/// A monitored service.
pub struct ServiceStatesProbe {
    pub id: String,
    pub label: String,
    pub status: Status,
    pub nodes: IndexMap<String, ServiceStatesProbeNode>,
}

/// A deployment unit of a service, checked in one mode.
pub struct ServiceStatesProbeNode {
    pub status: Status,
    pub label: String,
    pub mode: Mode,
    pub replicas: IndexMap<String, ServiceStatesProbeNodeReplica>,
    /// Extra request headers of HTTP checks, as name and value.
    pub http_headers: Vec<(String, String)>,
    pub http_method: Option<ConfigProbeServiceNodeHTTPMethod>,
    pub http_body: Option<String>,
    /// Pattern that the body of a healthy HTTP response must match.
    pub http_body_healthy_match: Option<String>,
    pub reveal_replica_name: bool,
    pub rabbitmq: Option<ServiceStatesProbeNodeRabbitMQ>,
}

/// One instance of a node: the leaf of the tree.
pub struct ServiceStatesProbeNodeReplica {
    pub status: Status,
    pub url: Option<ReplicaURL>,
    pub script: Option<String>,
    pub metrics: ServiceStatesProbeNodeReplicaMetrics,
    pub load: Option<ServiceStatesProbeNodeReplicaLoad>,
    pub report: Option<ServiceStatesProbeNodeReplicaReport>,
}

/// The queue linked to a node, with its own thresholds where it has them.
pub struct ServiceStatesProbeNodeRabbitMQ {
    pub queue: String,
    pub queue_nack_healthy_below: Option<u32>,
    pub queue_nack_dead_above: Option<u32>,
}

#[derive(Clone, Copy, Debug, PartialEq, Eq, Structural)]
pub struct ServiceStatesProbeNodeReplicaMetrics {
    /// Latency of the last check, in milliseconds.
    pub latency: Option<u64>,
    pub system: Option<ServiceStatesProbeNodeReplicaMetricsSystem>,
    pub rabbitmq: Option<ServiceStatesProbeNodeReplicaMetricsRabbitMQ>,
}

/// System load in percent.
#[derive(Clone, Copy, Debug, PartialEq, Eq, Structural)]
pub struct ServiceStatesProbeNodeReplicaMetricsSystem {
    pub cpu: u16,
    pub ram: u16,
}

#[derive(Clone, Copy, Debug, PartialEq, Eq, Structural)]
pub struct ServiceStatesProbeNodeReplicaMetricsRabbitMQ {
    pub queue_ready: u32,
    pub queue_nack: u32,
}

/// Last reported load of a push replica. CPU and RAM load are fractions
/// counted in ten-thousandths (`10000` is a load of 1).
#[derive(Clone, Copy, Debug, PartialEq, Eq, Structural)]
pub struct ServiceStatesProbeNodeReplicaLoad {
    pub cpu: i64,
    pub ram: i64,
    pub queue: ServiceStatesProbeNodeReplicaLoadQueue,
}

#[derive(Clone, Copy, Debug, PartialEq, Eq, Structural)]
pub struct ServiceStatesProbeNodeReplicaLoadQueue {
    pub loaded: bool,
    pub stalled: bool,
}

/// When a replica last reported (milliseconds since the epoch) and how often
/// it said it would report (seconds).
#[derive(Clone, Copy, Debug, PartialEq, Eq, Structural)]
pub struct ServiceStatesProbeNodeReplicaReport {
    pub time: u64,
    pub interval: u64,
}

#[derive(Clone, Copy, Debug, PartialEq, Eq, Structural)]
pub struct ServiceStatesNotifier {
    pub reminder_backoff_counter: u16,
    /// No reminder goes out before this time (milliseconds since the epoch).
    pub reminder_ignore_until: Option<u64>,
}

/// The shared state: the tree and the time of the last notification
/// (milliseconds since the epoch).
pub struct Store {
    pub states: ServiceStates,
    pub notified: Option<u64>,
}

impl ServiceStatesProbeNodeReplicaMetrics {
    pub fn empty() -> (r: Self)
        ensures
            r.latency is None,
            r.system is None,
            r.rabbitmq is None,
    {
        ServiceStatesProbeNodeReplicaMetrics { latency: None, system: None, rabbitmq: None }
    }
}

impl ServiceStatesProbeNode {
    /// Replica identifiers are unique.
    pub open spec fn wf(&self) -> bool {
        keys_unique(replica_entries(self.replicas))
    }
}

impl ServiceStatesProbe {
    /// Node identifiers are unique, and so are replica identifiers in each node.
    pub open spec fn wf(&self) -> bool {
        &&& keys_unique(node_entries(self.nodes))
        &&& forall|j: int| 0 <= j < node_entries(self.nodes).len() ==> (#[trigger] node_entries(self.nodes)[j]).1.wf()
    }
}

impl ServiceStates {
    /// Identifiers are unique at every level of the tree.
    pub open spec fn wf(&self) -> bool {
        &&& keys_unique(probe_entries(self.probes))
        &&& forall|i: int| 0 <= i < probe_entries(self.probes).len() ==> (#[trigger] probe_entries(self.probes)[i]).1.wf()
    }
}

impl Store {
    pub open spec fn wf(&self) -> bool {
        self.states.wf()
    }
}

} // verus!
