use vstd::prelude::*;

use crate::aggregator::replica_statuses;
use crate::maps::{
    node_entries, node_map_get_index, node_map_len, probe_entries, probe_map_get_index,
    probe_map_len, replica_entries, replica_map_get_index, replica_map_len,
};
use crate::states::{ServiceStates, ServiceStatesProbe, ServiceStatesProbeNode, ServiceStatesProbeNodeReplica};
use crate::status::Status;

verus! {

/// Read-only summary of the whole tree, for status reports.
pub struct StatusReportResponsePayload {
    pub health: Status,
    pub page: StatusReportResponsePayloadPage,
    pub probes: Vec<StatusReportResponsePayloadProbe>,
}

pub struct StatusReportResponsePayloadPage {
    pub name: String,
    pub url: String,
}

pub struct StatusReportResponsePayloadProbe {
    pub name: String,
    pub status: Status,
    pub nodes: Vec<StatusReportResponsePayloadProbeNode>,
}

pub struct StatusReportResponsePayloadProbeNode {
    pub name: String,
    pub status: Status,
    pub replicas: Vec<Status>,
}

/// `r` summarises node `n`: its label, its status, its replicas' statuses.
pub open spec fn node_reported(r: StatusReportResponsePayloadProbeNode, n: ServiceStatesProbeNode) -> bool {
    &&& r.name == n.label
    &&& r.status == n.status
    &&& r.replicas@ == replica_statuses(replica_entries(n.replicas))
}

/// `r` summarises probe `p` and each of its nodes, in order.
pub open spec fn probe_reported(r: StatusReportResponsePayloadProbe, p: ServiceStatesProbe) -> bool {
    let nodes = node_entries(p.nodes);
    &&& r.name == p.label
    &&& r.status == p.status
    &&& r.nodes@.len() == nodes.len()
    &&& forall|j: int| 0 <= j < nodes.len() ==> node_reported(#[trigger] r.nodes@[j], nodes[j].1)
}

fn report_node(n: &ServiceStatesProbeNode) -> (r: StatusReportResponsePayloadProbeNode)
    ensures
        node_reported(r, *n),
{
    let ghost reps = replica_entries(n.replicas);
    let len = replica_map_len(&n.replicas);
    let mut statuses: Vec<Status> = Vec::new();
    let mut k: usize = 0;
    while k < len
        invariant
            k <= len,
            len == reps.len(),
            reps == replica_entries(n.replicas),
            statuses@ == replica_statuses(reps.take(k as int)),
        decreases len - k,
    {
        match replica_map_get_index(&n.replicas, k) {
            Some((_, rep)) => {
                statuses.push(rep.status);
            },
            None => {
                assert(false);
            },
        }
        assert(replica_statuses(reps.take(k as int + 1)) =~= replica_statuses(reps.take(k as int)).push(reps[k as int].1.status));
        k = k + 1;
    }
    assert(reps.take(len as int) =~= reps);
    StatusReportResponsePayloadProbeNode { name: n.label.clone(), status: n.status, replicas: statuses }
}

fn report_probe(p: &ServiceStatesProbe) -> (r: StatusReportResponsePayloadProbe)
    ensures
        probe_reported(r, *p),
{
    let ghost nodes = node_entries(p.nodes);
    let len = node_map_len(&p.nodes);
    let mut out: Vec<StatusReportResponsePayloadProbeNode> = Vec::new();
    let mut j: usize = 0;
    while j < len
        invariant
            j <= len,
            len == nodes.len(),
            nodes == node_entries(p.nodes),
            out@.len() == j,
            forall|m: int| 0 <= m < j ==> node_reported(#[trigger] out@[m], nodes[m].1),
        decreases len - j,
    {
        match node_map_get_index(&p.nodes, j) {
            Some((_, n)) => {
                out.push(report_node(n));
            },
            None => {
                assert(false);
            },
        }
        j = j + 1;
    }
    StatusReportResponsePayloadProbe { name: p.label.clone(), status: p.status, nodes: out }
}

impl StatusReportResponsePayload {
    /// Summarises the store under the page's name and URL.
    pub fn build(states: &ServiceStates, page_name: &String, page_url: &String) -> (r: StatusReportResponsePayload)
        ensures
            r.health == states.status,
            r.page.name == *page_name,
            r.page.url == *page_url,
            r.probes@.len() == probe_entries(states.probes).len(),
            forall|i: int| 0 <= i < probe_entries(states.probes).len() ==> probe_reported(#[trigger] r.probes@[i], probe_entries(states.probes)[i].1),
    {
        let ghost probes = probe_entries(states.probes);
        let len = probe_map_len(&states.probes);
        let mut out: Vec<StatusReportResponsePayloadProbe> = Vec::new();
        let mut i: usize = 0;
        while i < len
            invariant
                i <= len,
                len == probes.len(),
                probes == probe_entries(states.probes),
                out@.len() == i,
                forall|m: int| 0 <= m < i ==> probe_reported(#[trigger] out@[m], probes[m].1),
            decreases len - i,
        {
            match probe_map_get_index(&states.probes, i) {
                Some((_, p)) => {
                    out.push(report_probe(p));
                },
                None => {
                    assert(false);
                },
            }
            i = i + 1;
        }
        StatusReportResponsePayload {
            health: states.status,
            page: StatusReportResponsePayloadPage { name: page_name.clone(), url: page_url.clone() },
            probes: out,
        }
    }
}

/// A replica in trouble, by its location.
pub struct ManagerProberAlertsResponsePayloadEntry {
    pub probe: String,
    pub node: String,
    pub replica: String,
}

impl ManagerProberAlertsResponsePayloadEntry {
    pub open spec fn view(&self) -> (Seq<char>, Seq<char>, Seq<char>) {
        (self.probe@, self.node@, self.replica@)
    }
}

/// The replicas that are dead and those that are sick.
pub struct ManagerProberAlertsResponsePayload {
    pub dead: Vec<ManagerProberAlertsResponsePayloadEntry>,
    pub sick: Vec<ManagerProberAlertsResponsePayloadEntry>,
}

pub open spec fn entry_views(v: Seq<ManagerProberAlertsResponsePayloadEntry>) -> Seq<(Seq<char>, Seq<char>, Seq<char>)> {
    v.map_values(|e: ManagerProberAlertsResponsePayloadEntry| e@)
}

/// Locations of the replicas among `reps` whose status is `s`, in order.
pub open spec fn node_status_paths(
    s: Status,
    pid: Seq<char>,
    nid: Seq<char>,
    reps: Seq<(Seq<char>, ServiceStatesProbeNodeReplica)>,
) -> Seq<(Seq<char>, Seq<char>, Seq<char>)>
    decreases reps.len(),
{
    if reps.len() == 0 {
        Seq::empty()
    } else {
        let rest = node_status_paths(s, pid, nid, reps.drop_last());
        if reps.last().1.status == s {
            rest.push((pid, nid, reps.last().0))
        } else {
            rest
        }
    }
}

pub open spec fn probe_status_paths(s: Status, pid: Seq<char>, nodes: Seq<(Seq<char>, ServiceStatesProbeNode)>) -> Seq<(Seq<char>, Seq<char>, Seq<char>)>
    decreases nodes.len(),
{
    if nodes.len() == 0 {
        Seq::empty()
    } else {
        probe_status_paths(s, pid, nodes.drop_last()) + node_status_paths(s, pid, nodes.last().0, replica_entries(nodes.last().1.replicas))
    }
}

/// Locations of the replicas of the whole tree whose status is `s`, in tree
/// order.
pub open spec fn tree_status_paths(s: Status, probes: Seq<(Seq<char>, ServiceStatesProbe)>) -> Seq<(Seq<char>, Seq<char>, Seq<char>)>
    decreases probes.len(),
{
    if probes.len() == 0 {
        Seq::empty()
    } else {
        tree_status_paths(s, probes.drop_last()) + probe_status_paths(s, probes.last().0, node_entries(probes.last().1.nodes))
    }
}

fn push_entry(v: &mut Vec<ManagerProberAlertsResponsePayloadEntry>, pid: &String, nid: &String, rid: &String)
    ensures
        entry_views(final(v)@) == entry_views(old(v)@).push((pid@, nid@, rid@)),
{
    let ghost before = v@;
    v.push(ManagerProberAlertsResponsePayloadEntry { probe: pid.clone(), node: nid.clone(), replica: rid.clone() });
    assert(entry_views(v@) =~= entry_views(before).push((pid@, nid@, rid@)));
}

fn alerts_of_node(
    pid: &String,
    nid: &String,
    node: &ServiceStatesProbeNode,
    dead: &mut Vec<ManagerProberAlertsResponsePayloadEntry>,
    sick: &mut Vec<ManagerProberAlertsResponsePayloadEntry>,
)
    ensures
        entry_views(final(dead)@) == entry_views(old(dead)@) + node_status_paths(Status::Dead, pid@, nid@, replica_entries(node.replicas)),
        entry_views(final(sick)@) == entry_views(old(sick)@) + node_status_paths(Status::Sick, pid@, nid@, replica_entries(node.replicas)),
{
    let ghost reps = replica_entries(node.replicas);
    let ghost d0 = entry_views(dead@);
    let ghost s0 = entry_views(sick@);
    let len = replica_map_len(&node.replicas);
    let mut k: usize = 0;
    while k < len
        invariant
            k <= len,
            len == reps.len(),
            reps == replica_entries(node.replicas),
            entry_views(dead@) == d0 + node_status_paths(Status::Dead, pid@, nid@, reps.take(k as int)),
            entry_views(sick@) == s0 + node_status_paths(Status::Sick, pid@, nid@, reps.take(k as int)),
        decreases len - k,
    {
        assert(reps.take(k as int + 1).drop_last() =~= reps.take(k as int));
        match replica_map_get_index(&node.replicas, k) {
            Some((rid, rep)) => {
                let ghost dp = node_status_paths(Status::Dead, pid@, nid@, reps.take(k as int));
                let ghost sp = node_status_paths(Status::Sick, pid@, nid@, reps.take(k as int));
                if rep.status == Status::Dead {
                    push_entry(dead, pid, nid, rid);
                    assert(d0 + dp.push((pid@, nid@, rid@)) =~= (d0 + dp).push((pid@, nid@, rid@)));
                } else if rep.status == Status::Sick {
                    push_entry(sick, pid, nid, rid);
                    assert(s0 + sp.push((pid@, nid@, rid@)) =~= (s0 + sp).push((pid@, nid@, rid@)));
                }
            },
            None => {
                assert(false);
            },
        }
        k = k + 1;
    }
    assert(reps.take(len as int) =~= reps);
}

fn alerts_of_probe(
    pid: &String,
    probe: &ServiceStatesProbe,
    dead: &mut Vec<ManagerProberAlertsResponsePayloadEntry>,
    sick: &mut Vec<ManagerProberAlertsResponsePayloadEntry>,
)
    ensures
        entry_views(final(dead)@) == entry_views(old(dead)@) + probe_status_paths(Status::Dead, pid@, node_entries(probe.nodes)),
        entry_views(final(sick)@) == entry_views(old(sick)@) + probe_status_paths(Status::Sick, pid@, node_entries(probe.nodes)),
{
    let ghost nodes = node_entries(probe.nodes);
    let ghost d0 = entry_views(dead@);
    let ghost s0 = entry_views(sick@);
    let len = node_map_len(&probe.nodes);
    let mut j: usize = 0;
    while j < len
        invariant
            j <= len,
            len == nodes.len(),
            nodes == node_entries(probe.nodes),
            entry_views(dead@) == d0 + probe_status_paths(Status::Dead, pid@, nodes.take(j as int)),
            entry_views(sick@) == s0 + probe_status_paths(Status::Sick, pid@, nodes.take(j as int)),
        decreases len - j,
    {
        assert(nodes.take(j as int + 1).drop_last() =~= nodes.take(j as int));
        match node_map_get_index(&probe.nodes, j) {
            Some((nid, node)) => {
                let ghost dp = probe_status_paths(Status::Dead, pid@, nodes.take(j as int));
                let ghost sp = probe_status_paths(Status::Sick, pid@, nodes.take(j as int));
                alerts_of_node(pid, nid, node, dead, sick);
                assert(nodes.take(j as int + 1).last() == nodes[j as int]);
                let ghost nd = node_status_paths(Status::Dead, pid@, nid@, replica_entries(node.replicas));
                let ghost ns = node_status_paths(Status::Sick, pid@, nid@, replica_entries(node.replicas));
                assert(d0 + dp + nd =~= d0 + (dp + nd));
                assert(s0 + sp + ns =~= s0 + (sp + ns));
            },
            None => {
                assert(false);
            },
        }
        j = j + 1;
    }
    assert(nodes.take(len as int) =~= nodes);
}

impl ManagerProberAlertsResponsePayload {
    /// The dead and the sick replicas of the store, each list in tree order.
    pub fn build(states: &ServiceStates) -> (r: ManagerProberAlertsResponsePayload)
        ensures
            entry_views(r.dead@) == tree_status_paths(Status::Dead, probe_entries(states.probes)),
            entry_views(r.sick@) == tree_status_paths(Status::Sick, probe_entries(states.probes)),
    {
        let ghost probes = probe_entries(states.probes);
        let mut dead: Vec<ManagerProberAlertsResponsePayloadEntry> = Vec::new();
        let mut sick: Vec<ManagerProberAlertsResponsePayloadEntry> = Vec::new();
        assert(entry_views(dead@) =~= Seq::<(Seq<char>, Seq<char>, Seq<char>)>::empty());
        assert(entry_views(sick@) =~= Seq::<(Seq<char>, Seq<char>, Seq<char>)>::empty());
        let len = probe_map_len(&states.probes);
        let mut i: usize = 0;
        while i < len
            invariant
                i <= len,
                len == probes.len(),
                probes == probe_entries(states.probes),
                entry_views(dead@) == tree_status_paths(Status::Dead, probes.take(i as int)),
                entry_views(sick@) == tree_status_paths(Status::Sick, probes.take(i as int)),
            decreases len - i,
        {
            assert(probes.take(i as int + 1).drop_last() =~= probes.take(i as int));
            match probe_map_get_index(&states.probes, i) {
                Some((pid, probe)) => {
                    alerts_of_probe(pid, probe, &mut dead, &mut sick);
                    assert(probes.take(i as int + 1).last() == probes[i as int]);
                },
                None => {
                    assert(false);
                },
            }
            i = i + 1;
        }
        assert(probes.take(len as int) =~= probes);
        ManagerProberAlertsResponsePayload { dead, sick }
    }
}

} // verus!
