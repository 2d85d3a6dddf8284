use vstd::prelude::*;

use crate::config::ConfigProbeServiceNodeHTTPMethod;
use crate::maps::{
    node_entries, node_map_get_index, node_map_len, probe_entries, probe_map_get_index,
    probe_map_len, replica_entries, replica_map_get_index, replica_map_len,
};
use crate::mode::Mode;
use crate::replica::ReplicaURL;
use crate::store::{copy_headers, copy_opt_string};
use crate::states::{ServiceStates, ServiceStatesProbeNode, ServiceStatesProbeNodeReplica};

verus! {

/// Where a replica stands in the tree.
pub struct ProbeReplicaTarget {
    pub probe_id: String,
    pub node_id: String,
    pub replica_id: String,
}

impl ProbeReplicaTarget {
    pub open spec fn view(&self) -> (Seq<char>, Seq<char>, Seq<char>) {
        (self.probe_id@, self.node_id@, self.replica_id@)
    }
}

/// What a poll check needs, copied out of the store.
pub struct ProbeReplicaPoll {
    pub replica_url: ReplicaURL,
    pub http_headers: Vec<(String, String)>,
    pub http_method: Option<ConfigProbeServiceNodeHTTPMethod>,
    pub http_body: Option<String>,
    pub body_match: Option<String>,
}

/// What a script check needs, copied out of the store.
pub struct ProbeReplicaScript {
    pub script: String,
}

/// A replica to check, with everything its check needs.
pub enum ProbeReplica {
    Poll(ProbeReplicaTarget, ProbeReplicaPoll),
    Script(ProbeReplicaTarget, ProbeReplicaScript),
}

/// A replica of the tree with its location: probe, node and replica
/// identifiers, its node, and itself.
pub type Located = (Seq<char>, Seq<char>, Seq<char>, ServiceStatesProbeNode, ServiceStatesProbeNodeReplica);

/// Whether a replica is checked in `mode`: its node is in that mode and it
/// has a URL (poll) or a script (script).
pub open spec fn selected(mode: Mode, node: ServiceStatesProbeNode, rep: ServiceStatesProbeNodeReplica) -> bool {
    node.mode == mode && match mode {
        Mode::Poll => rep.url is Some,
        Mode::Script => rep.script is Some,
        _ => false,
    }
}

pub open spec fn node_targets(
    mode: Mode,
    pid: Seq<char>,
    nid: Seq<char>,
    node: ServiceStatesProbeNode,
    reps: Seq<(Seq<char>, ServiceStatesProbeNodeReplica)>,
) -> Seq<Located>
    decreases reps.len(),
{
    if reps.len() == 0 {
        Seq::empty()
    } else {
        let rest = node_targets(mode, pid, nid, node, reps.drop_last());
        if selected(mode, node, reps.last().1) {
            rest.push((pid, nid, reps.last().0, node, reps.last().1))
        } else {
            rest
        }
    }
}

pub open spec fn probe_targets(mode: Mode, pid: Seq<char>, nodes: Seq<(Seq<char>, ServiceStatesProbeNode)>) -> Seq<Located>
    decreases nodes.len(),
{
    if nodes.len() == 0 {
        Seq::empty()
    } else {
        probe_targets(mode, pid, nodes.drop_last()) + node_targets(
            mode,
            pid,
            nodes.last().0,
            nodes.last().1,
            replica_entries(nodes.last().1.replicas),
        )
    }
}

/// The replicas checked in `mode`, in tree order.
pub open spec fn tree_targets(mode: Mode, probes: Seq<(Seq<char>, crate::states::ServiceStatesProbe)>) -> Seq<Located>
    decreases probes.len(),
{
    if probes.len() == 0 {
        Seq::empty()
    } else {
        tree_targets(mode, probes.drop_last()) + probe_targets(mode, probes.last().0, node_entries(probes.last().1.nodes))
    }
}

/// `t` is the check of the located replica `l`, in `mode`.
pub open spec fn target_fits(mode: Mode, t: ProbeReplica, l: Located) -> bool {
    match t {
        ProbeReplica::Poll(tg, p) => mode == Mode::Poll && tg@ == (l.0, l.1, l.2) && l.4.url == Some(p.replica_url)
            && p.http_headers@ == l.3.http_headers@ && p.http_method == l.3.http_method && p.http_body == l.3.http_body
            && p.body_match == l.3.http_body_healthy_match,
        ProbeReplica::Script(tg, s) => mode == Mode::Script && tg@ == (l.0, l.1, l.2) && l.4.script == Some(s.script),
    }
}

pub open spec fn targets_fit(mode: Mode, ts: Seq<ProbeReplica>, ls: Seq<Located>) -> bool {
    &&& ts.len() == ls.len()
    &&& forall|k: int| 0 <= k < ts.len() ==> target_fits(mode, #[trigger] ts[k], ls[k])
}

proof fn lemma_targets_fit_push(mode: Mode, ts: Seq<ProbeReplica>, ls: Seq<Located>, t: ProbeReplica, l: Located)
    requires
        targets_fit(mode, ts, ls),
        target_fits(mode, t, l),
    ensures
        targets_fit(mode, ts.push(t), ls.push(l)),
{
    assert forall|k: int| 0 <= k < ts.len() + 1 implies target_fits(mode, #[trigger] ts.push(t)[k], ls.push(l)[k]) by {
        if k < ts.len() {
            assert(ts.push(t)[k] == ts[k]);
        }
    }
}

fn collect_node(mode: Mode, pid: &String, nid: &String, node: &ServiceStatesProbeNode, out: &mut Vec<ProbeReplica>)
    requires
        mode == Mode::Poll || mode == Mode::Script,
    ensures
        forall|ls: Seq<Located>| #[trigger] targets_fit(mode, old(out)@, ls) ==> targets_fit(mode, final(out)@, ls + node_targets(mode, pid@, nid@, *node, replica_entries(node.replicas))),
        final(out)@.len() == old(out)@.len() + node_targets(mode, pid@, nid@, *node, replica_entries(node.replicas)).len(),
        forall|k: int| 0 <= k < old(out)@.len() ==> final(out)@[k] == old(out)@[k],
        forall|k: int| 0 <= k < node_targets(mode, pid@, nid@, *node, replica_entries(node.replicas)).len() ==> target_fits(
            mode,
            #[trigger] final(out)@[old(out)@.len() + k],
            node_targets(mode, pid@, nid@, *node, replica_entries(node.replicas))[k],
        ),
{
    let ghost o = old(out)@;
    let ghost reps = replica_entries(node.replicas);
    let len = replica_map_len(&node.replicas);
    let mut k: usize = 0;
    while k < len
        invariant
            mode == Mode::Poll || mode == Mode::Script,
            k <= len,
            len == reps.len(),
            reps == replica_entries(node.replicas),
            out@.len() == o.len() + node_targets(mode, pid@, nid@, *node, reps.take(k as int)).len(),
            forall|m: int| 0 <= m < o.len() ==> out@[m] == o[m],
            targets_fit(mode, out@.subrange(o.len() as int, out@.len() as int), node_targets(mode, pid@, nid@, *node, reps.take(k as int))),
        decreases len - k,
    {
        let ghost before = out@;
        let ghost lt = node_targets(mode, pid@, nid@, *node, reps.take(k as int));
        assert(reps.take(k as int + 1).drop_last() =~= reps.take(k as int));
        match replica_map_get_index(&node.replicas, k) {
            Some((rid, rep)) => {
                let ghost l: Located = (pid@, nid@, rid@, *node, *rep);
                if node.mode == mode {
                    match mode {
                        Mode::Poll => {
                            if let Some(u) = &rep.url {
                                let t = ProbeReplica::Poll(
                                    ProbeReplicaTarget { probe_id: pid.clone(), node_id: nid.clone(), replica_id: rid.clone() },
                                    ProbeReplicaPoll {
                                        replica_url: u.duplicate(),
                                        http_headers: copy_headers(&node.http_headers),
                                        http_method: node.http_method,
                                        http_body: copy_opt_string(&node.http_body),
                                        body_match: copy_opt_string(&node.http_body_healthy_match),
                                    },
                                );
                                proof {
                                    lemma_targets_fit_push(mode, before.subrange(o.len() as int, before.len() as int), lt, t, l);
                                }
                                out.push(t);
                                assert(out@.subrange(o.len() as int, out@.len() as int) =~= before.subrange(o.len() as int, before.len() as int).push(t));
                            }
                        },
                        _ => {
                            if let Some(sc) = &rep.script {
                                let t = ProbeReplica::Script(
                                    ProbeReplicaTarget { probe_id: pid.clone(), node_id: nid.clone(), replica_id: rid.clone() },
                                    ProbeReplicaScript { script: sc.clone() },
                                );
                                proof {
                                    lemma_targets_fit_push(mode, before.subrange(o.len() as int, before.len() as int), lt, t, l);
                                }
                                out.push(t);
                                assert(out@.subrange(o.len() as int, out@.len() as int) =~= before.subrange(o.len() as int, before.len() as int).push(t));
                            }
                        },
                    }
                }
            },
            None => {
                assert(false);
            },
        }
        k = k + 1;
    }
    assert(reps.take(len as int) =~= reps);
    let ghost nt = node_targets(mode, pid@, nid@, *node, reps);
    assert forall|m: int| 0 <= m < nt.len() implies target_fits(mode, #[trigger] out@[o.len() + m], nt[m]) by {
        assert(out@.subrange(o.len() as int, out@.len() as int)[m] == out@[o.len() + m]);
    }
    assert forall|ls: Seq<Located>| targets_fit(mode, o, ls) implies targets_fit(mode, out@, ls + nt) by {
        assert forall|m: int| 0 <= m < out@.len() implies target_fits(mode, #[trigger] out@[m], (ls + nt)[m]) by {
            if m < o.len() {
                assert(out@[m] == o[m]);
            } else {
                assert(out@[o.len() + (m - o.len())] == out@[m]);
            }
        }
    }
}

fn collect_probe(mode: Mode, pid: &String, probe: &crate::states::ServiceStatesProbe, out: &mut Vec<ProbeReplica>)
    requires
        mode == Mode::Poll || mode == Mode::Script,
    ensures
        forall|ls: Seq<Located>| #[trigger] targets_fit(mode, old(out)@, ls) ==> targets_fit(mode, final(out)@, ls + probe_targets(mode, pid@, node_entries(probe.nodes))),
{
    let ghost nodes = node_entries(probe.nodes);
    let ghost o = old(out)@;
    let len = node_map_len(&probe.nodes);
    let mut j: usize = 0;
    while j < len
        invariant
            mode == Mode::Poll || mode == Mode::Script,
            j <= len,
            len == nodes.len(),
            nodes == node_entries(probe.nodes),
            forall|ls: Seq<Located>| #[trigger] targets_fit(mode, o, ls) ==> targets_fit(mode, out@, ls + probe_targets(mode, pid@, nodes.take(j as int))),
        decreases len - j,
    {
        let ghost before = out@;
        assert(nodes.take(j as int + 1).drop_last() =~= nodes.take(j as int));
        match node_map_get_index(&probe.nodes, j) {
            Some((nid, node)) => {
                collect_node(mode, pid, nid, node, out);
                proof {
                    let nt = node_targets(mode, pid@, nid@, *node, replica_entries(node.replicas));
                    assert(nodes.take(j as int + 1).last() == nodes[j as int]);
                    assert forall|ls: Seq<Located>| #[trigger] targets_fit(mode, o, ls) implies targets_fit(mode, out@, ls + probe_targets(mode, pid@, nodes.take(j as int + 1))) by {
                        let l1 = ls + probe_targets(mode, pid@, nodes.take(j as int));
                        assert(targets_fit(mode, before, l1));
                        assert(targets_fit(mode, out@, l1 + nt));
                        assert(l1 + nt =~= ls + probe_targets(mode, pid@, nodes.take(j as int + 1)));
                    }
                }
            },
            None => {
                assert(false);
            },
        }
        j = j + 1;
    }
    assert(nodes.take(len as int) =~= nodes);
}

/// Copies out of the store, in tree order, every replica checked in `mode`
/// (poll or script) with what its check needs.
fn map_replicas(states: &ServiceStates, mode: Mode) -> (r: Vec<ProbeReplica>)
    requires
        mode == Mode::Poll || mode == Mode::Script,
    ensures
        targets_fit(mode, r@, tree_targets(mode, probe_entries(states.probes))),
{
    let ghost probes = probe_entries(states.probes);
    let mut out: Vec<ProbeReplica> = Vec::new();
    let len = probe_map_len(&states.probes);
    let mut i: usize = 0;
    assert(targets_fit(mode, out@, Seq::<Located>::empty()));
    while i < len
        invariant
            mode == Mode::Poll || mode == Mode::Script,
            i <= len,
            len == probes.len(),
            probes == probe_entries(states.probes),
            targets_fit(mode, out@, tree_targets(mode, probes.take(i as int))),
        decreases len - i,
    {
        assert(probes.take(i as int + 1).drop_last() =~= probes.take(i as int));
        match probe_map_get_index(&states.probes, i) {
            Some((pid, probe)) => {
                let ghost acc = tree_targets(mode, probes.take(i as int));
                collect_probe(mode, pid, probe, &mut out);
                assert(probes.take(i as int + 1).last() == probes[i as int]);
                assert(targets_fit(mode, out@, acc + probe_targets(mode, pid@, node_entries(probe.nodes))));
            },
            None => {
                assert(false);
            },
        }
        i = i + 1;
    }
    assert(probes.take(len as int) =~= probes);
    out
}

/// Poll targets: every replica with a URL under a poll node, in tree order.
pub fn map_poll_replicas(states: &ServiceStates) -> (r: Vec<ProbeReplica>)
    ensures
        targets_fit(Mode::Poll, r@, tree_targets(Mode::Poll, probe_entries(states.probes))),
{
    map_replicas(states, Mode::Poll)
}

/// Script targets: every replica with a script under a script node, in
/// tree order.
pub fn map_script_replicas(states: &ServiceStates) -> (r: Vec<ProbeReplica>)
    ensures
        targets_fit(Mode::Script, r@, tree_targets(Mode::Script, probe_entries(states.probes))),
{
    map_replicas(states, Mode::Script)
}

} // verus!
