use vstd::prelude::*;

use crate::config::{ConfigProbe, ConfigProbeService, ConfigProbeServiceNode};
use crate::maps::{
    inserted, key_absent, keys_unique, lemma_inserted_keys_unique, node_entries, node_map_insert,
    node_map_new, probe_entries, probe_map_insert, probe_map_new, replica_entries,
    replica_map_insert, replica_map_new,
};
use crate::mode::Mode;
use crate::prober::{decimal, decimal_string, digit_char};
use crate::replica::{str_eq, target_accepted, target_of, url_parts_of, ReplicaURL};
use crate::states::{
    ServiceStates, ServiceStatesNotifier, ServiceStatesProbe, ServiceStatesProbeNode,
    ServiceStatesProbeNodeRabbitMQ, ServiceStatesProbeNodeReplica,
    ServiceStatesProbeNodeReplicaMetrics, Store,
};
use crate::status::Status;

verus! {

/// Why a configured topology cannot be loaded.
#[derive(Debug)]
pub enum ConfigError {
    DuplicateService { service: String },
    DuplicateNode { service: String, node: String },
    /// A node that is not in poll mode lists replica URLs.
    ReplicasOnNonPollNode { service: String, node: String },
    /// A node that is not in script mode lists scripts.
    ScriptsOnNonScriptNode { service: String, node: String },
    InvalidReplicaUrl { service: String, node: String, replica: String },
}

pub open spec fn service_ids_unique(s: Seq<ConfigProbeService>) -> bool {
    forall|i: int, j: int| 0 <= i < s.len() && 0 <= j < s.len() && i != j ==> s[i].id@ != s[j].id@
}

pub open spec fn node_ids_unique(n: Seq<ConfigProbeServiceNode>) -> bool {
    forall|i: int, j: int| 0 <= i < n.len() && 0 <= j < n.len() && i != j ==> n[i].id@ != n[j].id@
}

/// No two services share an identifier, nor two nodes of one service.
pub open spec fn identifiers_unique(c: ConfigProbe) -> bool {
    &&& service_ids_unique(c.service@)
    &&& forall|i: int| 0 <= i < c.service@.len() ==> node_ids_unique(#[trigger] c.service@[i].node@)
}

/// A node's checks match its mode: replica URLs only on poll nodes, each
/// a valid target; scripts only on script nodes.
pub open spec fn node_config_valid(n: ConfigProbeServiceNode) -> bool {
    &&& n.replicas is Some ==> n.mode == Mode::Poll
    &&& n.scripts is Some ==> n.mode == Mode::Script
    &&& n.replicas matches Some(v) ==> forall|k: int| 0 <= k < v@.len() ==> target_accepted(url_parts_of(#[trigger] v@[k]@))
}

pub open spec fn config_valid(c: ConfigProbe) -> bool {
    &&& identifiers_unique(c)
    &&& forall|i: int, j: int| 0 <= i < c.service@.len() && 0 <= j < c.service@[i].node@.len() ==> node_config_valid(
        #[trigger] c.service@[i].node@[j],
    )
}

/// Whether `ids[i].id` appears before position `i`.
fn service_seen_before(svcs: &Vec<ConfigProbeService>, i: usize) -> (r: bool)
    requires
        i < svcs@.len(),
    ensures
        r == exists|k: int| 0 <= k < i && svcs@[k].id@ == svcs@[i as int].id@,
{
    let mut k: usize = 0;
    while k < i
        invariant
            i < svcs@.len(),
            k <= i,
            forall|m: int| 0 <= m < k ==> svcs@[m].id@ != svcs@[i as int].id@,
        decreases i - k,
    {
        if str_eq(svcs[k].id.as_str(), svcs[i].id.as_str()) {
            return true;
        }
        k = k + 1;
    }
    false
}

fn node_seen_before(nodes: &Vec<ConfigProbeServiceNode>, i: usize) -> (r: bool)
    requires
        i < nodes@.len(),
    ensures
        r == exists|k: int| 0 <= k < i && nodes@[k].id@ == nodes@[i as int].id@,
{
    let mut k: usize = 0;
    while k < i
        invariant
            i < nodes@.len(),
            k <= i,
            forall|m: int| 0 <= m < k ==> nodes@[m].id@ != nodes@[i as int].id@,
        decreases i - k,
    {
        if str_eq(nodes[k].id.as_str(), nodes[i].id.as_str()) {
            return true;
        }
        k = k + 1;
    }
    false
}

/// Rejects a topology where two services, or two nodes of one service,
/// share an identifier; the first duplicate found in configuration order is
/// reported.
pub fn validate_identifiers(conf: &ConfigProbe) -> (r: Result<(), ConfigError>)
    ensures
        r is Ok <==> identifiers_unique(*conf),
        r matches Err(e) ==> match e {
            ConfigError::DuplicateService { service } => exists|i: int, j: int|
                #![trigger conf.service@[i], conf.service@[j]] 0 <= i < j < conf.service@.len() && conf.service@[i].id@ == service@ && conf.service@[j].id@ == service@,
            ConfigError::DuplicateNode { service, node } => exists|i: int|
                0 <= i < conf.service@.len() && #[trigger] conf.service@[i].id@ == service@
                && exists|a: int, b: int| #![trigger conf.service@[i].node@[a], conf.service@[i].node@[b]] 0 <= a < b < conf.service@[i].node@.len()
                    && conf.service@[i].node@[a].id@ == node@ && conf.service@[i].node@[b].id@ == node@,
            _ => false,
        },
{
    let svcs = &conf.service;
    let mut i: usize = 0;
    while i < svcs.len()
        invariant
            i <= svcs@.len(),
            svcs@ == conf.service@,
            forall|a: int, b: int| 0 <= a < b < i ==> svcs@[a].id@ != svcs@[b].id@,
            forall|a: int| 0 <= a < i ==> node_ids_unique(#[trigger] svcs@[a].node@),
        decreases svcs@.len() - i,
    {
        if service_seen_before(svcs, i) {
            let ghost k = choose|k: int| 0 <= k < i && svcs@[k].id@ == svcs@[i as int].id@;
            assert(svcs@[k].id@ == svcs@[i as int].id@);
            return Err(ConfigError::DuplicateService { service: svcs[i].id.clone() });
        }
        let nodes = &svcs[i].node;
        let mut j: usize = 0;
        while j < nodes.len()
            invariant
                i < svcs@.len(),
                j <= nodes@.len(),
                nodes@ == svcs@[i as int].node@,
                svcs@ == conf.service@,
                forall|a: int, b: int| 0 <= a < b < j ==> nodes@[a].id@ != nodes@[b].id@,
            decreases nodes@.len() - j,
        {
            if node_seen_before(nodes, j) {
                let ghost k = choose|k: int| 0 <= k < j && nodes@[k].id@ == nodes@[j as int].id@;
                assert(conf.service@[i as int].node@[k].id@ == nodes@[j as int].id@);
                assert(conf.service@[i as int].node@[j as int].id@ == nodes@[j as int].id@);
                assert(conf.service@[i as int].id@ == svcs@[i as int].id@);
                return Err(ConfigError::DuplicateNode { service: svcs[i].id.clone(), node: nodes[j].id.clone() });
            }
            j = j + 1;
        }
        assert forall|a: int, b: int| 0 <= a < nodes@.len() && 0 <= b < nodes@.len() && a != b implies nodes@[a].id@ != nodes@[b].id@ by {
            if a > b {
                assert(nodes@[b].id@ != nodes@[a].id@);
            }
        }
        i = i + 1;
    }
    assert forall|a: int, b: int| 0 <= a < svcs@.len() && 0 <= b < svcs@.len() && a != b implies svcs@[a].id@ != svcs@[b].id@ by {
        if a > b {
            assert(svcs@[b].id@ != svcs@[a].id@);
        }
    }
    Ok(())
}


/// The distinct keys of `s`, each where it first appears.
pub open spec fn first_occurrences(s: Seq<Seq<char>>) -> Seq<Seq<char>>
    decreases s.len(),
{
    if s.len() == 0 {
        Seq::empty()
    } else {
        let r = first_occurrences(s.drop_last());
        if r.contains(s.last()) {
            r
        } else {
            r.push(s.last())
        }
    }
}

pub open spec fn fresh_metrics(m: ServiceStatesProbeNodeReplicaMetrics) -> bool {
    m.latency is None && m.system is None && m.rabbitmq is None
}

/// A healthy poll replica that has not been checked yet, probing the
/// target that its key gives.
pub open spec fn fresh_poll_replica(key: Seq<char>, r: ServiceStatesProbeNodeReplica) -> bool {
    &&& r.status == Status::Healthy
    &&& r.url matches Some(u) && target_of(key, u)
    &&& r.script is None
    &&& fresh_metrics(r.metrics)
    &&& r.load is None
    &&& r.report is None
}

/// A healthy script replica that has not run yet.
pub open spec fn fresh_script_replica(script: String, r: ServiceStatesProbeNodeReplica) -> bool {
    &&& r.status == Status::Healthy
    &&& r.url is None
    &&& r.script == Some(script)
    &&& fresh_metrics(r.metrics)
    &&& r.load is None
    &&& r.report is None
}

/// Poll replicas keyed by their URLs, once each, in configuration order.
pub open spec fn poll_replicas_built(urls: Seq<String>, e: Seq<(Seq<char>, ServiceStatesProbeNodeReplica)>) -> bool {
    let keys = first_occurrences(crate::aggregator::texts(urls));
    &&& e.len() == keys.len()
    &&& forall|k: int| 0 <= k < e.len() ==> (#[trigger] e[k]).0 == keys[k] && fresh_poll_replica(e[k].0, e[k].1)
}

/// Script replicas keyed by their position, in configuration order.
pub open spec fn script_replicas_built(scripts: Seq<String>, e: Seq<(Seq<char>, ServiceStatesProbeNodeReplica)>) -> bool {
    &&& e.len() == scripts.len()
    &&& forall|k: int| 0 <= k < e.len() ==> (#[trigger] e[k]).0 == decimal(k as nat) && fresh_script_replica(scripts[k], e[k].1)
}

pub open spec fn replicas_built(cn: ConfigProbeServiceNode, e: Seq<(Seq<char>, ServiceStatesProbeNodeReplica)>) -> bool {
    match cn.replicas {
        Some(v) => poll_replicas_built(v@, e),
        None => match cn.scripts {
            Some(v) => script_replicas_built(v@, e),
            None => e.len() == 0,
        },
    }
}

pub open spec fn rabbitmq_built(cn: ConfigProbeServiceNode, q: Option<ServiceStatesProbeNodeRabbitMQ>) -> bool {
    match cn.rabbitmq_queue {
        Some(name) => q matches Some(x) && x.queue == name && x.queue_nack_healthy_below == cn.rabbitmq_queue_nack_healthy_below
            && x.queue_nack_dead_above == cn.rabbitmq_queue_nack_dead_above,
        None => q is None,
    }
}

/// A healthy node made from its configuration.
pub open spec fn node_built(cn: ConfigProbeServiceNode, n: ServiceStatesProbeNode) -> bool {
    &&& n.status == Status::Healthy
    &&& n.label == cn.label
    &&& n.mode == cn.mode
    &&& n.http_headers@ == cn.http_headers@
    &&& n.http_method == cn.http_method
    &&& n.http_body == cn.http_body
    &&& n.http_body_healthy_match == cn.http_body_healthy_match
    &&& n.reveal_replica_name == cn.reveal_replica_name
    &&& rabbitmq_built(cn, n.rabbitmq)
    &&& replicas_built(cn, replica_entries(n.replicas))
}

/// A healthy probe made from a configured service, nodes in order.
pub open spec fn probe_built(cs: ConfigProbeService, p: ServiceStatesProbe) -> bool {
    let n = node_entries(p.nodes);
    &&& p.id == cs.id
    &&& p.label == cs.label
    &&& p.status == Status::Healthy
    &&& n.len() == cs.node@.len()
    &&& forall|j: int| 0 <= j < n.len() ==> (#[trigger] n[j]).0 == cs.node@[j].id@ && node_built(cs.node@[j], n[j].1)
}

/// The store as it stands at startup: everything healthy, nothing notified,
/// the backoff counter at 1, services in configuration order.
pub open spec fn store_built(c: ConfigProbe, s: Store) -> bool {
    let p = probe_entries(s.states.probes);
    &&& s.states.status == Status::Healthy
    &&& s.states.date is None
    &&& s.notified is None
    &&& s.states.notifier == (ServiceStatesNotifier { reminder_backoff_counter: 1, reminder_ignore_until: None })
    &&& p.len() == c.service@.len()
    &&& forall|i: int| 0 <= i < p.len() ==> (#[trigger] p[i]).0 == c.service@[i].id@ && probe_built(c.service@[i], p[i].1)
}

pub proof fn lemma_digit_char_injective(a: nat, b: nat)
    requires
        a < 10,
        b < 10,
        digit_char(a) == digit_char(b),
    ensures
        a == b,
{
}

pub proof fn lemma_decimal_nonempty(n: nat)
    ensures
        decimal(n).len() >= 1,
    decreases n,
{
    if n >= 10 {
        lemma_decimal_nonempty(n / 10);
    }
}

/// Distinct numbers have distinct decimal texts.
pub proof fn lemma_decimal_injective(a: nat, b: nat)
    requires
        decimal(a) == decimal(b),
    ensures
        a == b,
    decreases a,
{
    if a < 10 && b < 10 {
        assert(decimal(a)[0] == digit_char(a));
        assert(decimal(b)[0] == digit_char(b));
        lemma_digit_char_injective(a, b);
    } else if a < 10 {
        lemma_decimal_nonempty(b / 10);
        assert(decimal(b).len() >= 2);
    } else if b < 10 {
        lemma_decimal_nonempty(a / 10);
        assert(decimal(a).len() >= 2);
    } else {
        let da = decimal(a);
        assert(da.drop_last() =~= decimal(a / 10));
        assert(decimal(b).drop_last() =~= decimal(b / 10));
        lemma_decimal_injective(a / 10, b / 10);
        assert(da.last() == digit_char(a % 10));
        assert(decimal(b).last() == digit_char(b % 10));
        lemma_digit_char_injective(a % 10, b % 10);
    }
}

pub(crate) fn copy_opt_string(s: &Option<String>) -> (r: Option<String>)
    ensures
        r == *s,
{
    match s {
        Some(t) => Some(t.clone()),
        None => None,
    }
}

pub(crate) fn copy_headers(v: &Vec<(String, String)>) -> (r: Vec<(String, String)>)
    ensures
        r@ == v@,
{
    let mut out: Vec<(String, String)> = Vec::new();
    let mut i: usize = 0;
    while i < v.len()
        invariant
            i <= v@.len(),
            out@ == v@.take(i as int),
        decreases v@.len() - i,
    {
        let (name, value) = &v[i];
        out.push((name.clone(), value.clone()));
        assert(out@ =~= v@.take(i as int + 1));
        i = i + 1;
    }
    assert(v@.take(v@.len() as int) =~= v@);
    out
}

fn fresh_replica(url: Option<ReplicaURL>, script: Option<String>) -> (r: ServiceStatesProbeNodeReplica)
    ensures
        r.status == Status::Healthy,
        r.url == url,
        r.script == script,
        fresh_metrics(r.metrics),
        r.load is None,
        r.report is None,
{
    ServiceStatesProbeNodeReplica {
        status: Status::Healthy,
        url,
        script,
        metrics: ServiceStatesProbeNodeReplicaMetrics::empty(),
        load: None,
        report: None,
    }
}

fn build_poll_replicas(service_id: &String, node_id: &String, urls: &Vec<String>) -> (r: Result<
    indexmap::IndexMap<String, ServiceStatesProbeNodeReplica>,
    ConfigError,
>)
    ensures
        r is Ok <==> forall|k: int| 0 <= k < urls@.len() ==> target_accepted(url_parts_of(#[trigger] urls@[k]@)),
        r matches Ok(m) ==> poll_replicas_built(urls@, replica_entries(m)) && keys_unique(replica_entries(m)),
        r matches Err(e) ==> (e matches ConfigError::InvalidReplicaUrl { service, node, replica } && service == *service_id
            && node == *node_id && urls@.contains(replica) && !target_accepted(url_parts_of(replica@))),
{
    let mut m = replica_map_new();
    let mut i: usize = 0;
    while i < urls.len()
        invariant
            i <= urls@.len(),
            keys_unique(replica_entries(m)),
            poll_replicas_built(urls@.take(i as int), replica_entries(m)),
            forall|k: int| 0 <= k < i ==> target_accepted(url_parts_of(#[trigger] urls@[k]@)),
        decreases urls@.len() - i,
    {
        let ghost e = replica_entries(m);
        let ghost keys = first_occurrences(crate::aggregator::texts(urls@.take(i as int)));
        match ReplicaURL::parse_from(urls[i].as_str()) {
            Err(()) => {
                return Err(ConfigError::InvalidReplicaUrl {
                    service: service_id.clone(),
                    node: node_id.clone(),
                    replica: urls[i].clone(),
                });
            },
            Ok(u) => {
                let key = urls[i].clone();
                let v = fresh_replica(Some(u), None);
                proof {
                    lemma_inserted_keys_unique(e, key@, v);
                    let t1 = crate::aggregator::texts(urls@.take(i as int + 1));
                    assert(t1.drop_last() =~= crate::aggregator::texts(urls@.take(i as int)));
                    assert(t1.last() == key@);
                    let keys1 = first_occurrences(t1);
                    if key_absent(e, key@) {
                        assert(!keys.contains(key@)) by {
                            if keys.contains(key@) {
                                let k = choose|k: int| 0 <= k < keys.len() && keys[k] == key@;
                                assert(e[k].0 == keys[k]);
                            }
                        }
                        assert(keys1 == keys.push(key@));
                        assert(inserted(e, key@, v) == e.push((key@, v)));
                    } else {
                        let k = choose|k: int| 0 <= k < e.len() && e[k].0 == key@;
                        assert(keys[k] == key@);
                        assert(keys.contains(key@));
                        assert(keys1 == keys);
                        assert(inserted(e, key@, v) == e.update(k, (key@, v)));
                    }
                }
                replica_map_insert(&mut m, key, v);
            },
        }
        i = i + 1;
    }
    assert(urls@.take(urls@.len() as int) =~= urls@);
    Ok(m)
}

fn build_script_replicas(scripts: &Vec<String>) -> (r: indexmap::IndexMap<String, ServiceStatesProbeNodeReplica>)
    ensures
        script_replicas_built(scripts@, replica_entries(r)),
        keys_unique(replica_entries(r)),
{
    let mut m = replica_map_new();
    let mut i: usize = 0;
    while i < scripts.len()
        invariant
            i <= scripts@.len(),
            keys_unique(replica_entries(m)),
            script_replicas_built(scripts@.take(i as int), replica_entries(m)),
        decreases scripts@.len() - i,
    {
        let ghost e = replica_entries(m);
        let key = decimal_string(i as u64);
        let v = fresh_replica(None, Some(scripts[i].clone()));
        proof {
            assert forall|k: int| 0 <= k < e.len() implies e[k].0 != key@ by {
                if e[k].0 == key@ {
                    assert(e[k].0 == decimal(k as nat));
                    lemma_decimal_injective(k as nat, i as nat);
                }
            }
            lemma_inserted_keys_unique(e, key@, v);
            assert(inserted(e, key@, v) == e.push((key@, v)));
        }
        replica_map_insert(&mut m, key, v);
        proof {
            let e1 = replica_entries(m);
            assert forall|k: int| 0 <= k < e1.len() implies (#[trigger] e1[k]).0 == decimal(k as nat) && fresh_script_replica(
                scripts@.take(i as int + 1)[k],
                e1[k].1,
            ) by {
                if k < e.len() {
                    assert(e1[k] == e[k]);
                    assert(scripts@.take(i as int + 1)[k] == scripts@.take(i as int)[k]);
                }
            }
        }
        i = i + 1;
    }
    assert(scripts@.take(scripts@.len() as int) =~= scripts@);
    m
}


/// The error a node's checks give, when they do not match its mode.
pub open spec fn node_error_fits(service_id: String, cn: ConfigProbeServiceNode, e: ConfigError) -> bool {
    match e {
        ConfigError::ReplicasOnNonPollNode { service, node } => service == service_id && node == cn.id && cn.replicas is Some
            && cn.mode != Mode::Poll,
        ConfigError::ScriptsOnNonScriptNode { service, node } => service == service_id && node == cn.id && cn.scripts is Some
            && cn.mode != Mode::Script,
        ConfigError::InvalidReplicaUrl { service, node, replica } => service == service_id && node == cn.id
            && (cn.replicas matches Some(v) && v@.contains(replica)) && !target_accepted(url_parts_of(replica@)),
        _ => false,
    }
}

fn build_node(service_id: &String, cn: &ConfigProbeServiceNode) -> (r: Result<ServiceStatesProbeNode, ConfigError>)
    ensures
        r is Ok <==> node_config_valid(*cn),
        r matches Ok(n) ==> node_built(*cn, n) && n.wf(),
        r matches Err(e) ==> node_error_fits(*service_id, *cn, e),
{
    let replicas = match &cn.replicas {
        Some(urls) => {
            if cn.mode != Mode::Poll {
                return Err(ConfigError::ReplicasOnNonPollNode { service: service_id.clone(), node: cn.id.clone() });
            }
            match build_poll_replicas(service_id, &cn.id, urls) {
                Ok(m) => m,
                Err(e) => {
                    return Err(e);
                },
            }
        },
        None => replica_map_new(),
    };
    let replicas = match &cn.scripts {
        Some(scripts) => {
            if cn.mode != Mode::Script {
                return Err(ConfigError::ScriptsOnNonScriptNode { service: service_id.clone(), node: cn.id.clone() });
            }
            build_script_replicas(scripts)
        },
        None => replicas,
    };
    let rabbitmq = match &cn.rabbitmq_queue {
        Some(queue) => Some(ServiceStatesProbeNodeRabbitMQ {
            queue: queue.clone(),
            queue_nack_healthy_below: cn.rabbitmq_queue_nack_healthy_below,
            queue_nack_dead_above: cn.rabbitmq_queue_nack_dead_above,
        }),
        None => None,
    };
    Ok(ServiceStatesProbeNode {
        status: Status::Healthy,
        label: cn.label.clone(),
        mode: cn.mode,
        replicas,
        http_headers: copy_headers(&cn.http_headers),
        http_method: cn.http_method,
        http_body: copy_opt_string(&cn.http_body),
        http_body_healthy_match: copy_opt_string(&cn.http_body_healthy_match),
        reveal_replica_name: cn.reveal_replica_name,
        rabbitmq,
    })
}

fn build_probe(cs: &ConfigProbeService) -> (r: Result<ServiceStatesProbe, ConfigError>)
    requires
        node_ids_unique(cs.node@),
    ensures
        r is Ok <==> forall|j: int| 0 <= j < cs.node@.len() ==> node_config_valid(#[trigger] cs.node@[j]),
        r matches Ok(p) ==> probe_built(*cs, p) && p.wf(),
        r matches Err(e) ==> exists|j: int| 0 <= j < cs.node@.len() && node_error_fits(cs.id, #[trigger] cs.node@[j], e),
{
    let mut nodes = node_map_new();
    let mut j: usize = 0;
    while j < cs.node.len()
        invariant
            j <= cs.node@.len(),
            node_ids_unique(cs.node@),
            keys_unique(node_entries(nodes)),
            node_entries(nodes).len() == j,
            forall|k: int| 0 <= k < j ==> (#[trigger] node_entries(nodes)[k]).0 == cs.node@[k].id@
                && node_built(cs.node@[k], node_entries(nodes)[k].1) && node_entries(nodes)[k].1.wf(),
            forall|k: int| 0 <= k < j ==> node_config_valid(#[trigger] cs.node@[k]),
        decreases cs.node@.len() - j,
    {
        let node = match build_node(&cs.id, &cs.node[j]) {
            Ok(n) => n,
            Err(e) => {
                assert(node_error_fits(cs.id, cs.node@[j as int], e));
                return Err(e);
            },
        };
        let ghost e = node_entries(nodes);
        let key = cs.node[j].id.clone();
        proof {
            assert forall|k: int| 0 <= k < e.len() implies e[k].0 != key@ by {
                assert(e[k].0 == cs.node@[k].id@);
            }
            lemma_inserted_keys_unique(e, key@, node);
            assert(inserted(e, key@, node) == e.push((key@, node)));
        }
        node_map_insert(&mut nodes, key, node);
        proof {
            let e1 = node_entries(nodes);
            assert forall|k: int| 0 <= k < j + 1 implies (#[trigger] e1[k]).0 == cs.node@[k].id@
                && node_built(cs.node@[k], e1[k].1) && e1[k].1.wf() by {
                if k < j {
                    assert(e1[k] == e[k]);
                }
            }
        }
        j = j + 1;
    }
    Ok(ServiceStatesProbe { id: cs.id.clone(), label: cs.label.clone(), status: Status::Healthy, nodes })
}

/// Builds the store from the configured topology, once, at startup.
/// Duplicate identifiers are reported first; then the first node, in
/// configuration order, whose checks do not match its mode or whose replica
/// URL is no valid target.
pub fn initialize_store(conf: &ConfigProbe) -> (r: Result<Store, ConfigError>)
    ensures
        r is Ok <==> config_valid(*conf),
        r matches Ok(s) ==> s.wf() && store_built(*conf, s),
        !identifiers_unique(*conf) ==> (r matches Err(e) && (e is DuplicateService || e is DuplicateNode)),
        identifiers_unique(*conf) ==> (r matches Err(e) ==> exists|i: int, j: int|
            0 <= i < conf.service@.len() && 0 <= j < conf.service@[i].node@.len()
            && node_error_fits(conf.service@[i].id, #[trigger] conf.service@[i].node@[j], e)),
{
    match validate_identifiers(conf) {
        Err(e) => {
            return Err(e);
        },
        Ok(()) => {},
    }
    let svcs = &conf.service;
    let mut probes = probe_map_new();
    let mut i: usize = 0;
    while i < svcs.len()
        invariant
            i <= svcs@.len(),
            svcs@ == conf.service@,
            identifiers_unique(*conf),
            keys_unique(probe_entries(probes)),
            probe_entries(probes).len() == i,
            forall|k: int| 0 <= k < i ==> (#[trigger] probe_entries(probes)[k]).0 == svcs@[k].id@
                && probe_built(svcs@[k], probe_entries(probes)[k].1) && probe_entries(probes)[k].1.wf(),
            forall|a: int, b: int| 0 <= a < i && 0 <= b < svcs@[a].node@.len() ==> node_config_valid(#[trigger] svcs@[a].node@[b]),
        decreases svcs@.len() - i,
    {
        assert(node_ids_unique(svcs@[i as int].node@));
        let probe = match build_probe(&svcs[i]) {
            Ok(p) => p,
            Err(e) => {
                let ghost j = choose|j: int| 0 <= j < svcs@[i as int].node@.len() && node_error_fits(svcs@[i as int].id, #[trigger] svcs@[i as int].node@[j], e);
                assert(node_error_fits(conf.service@[i as int].id, conf.service@[i as int].node@[j], e));
                return Err(e);
            },
        };
        let ghost e = probe_entries(probes);
        let key = svcs[i].id.clone();
        proof {
            assert forall|k: int| 0 <= k < e.len() implies e[k].0 != key@ by {
                assert(e[k].0 == svcs@[k].id@);
            }
            lemma_inserted_keys_unique(e, key@, probe);
            assert(inserted(e, key@, probe) == e.push((key@, probe)));
        }
        probe_map_insert(&mut probes, key, probe);
        proof {
            let e1 = probe_entries(probes);
            assert forall|k: int| 0 <= k < i + 1 implies (#[trigger] e1[k]).0 == svcs@[k].id@
                && probe_built(svcs@[k], e1[k].1) && e1[k].1.wf() by {
                if k < i {
                    assert(e1[k] == e[k]);
                }
            }
        }
        i = i + 1;
    }
    Ok(Store {
        states: ServiceStates {
            status: Status::Healthy,
            date: None,
            probes,
            notifier: ServiceStatesNotifier { reminder_backoff_counter: 1, reminder_ignore_until: None },
        },
        notified: None,
    })
}

} // verus!
