use vstd::prelude::*;

use indexmap::IndexMap;

use crate::states::{ServiceStatesProbe, ServiceStatesProbeNode, ServiceStatesProbeNodeReplica};

verus! {

#[verifier::external_type_specification]
#[verifier::external_body]
#[verifier::reject_recursive_types(K)]
#[verifier::reject_recursive_types(V)]
#[verifier::reject_recursive_types(S)]
pub struct ExIndexMap<K, V, S>(IndexMap<K, V, S>);

/// The entries of a probe map, keyed by probe identifier, in insertion order.
pub uninterp spec fn probe_entries(m: IndexMap<String, ServiceStatesProbe>) -> Seq<(Seq<char>, ServiceStatesProbe)>;

/// The entries of a node map, keyed by node identifier, in insertion order.
pub uninterp spec fn node_entries(m: IndexMap<String, ServiceStatesProbeNode>) -> Seq<(Seq<char>, ServiceStatesProbeNode)>;

/// The entries of a replica map, keyed by replica identifier, in insertion order.
pub uninterp spec fn replica_entries(m: IndexMap<String, ServiceStatesProbeNodeReplica>) -> Seq<(Seq<char>, ServiceStatesProbeNodeReplica)>;

/// No two entries share a key.
pub open spec fn keys_unique<V>(s: Seq<(Seq<char>, V)>) -> bool {
    forall|i: int, j: int| 0 <= i < s.len() && 0 <= j < s.len() && i != j ==> s[i].0 != s[j].0
}

/// No entry has key `k`.
pub open spec fn key_absent<V>(s: Seq<(Seq<char>, V)>, k: Seq<char>) -> bool {
    forall|i: int| 0 <= i < s.len() ==> s[i].0 != k
}

/// The entries after inserting `(k, v)`: the value of an existing key is
/// replaced in place, a new key goes last.
pub open spec fn inserted<V>(s: Seq<(Seq<char>, V)>, k: Seq<char>, v: V) -> Seq<(Seq<char>, V)> {
    if key_absent(s, k) {
        s.push((k, v))
    } else {
        let i = choose|i: int| 0 <= i < s.len() && s[i].0 == k;
        s.update(i, (k, v))
    }
}

/// Where key `k` stands among entries with unique keys.
pub open spec fn found_at<V>(s: Seq<(Seq<char>, V)>, k: Seq<char>, r: Option<usize>) -> bool {
    match r {
        Some(i) => i < s.len() && s[i as int].0 == k,
        None => key_absent(s, k),
    }
}

pub proof fn lemma_inserted_keys_unique<V>(s: Seq<(Seq<char>, V)>, k: Seq<char>, v: V)
    requires
        keys_unique(s),
    ensures
        keys_unique(inserted(s, k, v)),
        inserted(s, k, v).len() == s.len() + (if key_absent(s, k) { 1int } else { 0int }),
        forall|i: int| 0 <= i < s.len() ==> #[trigger] inserted(s, k, v)[i].0 == s[i].0,
{
    if !key_absent(s, k) {
        let i = choose|i: int| 0 <= i < s.len() && s[i].0 == k;
        assert(inserted(s, k, v) == s.update(i, (k, v)));
    }
}

// ---- probes ----

/// Relies on IndexMap::new: a new map has no entries.
#[verifier::external_body]
pub(crate) fn probe_map_new() -> (m: IndexMap<String, ServiceStatesProbe>)
    ensures
        probe_entries(m) == Seq::<(Seq<char>, ServiceStatesProbe)>::empty(),
{
    IndexMap::new()
}

/// Relies on IndexMap::len: the number of entries.
#[verifier::external_body]
pub(crate) fn probe_map_len(m: &IndexMap<String, ServiceStatesProbe>) -> (r: usize)
    ensures
        r == probe_entries(*m).len(),
{
    m.len()
}

/// Relies on IndexMap::get_index: the entry at a position, if there is one.
#[verifier::external_body]
pub(crate) fn probe_map_get_index(m: &IndexMap<String, ServiceStatesProbe>, i: usize) -> (r: Option<(&String, &ServiceStatesProbe)>)
    ensures
        i < probe_entries(*m).len() <==> r is Some,
        r matches Some(e) ==> e.0@ == probe_entries(*m)[i as int].0 && *e.1 == probe_entries(*m)[i as int].1,
{
    m.get_index(i)
}

/// Relies on IndexMap's `IndexMut<usize>`: the value at a position, in place;
/// it panics out of bounds.
#[verifier::external_body]
pub(crate) fn probe_map_value_mut(m: &mut IndexMap<String, ServiceStatesProbe>, i: usize) -> (r: &mut ServiceStatesProbe)
    requires
        i < probe_entries(*old(m)).len(),
    ensures
        *r == probe_entries(*old(m))[i as int].1,
        probe_entries(*final(m)) == probe_entries(*old(m)).update(i as int, (probe_entries(*old(m))[i as int].0, *final(r))),
{
    &mut m[i]
}

/// Relies on IndexMap::get_index_of: the position of a key, if present.
#[verifier::external_body]
pub(crate) fn probe_map_index_of(m: &IndexMap<String, ServiceStatesProbe>, k: &str) -> (r: Option<usize>)
    requires
        keys_unique(probe_entries(*m)),
    ensures
        found_at(probe_entries(*m), k@, r),
{
    m.get_index_of(k)
}

/// Relies on IndexMap::insert: an existing key keeps its place and takes the
/// new value, a new key goes last.
#[verifier::external_body]
pub(crate) fn probe_map_insert(m: &mut IndexMap<String, ServiceStatesProbe>, k: String, v: ServiceStatesProbe)
    requires
        keys_unique(probe_entries(*old(m))),
    ensures
        probe_entries(*final(m)) == inserted(probe_entries(*old(m)), k@, v),
{
    m.insert(k, v);
}

// ---- nodes ----

/// Relies on IndexMap::new: a new map has no entries.
#[verifier::external_body]
pub(crate) fn node_map_new() -> (m: IndexMap<String, ServiceStatesProbeNode>)
    ensures
        node_entries(m) == Seq::<(Seq<char>, ServiceStatesProbeNode)>::empty(),
{
    IndexMap::new()
}

/// Relies on IndexMap::len: the number of entries.
#[verifier::external_body]
pub(crate) fn node_map_len(m: &IndexMap<String, ServiceStatesProbeNode>) -> (r: usize)
    ensures
        r == node_entries(*m).len(),
{
    m.len()
}

/// Relies on IndexMap::get_index: the entry at a position, if there is one.
#[verifier::external_body]
pub(crate) fn node_map_get_index(m: &IndexMap<String, ServiceStatesProbeNode>, i: usize) -> (r: Option<(&String, &ServiceStatesProbeNode)>)
    ensures
        i < node_entries(*m).len() <==> r is Some,
        r matches Some(e) ==> e.0@ == node_entries(*m)[i as int].0 && *e.1 == node_entries(*m)[i as int].1,
{
    m.get_index(i)
}

/// Relies on IndexMap's `IndexMut<usize>`: the value at a position, in place;
/// it panics out of bounds.
#[verifier::external_body]
pub(crate) fn node_map_value_mut(m: &mut IndexMap<String, ServiceStatesProbeNode>, i: usize) -> (r: &mut ServiceStatesProbeNode)
    requires
        i < node_entries(*old(m)).len(),
    ensures
        *r == node_entries(*old(m))[i as int].1,
        node_entries(*final(m)) == node_entries(*old(m)).update(i as int, (node_entries(*old(m))[i as int].0, *final(r))),
{
    &mut m[i]
}

/// Relies on IndexMap::get_index_of: the position of a key, if present.
#[verifier::external_body]
pub(crate) fn node_map_index_of(m: &IndexMap<String, ServiceStatesProbeNode>, k: &str) -> (r: Option<usize>)
    requires
        keys_unique(node_entries(*m)),
    ensures
        found_at(node_entries(*m), k@, r),
{
    m.get_index_of(k)
}

/// Relies on IndexMap::insert: an existing key keeps its place and takes the
/// new value, a new key goes last.
#[verifier::external_body]
pub(crate) fn node_map_insert(m: &mut IndexMap<String, ServiceStatesProbeNode>, k: String, v: ServiceStatesProbeNode)
    requires
        keys_unique(node_entries(*old(m))),
    ensures
        node_entries(*final(m)) == inserted(node_entries(*old(m)), k@, v),
{
    m.insert(k, v);
}

// ---- replicas ----

/// Relies on IndexMap::new: a new map has no entries.
#[verifier::external_body]
pub(crate) fn replica_map_new() -> (m: IndexMap<String, ServiceStatesProbeNodeReplica>)
    ensures
        replica_entries(m) == Seq::<(Seq<char>, ServiceStatesProbeNodeReplica)>::empty(),
{
    IndexMap::new()
}

/// Relies on IndexMap::len: the number of entries.
#[verifier::external_body]
pub(crate) fn replica_map_len(m: &IndexMap<String, ServiceStatesProbeNodeReplica>) -> (r: usize)
    ensures
        r == replica_entries(*m).len(),
{
    m.len()
}

/// Relies on IndexMap::get_index: the entry at a position, if there is one.
#[verifier::external_body]
pub(crate) fn replica_map_get_index(m: &IndexMap<String, ServiceStatesProbeNodeReplica>, i: usize) -> (r: Option<(&String, &ServiceStatesProbeNodeReplica)>)
    ensures
        i < replica_entries(*m).len() <==> r is Some,
        r matches Some(e) ==> e.0@ == replica_entries(*m)[i as int].0 && *e.1 == replica_entries(*m)[i as int].1,
{
    m.get_index(i)
}

/// Relies on IndexMap's `IndexMut<usize>`: the value at a position, in place;
/// it panics out of bounds.
#[verifier::external_body]
pub(crate) fn replica_map_value_mut(m: &mut IndexMap<String, ServiceStatesProbeNodeReplica>, i: usize) -> (r: &mut ServiceStatesProbeNodeReplica)
    requires
        i < replica_entries(*old(m)).len(),
    ensures
        *r == replica_entries(*old(m))[i as int].1,
        replica_entries(*final(m)) == replica_entries(*old(m)).update(i as int, (replica_entries(*old(m))[i as int].0, *final(r))),
{
    &mut m[i]
}

/// Relies on IndexMap::get_index_of: the position of a key, if present.
#[verifier::external_body]
pub(crate) fn replica_map_index_of(m: &IndexMap<String, ServiceStatesProbeNodeReplica>, k: &str) -> (r: Option<usize>)
    requires
        keys_unique(replica_entries(*m)),
    ensures
        found_at(replica_entries(*m), k@, r),
{
    m.get_index_of(k)
}

/// Relies on IndexMap::insert: an existing key keeps its place and takes the
/// new value, a new key goes last.
#[verifier::external_body]
pub(crate) fn replica_map_insert(m: &mut IndexMap<String, ServiceStatesProbeNodeReplica>, k: String, v: ServiceStatesProbeNodeReplica)
    requires
        keys_unique(replica_entries(*old(m))),
    ensures
        replica_entries(*final(m)) == inserted(replica_entries(*old(m)), k@, v),
{
    m.insert(k, v);
}

} // verus!
