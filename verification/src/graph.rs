//! The world graph: nodes by location, no location held twice, and its
//! assembly from the table of raw records.

use crate::identifier::{lemma_key_injective, Location};
use crate::mapping::NameMappings;
use crate::raw::{JsonMap, RawTable};
use crate::resolve::{into_world_map, world_map_of, ResolveError};
use crate::world::{BinaryMap, WorldMap, WorldMapView};
use dashmap::DashMap;
use std::collections::hash_map::RandomState;
use vstd::prelude::*;

verus! {

/// The concurrent hash map of `dashmap`.
#[verifier::external_type_specification]
#[verifier::external_body]
#[verifier::reject_recursive_types(K)]
#[verifier::reject_recursive_types(V)]
#[verifier::reject_recursive_types(S)]
pub struct ExDashMap<K, V, S>(DashMap<K, V, S>);

/// What a location is stored under: its packed namespace, or zero, and its
/// packed identifier.
pub type Key = (u128, u128);

/// The entries that a map of nodes holds.
pub uninterp spec fn graph_nodes(nodes: DashMap<Key, WorldMap, RandomState>) -> Map<Key, WorldMap>;

/// A map without an entry (`DashMap::new`).
#[verifier::external_body]
fn nodes_new() -> (fresh: DashMap<Key, WorldMap, RandomState>)
    ensures
        graph_nodes(fresh) == (Map::<Key, WorldMap>::empty()),
{
    DashMap::new()
}

/// Puts `node` under `key` (`DashMap::insert`). The entry takes the place of
/// any that the key had, and the value that it had is handed back.
#[verifier::external_body]
fn nodes_insert(
    nodes: &mut DashMap<Key, WorldMap, RandomState>,
    key: Key,
    node: WorldMap,
) -> (previous: Option<WorldMap>)
    ensures
        graph_nodes(*final(nodes)) == graph_nodes(*old(nodes)).insert(key, node),
        previous == if graph_nodes(*old(nodes)).contains_key(key) {
            Some(graph_nodes(*old(nodes))[key])
        } else {
            None::<WorldMap>
        },
{
    nodes.insert(key, node)
}

/// A copy of the node under `key`, if there is one (`DashMap::get`).
#[verifier::external_body]
fn nodes_get(nodes: &DashMap<Key, WorldMap, RandomState>, key: Key) -> (node:
    Option<WorldMap>)
    ensures
        node == if graph_nodes(*nodes).contains_key(key) {
            Some(graph_nodes(*nodes)[key])
        } else {
            None::<WorldMap>
        },
{
    match nodes.get(&key) {
        Some(entry) => Some(entry.value().clone()),
        None => None,
    }
}

/// Why the graph cannot be assembled. Each of these ends the whole run.
#[derive(Clone, Debug, PartialEq, Eq)]
pub enum AssemblyError {
    /// The record with this raw name cannot be resolved.
    Unresolved { record: String, cause: ResolveError },
    /// The node named `new` has the location of the node named `existing`,
    /// which the graph already holds.
    Duplicate { location: Location, new: String, existing: String },
}

/// An `AssemblyError` as a mathematical value.
pub enum AssemblyFailure {
    Unresolved { record: Seq<char>, cause: ResolveError },
    Duplicate { location: Location, new: Seq<char>, existing: Seq<char> },
}

impl View for AssemblyError {
    type V = AssemblyFailure;

    open spec fn view(&self) -> AssemblyFailure {
        match self {
            AssemblyError::Unresolved { record, cause } => AssemblyFailure::Unresolved {
                record: record@,
                cause: *cause,
            },
            AssemblyError::Duplicate { location, new, existing } => AssemblyFailure::Duplicate {
                location: *location,
                new: new@,
                existing: existing@,
            },
        }
    }
}

/// The graph of resolved nodes.
pub struct WorldGraph {
    nodes: DashMap<Key, WorldMap, RandomState>,
    count: usize,
}

/// Stored nodes by location: a well-formed location has the node that is
/// stored under its key.
pub open spec fn located_nodes(nodes: Map<Key, WorldMap>) -> Map<Location, WorldMapView> {
    Map::new(
        |l: Location| l.wf() && nodes.contains_key(l.spec_key()),
        |l: Location| nodes[l.spec_key()]@,
    )
}

impl View for WorldGraph {
    type V = Map<Location, WorldMapView>;

    closed spec fn view(&self) -> Map<Location, WorldMapView> {
        located_nodes(graph_nodes(self.nodes))
    }
}

impl WorldGraph {
    /// Every node is stored under the key of its own location, and the count
    /// is the number of nodes.
    pub closed spec fn wf(&self) -> bool {
        &&& forall|k: Key| #[trigger]
            graph_nodes(self.nodes).contains_key(k) ==> {
                &&& graph_nodes(self.nodes)[k].id.wf()
                &&& graph_nodes(self.nodes)[k].id.spec_key() == k
            }
        &&& self@.dom().finite()
        &&& self@.len() == self.count
    }

    /// A graph without a node.
    pub fn new() -> (r: WorldGraph)
        ensures
            r.wf(),
            r@ == Map::<Location, WorldMapView>::empty(),
    {
        let r = WorldGraph { nodes: nodes_new(), count: 0 };
        assert(r@ =~= Map::<Location, WorldMapView>::empty());
        r
    }

    /// The number of nodes.
    pub fn len(&self) -> (r: usize)
        requires
            self.wf(),
        ensures
            r == self@.len(),
    {
        self.count
    }

    /// A copy of the node at `location`. A node lies at its own location.
    pub fn get(&self, location: &Location) -> (r: Option<WorldMap>)
        requires
            self.wf(),
        ensures
            match r {
                Some(node) => {
                    &&& self@.contains_key(*location)
                    &&& self@[*location] == node@
                    &&& node.id == *location
                },
                None => !self@.contains_key(*location),
            },
    {
        let key = location.key();
        let r = nodes_get(&self.nodes, key);
        proof {
            if r is Some {
                lemma_key_injective(r->0.id, *location);
            }
        }
        r
    }

    /// Whether the graph holds a node at `location`.
    pub fn contains(&self, location: &Location) -> (r: bool)
        requires
            self.wf(),
        ensures
            r == self@.contains_key(*location),
    {
        self.get(location).is_some()
    }

    /// Hands out the map that the nodes are stored in.
    pub fn into_inner(self) -> (r: DashMap<Key, WorldMap, RandomState>)
        ensures
            located_nodes(graph_nodes(r)) == self@,
    {
        self.nodes
    }

    /// Puts `node` at its location, if the graph holds no node there. Where
    /// it does, the graph stays as it was and the two nodes are reported as
    /// duplicates.
    pub fn insert(&mut self, node: WorldMap) -> (r: Result<(), AssemblyError>)
        requires
            old(self).wf(),
            old(self)@.len() < usize::MAX,
        ensures
            final(self).wf(),
            match r {
                Ok(()) => {
                    &&& !old(self)@.contains_key(node.id)
                    &&& final(self)@ == old(self)@.insert(node.id, node@)
                },
                Err(e) => {
                    &&& old(self)@.contains_key(node.id)
                    &&& final(self)@ == old(self)@
                    &&& e@ == (AssemblyFailure::Duplicate {
                        location: node.id,
                        new: node.name@,
                        existing: old(self)@[node.id].name,
                    })
                },
            },
    {
        let location = node.id;
        let key = location.key();
        let new = node.name.clone();
        let ghost added = node@;
        let previous = nodes_insert(&mut self.nodes, key, node);
        proof {
            assert forall|l: Location| l.wf() && l.spec_key() == key implies l == location by {
                lemma_key_injective(l, location);
            }
            assert(self@ =~= old(self)@.insert(location, added));
        }
        match previous {
            Some(held) => {
                let existing = held.name.clone();
                let ghost held_view = held@;
                nodes_insert(&mut self.nodes, key, held);
                proof {
                    assert(self@ =~= old(self)@.insert(location, held_view));
                    assert(old(self)@.insert(location, held_view) =~= old(self)@);
                }
                Err(AssemblyError::Duplicate { location, new, existing })
            },
            None => {
                self.count = self.count + 1;
                Ok(())
            },
        }
    }
}

/// What the decoder made of the blobs of the record at position `at`: a
/// record that the list does not reach counts as not decoded.
pub open spec fn decoded_at(decoded: Seq<Option<BinaryMap>>, at: int) -> Option<BinaryMap> {
    if 0 <= at < decoded.len() {
        decoded[at]
    } else {
        None
    }
}

/// The node of the record at position `at`.
pub open spec fn node_at(
    mappings: &NameMappings,
    table: Seq<JsonMap>,
    decoded: Seq<Option<BinaryMap>>,
    at: int,
) -> Result<Option<WorldMapView>, ResolveError> {
    world_map_of(mappings, table, table[at], decoded_at(decoded, at))
}

/// The graph that grows out of `graph` when the records from position `from`
/// on are resolved in their order and their nodes put in. A record without
/// decoded tiles adds nothing. The first record that cannot be resolved, or
/// whose node has a location that the graph already holds, decides the
/// failure.
pub open spec fn assembled_from(
    mappings: &NameMappings,
    table: Seq<JsonMap>,
    decoded: Seq<Option<BinaryMap>>,
    from: nat,
    graph: Map<Location, WorldMapView>,
) -> Result<Map<Location, WorldMapView>, AssemblyFailure>
    decreases table.len() - from,
{
    if from >= table.len() {
        Ok(graph)
    } else {
        match node_at(mappings, table, decoded, from as int) {
            Err(cause) => Err(
                AssemblyFailure::Unresolved { record: table[from as int].data.name@, cause },
            ),
            Ok(None) => assembled_from(mappings, table, decoded, from + 1, graph),
            Ok(Some(node)) => if graph.contains_key(node.id) {
                Err(
                    AssemblyFailure::Duplicate {
                        location: node.id,
                        new: node.name,
                        existing: graph[node.id].name,
                    },
                )
            } else {
                assembled_from(mappings, table, decoded, from + 1, graph.insert(node.id, node))
            },
        }
    }
}

/// The graph of a whole table.
pub open spec fn assembled(
    mappings: &NameMappings,
    table: Seq<JsonMap>,
    decoded: Seq<Option<BinaryMap>>,
) -> Result<Map<Location, WorldMapView>, AssemblyFailure> {
    assembled_from(mappings, table, decoded, 0, Map::empty())
}

/// The items of `items` in reverse order.
fn reversed<T>(items: Vec<T>) -> (r: Vec<T>)
    ensures
        r@ == items@.reverse(),
{
    let mut rest = items;
    let mut r: Vec<T> = Vec::new();
    while rest.len() > 0
        invariant
            rest@.len() + r@.len() == items@.len(),
            forall|k: int| 0 <= k < rest@.len() ==> rest@[k] == items@[k],
            forall|k: int| 0 <= k < r@.len() ==> r@[k] == items@[items@.len() - 1 - k],
        decreases rest@.len(),
    {
        match rest.pop() {
            Some(item) => {
                r.push(item);
            },
            None => {},
        }
    }
    assert(r@ =~= items@.reverse());
    r
}

/// Assembles the graph of a table: every record is resolved against the
/// whole table and its node put into the graph, in the order of the table.
/// `decoded` holds, position by position, what the tile decoder made of each
/// record's blobs.
pub fn assemble(mappings: &NameMappings, maps: &RawTable, decoded: Vec<Option<BinaryMap>>) -> (r:
    Result<WorldGraph, AssemblyError>)
    requires
        maps.wf(),
    ensures
        match r {
            Ok(graph) => graph.wf() && assembled(mappings, maps@, decoded@) == Ok::<
                Map<Location, WorldMapView>,
                AssemblyFailure,
            >(graph@),
            Err(e) => assembled(mappings, maps@, decoded@) == Err::<
                Map<Location, WorldMapView>,
                AssemblyFailure,
            >(e@),
        },
{
    let ghost all = decoded@;
    let mut pending = reversed(decoded);
    let mut graph = WorldGraph::new();
    let n = maps.len();
    let mut i: usize = 0;
    loop
        invariant
            n == maps@.len(),
            i <= n,
            all == decoded@,
            maps.wf(),
            graph.wf(),
            graph@.len() <= i,
            pending@.len() == if all.len() >= i {
                all.len() - i
            } else {
                0
            },
            forall|k: int| 0 <= k < pending@.len() ==> pending@[k] == all[all.len() - 1 - k],
            assembled(mappings, maps@, all) == assembled_from(
                mappings,
                maps@,
                all,
                i as nat,
                graph@,
            ),
        ensures
            i == n,
        decreases n - i,
    {
        let record = match maps.record(i) {
            Some(record) => record,
            None => {
                break;
            },
        };
        let binary = match pending.pop() {
            Some(binary) => binary,
            None => None,
        };
        assert(binary == decoded_at(all, i as int));
        match into_world_map(mappings, maps, record, binary) {
            Err(cause) => {
                return Err(AssemblyError::Unresolved { record: record.data.name.clone(), cause });
            },
            Ok(None) => {},
            Ok(Some(node)) => {
                match graph.insert(node) {
                    Ok(()) => {},
                    Err(e) => {
                        return Err(e);
                    },
                }
            },
        }
        i = i + 1;
    }
    Ok(graph)
}

} // verus!
