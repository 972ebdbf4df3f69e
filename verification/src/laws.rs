//! What holds of the library as a whole, stated over the specifications that
//! its functions are verified against.

use crate::graph::{assembled, assembled_from, decoded_at, node_at, AssemblyFailure};
use crate::identifier::{
    default_namespace, is_tiny_text, lemma_default_namespace, lemma_identifier_of, shortened,
    stripped, truncated, Location,
};
use crate::mapping::NameMappings;
use crate::raw::{position_of, JsonMap, JsonWarpEvent};
use crate::resolve::{warp_name, warp_of, warps_from, world_map_of, ResolveError};
use crate::text::{decimal, digit};
use crate::world::{BinaryMap, Warp, WorldMapView};
use vstd::prelude::*;

verus! {

/// A raw name whose remainder is shorter than sixteen characters derives to
/// the remainder itself, in the default namespace. The remainder must fit an
/// identifier: it is not empty, and all of it is ASCII without NUL.
pub proof fn law_short_remainder_kept(mappings: &NameMappings, raw: Seq<char>)
    requires
        raw.len() >= 4,
        stripped(raw).len() < 16,
        is_tiny_text(stripped(raw)),
        !mappings.map.id@.contains_key(raw),
    ensures
        truncated(raw) matches Some(index) && index@ == stripped(raw),
        mappings.derived(raw) matches Some(location) && location.index@ == stripped(raw),
        mappings.derived(raw)->0.map matches Some(space) && space@ == default_namespace(),
{
    lemma_identifier_of(stripped(raw));
    lemma_default_namespace();
    lemma_identifier_of(default_namespace());
}

/// A raw name whose remainder has sixteen characters or more derives to
/// exactly sixteen: the first twelve and the last four of the remainder.
/// These sixteen must be ASCII without NUL.
pub proof fn law_long_remainder_shortened(mappings: &NameMappings, raw: Seq<char>)
    requires
        raw.len() >= 4,
        stripped(raw).len() >= 16,
        is_tiny_text(shortened(stripped(raw))),
        !mappings.map.id@.contains_key(raw),
    ensures
        truncated(raw) matches Some(index) && index@.len() == 16 && index@ == stripped(raw).take(
            12,
        ) + stripped(raw).skip(stripped(raw).len() - 4),
        mappings.derived(raw) matches Some(location) && location.index == truncated(raw)->0,
{
    lemma_identifier_of(shortened(stripped(raw)));
    lemma_default_namespace();
}

/// An override of the dictionary wins over derivation, whatever the raw
/// name looks like.
pub proof fn law_override_wins(mappings: &NameMappings, raw: Seq<char>)
    requires
        mappings.map.id@.contains_key(raw),
    ensures
        mappings.derived(raw) == Some(mappings.map.id@[raw]),
{
}

/// The location of the node of the record at position `at`, if the record
/// has a node.
pub open spec fn node_location(
    mappings: &NameMappings,
    table: Seq<JsonMap>,
    decoded: Seq<Option<BinaryMap>>,
    at: int,
) -> Option<Location> {
    match node_at(mappings, table, decoded, at) {
        Ok(Some(node)) => Some(node.id),
        _ => None,
    }
}

/// Every record from position `from` on can be resolved.
pub open spec fn resolvable_from(
    mappings: &NameMappings,
    table: Seq<JsonMap>,
    decoded: Seq<Option<BinaryMap>>,
    from: nat,
) -> bool {
    forall|i: int| from <= i < table.len() ==> #[trigger] node_at(mappings, table, decoded, i) is Ok
}

/// No two nodes of records from position `from` on share a location.
pub open spec fn distinct_locations_from(
    mappings: &NameMappings,
    table: Seq<JsonMap>,
    decoded: Seq<Option<BinaryMap>>,
    from: nat,
) -> bool {
    forall|i: int, j: int|
        from <= i < j < table.len() && node_location(mappings, table, decoded, i) is Some
            ==> #[trigger] node_location(mappings, table, decoded, i) != #[trigger] node_location(
            mappings,
            table,
            decoded,
            j,
        )
}

/// The number of records from position `from` on that have a node.
pub open spec fn produced_from(
    mappings: &NameMappings,
    table: Seq<JsonMap>,
    decoded: Seq<Option<BinaryMap>>,
    from: nat,
) -> nat
    decreases table.len() - from,
{
    if from >= table.len() {
        0
    } else {
        let here: nat = if node_location(mappings, table, decoded, from as int) is Some {
            1
        } else {
            0
        };
        here + produced_from(mappings, table, decoded, from + 1)
    }
}

/// The record at position `at`, which is `from` or later, has the node
/// `node`, and `node` lies at `location`.
pub open spec fn made_at(
    mappings: &NameMappings,
    table: Seq<JsonMap>,
    decoded: Seq<Option<BinaryMap>>,
    from: nat,
    at: int,
    location: Location,
    node: WorldMapView,
) -> bool {
    &&& from <= at < table.len()
    &&& node_at(mappings, table, decoded, at) == Ok::<Option<WorldMapView>, ResolveError>(Some(node))
    &&& node.id == location
}

/// Some record at position `from` or later has the node `node`, which lies
/// at `location`.
pub open spec fn has_source(
    mappings: &NameMappings,
    table: Seq<JsonMap>,
    decoded: Seq<Option<BinaryMap>>,
    from: nat,
    location: Location,
    node: WorldMapView,
) -> bool {
    exists|i: int| made_at(mappings, table, decoded, from, i, location, node)
}

/// `grown` is `graph` with exactly the nodes of the records from position
/// `from` on added, each at its own location.
pub open spec fn grown_by(
    mappings: &NameMappings,
    table: Seq<JsonMap>,
    decoded: Seq<Option<BinaryMap>>,
    from: nat,
    graph: Map<Location, WorldMapView>,
    grown: Map<Location, WorldMapView>,
) -> bool {
    &&& grown.dom().finite()
    &&& grown.len() == graph.len() + produced_from(mappings, table, decoded, from)
    &&& forall|l: Location| #[trigger]
        graph.contains_key(l) ==> grown.contains_key(l) && grown[l] == graph[l]
    &&& forall|i: int|
        from <= i < table.len() ==> (#[trigger] node_at(mappings, table, decoded, i) matches Ok(
            Some(node),
        ) ==> grown.contains_key(node.id) && grown[node.id] == node)
    &&& forall|l: Location| #[trigger]
        grown.contains_key(l) && !graph.contains_key(l) ==> has_source(
            mappings,
            table,
            decoded,
            from,
            l,
            grown[l],
        )
}

/// Assembly from position `from` on into a graph that holds none of the
/// locations still to come: it succeeds, keeps what the graph held, and adds
/// exactly the nodes of the records that have one.
pub proof fn lemma_assembled_from(
    mappings: &NameMappings,
    table: Seq<JsonMap>,
    decoded: Seq<Option<BinaryMap>>,
    from: nat,
    graph: Map<Location, WorldMapView>,
)
    requires
        graph.dom().finite(),
        resolvable_from(mappings, table, decoded, from),
        distinct_locations_from(mappings, table, decoded, from),
        forall|i: int|
            from <= i < table.len() ==> (#[trigger] node_location(mappings, table, decoded, i)
                matches Some(l) ==> !graph.contains_key(l)),
    ensures
        assembled_from(mappings, table, decoded, from, graph) is Ok,
        grown_by(
            mappings,
            table,
            decoded,
            from,
            graph,
            assembled_from(mappings, table, decoded, from, graph)->Ok_0,
        ),
    decreases table.len() - from,
{
    if from >= table.len() {
        assert(assembled_from(mappings, table, decoded, from, graph) == Ok::<_, AssemblyFailure>(
            graph,
        ));
        assert(grown_by(mappings, table, decoded, from, graph, graph));
    } else {
        let here = node_at(mappings, table, decoded, from as int);
        assert(here is Ok);
        let next = match here {
            Ok(Some(node)) => graph.insert(node.id, node),
            _ => graph,
        };
        let added: nat = if node_location(mappings, table, decoded, from as int) is Some {
            1
        } else {
            0
        };
        assert(node_location(mappings, table, decoded, from as int) matches Some(l)
            ==> !graph.contains_key(l));
        assert forall|i: int| from + 1 <= i < table.len() implies (#[trigger] node_location(
            mappings,
            table,
            decoded,
            i,
        ) matches Some(l) ==> !next.contains_key(l)) by {
            let there = node_location(mappings, table, decoded, i);
            if there is Some {
                assert(!graph.contains_key(there->0));
                if node_location(mappings, table, decoded, from as int) is Some {
                    assert(node_location(mappings, table, decoded, from as int)
                        != node_location(mappings, table, decoded, i));
                }
            }
        }
        let after: nat = from + 1;
        lemma_assembled_from(mappings, table, decoded, after, next);
        let grown = assembled_from(mappings, table, decoded, after, next)->Ok_0;
        assert(assembled_from(mappings, table, decoded, from, graph) == Ok::<_, AssemblyFailure>(
            grown,
        ));
        assert(grown_by(mappings, table, decoded, after, next, grown));
        assert(next.dom().finite());
        assert(next.len() == graph.len() + added);
        assert(produced_from(mappings, table, decoded, from) == added + produced_from(
            mappings,
            table,
            decoded,
            after,
        ));
        assert forall|l: Location| #[trigger]
            grown.contains_key(l) && !graph.contains_key(l) implies has_source(
            mappings,
            table,
            decoded,
            from,
            l,
            grown[l],
        ) by {
            if next.contains_key(l) {
                assert(made_at(mappings, table, decoded, from, from as int, l, grown[l]));
            } else {
                assert(has_source(mappings, table, decoded, after, l, grown[l]));
                let i = choose|i: int| made_at(mappings, table, decoded, after, i, l, grown[l]);
                assert(made_at(mappings, table, decoded, from, i, l, grown[l]));
            }
        }
        assert forall|i: int| from <= i < table.len() implies (#[trigger] node_at(
            mappings,
            table,
            decoded,
            i,
        ) matches Ok(Some(node)) ==> grown.contains_key(node.id) && grown[node.id] == node) by {
            if i == from {
                if let Ok(Some(node)) = here {
                    assert(next.contains_key(node.id));
                }
            }
        }
        assert forall|l: Location| #[trigger] graph.contains_key(l) implies grown.contains_key(l)
            && grown[l] == graph[l] by {
            assert(next.contains_key(l));
        }
        assert(grown_by(mappings, table, decoded, from, graph, grown));
    }
}

/// Where every record can be resolved and no two nodes share a location,
/// assembly succeeds, and the graph holds exactly one node for each record
/// that was decoded: each such node lies at its own location, and the graph
/// holds nothing else.
pub proof fn law_distinct_locations_assemble(
    mappings: &NameMappings,
    table: Seq<JsonMap>,
    decoded: Seq<Option<BinaryMap>>,
)
    requires
        resolvable_from(mappings, table, decoded, 0),
        distinct_locations_from(mappings, table, decoded, 0),
    ensures
        assembled(mappings, table, decoded) is Ok,
        grown_by(
            mappings,
            table,
            decoded,
            0,
            Map::empty(),
            assembled(mappings, table, decoded)->Ok_0,
        ),
        forall|i: int|
            0 <= i < table.len() ==> (#[trigger] node_location(mappings, table, decoded, i)
                is Some <==> decoded_at(decoded, i) is Some),
{
    lemma_assembled_from(mappings, table, decoded, 0, Map::empty());
    assert forall|i: int| 0 <= i < table.len() implies (#[trigger] node_location(
        mappings,
        table,
        decoded,
        i,
    ) is Some <==> decoded_at(decoded, i) is Some) by {
        assert(node_at(mappings, table, decoded, i) is Ok);
    }
}

/// Assembly depends on nothing but the dictionaries, the table and the
/// decoded blobs: two graphs assembled from the same of these hold the same
/// locations and the same nodes.
pub proof fn law_assembly_repeatable(
    mappings: &NameMappings,
    table: Seq<JsonMap>,
    decoded: Seq<Option<BinaryMap>>,
    first: Map<Location, WorldMapView>,
    second: Map<Location, WorldMapView>,
)
    requires
        assembled(mappings, table, decoded) == Ok::<_, AssemblyFailure>(first),
        assembled(mappings, table, decoded) == Ok::<_, AssemblyFailure>(second),
    ensures
        first.dom() == second.dom(),
        first == second,
{
}

/// Once the graph holds a location that a record still to come resolves to,
/// assembly fails.
proof fn lemma_held_location_fails(
    mappings: &NameMappings,
    table: Seq<JsonMap>,
    decoded: Seq<Option<BinaryMap>>,
    from: nat,
    graph: Map<Location, WorldMapView>,
    later: int,
)
    requires
        from <= later < table.len(),
        node_location(mappings, table, decoded, later) matches Some(l) && graph.contains_key(l),
    ensures
        assembled_from(mappings, table, decoded, from, graph) is Err,
    decreases table.len() - from,
{
    if from < later {
        match node_at(mappings, table, decoded, from as int) {
            Ok(None) => {
                lemma_held_location_fails(mappings, table, decoded, from + 1, graph, later);
            },
            Ok(Some(node)) => {
                if !graph.contains_key(node.id) {
                    lemma_held_location_fails(
                        mappings,
                        table,
                        decoded,
                        from + 1,
                        graph.insert(node.id, node),
                        later,
                    );
                }
            },
            Err(_) => {},
        }
    }
}

/// Two records still to come that resolve to one location make assembly
/// fail.
proof fn lemma_shared_location_fails(
    mappings: &NameMappings,
    table: Seq<JsonMap>,
    decoded: Seq<Option<BinaryMap>>,
    from: nat,
    graph: Map<Location, WorldMapView>,
    earlier: int,
    later: int,
)
    requires
        from <= earlier < later < table.len(),
        node_location(mappings, table, decoded, earlier) is Some,
        node_location(mappings, table, decoded, earlier) == node_location(
            mappings,
            table,
            decoded,
            later,
        ),
    ensures
        assembled_from(mappings, table, decoded, from, graph) is Err,
    decreases table.len() - from,
{
    match node_at(mappings, table, decoded, from as int) {
        Ok(None) => {
            lemma_shared_location_fails(
                mappings,
                table,
                decoded,
                from + 1,
                graph,
                earlier,
                later,
            );
        },
        Ok(Some(node)) => {
            if !graph.contains_key(node.id) {
                let next = graph.insert(node.id, node);
                if from == earlier {
                    lemma_held_location_fails(mappings, table, decoded, from + 1, next, later);
                } else {
                    lemma_shared_location_fails(
                        mappings,
                        table,
                        decoded,
                        from + 1,
                        next,
                        earlier,
                        later,
                    );
                }
            }
        },
        Err(_) => {},
    }
}

/// Two records whose nodes have the same location make assembly fail: no
/// graph comes out.
pub proof fn law_shared_location_aborts(
    mappings: &NameMappings,
    table: Seq<JsonMap>,
    decoded: Seq<Option<BinaryMap>>,
    earlier: int,
    later: int,
)
    requires
        0 <= earlier < later < table.len(),
        node_location(mappings, table, decoded, earlier) is Some,
        node_location(mappings, table, decoded, earlier) == node_location(
            mappings,
            table,
            decoded,
            later,
        ),
    ensures
        assembled(mappings, table, decoded) is Err,
{
    lemma_shared_location_fails(mappings, table, decoded, 0, Map::empty(), earlier, later);
}

/// Different digits have different characters.
proof fn lemma_digit_injective(a: nat, b: nat)
    requires
        a < 10,
        b < 10,
        digit(a) == digit(b),
    ensures
        a == b,
{
    assert(digit(a) as u32 == 48 + a);
    assert(digit(b) as u32 == 48 + b);
}

/// Different numbers have different decimals.
pub proof fn lemma_decimal_injective(a: nat, b: nat)
    requires
        decimal(a) == decimal(b),
    ensures
        a == b,
    decreases a,
{
    lemma_decimal_length(a);
    lemma_decimal_length(b);
    if a < 10 {
        assert(decimal(a)[0] == digit(a));
        assert(decimal(b)[0] == digit(b));
        lemma_digit_injective(a, b);
    } else {
        let x = decimal(a / 10);
        let y = decimal(b / 10);
        assert(decimal(a).drop_last() =~= x);
        assert(decimal(b).drop_last() =~= y);
        assert(decimal(a).last() == digit(a % 10));
        assert(decimal(b).last() == digit(b % 10));
        lemma_decimal_injective(a / 10, b / 10);
        lemma_digit_injective(a % 10, b % 10);
    }
}

/// A decimal has one character exactly for the numbers below ten.
proof fn lemma_decimal_length(a: nat)
    ensures
        decimal(a).len() >= 1,
        decimal(a).len() == 1 <==> a < 10,
    decreases a,
{
    if a >= 10 {
        lemma_decimal_length(a / 10);
    }
}

/// Warps at different positions have different names.
pub proof fn lemma_warp_names_distinct(i: nat, j: nat)
    requires
        warp_name(i) == warp_name(j),
    ensures
        i == j,
{
    let prefix = "warp_"@;
    assert(warp_name(i).skip(prefix.len() as int) =~= decimal(i));
    assert(warp_name(j).skip(prefix.len() as int) =~= decimal(j));
    lemma_decimal_injective(i, j);
}

/// The warp at position `at`, which is `from` or later, resolves to `warp`.
pub open spec fn resolved_at(
    mappings: &NameMappings,
    table: Seq<JsonMap>,
    warps: Seq<JsonWarpEvent>,
    from: nat,
    at: int,
    warp: Warp,
) -> bool {
    &&& from <= at < warps.len()
    &&& warp_of(mappings, table, warps[at], at as usize) == Ok::<Option<Warp>, ResolveError>(Some(warp))
}

/// The raw warp that a resolved warp stems from: every warp that comes out
/// of a list of raw warps is what one of them resolves to.
pub proof fn lemma_warp_source(
    mappings: &NameMappings,
    table: Seq<JsonMap>,
    warps: Seq<JsonWarpEvent>,
    from: nat,
    k: int,
) -> (at: int)
    requires
        warps_from(mappings, table, warps, from) is Ok,
        0 <= k < warps_from(mappings, table, warps, from)->Ok_0.len(),
    ensures
        resolved_at(
            mappings,
            table,
            warps,
            from,
            at,
            warps_from(mappings, table, warps, from)->Ok_0[k],
        ),
    decreases warps.len() - from,
{
    let first = warp_of(mappings, table, warps[from as int], from as usize)->Ok_0;
    if first is Some && k == 0 {
        from as int
    } else {
        let shift: int = if first is Some {
            1
        } else {
            0
        };
        lemma_warp_source(mappings, table, warps, from + 1, k - shift)
    }
}

/// A warp whose target record is absent from the table is no failure: it
/// resolves to nothing, and the warps after it are resolved as if it were
/// not there. Its target must have a location and its made-up name must
/// fit, as for every warp.
pub proof fn law_absent_target_skipped(
    mappings: &NameMappings,
    table: Seq<JsonMap>,
    warps: Seq<JsonWarpEvent>,
    at: nat,
)
    requires
        at < warps.len(),
        at <= usize::MAX,
        position_of(table, warps[at as int].destination@) is None,
        mappings.derived(warps[at as int].destination@) is Some,
        is_tiny_text(warp_name(at)),
    ensures
        warp_of(mappings, table, warps[at as int], at as usize) == Ok::<Option<Warp>, ResolveError>(None),
        warps_from(mappings, table, warps, at) == warps_from(mappings, table, warps, at + 1),
{
    lemma_identifier_of(warp_name(at));
}

/// In a node that was produced, no warp bears the name of a raw warp whose
/// target record is absent from the table: such a warp is left out, and the
/// rest of the node stands.
pub proof fn law_absent_target_omitted(
    mappings: &NameMappings,
    table: Seq<JsonMap>,
    record: JsonMap,
    decoded: Option<BinaryMap>,
    node: WorldMapView,
    at: nat,
)
    requires
        at < record.data.warps@.len(),
        at <= usize::MAX,
        position_of(table, record.data.warps@[at as int].destination@) is None,
        world_map_of(mappings, table, record, decoded) == Ok::<Option<WorldMapView>, ResolveError>(
            Some(node),
        ),
    ensures
        forall|k: int| 0 <= k < node.warps.len() ==> (#[trigger] node.warps[k]).id@ != warp_name(at),
{
    let warps = record.data.warps@;
    assert forall|k: int| 0 <= k < node.warps.len() implies (#[trigger] node.warps[k]).id@
        != warp_name(at) by {
        let found = lemma_warp_source(mappings, table, warps, 0, k);
        assert(record.data.warps.len() == warps.len());
        assert(found as usize == found);
        lemma_identifier_of(warp_name(found as nat));
        if node.warps[k].id@ == warp_name(at) {
            lemma_warp_names_distinct(found as nat, at);
        }
    }
}

} // verus!
