use world_graph::graph::{assemble, AssemblyError, WorldGraph};
use world_graph::identifier::{loc, Identifier, Location};
use world_graph::mapping::NameMappings;
use world_graph::raw::{JsonConnection, JsonMap, JsonMapData, JsonMapLayout, JsonWarpEvent, RawTable};
use world_graph::resolve::{into_world_map, ResolveError};
use world_graph::world::{BinaryMap, WorldMap};

fn level(id: &str, name: &str) -> JsonMap {
    JsonMap {
        data: JsonMapData {
            id: id.to_string(),
            name: name.to_string(),
            layout: "LAYOUT_PLAIN".to_string(),
            music: "MUS_PALLET".to_string(),
            connections: None,
            warps: Vec::new(),
            objects: Vec::new(),
        },
        layout: JsonMapLayout {
            id: "LAYOUT_PLAIN".to_string(),
            width: 2,
            height: 2,
            primary_tileset: "gTileset_General".to_string(),
            secondary_tileset: "gTileset_PalletTown".to_string(),
            border_filepath: "border.bin".to_string(),
            blockdata_filepath: "map.bin".to_string(),
        },
    }
}

fn warp(x: i32, y: i32, destination: &str, dest_warp_id: usize) -> JsonWarpEvent {
    JsonWarpEvent { x, y, destination: destination.to_string(), dest_warp_id }
}

fn tiles(first: u16) -> Option<BinaryMap> {
    Some(BinaryMap {
        tiles: vec![first, first + 1, first + 2, first + 3],
        movements: vec![0, 1, 0, 1],
        border: [9, 9, 9, 9],
    })
}

fn table_of(levels: Vec<JsonMap>) -> RawTable {
    match RawTable::build(levels) {
        Ok(table) => table,
        Err(e) => panic!("collision with {}", e.existing),
    }
}

fn node(id: &str, name: &str) -> WorldMap {
    let mappings = NameMappings::new();
    let record = level(id, name);
    let table = table_of(vec![record.clone()]);
    into_world_map(&mappings, &table, &record, tiles(0)).unwrap().unwrap()
}

fn graph_of(result: Result<WorldGraph, AssemblyError>) -> WorldGraph {
    match result {
        Ok(graph) => graph,
        Err(e) => panic!("assembly failed: {:?}", e),
    }
}

fn failure_of(result: Result<WorldGraph, AssemblyError>) -> AssemblyError {
    match result {
        Ok(_) => panic!("assembly went through"),
        Err(e) => e,
    }
}

#[test]
fn new_graph_is_empty() {
    let graph = WorldGraph::new();
    assert_eq!(graph.len(), 0);
    assert!(!graph.contains(&loc("MAP_TOWN").unwrap()));
    assert_eq!(graph.get(&loc("MAP_TOWN").unwrap()), None);
}

#[test]
fn inserted_node_is_found_at_its_location() {
    let mut graph = WorldGraph::new();
    assert_eq!(graph.insert(node("MAP_TOWN", "Town")), Ok(()));
    assert_eq!(graph.insert(node("MAP_ROUTE1", "Route 1")), Ok(()));
    assert_eq!(graph.len(), 2);
    assert!(graph.contains(&loc("MAP_TOWN").unwrap()));
    assert_eq!(graph.get(&loc("MAP_TOWN").unwrap()), Some(node("MAP_TOWN", "Town")));
    assert_eq!(graph.get(&loc("MAP_ROUTE1").unwrap()).unwrap().name, "Route 1");
    assert_eq!(graph.get(&loc("MAP_ROUTE2").unwrap()), None);
}

#[test]
fn namespace_is_part_of_the_location() {
    let mut graph = WorldGraph::new();
    let mut bare = node("MAP_TOWN", "Bare");
    bare.id = Location { map: None, index: bare.id.index };
    let mut other = node("MAP_TOWN", "Other");
    other.id = Location { map: Identifier::parse("other"), index: other.id.index };
    assert_eq!(graph.insert(node("MAP_TOWN", "Town")), Ok(()));
    assert_eq!(graph.insert(bare.clone()), Ok(()));
    assert_eq!(graph.insert(other.clone()), Ok(()));
    assert_eq!(graph.len(), 3);
    assert_eq!(graph.get(&bare.id), Some(bare));
    assert_eq!(graph.get(&other.id), Some(other));
}

#[test]
fn second_node_of_a_location_is_reported() {
    let mut graph = WorldGraph::new();
    assert_eq!(graph.insert(node("MAP_TOWN", "Town")), Ok(()));
    assert_eq!(
        graph.insert(node("MAP_TOWN", "Town again")),
        Err(AssemblyError::Duplicate {
            location: loc("MAP_TOWN").unwrap(),
            new: "Town again".to_string(),
            existing: "Town".to_string(),
        })
    );
    assert_eq!(graph.len(), 1);
    assert_eq!(graph.get(&loc("MAP_TOWN").unwrap()).unwrap().name, "Town");
}

#[test]
fn graph_hands_out_its_map() {
    let mut graph = WorldGraph::new();
    graph.insert(node("MAP_TOWN", "Town")).unwrap();
    let map = graph.into_inner();
    assert_eq!(map.len(), 1);
    assert!(map.contains_key(&loc("MAP_TOWN").unwrap().key()));
}

#[test]
fn assembly_makes_one_node_for_each_decoded_record() {
    let mappings = NameMappings::new();
    let table = table_of(vec![
        level("MAP_TOWN", "Town"),
        level("MAP_ROUTE1", "Route 1"),
        level("MAP_CAVE", "Cave"),
        level("MAP_LAB", "Lab"),
    ]);
    let graph = graph_of(assemble(&mappings, &table, vec![tiles(0), None, tiles(10), tiles(20)]));
    assert_eq!(graph.len(), 3);
    assert_eq!(graph.get(&loc("MAP_TOWN").unwrap()).unwrap().tiles, vec![0, 1, 2, 3]);
    assert_eq!(graph.get(&loc("MAP_ROUTE1").unwrap()), None);
    assert_eq!(graph.get(&loc("MAP_CAVE").unwrap()).unwrap().tiles, vec![10, 11, 12, 13]);
    assert_eq!(graph.get(&loc("MAP_LAB").unwrap()).unwrap().name, "Lab");
}

#[test]
fn records_beyond_the_decoded_list_count_as_not_decoded() {
    let mappings = NameMappings::new();
    let table = table_of(vec![level("MAP_TOWN", "Town"), level("MAP_ROUTE1", "Route 1")]);
    let graph = graph_of(assemble(&mappings, &table, vec![tiles(0)]));
    assert_eq!(graph.len(), 1);
    assert!(graph.contains(&loc("MAP_TOWN").unwrap()));
    let none = graph_of(assemble(&mappings, &table, Vec::new()));
    assert_eq!(none.len(), 0);
    let more = graph_of(assemble(&mappings, &table, vec![None, tiles(4), tiles(8), tiles(12)]));
    assert_eq!(more.len(), 1);
    assert_eq!(more.get(&loc("MAP_ROUTE1").unwrap()).unwrap().tiles, vec![4, 5, 6, 7]);
}

#[test]
fn assembly_of_an_empty_table_is_an_empty_graph() {
    let mappings = NameMappings::new();
    let table = RawTable::new();
    assert_eq!(graph_of(assemble(&mappings, &table, Vec::new())).len(), 0);
}

#[test]
fn assembly_gives_the_same_graph_again() {
    let mappings = NameMappings::new();
    let mut town = level("MAP_TOWN", "Town");
    town.data.warps = vec![warp(1, 1, "MAP_ROUTE1", 0), warp(2, 2, "MAP_NOWHERE", 0)];
    let mut route = level("MAP_ROUTE1", "Route 1");
    route.data.warps = vec![warp(5, 5, "MAP_TOWN", 1)];
    let table = table_of(vec![town, route]);
    let first = graph_of(assemble(&mappings, &table, vec![tiles(0), tiles(4)]));
    let second = graph_of(assemble(&mappings, &table, vec![tiles(0), tiles(4)]));
    assert_eq!(first.len(), second.len());
    for raw in ["MAP_TOWN", "MAP_ROUTE1"] {
        let location = loc(raw).unwrap();
        assert!(first.contains(&location));
        assert_eq!(first.get(&location), second.get(&location));
    }
}

#[test]
fn warp_to_an_absent_record_leaves_the_node_standing() {
    let mappings = NameMappings::new();
    let mut town = level("MAP_TOWN", "Town");
    town.data.connections = Some(vec![JsonConnection {
        direction: "up".to_string(),
        offset: 0,
        map: "MAP_ROUTE1".to_string(),
    }]);
    town.data.warps = vec![warp(1, 1, "MAP_NOWHERE", 0), warp(2, 2, "MAP_TOWN", 0)];
    let table = table_of(vec![town]);
    let graph = graph_of(assemble(&mappings, &table, vec![tiles(0)]));
    let node = graph.get(&loc("MAP_TOWN").unwrap()).unwrap();
    assert_eq!(node.warps.len(), 1);
    assert_eq!(node.warps[0].id.to_text(), "warp_1");
    assert!(node.chunk.is_some());
    assert_eq!(node.tiles, vec![0, 1, 2, 3]);
}

#[test]
fn records_that_derive_to_one_location_abort_assembly() {
    let mappings = NameMappings::new();
    let table = table_of(vec![
        level("MAP_ROUTE_ONE_BUILDING_TWO", "Building two"),
        level("MAP_TOWN", "Town"),
        level("MAP_ROUTE_ONE_BURROW_TWO", "Burrow two"),
    ]);
    assert_eq!(
        loc("MAP_ROUTE_ONE_BUILDING_TWO"),
        loc("MAP_ROUTE_ONE_BURROW_TWO")
    );
    assert_eq!(
        failure_of(assemble(&mappings, &table, vec![tiles(0), tiles(4), tiles(8)])),
        AssemblyError::Duplicate {
            location: loc("MAP_ROUTE_ONE_BUILDING_TWO").unwrap(),
            new: "Burrow two".to_string(),
            existing: "Building two".to_string(),
        }
    );
}

#[test]
fn overrides_to_one_location_abort_assembly() {
    let mut mappings = NameMappings::new();
    let shared = Location { map: None, index: Identifier::parse("shared").unwrap() };
    mappings.map.id.insert("MAP_A".to_string(), shared);
    mappings.map.id.insert("MAP_B".to_string(), shared);
    let table = table_of(vec![level("MAP_A", "A"), level("MAP_B", "B")]);
    assert_eq!(
        failure_of(assemble(&mappings, &table, vec![tiles(0), tiles(4)])),
        AssemblyError::Duplicate {
            location: shared,
            new: "B".to_string(),
            existing: "A".to_string(),
        }
    );
}

#[test]
fn shared_location_of_an_undecoded_record_is_no_duplicate() {
    let mappings = NameMappings::new();
    let table = table_of(vec![
        level("MAP_ROUTE_ONE_BUILDING_TWO", "Building two"),
        level("MAP_ROUTE_ONE_BURROW_TWO", "Burrow two"),
    ]);
    let graph = graph_of(assemble(&mappings, &table, vec![None, tiles(8)]));
    assert_eq!(graph.len(), 1);
    assert_eq!(
        graph.get(&loc("MAP_ROUTE_ONE_BURROW_TWO").unwrap()).unwrap().name,
        "Burrow two"
    );
}

#[test]
fn warp_past_the_target_warps_aborts_assembly_naming_the_record() {
    let mappings = NameMappings::new();
    let mut a = level("MAP_A", "A");
    a.data.warps = vec![warp(1, 2, "MAP_B", 2)];
    let mut b = level("MAP_B", "B");
    b.data.warps = vec![warp(0, 0, "MAP_A", 0), warp(1, 1, "MAP_A", 0)];
    let table = table_of(vec![b, a]);
    assert_eq!(
        failure_of(assemble(&mappings, &table, vec![tiles(0), tiles(4)])),
        AssemblyError::Unresolved {
            record: "A".to_string(),
            cause: ResolveError::WarpIndexOutOfRange { warp: 0, index: 2 },
        }
    );
}

#[test]
fn warp_within_the_target_warps_goes_through() {
    let mappings = NameMappings::new();
    let mut a = level("MAP_A", "A");
    a.data.warps = vec![warp(1, 2, "MAP_B", 2)];
    let mut b = level("MAP_B", "B");
    b.data.warps = vec![warp(0, 0, "MAP_A", 0), warp(1, 1, "MAP_A", 0), warp(7, 8, "MAP_A", 0)];
    let table = table_of(vec![a, b]);
    let graph = graph_of(assemble(&mappings, &table, vec![tiles(0), tiles(4)]));
    let node = graph.get(&loc("MAP_A").unwrap()).unwrap();
    assert_eq!(node.warps[0].entry.destination.position.coords.x, 7);
    assert_eq!(node.warps[0].entry.destination.position.coords.y, 8);
}

#[test]
fn first_failing_record_decides() {
    let mappings = NameMappings::new();
    let mut odd = level("MAP_ODD", "Odd");
    odd.data.connections = Some(vec![JsonConnection {
        direction: "north".to_string(),
        offset: 0,
        map: "MAP_TOWN".to_string(),
    }]);
    let table = table_of(vec![level("MAP_TOWN", "Town"), odd, level("MAP_", "Nameless")]);
    assert_eq!(
        failure_of(assemble(&mappings, &table, vec![tiles(0), tiles(4), tiles(8)])),
        AssemblyError::Unresolved {
            record: "Odd".to_string(),
            cause: ResolveError::UnknownDirection { connection: 0 },
        }
    );
    let skipped = graph_of(assemble(&mappings, &table, vec![tiles(0), None, None]));
    assert_eq!(skipped.len(), 1);
}
