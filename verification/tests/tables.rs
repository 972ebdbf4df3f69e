use world_graph::raw::{
    blob_url, JsonMap, JsonMapData, JsonMapLayout, LayoutTable, RawIdCollision, RawTable,
};

fn layout(id: &str, width: usize, height: usize) -> JsonMapLayout {
    JsonMapLayout {
        id: id.to_string(),
        width,
        height,
        primary_tileset: "gTileset_General".to_string(),
        secondary_tileset: "gTileset_PalletTown".to_string(),
        border_filepath: format!("data/layouts/{}/border.bin", id),
        blockdata_filepath: format!("data/layouts/{}/map.bin", id),
    }
}

fn data(id: &str, name: &str) -> JsonMapData {
    JsonMapData {
        id: id.to_string(),
        name: name.to_string(),
        layout: "LAYOUT_PLAIN".to_string(),
        music: "MUS_PALLET".to_string(),
        connections: None,
        warps: Vec::new(),
        objects: Vec::new(),
    }
}

fn record(id: &str, name: &str) -> JsonMap {
    JsonMap { data: data(id, name), layout: layout("LAYOUT_PLAIN", 4, 3) }
}

#[test]
fn table_keeps_records_in_order() {
    let mut table = RawTable::new();
    assert_eq!(table.len(), 0);
    assert_eq!(table.insert(record("MAP_A", "A")), Ok(()));
    assert_eq!(table.insert(record("MAP_B", "B")), Ok(()));
    assert_eq!(table.len(), 2);
    assert_eq!(table.record(0).unwrap().data.name, "A");
    assert_eq!(table.record(1).unwrap().data.name, "B");
    assert_eq!(table.record(2), None);
}

#[test]
fn table_finds_records_by_raw_identifier() {
    let mut table = RawTable::new();
    table.insert(record("MAP_A", "A")).unwrap();
    table.insert(record("MAP_B", "B")).unwrap();
    assert_eq!(table.position("MAP_A"), Some(0));
    assert_eq!(table.position("MAP_B"), Some(1));
    assert_eq!(table.position("MAP_C"), None);
    assert_eq!(table.get("MAP_B").unwrap().data.name, "B");
    assert_eq!(table.get("MAP_C"), None);
}

#[test]
fn second_record_of_a_raw_identifier_is_refused() {
    let mut table = RawTable::new();
    table.insert(record("MAP_A", "first")).unwrap();
    table.insert(record("MAP_B", "other")).unwrap();
    assert_eq!(table.insert(record("MAP_A", "second")), Err(RawIdCollision { existing: 0 }));
    assert_eq!(table.len(), 2);
    assert_eq!(table.get("MAP_A").unwrap().data.name, "first");
}

#[test]
fn build_takes_distinct_records() {
    let records = vec![record("MAP_A", "A"), record("MAP_B", "B"), record("MAP_C", "C")];
    let table = match RawTable::build(records) {
        Ok(table) => table,
        Err(e) => panic!("collision with {}", e.existing),
    };
    assert_eq!(table.len(), 3);
    assert_eq!(table.position("MAP_C"), Some(2));
}

#[test]
fn build_stops_at_the_first_collision() {
    let records = vec![
        record("MAP_A", "A"),
        record("MAP_B", "B"),
        record("MAP_B", "again"),
        record("MAP_A", "again"),
    ];
    match RawTable::build(records) {
        Ok(_) => panic!("a collision was overlooked"),
        Err(e) => assert_eq!(e, RawIdCollision { existing: 1 }),
    }
}

#[test]
fn build_of_nothing_is_an_empty_table() {
    match RawTable::build(Vec::new()) {
        Ok(table) => assert_eq!(table.len(), 0),
        Err(_) => panic!("an empty list has no collision"),
    }
}

#[test]
fn tile_count_is_width_times_height() {
    assert_eq!(layout("L", 4, 3).tile_count(), Some(12));
    assert_eq!(layout("L", 0, 3).tile_count(), Some(0));
    assert_eq!(layout("L", usize::MAX, 1).tile_count(), Some(usize::MAX));
    assert_eq!(layout("L", usize::MAX, 2).tile_count(), None);
}

#[test]
fn blob_url_lies_below_the_source_root() {
    assert_eq!(
        blob_url("data/layouts/PalletTown/map.bin"),
        "http://raw.githubusercontent.com/pret/pokefirered/master/data/layouts/PalletTown/map.bin"
    );
    assert_eq!(blob_url(""), "http://raw.githubusercontent.com/pret/pokefirered/master/");
}

#[test]
fn layouts_are_joined_by_name() {
    let mut layouts = LayoutTable::new();
    layouts.insert(layout("LAYOUT_PLAIN", 4, 3));
    layouts.insert(layout("LAYOUT_WIDE", 40, 3));
    let joined = layouts.join(data("MAP_A", "A")).unwrap();
    assert_eq!(joined.layout, layout("LAYOUT_PLAIN", 4, 3));
    assert_eq!(joined.data, data("MAP_A", "A"));
    assert_eq!(layout("LAYOUT_WIDE", 40, 3).duplicate(), layout("LAYOUT_WIDE", 40, 3));
}

#[test]
fn unknown_layout_hands_the_data_back() {
    let layouts = LayoutTable::new();
    assert_eq!(layouts.join(data("MAP_A", "A")), Err(data("MAP_A", "A")));
}

#[test]
fn later_layout_of_a_name_wins() {
    let mut layouts = LayoutTable::new();
    layouts.insert(layout("LAYOUT_PLAIN", 4, 3));
    layouts.insert(layout("LAYOUT_PLAIN", 9, 9));
    assert_eq!(layouts.join(data("MAP_A", "A")).unwrap().layout.width, 9);
}
