use world_graph::identifier::{loc, Identifier, Location};
use world_graph::mapping::{
    into_music, into_palettes, NameMappings, DEFAULT_PRIMARY_PALETTE, DEFAULT_SECONDARY_PALETTE,
};

fn id(text: &str) -> Identifier {
    Identifier::parse(text).unwrap()
}

#[test]
fn override_wins_over_derivation() {
    let mut mappings = NameMappings::new();
    let town = Location { map: None, index: id("pallet") };
    mappings.map.id.insert("MAP_PALLET_TOWN".to_string(), town);
    assert_eq!(mappings.derive("MAP_PALLET_TOWN"), Some(town));
}

#[test]
fn override_wins_for_names_that_do_not_derive() {
    let mut mappings = NameMappings::new();
    let odd = Location { map: Some(id("special")), index: id("odd") };
    mappings.map.id.insert("X".to_string(), odd);
    mappings.map.id.insert("MAP_AN_EXTREMELY_LONG_LEVEL_NAME".to_string(), odd);
    assert_eq!(loc("X"), None);
    assert_eq!(mappings.derive("X"), Some(odd));
    assert_eq!(mappings.derive("MAP_AN_EXTREMELY_LONG_LEVEL_NAME"), Some(odd));
}

#[test]
fn derivation_stands_in_without_an_override() {
    let mappings = NameMappings::new();
    assert_eq!(mappings.derive("MAP_ROUTE1"), loc("MAP_ROUTE1"));
    assert_eq!(mappings.derive("MAP_ROUTE1").unwrap().index.to_text(), "ROUTE1");
    assert_eq!(mappings.derive("MAP_"), None);
}

#[test]
fn display_name_falls_back_to_the_raw_name() {
    let mut mappings = NameMappings::new();
    mappings.map.name.insert("PalletTown".to_string(), "Pallet Town".to_string());
    assert_eq!(mappings.name("PalletTown"), "Pallet Town");
    assert_eq!(mappings.name("Route1"), "Route1");
}

#[test]
fn unknown_tilesets_get_the_default_palettes() {
    let mut mappings = NameMappings::new();
    mappings.palettes.primary.insert("gTileset_General".to_string(), 3);
    mappings.palettes.secondary.insert("gTileset_PalletTown".to_string(), 14);
    assert_eq!(into_palettes(&mappings, "gTileset_General", "gTileset_PalletTown"), [3, 14]);
    assert_eq!(into_palettes(&mappings, "gTileset_General", "nowhere"), [3, 13]);
    assert_eq!(into_palettes(&mappings, "nowhere", "gTileset_PalletTown"), [0, 14]);
    assert_eq!(into_palettes(&mappings, "a", "b"), [0, 13]);
    assert_eq!(DEFAULT_PRIMARY_PALETTE, 0);
    assert_eq!(DEFAULT_SECONDARY_PALETTE, 13);
}

#[test]
fn palettes_are_looked_up_by_kind() {
    let mut mappings = NameMappings::new();
    mappings.palettes.primary.insert("shared".to_string(), 5);
    assert_eq!(into_palettes(&mappings, "shared", "shared"), [5, 13]);
}

#[test]
fn unknown_music_gets_the_default_track() {
    let mut mappings = NameMappings::new();
    mappings.music.insert("MUS_ROUTE1".to_string(), id("route1"));
    assert_eq!(into_music(&mappings, "MUS_ROUTE1").to_text(), "route1");
    assert_eq!(into_music(&mappings, "MUS_UNKNOWN").to_text(), "pallet");
}
