//! The name dictionaries: read-only lookups from the names that raw records
//! use to what the graph uses, each with the value that stands in where a
//! name is missing.

use crate::identifier::{identifier_of, lemma_identifier_of, loc, located, Identifier, Location};
use vstd::hash_map::StringHashMap;
use vstd::prelude::*;

verus! {

/// The palette that stands in for an unknown primary tileset.
pub const DEFAULT_PRIMARY_PALETTE: u8 = 0;

/// The palette that stands in for an unknown secondary tileset.
pub const DEFAULT_SECONDARY_PALETTE: u8 = 13;

/// The music that stands in for an unknown track.
pub open spec fn default_music() -> Seq<char> {
    "pallet"@
}

/// Overrides for levels: locations by raw identifier, display names by raw
/// name.
pub struct MapMappings {
    pub id: StringHashMap<Location>,
    pub name: StringHashMap<String>,
}

/// Palettes by tileset name.
pub struct PaletteMappings {
    pub primary: StringHashMap<u8>,
    pub secondary: StringHashMap<u8>,
}

/// All dictionaries.
pub struct NameMappings {
    pub map: MapMappings,
    pub npcs: StringHashMap<String>,
    pub palettes: PaletteMappings,
    pub music: StringHashMap<Identifier>,
}

impl NameMappings {
    /// The location of a raw identifier: its override where the dictionary
    /// has one, else the location derived from the identifier alone.
    pub open spec fn derived(&self, raw: Seq<char>) -> Option<Location> {
        if self.map.id@.contains_key(raw) {
            Some(self.map.id@[raw])
        } else {
            located(raw)
        }
    }

    /// The display name of a level: its override where the dictionary has
    /// one, else the raw name.
    pub open spec fn display_name(&self, raw: Seq<char>) -> Seq<char> {
        if self.map.name@.contains_key(raw) {
            self.map.name@[raw]@
        } else {
            raw
        }
    }

    /// The palettes of a pair of tilesets.
    pub open spec fn palettes_of(&self, primary: Seq<char>, secondary: Seq<char>) -> Seq<u8> {
        seq![
            if self.palettes.primary@.contains_key(primary) {
                self.palettes.primary@[primary]
            } else {
                DEFAULT_PRIMARY_PALETTE
            },
            if self.palettes.secondary@.contains_key(secondary) {
                self.palettes.secondary@[secondary]
            } else {
                DEFAULT_SECONDARY_PALETTE
            },
        ]
    }

    /// The music of a track.
    pub open spec fn music_of(&self, track: Seq<char>) -> Identifier {
        if self.music@.contains_key(track) {
            self.music@[track]
        } else {
            identifier_of(default_music())->0
        }
    }

    /// Dictionaries without an entry.
    pub fn new() -> (r: NameMappings)
        ensures
            r.map.id@ == Map::<Seq<char>, Location>::empty(),
            r.map.name@ == Map::<Seq<char>, String>::empty(),
            r.npcs@ == Map::<Seq<char>, String>::empty(),
            r.palettes.primary@ == Map::<Seq<char>, u8>::empty(),
            r.palettes.secondary@ == Map::<Seq<char>, u8>::empty(),
            r.music@ == Map::<Seq<char>, Identifier>::empty(),
    {
        NameMappings {
            map: MapMappings { id: StringHashMap::new(), name: StringHashMap::new() },
            npcs: StringHashMap::new(),
            palettes: PaletteMappings {
                primary: StringHashMap::new(),
                secondary: StringHashMap::new(),
            },
            music: StringHashMap::new(),
        }
    }

    /// Derives the location of a raw identifier. An override is returned as
    /// it stands; without one the identifier is stripped and shortened, and
    /// `None` says that the outcome does not fit an identifier.
    pub fn derive(&self, raw: &str) -> (r: Option<Location>)
        ensures
            r == self.derived(raw@),
    {
        match self.map.id.get(raw) {
            Some(location) => Some(*location),
            None => loc(raw),
        }
    }

    /// The display name of the level with the raw name `raw`.
    pub fn name(&self, raw: &str) -> (r: String)
        ensures
            r@ == self.display_name(raw@),
    {
        match self.map.name.get(raw) {
            Some(name) => name.clone(),
            None => raw.to_owned(),
        }
    }
}

/// The palettes of a level's two tilesets; an unknown tileset gets the
/// default of its kind.
pub fn into_palettes(mappings: &NameMappings, primary: &str, secondary: &str) -> (r: [u8; 2])
    ensures
        r@ == mappings.palettes_of(primary@, secondary@),
{
    let first: u8 = match mappings.palettes.primary.get(primary) {
        Some(palette) => *palette,
        None => DEFAULT_PRIMARY_PALETTE,
    };
    let second: u8 = match mappings.palettes.secondary.get(secondary) {
        Some(palette) => *palette,
        None => DEFAULT_SECONDARY_PALETTE,
    };
    let r = [first, second];
    assert(r@ =~= mappings.palettes_of(primary@, secondary@));
    r
}

/// The default music fits an identifier.
pub proof fn lemma_default_music()
    ensures
        identifier_of(default_music()) is Some,
{
    reveal_strlit("pallet");
    lemma_identifier_of(default_music());
}

/// The music of a track; an unknown track gets the default music.
pub fn into_music(mappings: &NameMappings, music: &str) -> (r: Identifier)
    ensures
        r == mappings.music_of(music@),
{
    match mappings.music.get(music) {
        Some(id) => *id,
        None => {
            proof {
                lemma_default_music();
            }
            Identifier::parse("pallet").unwrap()
        },
    }
}

} // verus!
