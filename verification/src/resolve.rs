//! Resolution of one raw record against the whole table: its connections,
//! its warps and its object events, and the node that they make up.

use crate::identifier::{identifier_of, Identifier, Location};
use crate::mapping::{into_music, into_palettes, NameMappings};
use crate::raw::{
    position_of, JsonConnection, JsonMap, JsonObjectEvents, JsonWarpEvent, RawTable,
};
use crate::text::{decimal, push_char, push_decimal, push_signed, same_text, signed_decimal};
use crate::world::{
    BinaryMap, BoundingBox, Character, Connection, Coordinate, Destination, Direction, Npc,
    npc_views, NpcMovement, NpcView, Position, Warp, WarpDestination, WarpEntry, WarpTransition,
    WorldChunk, WorldMap, WorldMapView,
};
use vstd::prelude::*;

verus! {

/// The place of an identifier within a record.
#[derive(Clone, Copy, Debug, PartialEq, Eq)]
pub enum IdentifierSite {
    /// The record's own raw identifier.
    Record,
    /// The target of the connection at this position.
    ConnectionTarget(usize),
    /// The target of the warp at this position.
    WarpTarget(usize),
    /// The name made up for the warp at this position.
    WarpName(usize),
    /// The placement type of the object event at this position.
    NpcType(usize),
    /// The name made up for the object event at this position.
    NpcName(usize),
}

/// Why a record cannot be resolved. Each of these ends the whole run.
#[derive(Clone, Copy, Debug, PartialEq, Eq)]
pub enum ResolveError {
    /// The identifier at this place does not fit the fixed width.
    MalformedIdentifier(IdentifierSite),
    /// The connection at this position names no cardinal direction.
    UnknownDirection { connection: usize },
    /// The warp at position `warp` leads to the warp at position `index` of
    /// a record that has no such warp.
    WarpIndexOutOfRange { warp: usize, index: usize },
}

/// The direction that a connection's tag names.
pub open spec fn direction_of(tag: Seq<char>) -> Option<Direction> {
    if tag == "left"@ {
        Some(Direction::Left)
    } else if tag == "right"@ {
        Some(Direction::Right)
    } else if tag == "up"@ {
        Some(Direction::Up)
    } else if tag == "down"@ {
        Some(Direction::Down)
    } else {
        None
    }
}

/// Reads a connection's direction tag.
pub fn parse_direction(tag: &str) -> (r: Option<Direction>)
    ensures
        r == direction_of(tag@),
{
    if same_text(tag, "left") {
        Some(Direction::Left)
    } else if same_text(tag, "right") {
        Some(Direction::Right)
    } else if same_text(tag, "up") {
        Some(Direction::Up)
    } else if same_text(tag, "down") {
        Some(Direction::Down)
    } else {
        None
    }
}

/// One connection, resolved: its direction must be a cardinal one, and its
/// target must have a location.
pub open spec fn connection_of(
    mappings: &NameMappings,
    connection: JsonConnection,
    at: usize,
) -> Result<(Direction, Connection), ResolveError> {
    match direction_of(connection.direction@) {
        None => Err(ResolveError::UnknownDirection { connection: at }),
        Some(direction) => match mappings.derived(connection.map@) {
            None => Err(ResolveError::MalformedIdentifier(IdentifierSite::ConnectionTarget(at))),
            Some(location) => Ok((direction, Connection { location, offset: connection.offset })),
        },
    }
}

/// The neighbours that the connections from position `from` on give. A later
/// connection takes the place of an earlier one in the same direction; the
/// first connection that cannot be resolved decides the error.
pub open spec fn chunk_from(
    mappings: &NameMappings,
    connections: Seq<JsonConnection>,
    from: nat,
) -> Result<WorldChunk, ResolveError>
    decreases connections.len() - from,
{
    if from >= connections.len() {
        Ok(WorldChunk::spec_empty())
    } else {
        match connection_of(mappings, connections[from as int], from as usize) {
            Err(e) => Err(e),
            Ok((direction, connection)) => match chunk_from(mappings, connections, from + 1) {
                Err(e) => Err(e),
                Ok(later) => Ok(
                    if later.spec_get(direction) is Some {
                        later
                    } else {
                        later.spec_with(direction, connection)
                    },
                ),
            },
        }
    }
}

/// The chunk of a list of connections: none for an empty list.
pub open spec fn chunk_of(mappings: &NameMappings, connections: Seq<JsonConnection>) -> Result<
    Option<WorldChunk>,
    ResolveError,
> {
    if connections.len() == 0 {
        Ok(None)
    } else {
        match chunk_from(mappings, connections, 0) {
            Err(e) => Err(e),
            Ok(chunk) => Ok(Some(chunk)),
        }
    }
}

/// `later` laid over `earlier`: where `later` has a neighbour it stands,
/// elsewhere that of `earlier` does.
pub open spec fn overlay(earlier: WorldChunk, later: WorldChunk) -> WorldChunk {
    WorldChunk {
        down: if later.down is Some {
            later.down
        } else {
            earlier.down
        },
        up: if later.up is Some {
            later.up
        } else {
            earlier.up
        },
        left: if later.left is Some {
            later.left
        } else {
            earlier.left
        },
        right: if later.right is Some {
            later.right
        } else {
            earlier.right
        },
    }
}

/// Resolves a record's connections into its chunk. A record without
/// connections has no chunk.
pub fn into_chunk(mappings: &NameMappings, connections: &[JsonConnection]) -> (r: Result<
    Option<WorldChunk>,
    ResolveError,
>)
    ensures
        r == chunk_of(mappings, connections@),
{
    let n = connections.len();
    if n == 0 {
        return Ok(None);
    }
    let mut chunk = WorldChunk::empty();
    let mut i: usize = 0;
    while i < n
        invariant
            n == connections@.len(),
            i <= n,
            chunk_from(mappings, connections@, 0) == match chunk_from(
                mappings,
                connections@,
                i as nat,
            ) {
                Err(e) => Err::<WorldChunk, ResolveError>(e),
                Ok(later) => Ok(overlay(chunk, later)),
            },
        decreases n - i,
    {
        let connection = &connections[i];
        let direction = match parse_direction(connection.direction.as_str()) {
            Some(direction) => direction,
            None => {
                return Err(ResolveError::UnknownDirection { connection: i });
            },
        };
        let location = match mappings.derive(connection.map.as_str()) {
            Some(location) => location,
            None => {
                return Err(
                    ResolveError::MalformedIdentifier(IdentifierSite::ConnectionTarget(i)),
                );
            },
        };
        chunk = chunk.with(direction, Connection { location, offset: connection.offset });
        i = i + 1;
    }
    Ok(Some(chunk))
}

/// The name made up for the warp at position `index`.
pub open spec fn warp_name(index: nat) -> Seq<char> {
    "warp_"@ + decimal(index)
}

/// The entry of a warp that lies at `warp` and leads to `location`, where
/// the warp `target` marks the arrival: the trigger is the single tile of
/// `warp`; the player is not moved on exit, the warp triggers on entering
/// the tile, and the music changes.
pub open spec fn warp_entry(warp: JsonWarpEvent, location: Location, target: JsonWarpEvent)
    -> WarpEntry {
    WarpEntry {
        location: BoundingBox {
            min: Coordinate { x: warp.x, y: warp.y },
            max: Coordinate { x: warp.x, y: warp.y },
        },
        destination: WarpDestination {
            location,
            position: Destination {
                coords: Coordinate { x: target.x, y: target.y },
                direction: None,
            },
            transition: WarpTransition {
                move_on_exit: false,
                warp_on_tile: true,
                change_music: true,
            },
        },
    }
}

/// One warp, resolved against the table. Its target must have a location
/// and its made-up name must fit; then a warp whose target record is absent
/// is left out, and one whose target record lacks the warp it points at is
/// an error.
pub open spec fn warp_of(
    mappings: &NameMappings,
    table: Seq<JsonMap>,
    warp: JsonWarpEvent,
    index: usize,
) -> Result<Option<Warp>, ResolveError> {
    match mappings.derived(warp.destination@) {
        None => Err(ResolveError::MalformedIdentifier(IdentifierSite::WarpTarget(index))),
        Some(location) => match identifier_of(warp_name(index as nat)) {
            None => Err(ResolveError::MalformedIdentifier(IdentifierSite::WarpName(index))),
            Some(id) => match position_of(table, warp.destination@) {
                None => Ok(None),
                Some(at) => if warp.dest_warp_id < table[at].data.warps@.len() {
                    Ok(
                        Some(
                            Warp {
                                id,
                                entry: warp_entry(
                                    warp,
                                    location,
                                    table[at].data.warps@[warp.dest_warp_id as int],
                                ),
                            },
                        ),
                    )
                } else {
                    Err(
                        ResolveError::WarpIndexOutOfRange {
                            warp: index,
                            index: warp.dest_warp_id,
                        },
                    )
                },
            },
        },
    }
}

/// The warps that the raw warps from position `from` on give, in their
/// order; the first one that cannot be resolved decides the error.
pub open spec fn warps_from(
    mappings: &NameMappings,
    table: Seq<JsonMap>,
    warps: Seq<JsonWarpEvent>,
    from: nat,
) -> Result<Seq<Warp>, ResolveError>
    decreases warps.len() - from,
{
    if from >= warps.len() {
        Ok(Seq::empty())
    } else {
        match warp_of(mappings, table, warps[from as int], from as usize) {
            Err(e) => Err(e),
            Ok(first) => match warps_from(mappings, table, warps, from + 1) {
                Err(e) => Err(e),
                Ok(later) => Ok(
                    match first {
                        Some(warp) => seq![warp] + later,
                        None => later,
                    },
                ),
            },
        }
    }
}

/// Resolves the warp at position `index` of a record.
pub fn into_world_warp(
    mappings: &NameMappings,
    maps: &RawTable,
    warp: &JsonWarpEvent,
    index: usize,
) -> (r: Result<Option<Warp>, ResolveError>)
    requires
        maps.wf(),
    ensures
        r == warp_of(mappings, maps@, *warp, index),
{
    let location = match mappings.derive(warp.destination.as_str()) {
        Some(location) => location,
        None => {
            return Err(ResolveError::MalformedIdentifier(IdentifierSite::WarpTarget(index)));
        },
    };
    let mut name = String::from_str("warp_");
    push_decimal(&mut name, index as u64);
    let id = match Identifier::parse(name.as_str()) {
        Some(id) => id,
        None => {
            return Err(ResolveError::MalformedIdentifier(IdentifierSite::WarpName(index)));
        },
    };
    let target = match maps.get(warp.destination.as_str()) {
        Some(target) => target,
        None => {
            return Ok(None);
        },
    };
    if warp.dest_warp_id >= target.data.warps.len() {
        return Err(
            ResolveError::WarpIndexOutOfRange { warp: index, index: warp.dest_warp_id },
        );
    }
    let arrival = &target.data.warps[warp.dest_warp_id];
    let entry = WarpEntry {
        location: BoundingBox {
            min: Coordinate { x: warp.x, y: warp.y },
            max: Coordinate { x: warp.x, y: warp.y },
        },
        destination: WarpDestination {
            location,
            position: Destination {
                coords: Coordinate { x: arrival.x, y: arrival.y },
                direction: None,
            },
            transition: WarpTransition {
                move_on_exit: false,
                warp_on_tile: true,
                change_music: true,
            },
        },
    };
    Ok(Some(Warp { id, entry }))
}

/// Resolves all warps of a record, in their order.
pub fn into_world_warps(mappings: &NameMappings, maps: &RawTable, warps: &[JsonWarpEvent]) -> (r:
    Result<Vec<Warp>, ResolveError>)
    requires
        maps.wf(),
    ensures
        match r {
            Ok(resolved) => warps_from(mappings, maps@, warps@, 0) == Ok::<
                Seq<Warp>,
                ResolveError,
            >(resolved@),
            Err(e) => warps_from(mappings, maps@, warps@, 0) == Err::<Seq<Warp>, ResolveError>(e),
        },
{
    let n = warps.len();
    let mut resolved: Vec<Warp> = Vec::new();
    let mut i: usize = 0;
    while i < n
        invariant
            n == warps@.len(),
            i <= n,
            maps.wf(),
            warps_from(mappings, maps@, warps@, 0) == match warps_from(
                mappings,
                maps@,
                warps@,
                i as nat,
            ) {
                Err(e) => Err::<Seq<Warp>, ResolveError>(e),
                Ok(later) => Ok(resolved@ + later),
            },
        decreases n - i,
    {
        let ghost before = resolved@;
        match into_world_warp(mappings, maps, &warps[i], i) {
            Err(e) => {
                return Err(e);
            },
            Ok(Some(warp)) => {
                resolved.push(warp);
                proof {
                    let later = warps_from(mappings, maps@, warps@, (i + 1) as nat);
                    if later is Ok {
                        assert(before + (seq![warp] + later->Ok_0) =~= resolved@ + later->Ok_0);
                    }
                }
            },
            Ok(None) => {},
        }
        i = i + 1;
    }
    proof {
        assert(resolved@ + Seq::<Warp>::empty() =~= resolved@);
    }
    Ok(resolved)
}

/// How a movement behaviour is kept: four of them face one way and never
/// move; every other one is neutral, with no fixed facing.
pub open spec fn stance_of(behaviour: Seq<char>) -> (NpcMovement, Option<Direction>) {
    if behaviour == "MOVEMENT_TYPE_FACE_LEFT"@ {
        (NpcMovement::Still, Some(Direction::Left))
    } else if behaviour == "MOVEMENT_TYPE_FACE_RIGHT"@ {
        (NpcMovement::Still, Some(Direction::Right))
    } else if behaviour == "MOVEMENT_TYPE_FACE_UP"@ {
        (NpcMovement::Still, Some(Direction::Up))
    } else if behaviour == "MOVEMENT_TYPE_FACE_DOWN"@ {
        (NpcMovement::Still, Some(Direction::Down))
    } else {
        (NpcMovement::Neutral, None)
    }
}

/// Reads a movement behaviour.
pub fn parse_stance(behaviour: &str) -> (r: (NpcMovement, Option<Direction>))
    ensures
        r == stance_of(behaviour@),
{
    if same_text(behaviour, "MOVEMENT_TYPE_FACE_LEFT") {
        (NpcMovement::Still, Some(Direction::Left))
    } else if same_text(behaviour, "MOVEMENT_TYPE_FACE_RIGHT") {
        (NpcMovement::Still, Some(Direction::Right))
    } else if same_text(behaviour, "MOVEMENT_TYPE_FACE_UP") {
        (NpcMovement::Still, Some(Direction::Up))
    } else if same_text(behaviour, "MOVEMENT_TYPE_FACE_DOWN") {
        (NpcMovement::Still, Some(Direction::Down))
    } else {
        (NpcMovement::Neutral, None)
    }
}

/// The name made up for the object event at position `index`.
pub open spec fn npc_id(index: nat) -> Seq<char> {
    "npc_"@ + decimal(index)
}

/// The name of a character that stands at `(x, y)`.
pub open spec fn npc_name(x: int, y: int) -> Seq<char> {
    ("NPC "@ + signed_decimal(x)).push('-') + signed_decimal(y)
}

/// One object event, resolved. An event whose graphics the dictionary does
/// not know is left out; the placement type of a known one and its made-up
/// name must fit.
pub open spec fn npc_of(mappings: &NameMappings, event: JsonObjectEvents, index: usize) -> Result<
    Option<NpcView>,
    ResolveError,
> {
    if !mappings.npcs@.contains_key(event.graphics_id@) {
        Ok(None)
    } else {
        match identifier_of(mappings.npcs@[event.graphics_id@]@) {
            None => Err(ResolveError::MalformedIdentifier(IdentifierSite::NpcType(index))),
            Some(type_id) => match identifier_of(npc_id(index as nat)) {
                None => Err(ResolveError::MalformedIdentifier(IdentifierSite::NpcName(index))),
                Some(id) => Ok(
                    Some(
                        NpcView {
                            id,
                            name: npc_name(event.x as int, event.y as int),
                            position: Position {
                                coords: Coordinate { x: event.x, y: event.y },
                                direction: stance_of(event.movement_type@).1,
                            },
                            type_id,
                            movement: stance_of(event.movement_type@).0,
                        },
                    ),
                ),
            },
        }
    }
}

/// The characters that the object events from position `from` on give, in
/// their order; the first event that cannot be resolved decides the error.
pub open spec fn npcs_from(mappings: &NameMappings, events: Seq<JsonObjectEvents>, from: nat)
    -> Result<Seq<NpcView>, ResolveError>
    decreases events.len() - from,
{
    if from >= events.len() {
        Ok(Seq::empty())
    } else {
        match npc_of(mappings, events[from as int], from as usize) {
            Err(e) => Err(e),
            Ok(first) => match npcs_from(mappings, events, from + 1) {
                Err(e) => Err(e),
                Ok(later) => Ok(
                    match first {
                        Some(npc) => seq![npc] + later,
                        None => later,
                    },
                ),
            },
        }
    }
}

/// Resolves the object event at position `index` of a record.
pub fn into_world_npc(mappings: &NameMappings, event: &JsonObjectEvents, index: usize) -> (r:
    Result<Option<Npc>, ResolveError>)
    ensures
        match r {
            Ok(Some(npc)) => npc_of(mappings, *event, index) == Ok::<
                Option<NpcView>,
                ResolveError,
            >(Some(npc@)),
            Ok(None) => npc_of(mappings, *event, index) == Ok::<Option<NpcView>, ResolveError>(
                None,
            ),
            Err(e) => npc_of(mappings, *event, index) == Err::<Option<NpcView>, ResolveError>(e),
        },
{
    let kind = match mappings.npcs.get(event.graphics_id.as_str()) {
        Some(kind) => kind,
        None => {
            return Ok(None);
        },
    };
    let (movement, direction) = parse_stance(event.movement_type.as_str());
    let type_id = match Identifier::parse(kind.as_str()) {
        Some(type_id) => type_id,
        None => {
            return Err(ResolveError::MalformedIdentifier(IdentifierSite::NpcType(index)));
        },
    };
    let mut label = String::from_str("npc_");
    push_decimal(&mut label, index as u64);
    let id = match Identifier::parse(label.as_str()) {
        Some(id) => id,
        None => {
            return Err(ResolveError::MalformedIdentifier(IdentifierSite::NpcName(index)));
        },
    };
    let mut name = String::from_str("NPC ");
    push_signed(&mut name, event.x as i64);
    push_char(&mut name, '-');
    push_signed(&mut name, event.y as i64);
    Ok(
        Some(
            Npc {
                id,
                character: Character {
                    name,
                    position: Position {
                        coords: Coordinate { x: event.x, y: event.y },
                        direction,
                    },
                },
                type_id,
                movement,
            },
        ),
    )
}

/// Resolves all object events of a record, in their order.
pub fn into_world_npcs(mappings: &NameMappings, events: &[JsonObjectEvents]) -> (r: Result<
    Vec<Npc>,
    ResolveError,
>)
    ensures
        match r {
            Ok(npcs) => npcs_from(mappings, events@, 0) == Ok::<Seq<NpcView>, ResolveError>(
                npc_views(npcs@),
            ),
            Err(e) => npcs_from(mappings, events@, 0) == Err::<Seq<NpcView>, ResolveError>(e),
        },
{
    let n = events.len();
    let mut npcs: Vec<Npc> = Vec::new();
    let mut i: usize = 0;
    while i < n
        invariant
            n == events@.len(),
            i <= n,
            npcs_from(mappings, events@, 0) == match npcs_from(mappings, events@, i as nat) {
                Err(e) => Err::<Seq<NpcView>, ResolveError>(e),
                Ok(later) => Ok(npc_views(npcs@) + later),
            },
        decreases n - i,
    {
        let ghost before = npcs@;
        match into_world_npc(mappings, &events[i], i) {
            Err(e) => {
                return Err(e);
            },
            Ok(Some(npc)) => {
                let ghost view = npc@;
                npcs.push(npc);
                proof {
                    let later = npcs_from(mappings, events@, (i + 1) as nat);
                    assert(npc_views(npcs@) =~= npc_views(before).push(view));
                    if later is Ok {
                        assert(npc_views(before) + (seq![view] + later->Ok_0) =~= npc_views(npcs@)
                            + later->Ok_0);
                    }
                }
            },
            Ok(None) => {},
        }
        i = i + 1;
    }
    proof {
        assert(npc_views(npcs@) + Seq::<NpcView>::empty() =~= npc_views(npcs@));
    }
    Ok(npcs)
}

/// The chunk of a record: that of its connections, where it lists any.
pub open spec fn record_chunk(mappings: &NameMappings, record: JsonMap) -> Result<
    Option<WorldChunk>,
    ResolveError,
> {
    match record.data.connections {
        Some(connections) => chunk_of(mappings, connections@),
        None => Ok(None),
    }
}

/// The node of a record. Without decoded tiles there is none, whatever else
/// the record holds. With them, the record's own identifier, its
/// connections, its warps and its object events are resolved in this order,
/// and the first that fails decides the error.
pub open spec fn world_map_of(
    mappings: &NameMappings,
    table: Seq<JsonMap>,
    record: JsonMap,
    decoded: Option<BinaryMap>,
) -> Result<Option<WorldMapView>, ResolveError> {
    match decoded {
        None => Ok(None),
        Some(binary) => match mappings.derived(record.data.id@) {
            None => Err(ResolveError::MalformedIdentifier(IdentifierSite::Record)),
            Some(id) => match record_chunk(mappings, record) {
                Err(e) => Err(e),
                Ok(chunk) => match warps_from(mappings, table, record.data.warps@, 0) {
                    Err(e) => Err(e),
                    Ok(warps) => match npcs_from(mappings, record.data.objects@, 0) {
                        Err(e) => Err(e),
                        Ok(npcs) => Ok(
                            Some(
                                WorldMapView {
                                    id,
                                    name: mappings.display_name(record.data.name@),
                                    chunk,
                                    warps,
                                    npcs,
                                    width: record.layout.width,
                                    height: record.layout.height,
                                    palettes: mappings.palettes_of(
                                        record.layout.primary_tileset@,
                                        record.layout.secondary_tileset@,
                                    ),
                                    music: mappings.music_of(record.data.music@),
                                    tiles: binary.tiles@,
                                    movements: binary.movements@,
                                    border: binary.border@,
                                },
                            ),
                        ),
                    },
                },
            },
        },
    }
}

/// Resolves one record into its node, given what the tile decoder made of
/// the record's blobs. A record whose blobs did not decode is skipped.
pub fn into_world_map(
    mappings: &NameMappings,
    maps: &RawTable,
    map: &JsonMap,
    decoded: Option<BinaryMap>,
) -> (r: Result<Option<WorldMap>, ResolveError>)
    requires
        maps.wf(),
    ensures
        match r {
            Ok(Some(node)) => world_map_of(mappings, maps@, *map, decoded) == Ok::<
                Option<WorldMapView>,
                ResolveError,
            >(Some(node@)),
            Ok(None) => world_map_of(mappings, maps@, *map, decoded) == Ok::<
                Option<WorldMapView>,
                ResolveError,
            >(None),
            Err(e) => world_map_of(mappings, maps@, *map, decoded) == Err::<
                Option<WorldMapView>,
                ResolveError,
            >(e),
        },
{
    let binary = match decoded {
        Some(binary) => binary,
        None => {
            return Ok(None);
        },
    };
    let id = match mappings.derive(map.data.id.as_str()) {
        Some(id) => id,
        None => {
            return Err(ResolveError::MalformedIdentifier(IdentifierSite::Record));
        },
    };
    let name = mappings.name(map.data.name.as_str());
    let chunk = match &map.data.connections {
        Some(connections) => match into_chunk(mappings, connections.as_slice()) {
            Ok(chunk) => chunk,
            Err(e) => {
                return Err(e);
            },
        },
        None => None,
    };
    let warps = match into_world_warps(mappings, maps, map.data.warps.as_slice()) {
        Ok(warps) => warps,
        Err(e) => {
            return Err(e);
        },
    };
    let npcs = match into_world_npcs(mappings, map.data.objects.as_slice()) {
        Ok(npcs) => npcs,
        Err(e) => {
            return Err(e);
        },
    };
    let palettes = into_palettes(
        mappings,
        map.layout.primary_tileset.as_str(),
        map.layout.secondary_tileset.as_str(),
    );
    let music = into_music(mappings, map.data.music.as_str());
    Ok(
        Some(
            WorldMap {
                id,
                name,
                chunk,
                warps,
                npcs,
                width: map.layout.width,
                height: map.layout.height,
                palettes,
                music,
                tiles: binary.tiles,
                movements: binary.movements,
                border: binary.border,
            },
        ),
    )
}

} // verus!
