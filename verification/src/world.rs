//! The resolved graph's data: nodes, their links to other nodes, and what is
//! placed on them.

use crate::identifier::{Identifier, Location};
use vstd::prelude::*;

verus! {

/// One of the four cardinal directions.
#[derive(Clone, Copy, Debug, PartialEq, Eq, Hash)]
pub enum Direction {
    Down,
    Up,
    Left,
    Right,
}

/// A tile position.
#[derive(Clone, Copy, Debug, PartialEq, Eq, Hash)]
pub struct Coordinate {
    pub x: i32,
    pub y: i32,
}

/// A rectangle of tiles, both corners included.
#[derive(Clone, Copy, Debug, PartialEq, Eq, Hash)]
pub struct BoundingBox {
    pub min: Coordinate,
    pub max: Coordinate,
}

/// Where a warp puts the player, and which way it turns them, if any.
#[derive(Clone, Copy, Debug, PartialEq, Eq, Hash)]
pub struct Destination {
    pub coords: Coordinate,
    pub direction: Option<Direction>,
}

/// How a warp is carried out.
#[derive(Clone, Copy, Debug, PartialEq, Eq, Hash)]
pub struct WarpTransition {
    pub move_on_exit: bool,
    pub warp_on_tile: bool,
    pub change_music: bool,
}

/// The far end of a warp.
#[derive(Clone, Copy, Debug, PartialEq, Eq, Hash)]
pub struct WarpDestination {
    pub location: Location,
    pub position: Destination,
    pub transition: WarpTransition,
}

/// A warp: the region that triggers it and where it leads.
#[derive(Clone, Copy, Debug, PartialEq, Eq, Hash)]
pub struct WarpEntry {
    pub location: BoundingBox,
    pub destination: WarpDestination,
}

/// A warp under its name within its node.
#[derive(Clone, Copy, Debug, PartialEq, Eq, Hash)]
pub struct Warp {
    pub id: Identifier,
    pub entry: WarpEntry,
}

/// A neighbouring node and the offset at which it joins.
#[derive(Clone, Copy, Debug, PartialEq, Eq, Hash)]
pub struct Connection {
    pub location: Location,
    pub offset: i32,
}

/// The neighbours of a node, at most one in each direction.
#[derive(Clone, Copy, Debug, PartialEq, Eq, Hash)]
pub struct WorldChunk {
    pub down: Option<Connection>,
    pub up: Option<Connection>,
    pub left: Option<Connection>,
    pub right: Option<Connection>,
}

impl WorldChunk {
    /// A chunk without a neighbour.
    pub open spec fn spec_empty() -> WorldChunk {
        WorldChunk { down: None, up: None, left: None, right: None }
    }

    /// The neighbour in `direction`.
    pub open spec fn spec_get(&self, direction: Direction) -> Option<Connection> {
        match direction {
            Direction::Down => self.down,
            Direction::Up => self.up,
            Direction::Left => self.left,
            Direction::Right => self.right,
        }
    }

    /// The chunk with `connection` as its neighbour in `direction`, in place
    /// of any that it had there.
    pub open spec fn spec_with(&self, direction: Direction, connection: Connection) -> WorldChunk {
        match direction {
            Direction::Down => WorldChunk { down: Some(connection), ..*self },
            Direction::Up => WorldChunk { up: Some(connection), ..*self },
            Direction::Left => WorldChunk { left: Some(connection), ..*self },
            Direction::Right => WorldChunk { right: Some(connection), ..*self },
        }
    }

    /// A chunk without a neighbour.
    #[verifier::when_used_as_spec(spec_empty)]
    pub fn empty() -> (r: WorldChunk)
        ensures
            r == WorldChunk::spec_empty(),
    {
        WorldChunk { down: None, up: None, left: None, right: None }
    }

    /// The neighbour in `direction`.
    #[verifier::when_used_as_spec(spec_get)]
    pub fn get(&self, direction: Direction) -> (r: Option<Connection>)
        ensures
            r == self.spec_get(direction),
    {
        match direction {
            Direction::Down => self.down,
            Direction::Up => self.up,
            Direction::Left => self.left,
            Direction::Right => self.right,
        }
    }

    /// The chunk with `connection` as its neighbour in `direction`.
    #[verifier::when_used_as_spec(spec_with)]
    pub fn with(&self, direction: Direction, connection: Connection) -> (r: WorldChunk)
        ensures
            r == self.spec_with(direction, connection),
    {
        let mut r = *self;
        match direction {
            Direction::Down => {
                r.down = Some(connection);
            },
            Direction::Up => {
                r.up = Some(connection);
            },
            Direction::Left => {
                r.left = Some(connection);
            },
            Direction::Right => {
                r.right = Some(connection);
            },
        }
        r
    }
}

/// How a placed character behaves.
#[derive(Clone, Copy, Debug, PartialEq, Eq, Hash)]
pub enum NpcMovement {
    /// It faces one way and never moves.
    Still,
    /// Nothing is fixed about it.
    Neutral,
}

/// Where a character stands and which way it faces, if that is fixed.
#[derive(Clone, Copy, Debug, PartialEq, Eq, Hash)]
pub struct Position {
    pub coords: Coordinate,
    pub direction: Option<Direction>,
}

/// A character: its name and its position.
#[derive(Clone, Debug, PartialEq, Eq)]
pub struct Character {
    pub name: String,
    pub position: Position,
}

/// A character placed on a node.
#[derive(Clone, Debug, PartialEq, Eq)]
pub struct Npc {
    pub id: Identifier,
    pub character: Character,
    pub type_id: Identifier,
    pub movement: NpcMovement,
}

/// An `Npc` as a mathematical value.
pub struct NpcView {
    pub id: Identifier,
    pub name: Seq<char>,
    pub position: Position,
    pub type_id: Identifier,
    pub movement: NpcMovement,
}

impl View for Npc {
    type V = NpcView;

    open spec fn view(&self) -> NpcView {
        NpcView {
            id: self.id,
            name: self.character.name@,
            position: self.character.position,
            type_id: self.type_id,
            movement: self.movement,
        }
    }
}

/// What the tile decoder reads out of a level's two binary blobs.
#[derive(Clone, Debug, PartialEq, Eq)]
pub struct BinaryMap {
    pub tiles: Vec<u16>,
    pub movements: Vec<u8>,
    pub border: [u16; 4],
}

/// A node of the graph: one level with every reference resolved.
#[derive(Clone, Debug, PartialEq, Eq)]
pub struct WorldMap {
    pub id: Location,
    pub name: String,
    pub chunk: Option<WorldChunk>,
    pub warps: Vec<Warp>,
    pub npcs: Vec<Npc>,
    pub width: usize,
    pub height: usize,
    pub palettes: [u8; 2],
    pub music: Identifier,
    pub tiles: Vec<u16>,
    pub movements: Vec<u8>,
    pub border: [u16; 4],
}

/// A `WorldMap` as a mathematical value.
pub struct WorldMapView {
    pub id: Location,
    pub name: Seq<char>,
    pub chunk: Option<WorldChunk>,
    pub warps: Seq<Warp>,
    pub npcs: Seq<NpcView>,
    pub width: usize,
    pub height: usize,
    pub palettes: Seq<u8>,
    pub music: Identifier,
    pub tiles: Seq<u16>,
    pub movements: Seq<u8>,
    pub border: Seq<u16>,
}

/// The views of a sequence of characters.
pub open spec fn npc_views(npcs: Seq<Npc>) -> Seq<NpcView> {
    Seq::new(npcs.len(), |i: int| npcs[i]@)
}

impl View for WorldMap {
    type V = WorldMapView;

    open spec fn view(&self) -> WorldMapView {
        WorldMapView {
            id: self.id,
            name: self.name@,
            chunk: self.chunk,
            warps: self.warps@,
            npcs: npc_views(self.npcs@),
            width: self.width,
            height: self.height,
            palettes: self.palettes@,
            music: self.music,
            tiles: self.tiles@,
            movements: self.movements@,
            border: self.border@,
        }
    }
}

} // verus!
