//! Assembly of a world graph from loosely linked per-level records.
//!
//! Every cross-reference between records is resolved to a fixed-width
//! identifier, and the resolved nodes are gathered into a graph in which no
//! two nodes share a location.

pub mod graph;
pub mod identifier;
pub mod laws;
pub mod mapping;
pub mod raw;
pub mod resolve;
pub mod text;
pub mod world;
