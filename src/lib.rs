//! Rule and state engine for an 8x8 tile-placement board game: coordinate and
//! tile codecs, side-relative adjacency, the turn state machine with its move
//! queue, and a run-length encoded board snapshot.

pub mod location;
pub mod tile;
pub mod board;
