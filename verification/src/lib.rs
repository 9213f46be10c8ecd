use vstd::prelude::*;

pub mod board;
pub mod game;
pub mod geom;
pub mod square;
pub mod tetromino;

verus! {

/// Side length of one grid cell, in field coordinates.
pub const SEGMENT_SIZE: i64 = 20;

} // verus!
