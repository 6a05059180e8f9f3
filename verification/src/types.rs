//! Coordinates and request priorities.

use vstd::prelude::*;
use crate::config;

verus! {

/// How urgently a resource is wanted. `Immediate` outranks `Preload`, which
/// outranks `Cache`.
#[derive(Debug, Clone, Copy, PartialEq, Eq, Structural)]
pub enum LoadPriority {
    Immediate,
    Preload,
    Cache,
}

impl LoadPriority {
    /// The rank of a priority: the larger, the more urgent.
    pub open spec fn rank(self) -> int {
        match self {
            LoadPriority::Immediate => 2,
            LoadPriority::Preload => 1,
            LoadPriority::Cache => 0,
        }
    }

    /// Whether `self` is at least as urgent as `other`.
    pub fn at_least(self, other: LoadPriority) -> (b: bool)
        ensures
            b == (self.rank() >= other.rank()),
    {
        match self {
            LoadPriority::Immediate => true,
            LoadPriority::Preload => match other {
                LoadPriority::Immediate => false,
                _ => true,
            },
            LoadPriority::Cache => match other {
                LoadPriority::Cache => true,
                _ => false,
            },
        }
    }
}

/// The coordinate of a chunk in the chunk grid.
#[derive(Debug, Clone, Copy, PartialEq, Eq, Hash, Structural)]
pub struct ChunkPos {
    pub x: i32,
    pub y: i32,
}

/// The coordinate of a tile in the tile grid.
#[derive(Debug, Clone, Copy, PartialEq, Eq, Hash, Structural)]
pub struct TilePos {
    pub x: i32,
    pub y: i32,
}

/// `v` brought into the range of `i32`.
pub open spec fn clamp_i32(v: int) -> int {
    if v < i32::MIN {
        i32::MIN as int
    } else if v > i32::MAX {
        i32::MAX as int
    } else {
        v
    }
}

/// Computes `clamp_i32`.
pub fn clamp_to_i32(v: i64) -> (clamped: i32)
    ensures
        clamped == clamp_i32(v as int),
{
    if v < i32::MIN as i64 {
        i32::MIN
    } else if v > i32::MAX as i64 {
        i32::MAX
    } else {
        v as i32
    }
}

/// The index of the cell of width `cell` that holds the world coordinate `v`:
/// the quotient rounded towards negative infinity, kept within `i32`.
pub open spec fn grid_index(v: int, cell: int) -> int {
    clamp_i32(v / cell)
}

/// Computes `grid_index` for a positive cell width.
pub fn floor_div(v: i64, cell: i32) -> (q: i32)
    requires
        cell > 0,
    ensures
        q == grid_index(v as int, cell as int),
{
    let c: i64 = cell as i64;
    let quotient: i64 = if v >= 0 {
        v / c
    } else {
        let below: i64 = -(v + 1);
        proof {
            // For negative v, v = -(below + 1), and flooring moves the
            // quotient one step down from the truncated one.
            vstd::arithmetic::div_mod::lemma_fundamental_div_mod(below as int, c as int);
            let t = (below as int) / (c as int);
            let r = (below as int) % (c as int);
            assert((v as int) == (-t - 1) * c + (c - 1 - r)) by (nonlinear_arith)
                requires
                    below == c * t + r,
                    v == -(below + 1),
            ;
            vstd::arithmetic::div_mod::lemma_fundamental_div_mod_converse(
                v as int,
                c as int,
                -t - 1,
                c - 1 - r,
            );
        }
        -(below / c) - 1
    };
    clamp_to_i32(quotient)
}

/// World units along one edge of a chunk.
pub open spec fn chunk_span() -> int {
    config::CHUNK_SIZE * config::TILE_SIZE
}

impl ChunkPos {
    /// The chunk that holds the world position `(x, y)`, given in whole world
    /// units.
    pub fn from_world_pos(x: i64, y: i64) -> (pos: ChunkPos)
        ensures
            pos.x == grid_index(x as int, chunk_span()),
            pos.y == grid_index(y as int, chunk_span()),
    {
        let span: i32 = config::CHUNK_SIZE * config::TILE_SIZE;
        ChunkPos { x: floor_div(x, span), y: floor_div(y, span) }
    }
}

impl TilePos {
    /// The tile that holds the world position `(x, y)`, given in whole world
    /// units.
    pub fn from_world_pos(x: i64, y: i64) -> (pos: TilePos)
        ensures
            pos.x == grid_index(x as int, config::TILE_SIZE as int),
            pos.y == grid_index(y as int, config::TILE_SIZE as int),
    {
        TilePos { x: floor_div(x, config::TILE_SIZE), y: floor_div(y, config::TILE_SIZE) }
    }
}

} // verus!
