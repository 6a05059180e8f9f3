//! Fixed parameters of the tile world and of the texture cache.

use vstd::prelude::*;

verus! {

/// Edge length of one tile, in world units.
pub const TILE_SIZE: i32 = 64;

/// Number of tiles along each edge of a chunk.
pub const CHUNK_SIZE: i32 = 16;

/// Chunks within this distance of the focus are needed at once.
pub const VISIBLE_CHUNKS_RADIUS: i32 = 2;

/// Chunks within this distance of the focus are worth promoting ahead of time.
pub const PRELOAD_CHUNKS_RADIUS: i32 = 3;

/// Chunks within this distance of the focus are kept alive.
pub const CACHE_CHUNKS_RADIUS: i32 = 4;

/// Largest number of textures resident in device memory.
pub const MAX_GPU_TEXTURES: usize = 64;

/// Largest number of textures held in host memory.
pub const MAX_RAM_TEXTURES: usize = 256;

/// A record untouched for this many time units is purged by a cleanup.
pub const IDLE_TIMEOUT: u64 = 30;

/// Number of placeholder textures the manager keeps.
pub const PROCEDURAL_TEXTURES: usize = 4;

} // verus!
