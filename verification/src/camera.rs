//! The viewport: the window of the world that is on screen.
//!
//! Positions are in whole world units. The camera detects when the position
//! it is shown crosses into another chunk, which is the one moment at which a
//! streaming pass is due.

use vstd::prelude::*;
use crate::config;
use crate::types::{chunk_span, clamp_i32, clamp_to_i32, floor_div, grid_index, ChunkPos};

verus! {

/// A position or an extent in the plane, in whole units.
#[derive(Debug, Clone, Copy, PartialEq, Eq, Structural)]
pub struct Point {
    pub x: i32,
    pub y: i32,
}

/// The viewport.
#[derive(Debug, Clone, Copy, PartialEq, Eq, Structural)]
pub struct Camera {
    /// The world position of the top left corner of the viewport.
    pub position: Point,
    /// The width and the height of the viewport.
    pub viewport_size: Point,
    /// The chunk of the position that was examined last.
    pub last_chunk: ChunkPos,
}

impl Camera {
    /// A camera at the origin of the world, over a viewport of the given
    /// size.
    pub fn new(viewport_width: i32, viewport_height: i32) -> (camera: Camera)
        ensures
            camera.position == (Point { x: 0, y: 0 }),
            camera.viewport_size == (Point { x: viewport_width, y: viewport_height }),
            camera.last_chunk == (ChunkPos { x: 0, y: 0 }),
    {
        Camera {
            position: Point { x: 0, y: 0 },
            viewport_size: Point { x: viewport_width, y: viewport_height },
            last_chunk: ChunkPos { x: 0, y: 0 },
        }
    }

    /// Centres the viewport, at its size so far, on `target`, and then takes
    /// over the new size of the viewport. A corner that would fall outside
    /// the range of the coordinates is brought back to its edge.
    pub fn update(&mut self, target: Point, viewport_width: i32, viewport_height: i32)
        ensures
            final(self).position.x == clamp_i32(target.x - old(self).viewport_size.x / 2),
            final(self).position.y == clamp_i32(target.y - old(self).viewport_size.y / 2),
            final(self).viewport_size == (Point { x: viewport_width, y: viewport_height }),
            final(self).last_chunk == old(self).last_chunk,
    {
        let half_width = floor_div(self.viewport_size.x as i64, 2);
        let half_height = floor_div(self.viewport_size.y as i64, 2);
        let x: i64 = target.x as i64 - half_width as i64;
        let y: i64 = target.y as i64 - half_height as i64;
        self.position = Point { x: clamp_to_i32(x), y: clamp_to_i32(y) };
        self.viewport_size = Point { x: viewport_width, y: viewport_height };
    }

    /// Says whether `current` lies in another chunk than the position
    /// examined before, and remembers its chunk.
    pub fn chunk_changed(&mut self, current: Point) -> (changed: bool)
        ensures
            final(self).last_chunk.x == grid_index(current.x as int, chunk_span()),
            final(self).last_chunk.y == grid_index(current.y as int, chunk_span()),
            changed == (final(self).last_chunk != old(self).last_chunk),
            final(self).position == old(self).position,
            final(self).viewport_size == old(self).viewport_size,
    {
        let current_chunk = ChunkPos::from_world_pos(current.x as i64, current.y as i64);
        if current_chunk.x != self.last_chunk.x || current_chunk.y != self.last_chunk.y {
            self.last_chunk = current_chunk;
            true
        } else {
            false
        }
    }

    /// Where on the screen the world position `world` appears.
    pub fn world_to_screen(&self, world: Point) -> (screen: (i64, i64))
        ensures
            screen.0 == world.x - self.position.x,
            screen.1 == world.y - self.position.y,
    {
        (world.x as i64 - self.position.x as i64, world.y as i64 - self.position.y as i64)
    }

    /// The world position that appears at `screen`.
    pub fn screen_to_world(&self, screen: Point) -> (world: (i64, i64))
        ensures
            world.0 == screen.x + self.position.x,
            world.1 == screen.y + self.position.y,
    {
        (screen.x as i64 + self.position.x as i64, screen.y as i64 + self.position.y as i64)
    }

    /// The part of the world to draw: the viewport, widened by one tile
    /// towards the origin, so that a tile that begins before the viewport and
    /// reaches into it is drawn too. The result holds the least and the
    /// greatest corner.
    pub fn get_visible_range(&self) -> (range: ((i64, i64), (i64, i64)))
        ensures
            range.0.0 == self.position.x - config::TILE_SIZE,
            range.0.1 == self.position.y - config::TILE_SIZE,
            range.1.0 == self.position.x + self.viewport_size.x,
            range.1.1 == self.position.y + self.viewport_size.y,
    {
        let tile: i64 = config::TILE_SIZE as i64;
        (
            (self.position.x as i64 - tile, self.position.y as i64 - tile),
            (
                self.position.x as i64 + self.viewport_size.x as i64,
                self.position.y as i64 + self.viewport_size.y as i64,
            ),
        )
    }

    /// The chunks of the two corners of the visible range.
    pub fn visible_chunks(&self) -> (corners: (ChunkPos, ChunkPos))
        ensures
            corners.0.x == grid_index(self.position.x - config::TILE_SIZE, chunk_span()),
            corners.0.y == grid_index(self.position.y - config::TILE_SIZE, chunk_span()),
            corners.1.x == grid_index(self.position.x + self.viewport_size.x, chunk_span()),
            corners.1.y == grid_index(self.position.y + self.viewport_size.y, chunk_span()),
    {
        let range = self.get_visible_range();
        (
            ChunkPos::from_world_pos(range.0.0, range.0.1),
            ChunkPos::from_world_pos(range.1.0, range.1.1),
        )
    }

    /// Whether a tile whose corner appears at `screen` shows in the viewport.
    pub fn is_on_screen(&self, screen: (i64, i64)) -> (visible: bool)
        ensures
            visible == (-config::TILE_SIZE <= screen.0 <= self.viewport_size.x
                && -config::TILE_SIZE <= screen.1 <= self.viewport_size.y),
    {
        let tile: i64 = config::TILE_SIZE as i64;
        screen.0 >= -tile && screen.0 <= self.viewport_size.x as i64 && screen.1 >= -tile
            && screen.1 <= self.viewport_size.y as i64
    }
}

} // verus!
