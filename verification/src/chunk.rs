//! Chunks and the store that owns them.
//!
//! A chunk is a square grid of tile ids anchored at a chunk coordinate. The
//! store holds every chunk that is currently materialized; its model is a map
//! from chunk coordinates to tile grids.

use vstd::prelude::*;
use crate::config;
use crate::types::ChunkPos;

verus! {

/// Number of distinct tile ids.
pub const TILE_KINDS: u32 = 4;

/// Draws an unsigned number below `high` from the process-wide generator.
///
/// Calls `macroquad::rand::gen_range` with a lower bound of zero. That
/// function scales a 32-bit draw into the half-open interval from the lower
/// to the upper bound and truncates, so with a lower bound of zero the
/// outcome is below `high`. Nothing more is claimed of it: two calls may
/// differ.
#[verifier::external_body]
pub(crate) fn random_below(high: u32) -> (drawn: u32)
    requires
        high > 0,
    ensures
        drawn < high,
{
    macroquad::rand::gen_range::<u32>(0, high)
}

/// Whether `tiles` is a full grid of valid tile ids.
pub open spec fn grid_wf(tiles: Seq<Seq<u32>>) -> bool {
    &&& tiles.len() == config::CHUNK_SIZE
    &&& forall|y: int| 0 <= y < tiles.len() ==> (#[trigger] tiles[y]).len() == config::CHUNK_SIZE
    &&& forall|y: int, x: int|
        0 <= y < tiles.len() && 0 <= x < tiles[y].len() ==> #[trigger] tiles[y][x] < TILE_KINDS
}

/// The rows of a grid, each as a sequence.
pub open spec fn grid_view(tiles: Seq<Vec<u32>>) -> Seq<Seq<u32>> {
    tiles.map_values(|row: Vec<u32>| row@)
}

/// A grid of tile ids anchored at a chunk coordinate.
pub struct Chunk {
    pos: ChunkPos,
    tiles: Vec<Vec<u32>>,
}

impl View for Chunk {
    type V = Seq<Seq<u32>>;

    /// The tile ids, row by row.
    closed spec fn view(&self) -> Seq<Seq<u32>> {
        grid_view(self.tiles@)
    }
}

impl Chunk {
    /// The coordinate at which the chunk is anchored.
    pub closed spec fn spec_pos(&self) -> ChunkPos {
        self.pos
    }

    /// The coordinate at which the chunk is anchored.
    #[verifier::when_used_as_spec(spec_pos)]
    pub fn pos(&self) -> (pos: ChunkPos)
        ensures
            pos == self.spec_pos(),
    {
        self.pos
    }

    /// A chunk at `pos` whose tiles are drawn at random.
    pub fn new(pos: ChunkPos) -> (chunk: Chunk)
        ensures
            chunk.pos() == pos,
            grid_wf(chunk@),
    {
        let mut tiles: Vec<Vec<u32>> = Vec::new();
        let mut y: i32 = 0;
        while y < config::CHUNK_SIZE
            invariant
                0 <= y <= config::CHUNK_SIZE,
                tiles@.len() == y,
                forall|r: int| 0 <= r < y ==> (#[trigger] tiles@[r])@.len() == config::CHUNK_SIZE,
                forall|r: int, c: int|
                    0 <= r < y && 0 <= c < tiles@[r]@.len() ==> #[trigger] tiles@[r]@[c]
                        < TILE_KINDS,
            decreases config::CHUNK_SIZE - y,
        {
            let mut row: Vec<u32> = Vec::new();
            let mut x: i32 = 0;
            while x < config::CHUNK_SIZE
                invariant
                    0 <= x <= config::CHUNK_SIZE,
                    row@.len() == x,
                    forall|c: int| 0 <= c < x ==> #[trigger] row@[c] < TILE_KINDS,
                decreases config::CHUNK_SIZE - x,
            {
                row.push(random_below(TILE_KINDS));
                x += 1;
            }
            tiles.push(row);
            y += 1;
        }
        let chunk = Chunk { pos, tiles };
        assert(grid_wf(chunk@)) by {}
        chunk
    }

    /// The id of the tile in column `x` of row `y`.
    pub fn tile(&self, x: usize, y: usize) -> (id: Option<u32>)
        ensures
            id == (if y < self@.len() && x < self@[y as int].len() {
                Some(self@[y as int][x as int])
            } else {
                None
            }),
    {
        if y < self.tiles.len() {
            if x < self.tiles[y].len() {
                return Some(self.tiles[y][x]);
            }
        }
        None
    }

    /// The world position of the corner of the tile in column `tile_x` of
    /// row `tile_y`.
    pub fn tile_origin(&self, tile_x: i32, tile_y: i32) -> (origin: (i64, i64))
        ensures
            origin.0 == self.pos().x * config::CHUNK_SIZE * config::TILE_SIZE + tile_x
                * config::TILE_SIZE,
            origin.1 == self.pos().y * config::CHUNK_SIZE * config::TILE_SIZE + tile_y
                * config::TILE_SIZE,
    {
        let span: i64 = (config::CHUNK_SIZE * config::TILE_SIZE) as i64;
        assert(self.pos.x * config::CHUNK_SIZE * config::TILE_SIZE == self.pos.x * span
            && self.pos.x * span == self.pos.x * 1024) by (nonlinear_arith)
            requires
                span == 1024,
        ;
        assert(self.pos.y * config::CHUNK_SIZE * config::TILE_SIZE == self.pos.y * span
            && self.pos.y * span == self.pos.y * 1024) by (nonlinear_arith)
            requires
                span == 1024,
        ;
        let tile: i64 = config::TILE_SIZE as i64;
        assert(tile_x * tile == tile_x * 64 && tile_y * tile == tile_y * 64) by (nonlinear_arith)
            requires
                tile == 64,
        ;
        let x: i64 = (self.pos.x as i64) * span + (tile_x as i64) * tile;
        let y: i64 = (self.pos.y as i64) * span + (tile_y as i64) * tile;
        (x, y)
    }
}

/// The coordinates of the chunks in `chunks`, in storage order.
pub open spec fn positions(chunks: Seq<Chunk>) -> Seq<ChunkPos> {
    chunks.map_values(|c: Chunk| c.pos())
}

/// The chunks that are currently materialized.
pub struct ChunkStore {
    chunks: Vec<Chunk>,
}

impl View for ChunkStore {
    type V = Map<ChunkPos, Seq<Seq<u32>>>;

    /// The tile grid of each materialized chunk.
    closed spec fn view(&self) -> Map<ChunkPos, Seq<Seq<u32>>> {
        Map::new(
            |p: ChunkPos| positions(self.chunks@).contains(p),
            |p: ChunkPos| self.chunks@[positions(self.chunks@).index_of(p)]@,
        )
    }
}

impl ChunkStore {
    /// No coordinate has two chunks, and every chunk is a full grid.
    pub closed spec fn wf(&self) -> bool {
        &&& positions(self.chunks@).no_duplicates()
        &&& forall|i: int| 0 <= i < self.chunks@.len() ==> grid_wf((#[trigger] self.chunks@[i])@)
    }

    /// In a sound store there are finitely many chunks, each a full grid.
    pub proof fn lemma_wf_view(&self)
        requires
            self.wf(),
        ensures
            self@.dom().finite(),
            forall|p: ChunkPos| self@.dom().contains(p) ==> grid_wf(#[trigger] self@[p]),
    {
        let ps = positions(self.chunks@);
        vstd::seq_lib::seq_to_set_is_finite(ps);
    }

    /// The chunk stored at index `i` is the one the model gives for its coordinate.
    proof fn lemma_entry(&self, i: int)
        requires
            self.wf(),
            0 <= i < self.chunks@.len(),
        ensures
            self@.dom().contains(self.chunks@[i].pos()),
            self@[self.chunks@[i].pos()] == self.chunks@[i]@,
    {
        let ps = positions(self.chunks@);
        assert(ps.contains(ps[i]));
    }

    /// A store without chunks.
    pub fn new() -> (store: Self)
        ensures
            store.wf(),
            store@ == Map::<ChunkPos, Seq<Seq<u32>>>::empty(),
    {
        let store = ChunkStore { chunks: Vec::new() };
        store
    }

    /// The number of materialized chunks.
    pub fn len(&self) -> (n: usize)
        requires
            self.wf(),
        ensures
            self@.dom().finite(),
            n == self@.dom().len(),
    {
        proof {
            let ps = positions(self.chunks@);
            vstd::seq_lib::seq_to_set_is_finite(ps);
            ps.unique_seq_to_set();
        }
        self.chunks.len()
    }

    /// The storage index of the chunk at `pos`, if it is materialized.
    fn position(&self, pos: ChunkPos) -> (found: Option<usize>)
        requires
            self.wf(),
        ensures
            match found {
                Some(i) => i < self.chunks@.len() && self.chunks@[i as int].pos() == pos,
                None => !self@.dom().contains(pos),
            },
    {
        let mut i: usize = 0;
        while i < self.chunks.len()
            invariant
                i <= self.chunks@.len(),
                forall|j: int| 0 <= j < i ==> self.chunks@[j].pos() != pos,
            decreases self.chunks@.len() - i,
        {
            if self.chunks[i].pos.x == pos.x && self.chunks[i].pos.y == pos.y {
                return Some(i);
            }
            i += 1;
        }
        None
    }

    /// Whether the chunk at `pos` is materialized.
    pub fn contains(&self, pos: ChunkPos) -> (b: bool)
        requires
            self.wf(),
        ensures
            b == self@.dom().contains(pos),
    {
        match self.position(pos) {
            Some(i) => {
                proof {
                    self.lemma_entry(i as int);
                }
                true
            },
            None => false,
        }
    }

    /// The chunk at `pos`, if it is materialized.
    pub fn get(&self, pos: ChunkPos) -> (found: Option<&Chunk>)
        requires
            self.wf(),
        ensures
            match found {
                Some(chunk) => self@.dom().contains(pos) && chunk.pos() == pos && chunk@ == self@[pos],
                None => !self@.dom().contains(pos),
            },
    {
        match self.position(pos) {
            Some(i) => {
                proof {
                    self.lemma_entry(i as int);
                }
                Some(&self.chunks[i])
            },
            None => None,
        }
    }

    /// Materializes the chunk at `pos` unless it already is, and says whether
    /// it was created. An existing chunk is left as it is; a new one is
    /// filled at random.
    pub fn get_or_create(&mut self, pos: ChunkPos) -> (created: bool)
        requires
            old(self).wf(),
        ensures
            final(self).wf(),
            created == !old(self)@.dom().contains(pos),
            final(self)@.dom() == old(self)@.dom().insert(pos),
            forall|p: ChunkPos| old(self)@.dom().contains(p) ==> final(self)@[p] == old(self)@[p],
            grid_wf(final(self)@[pos]),
    {
        let ghost before = *self;
        match self.position(pos) {
            Some(i) => {
                proof {
                    self.lemma_entry(i as int);
                }
                false
            },
            None => {
                let chunk = Chunk::new(pos);
                self.chunks.push(chunk);
                proof {
                    let ps0 = positions(before.chunks@);
                    let ps = positions(self.chunks@);
                    let n = ps0.len() as int;
                    assert(ps =~= ps0.push(pos));
                    assert forall|p: ChunkPos|
                        self@.dom().contains(p) <==> before@.dom().insert(pos).contains(p) by {
                        if ps0.contains(p) {
                            let j = choose|j: int| 0 <= j < ps0.len() && ps0[j] == p;
                            assert(ps[j] == p);
                        }
                        if p == pos {
                            assert(ps[n] == p);
                        }
                    }
                    self.lemma_entry(n);
                }
                true
            },
        }
    }

    /// Drops every chunk whose coordinate is not in `keep`.
    pub fn retain(&mut self, keep: &Vec<ChunkPos>)
        requires
            old(self).wf(),
        ensures
            final(self).wf(),
            final(self)@ == old(self)@.restrict(keep@.to_set()),
    {
        let ghost before = *self;
        let ghost ps0 = positions(before.chunks@);
        let mut kept: Vec<Chunk> = Vec::new();
        // For each chunk that is kept, its index in the store as it was.
        let ghost mut origin: Seq<int> = Seq::empty();
        while self.chunks.len() > 0
            invariant
                before.wf(),
                ps0 == positions(before.chunks@),
                self.chunks@.len() <= before.chunks@.len(),
                self.chunks@ == before.chunks@.take(self.chunks@.len() as int),
                origin.len() == kept@.len(),
                forall|a: int|
                    0 <= a < origin.len() ==> self.chunks@.len() <= #[trigger] origin[a]
                        < before.chunks@.len() && kept@[a] == before.chunks@[origin[a]]
                        && keep@.contains(kept@[a].pos()),
                forall|a: int, b: int|
                    0 <= a < b < origin.len() ==> #[trigger] origin[a] > #[trigger] origin[b],
                forall|j: int|
                    self.chunks@.len() <= j < before.chunks@.len() && keep@.contains(
                        before.chunks@[j].pos(),
                    ) ==> origin.contains(j),
            decreases self.chunks@.len(),
        {
            let ghost n = self.chunks@.len() as int;
            let chunk = self.chunks.pop();
            if let Some(chunk) = chunk {
                if contains_pos(keep, chunk.pos) {
                    kept.push(chunk);
                    proof {
                        let grown = origin.push(n - 1);
                        assert forall|j: int|
                            n - 1 <= j < before.chunks@.len() && keep@.contains(
                                before.chunks@[j].pos(),
                            ) implies grown.contains(j) by {
                            if j == n - 1 {
                                assert(grown[origin.len() as int] == j);
                            } else {
                                assert(origin.contains(j));
                                let a = choose|a: int| 0 <= a < origin.len() && origin[a] == j;
                                assert(grown[a] == j);
                            }
                        }
                        origin = grown;
                    }
                }
            }
        }
        self.chunks = kept;
        proof {
            let ps = positions(self.chunks@);
            assert forall|a: int| 0 <= a < ps.len() implies #[trigger] ps[a] == ps0[origin[a]] by {}
            assert forall|i: int| 0 <= i < self.chunks@.len() implies grid_wf(
                (#[trigger] self.chunks@[i])@,
            ) by {
                assert(self.chunks@[i] == before.chunks@[origin[i]]);
            }
            let target = before@.restrict(keep@.to_set());
            assert forall|p: ChunkPos| self@.dom().contains(p) <==> target.dom().contains(p) by {
                if ps0.contains(p) && keep@.contains(p) {
                    let j = choose|j: int| 0 <= j < ps0.len() && ps0[j] == p;
                    assert(origin.contains(j));
                    let a = choose|a: int| 0 <= a < origin.len() && origin[a] == j;
                    assert(ps[a] == p);
                }
            }
        }
    }
}

/// Whether `pos` occurs in `list`.
pub fn contains_pos(list: &Vec<ChunkPos>, pos: ChunkPos) -> (b: bool)
    ensures
        b == list@.contains(pos),
{
    let mut i: usize = 0;
    while i < list.len()
        invariant
            i <= list@.len(),
            forall|j: int| 0 <= j < i ==> list@[j] != pos,
        decreases list@.len() - i,
    {
        if list[i].x == pos.x && list[i].y == pos.y {
            return true;
        }
        i += 1;
    }
    false
}

} // verus!
