//! The streaming policy and the world it keeps up to date.
//!
//! Around a focus chunk lie three concentric squares of chunks, one for each
//! priority. When the focus moves, the world materializes every chunk of the
//! largest square, discards the others, and lists the texture requests to be
//! made: the innermost square first, each square row by row.

use vstd::prelude::*;
use vstd::string::StringExecFns;
use crate::chunk::{grid_wf, ChunkStore};
use crate::config;
use crate::texture::{LoadStep, TextureManager};
use crate::types::{ChunkPos, LoadPriority};

verus! {

/// Largest radius a streaming policy may use.
pub const MAX_CHUNKS_RADIUS: i32 = 1024;

/// The decimal digit for `d`.
pub open spec fn digit(d: int) -> char {
    if d == 0 {
        '0'
    } else if d == 1 {
        '1'
    } else if d == 2 {
        '2'
    } else if d == 3 {
        '3'
    } else if d == 4 {
        '4'
    } else if d == 5 {
        '5'
    } else if d == 6 {
        '6'
    } else if d == 7 {
        '7'
    } else if d == 8 {
        '8'
    } else {
        '9'
    }
}

/// The decimal digits of the natural number `n`, without leading zeros.
pub open spec fn digits(n: nat) -> Seq<char>
    decreases n,
{
    if n < 10 {
        seq![digit(n as int)]
    } else {
        digits(n / 10).push(digit((n % 10) as int))
    }
}

/// The decimal text of `v`, with a minus sign if it is negative.
pub open spec fn decimal(v: int) -> Seq<char> {
    if v < 0 {
        seq!['-'] + digits((-v) as nat)
    } else {
        digits(v as nat)
    }
}

/// The id of the texture of the chunk at `pos`: the word `chunk`, then the
/// two coordinates in decimal, each after an underscore.
pub open spec fn chunk_id_text(pos: ChunkPos) -> Seq<char> {
    seq!['c', 'h', 'u', 'n', 'k', '_'] + decimal(pos.x as int) + seq!['_'] + decimal(pos.y as int)
}

/// Whether `c` is a decimal digit.
pub open spec fn is_digit(c: char) -> bool {
    exists|d: int| 0 <= d <= 9 && c == digit(d)
}

/// The digits of a number are at least one, and all of them are digits.
pub proof fn lemma_digits_shape(n: nat)
    ensures
        digits(n).len() >= 1,
        n >= 10 ==> digits(n).len() >= 2,
        forall|i: int| 0 <= i < digits(n).len() ==> is_digit(#[trigger] digits(n)[i]),
    decreases n,
{
    if n >= 10 {
        lemma_digits_shape(n / 10);
    }
}

/// Different numbers have different digits.
pub proof fn lemma_digits_injective(a: nat, b: nat)
    requires
        digits(a) == digits(b),
    ensures
        a == b,
    decreases a,
{
    lemma_digits_shape(a);
    lemma_digits_shape(b);
    if a < 10 && b < 10 {
        assert(digits(a)[0] == digit(a as int));
    } else if a >= 10 && b >= 10 {
        let last = digits(a).len() - 1;
        assert(digits(a)[last] == digit((a % 10) as int));
        assert(digits(a / 10) =~= digits(a).drop_last());
        assert(digits(b / 10) =~= digits(b).drop_last());
        lemma_digits_injective(a / 10, b / 10);
    }
}

/// The decimal text of a number is not empty and holds no underscore, and
/// different numbers have different texts.
pub proof fn lemma_decimal_shape(v: int)
    ensures
        decimal(v).len() >= 1,
        forall|i: int| 0 <= i < decimal(v).len() ==> #[trigger] decimal(v)[i] != '_',
        v >= 0 ==> decimal(v)[0] != '-',
        v < 0 ==> decimal(v)[0] == '-',
{
    if v < 0 {
        lemma_digits_shape((-v) as nat);
    } else {
        lemma_digits_shape(v as nat);
    }
}

/// Different numbers have different decimal texts.
pub proof fn lemma_decimal_injective(a: int, b: int)
    requires
        decimal(a) == decimal(b),
    ensures
        a == b,
{
    lemma_decimal_shape(a);
    lemma_decimal_shape(b);
    if a < 0 {
        assert(digits((-a) as nat) =~= decimal(a).drop_first());
        assert(digits((-b) as nat) =~= decimal(b).drop_first());
        lemma_digits_injective((-a) as nat, (-b) as nat);
    } else {
        lemma_digits_injective(a as nat, b as nat);
    }
}

/// Naming. Different chunks have different texture ids.
pub proof fn lemma_chunk_ids_differ(p: ChunkPos, q: ChunkPos)
    requires
        chunk_id_text(p) == chunk_id_text(q),
    ensures
        p == q,
{
    let px = decimal(p.x as int);
    let py = decimal(p.y as int);
    let qx = decimal(q.x as int);
    let qy = decimal(q.y as int);
    let s = chunk_id_text(p);
    let m = px.len() as int;
    lemma_decimal_shape(p.x as int);
    lemma_decimal_shape(p.y as int);
    lemma_decimal_shape(q.x as int);
    lemma_decimal_shape(q.y as int);
    assert(s.len() == 6 + px.len() + 1 + py.len());
    // The first underscore after the head ends the first coordinate.
    assert(s[6 + m] == '_');
    assert forall|i: int| 0 <= i < px.len() implies px[i] == qx[i] by {
        assert(s[6 + i] == px[i]);
    }
    assert(px =~= qx);
    assert forall|i: int| 0 <= i < py.len() implies py[i] == qy[i] by {
        assert(s[6 + m + 1 + i] == py[i]);
    }
    assert(py =~= qy);
    lemma_decimal_injective(p.x as int, q.x as int);
    lemma_decimal_injective(p.y as int, q.y as int);
}

/// The text of the decimal digit `d`.
fn digit_text(d: u8) -> (text: &'static str)
    requires
        d <= 9,
    ensures
        text@ == seq![digit(d as int)],
{
    proof {
        reveal_strlit("0");
        reveal_strlit("1");
        reveal_strlit("2");
        reveal_strlit("3");
        reveal_strlit("4");
        reveal_strlit("5");
        reveal_strlit("6");
        reveal_strlit("7");
        reveal_strlit("8");
        reveal_strlit("9");
    }
    let text = if d == 0 {
        "0"
    } else if d == 1 {
        "1"
    } else if d == 2 {
        "2"
    } else if d == 3 {
        "3"
    } else if d == 4 {
        "4"
    } else if d == 5 {
        "5"
    } else if d == 6 {
        "6"
    } else if d == 7 {
        "7"
    } else if d == 8 {
        "8"
    } else {
        "9"
    };
    text
}

/// The digits in `low`, which holds them least significant first, as text.
pub open spec fn digits_text(low: Seq<u8>) -> Seq<char> {
    Seq::new(low.len(), |i: int| digit(low[low.len() - 1 - i] as int))
}

/// Appends the decimal text of `v` to `out`.
pub fn push_decimal(out: &mut String, v: i32)
    ensures
        final(out)@ == old(out)@ + decimal(v as int),
{
    let mut n: u64 = if v < 0 {
        proof {
            reveal_strlit("-");
        }
        out.append("-");
        (-(v as i64)) as u64
    } else {
        v as u64
    };
    let ghost start = out@;
    let ghost whole = n as nat;
    // The digits of the number, least significant first.
    let mut low: Vec<u8> = Vec::new();
    while n >= 10
        invariant
            digits(whole) == digits(n as nat) + digits_text(low@),
            forall|i: int| 0 <= i < low@.len() ==> #[trigger] low@[i] <= 9,
        decreases n,
    {
        let ghost before = low@;
        low.push((n % 10) as u8);
        proof {
            assert(digits(n as nat) + digits_text(before) =~= digits((n / 10) as nat)
                + digits_text(low@));
        }
        n = n / 10;
    }
    low.push(n as u8);
    let mut i: usize = low.len();
    while i > 0
        invariant
            i <= low@.len(),
            forall|j: int| 0 <= j < low@.len() ==> #[trigger] low@[j] <= 9,
            out@ == start + digits_text(low@).take(low@.len() - i),
        decreases i,
    {
        i -= 1;
        out.append(digit_text(low[i]));
    }
}

/// The id of the texture of the chunk at `pos`.
pub fn chunk_id(pos: ChunkPos) -> (id: String)
    ensures
        id@ == chunk_id_text(pos),
{
    proof {
        reveal_strlit("chunk_");
        reveal_strlit("_");
    }
    let mut id = String::from_str("chunk_");
    push_decimal(&mut id, pos.x);
    id.append("_");
    push_decimal(&mut id, pos.y);
    id
}

/// A request for the texture of one chunk.
#[derive(Debug, Clone, Copy, PartialEq, Eq, Structural)]
pub struct ChunkRequest {
    pub pos: ChunkPos,
    pub priority: LoadPriority,
}

/// The number of chunks along one edge of the square of radius `radius`.
pub open spec fn ring_width(radius: int) -> int {
    2 * radius + 1
}

/// The number of chunks in the square of radius `radius`.
pub open spec fn ring_len(radius: int) -> int {
    ring_width(radius) * ring_width(radius)
}

/// The `i`-th chunk, row by row, of the square of radius `radius` around
/// `center`.
pub open spec fn ring_pos(center: ChunkPos, radius: int, i: int) -> ChunkPos {
    ChunkPos {
        x: (center.x - radius + i % ring_width(radius)) as i32,
        y: (center.y - radius + i / ring_width(radius)) as i32,
    }
}

/// The requests for the square of radius `radius` around `center`, row by
/// row, all at `priority`.
pub open spec fn ring(center: ChunkPos, radius: int, priority: LoadPriority) -> Seq<ChunkRequest> {
    Seq::new(
        ring_len(radius) as nat,
        |i: int| ChunkRequest { pos: ring_pos(center, radius, i), priority },
    )
}

/// Whether `pos` lies in the square of radius `radius` around `center`.
pub open spec fn in_square(center: ChunkPos, radius: int, pos: ChunkPos) -> bool {
    &&& center.x - radius <= pos.x <= center.x + radius
    &&& center.y - radius <= pos.y <= center.y + radius
}

/// Whether the square of radius `radius` around `center` lies within the
/// chunk grid.
pub open spec fn square_fits(center: ChunkPos, radius: int) -> bool {
    &&& i32::MIN <= center.x - radius
    &&& center.x + radius <= i32::MAX
    &&& i32::MIN <= center.y - radius
    &&& center.y + radius <= i32::MAX
}

/// The position of a cell in a row-major grid determines its row and column.
pub proof fn lemma_row_major(width: int, row: int, column: int)
    requires
        0 <= column < width,
    ensures
        (row * width + column) / width == row,
        (row * width + column) % width == column,
{
    vstd::arithmetic::div_mod::lemma_fundamental_div_mod_converse(
        row * width + column,
        width,
        row,
        column,
    );
}

/// A square of radius `radius` has `(2 * radius + 1)` squared chunks: each
/// chunk of the square is requested exactly once, and nothing else is.
pub proof fn lemma_ring_is_square(center: ChunkPos, radius: int, priority: LoadPriority)
    requires
        0 <= radius,
        square_fits(center, radius),
    ensures
        ring(center, radius, priority).len() == (2 * radius + 1) * (2 * radius + 1),
        forall|i: int|
            0 <= i < ring(center, radius, priority).len() ==> in_square(
                center,
                radius,
                (#[trigger] ring(center, radius, priority)[i]).pos,
            ),
        forall|pos: ChunkPos| #[trigger]
            in_square(center, radius, pos) ==> {
                let i = (pos.y - (center.y - radius)) * ring_width(radius) + (pos.x - (center.x
                    - radius));
                0 <= i < ring(center, radius, priority).len() && ring(center, radius, priority)[i].pos
                    == pos
            },
        forall|i: int, j: int|
            0 <= i < j < ring(center, radius, priority).len() ==> (#[trigger] ring(
                center,
                radius,
                priority,
            )[i]).pos != (#[trigger] ring(center, radius, priority)[j]).pos,
{
    let w = ring_width(radius);
    let r = ring(center, radius, priority);
    assert(w * w >= 0) by (nonlinear_arith)
        requires
            w >= 1,
    ;
    assert forall|i: int| 0 <= i < r.len() implies in_square(center, radius, (#[trigger] r[i]).pos) by {
        lemma_cell(w, i);
    }
    assert forall|pos: ChunkPos| #[trigger] in_square(center, radius, pos) implies {
        let i = (pos.y - (center.y - radius)) * w + (pos.x - (center.x - radius));
        0 <= i < r.len() && r[i].pos == pos
    } by {
        let row = pos.y - (center.y - radius);
        let column = pos.x - (center.x - radius);
        lemma_row_major(w, row, column);
        assert(0 <= row * w + column < w * w) by (nonlinear_arith)
            requires
                0 <= row < w,
                0 <= column < w,
        ;
    }
    assert forall|i: int, j: int| 0 <= i < j < r.len() implies (#[trigger] r[i]).pos != (
    #[trigger] r[j]).pos by {
        lemma_cell(w, i);
        lemma_cell(w, j);
        vstd::arithmetic::div_mod::lemma_fundamental_div_mod(i, w);
        vstd::arithmetic::div_mod::lemma_fundamental_div_mod(j, w);
    }
}

/// The row and the column of cell `i` of a square grid lie within it.
pub proof fn lemma_cell(width: int, i: int)
    requires
        0 < width,
        0 <= i < width * width,
    ensures
        0 <= i % width < width,
        0 <= i / width < width,
{
    vstd::arithmetic::div_mod::lemma_fundamental_div_mod(i, width);
    vstd::arithmetic::div_mod::lemma_mod_bound(i, width);
    let q = i / width;
    assert(0 <= q < width) by (nonlinear_arith)
        requires
            0 < width,
            0 <= i < width * width,
            i == width * q + i % width,
            0 <= i % width < width,
    ;
}

/// A larger square contains every chunk of a smaller one around the same
/// centre.
pub proof fn lemma_rings_nested(center: ChunkPos, inner: int, outer: int, pos: ChunkPos)
    requires
        0 <= inner <= outer,
        in_square(center, inner, pos),
    ensures
        in_square(center, outer, pos),
{
}

/// Appends to `out` the requests for the square of radius `radius` around
/// `center`.
pub fn push_ring(out: &mut Vec<ChunkRequest>, center: ChunkPos, radius: i32, priority: LoadPriority)
    requires
        0 <= radius <= MAX_CHUNKS_RADIUS,
        square_fits(center, radius as int),
    ensures
        final(out)@ == old(out)@ + ring(center, radius as int, priority),
{
    let ghost target = ring(center, radius as int, priority);
    let ghost w = ring_width(radius as int);
    let mut dy: i32 = -radius;
    assert((dy + radius) * w == 0) by (nonlinear_arith)
        requires
            dy + radius == 0,
    ;
    while dy <= radius
        invariant
            0 <= radius <= MAX_CHUNKS_RADIUS,
            square_fits(center, radius as int),
            -radius <= dy <= radius + 1,
            target == ring(center, radius as int, priority),
            w == ring_width(radius as int),
            target.len() == w * w,
            out@ == old(out)@ + target.take((dy + radius) * w),
        decreases radius + 1 - dy,
    {
        let mut dx: i32 = -radius;
        while dx <= radius
            invariant
                0 <= radius <= MAX_CHUNKS_RADIUS,
                square_fits(center, radius as int),
                -radius <= dy <= radius,
                -radius <= dx <= radius + 1,
                target == ring(center, radius as int, priority),
                w == ring_width(radius as int),
                target.len() == w * w,
                out@ == old(out)@ + target.take((dy + radius) * w + (dx + radius)),
            decreases radius + 1 - dx,
        {
            let ghost i = (dy + radius) * w + (dx + radius);
            proof {
                lemma_row_major(w, (dy + radius) as int, (dx + radius) as int);
                assert(0 <= i < w * w) by (nonlinear_arith)
                    requires
                        i == (dy + radius) * w + (dx + radius),
                        0 <= dy + radius < w,
                        0 <= dx + radius < w,
                ;
            }
            let request = ChunkRequest {
                pos: ChunkPos { x: center.x + dx, y: center.y + dy },
                priority,
            };
            out.push(request);
            dx += 1;
        }
        assert((dy + radius) * w + (radius + 1 + radius) == (dy + 1 + radius) * w)
            by (nonlinear_arith)
            requires
                w == 2 * radius + 1,
        ;
        dy += 1;
    }
    assert((radius + 1 + radius) * w == w * w) by (nonlinear_arith)
        requires
            w == 2 * radius + 1,
    ;
}

/// The three radii of the streaming squares.
#[derive(Debug, Clone, Copy, PartialEq, Eq, Structural)]
pub struct StreamingPolicy {
    /// Chunks this near the focus are requested at `Immediate` priority.
    pub visible_radius: i32,
    /// Chunks this near are requested at `Preload` priority.
    pub preload_radius: i32,
    /// Chunks this near are requested at `Cache` priority and kept alive.
    pub cache_radius: i32,
}

impl StreamingPolicy {
    /// The radii grow from the inside out and stay within the limit.
    pub open spec fn wf(self) -> bool {
        0 <= self.visible_radius < self.preload_radius < self.cache_radius <= MAX_CHUNKS_RADIUS
    }

    /// A policy with the given radii, if they grow from the inside out and
    /// stay within the limit.
    pub fn new(visible_radius: i32, preload_radius: i32, cache_radius: i32) -> (policy: Option<Self>)
        ensures
            policy == (if (StreamingPolicy { visible_radius, preload_radius, cache_radius }).wf() {
                Some(StreamingPolicy { visible_radius, preload_radius, cache_radius })
            } else {
                None
            }),
    {
        if 0 <= visible_radius && visible_radius < preload_radius && preload_radius < cache_radius
            && cache_radius <= MAX_CHUNKS_RADIUS {
            Some(StreamingPolicy { visible_radius, preload_radius, cache_radius })
        } else {
            None
        }
    }

    /// The policy of the configuration.
    pub open spec fn standard_policy() -> Self {
        StreamingPolicy {
            visible_radius: config::VISIBLE_CHUNKS_RADIUS,
            preload_radius: config::PRELOAD_CHUNKS_RADIUS,
            cache_radius: config::CACHE_CHUNKS_RADIUS,
        }
    }

    /// The policy of the configuration.
    pub fn standard() -> (policy: Self)
        ensures
            policy.wf(),
            policy == Self::standard_policy(),
    {
        StreamingPolicy {
            visible_radius: config::VISIBLE_CHUNKS_RADIUS,
            preload_radius: config::PRELOAD_CHUNKS_RADIUS,
            cache_radius: config::CACHE_CHUNKS_RADIUS,
        }
    }

    /// Whether every square around `center` lies within the chunk grid.
    pub open spec fn covers(self, center: ChunkPos) -> bool {
        square_fits(center, self.cache_radius as int)
    }

    /// Computes `covers`.
    pub fn can_stream(&self, center: ChunkPos) -> (b: bool)
        requires
            self.wf(),
        ensures
            b == self.covers(center),
    {
        let r = self.cache_radius;
        center.x >= i32::MIN + r && center.x <= i32::MAX - r && center.y >= i32::MIN + r && center.y
            <= i32::MAX - r
    }

    /// The requests of one streaming pass around `center`, in the order in
    /// which they are made: the `Immediate` square first, then the `Preload`
    /// square, then the `Cache` square, each row by row. The squares overlap:
    /// a chunk of an inner square is requested again with each outer one.
    pub open spec fn plan(self, center: ChunkPos) -> Seq<ChunkRequest> {
        ring(center, self.visible_radius as int, LoadPriority::Immediate) + ring(
            center,
            self.preload_radius as int,
            LoadPriority::Preload,
        ) + ring(center, self.cache_radius as int, LoadPriority::Cache)
    }

    /// Computes `plan`.
    pub fn requests(&self, center: ChunkPos) -> (requests: Vec<ChunkRequest>)
        requires
            self.wf(),
            self.covers(center),
        ensures
            requests@ == self.plan(center),
    {
        let mut requests: Vec<ChunkRequest> = Vec::new();
        push_ring(&mut requests, center, self.visible_radius, LoadPriority::Immediate);
        push_ring(&mut requests, center, self.preload_radius, LoadPriority::Preload);
        push_ring(&mut requests, center, self.cache_radius, LoadPriority::Cache);
        requests
    }

    /// The chunks that a pass around `center` asks for are those of the
    /// largest square.
    pub proof fn lemma_plan_covers(self, center: ChunkPos, pos: ChunkPos)
        requires
            self.wf(),
            self.covers(center),
        ensures
            in_square(center, self.cache_radius as int, pos) <==> exists|i: int|
                0 <= i < self.plan(center).len() && (#[trigger] self.plan(center)[i]).pos == pos,
    {
        let a = ring(center, self.visible_radius as int, LoadPriority::Immediate);
        let b = ring(center, self.preload_radius as int, LoadPriority::Preload);
        let c = ring(center, self.cache_radius as int, LoadPriority::Cache);
        let plan = self.plan(center);
        lemma_ring_is_square(center, self.visible_radius as int, LoadPriority::Immediate);
        lemma_ring_is_square(center, self.preload_radius as int, LoadPriority::Preload);
        lemma_ring_is_square(center, self.cache_radius as int, LoadPriority::Cache);
        if in_square(center, self.cache_radius as int, pos) {
            let i = (pos.y - (center.y - self.cache_radius)) * ring_width(self.cache_radius as int)
                + (pos.x - (center.x - self.cache_radius));
            assert(plan[a.len() + b.len() + i] == c[i]);
        }
        if exists|i: int| 0 <= i < plan.len() && (#[trigger] plan[i]).pos == pos {
            let i = choose|i: int| 0 <= i < plan.len() && (#[trigger] plan[i]).pos == pos;
            if i < a.len() {
                lemma_rings_nested(center, self.visible_radius as int, self.cache_radius as int, pos);
            } else if i < a.len() + b.len() {
                lemma_rings_nested(center, self.preload_radius as int, self.cache_radius as int, pos);
            }
        }
    }
}

/// The world: the materialized chunks and the texture cache.
pub struct World<T> {
    pub chunks: ChunkStore,
    pub texture_manager: TextureManager<T>,
}

impl<T> World<T> {
    /// Both parts are sound.
    pub open spec fn wf(&self) -> bool {
        self.chunks.wf() && self.texture_manager.wf()
    }

    /// A world without chunks around the given texture manager.
    pub fn new(texture_manager: TextureManager<T>) -> (world: Self)
        requires
            texture_manager.wf(),
        ensures
            world.wf(),
            world.chunks@ == Map::<ChunkPos, Seq<Seq<u32>>>::empty(),
            world.texture_manager == texture_manager,
    {
        World { chunks: ChunkStore::new(), texture_manager }
    }

    /// Makes one request of a streaming pass: asks the texture cache for the
    /// texture of the chunk, at the priority of the request and at time
    /// `now`. The chunks are not touched.
    pub fn request(&mut self, request: ChunkRequest, now: u64) -> (step: LoadStep<T>)
        requires
            old(self).wf(),
        ensures
            final(self).wf(),
            final(self).chunks == old(self).chunks,
            final(self).texture_manager@ == old(self).texture_manager@.request(
                chunk_id_text(request.pos),
                request.priority,
                now,
            ),
            step.answers(old(self).texture_manager@, chunk_id_text(request.pos), request.priority),
    {
        let id = chunk_id(request.pos);
        self.texture_manager.ensure_loaded(id.as_str(), request.priority, now)
    }

    /// Moves the focus to `center` under the policy of the configuration.
    pub fn update(&mut self, center: ChunkPos) -> (requests: Vec<ChunkRequest>)
        requires
            old(self).wf(),
            StreamingPolicy::standard_policy().covers(center),
        ensures
            final(self).wf(),
            final(self).texture_manager == old(self).texture_manager,
            requests@ == StreamingPolicy::standard_policy().plan(center),
            forall|pos: ChunkPos|
                final(self).chunks@.dom().contains(pos) <==> in_square(
                    center,
                    config::CACHE_CHUNKS_RADIUS as int,
                    pos,
                ),
            forall|pos: ChunkPos|
                old(self).chunks@.dom().contains(pos) && final(self).chunks@.dom().contains(pos)
                    ==> final(self).chunks@[pos] == old(self).chunks@[pos],
            forall|pos: ChunkPos|
                final(self).chunks@.dom().contains(pos) ==> grid_wf(#[trigger] final(self).chunks@[pos]),
    {
        let policy = StreamingPolicy::standard();
        self.update_with(center, &policy)
    }

    /// Moves the focus to `center`.
    ///
    /// Every chunk of the largest square around `center` is materialized,
    /// the existing ones as they are, and every other chunk is discarded. The
    /// texture cache is not touched: the result lists the requests that the
    /// caller has to make of it, in order.
    pub fn update_with(&mut self, center: ChunkPos, policy: &StreamingPolicy) -> (requests: Vec<
        ChunkRequest,
    >)
        requires
            old(self).wf(),
            policy.wf(),
            policy.covers(center),
        ensures
            final(self).wf(),
            final(self).texture_manager == old(self).texture_manager,
            requests@ == policy.plan(center),
            forall|pos: ChunkPos|
                final(self).chunks@.dom().contains(pos) <==> in_square(
                    center,
                    policy.cache_radius as int,
                    pos,
                ),
            forall|pos: ChunkPos|
                old(self).chunks@.dom().contains(pos) && final(self).chunks@.dom().contains(pos)
                    ==> final(self).chunks@[pos] == old(self).chunks@[pos],
            forall|pos: ChunkPos|
                final(self).chunks@.dom().contains(pos) ==> grid_wf(#[trigger] final(self).chunks@[pos]),
    {
        let requests = policy.requests(center);
        let ghost plan = policy.plan(center);
        let ghost before = self.chunks@;
        let mut chunks_to_keep: Vec<ChunkPos> = Vec::new();
        let mut i: usize = 0;
        while i < requests.len()
            invariant
                i <= requests@.len(),
                requests@ == plan,
                self.chunks.wf(),
                self.texture_manager == old(self).texture_manager,
                before == old(self).chunks@,
                chunks_to_keep@.len() == i,
                forall|j: int| 0 <= j < i ==> #[trigger] chunks_to_keep@[j] == plan[j].pos,
                forall|j: int| 0 <= j < i ==> self.chunks@.dom().contains(#[trigger] plan[j].pos),
                forall|pos: ChunkPos| before.dom().contains(pos) ==> self.chunks@.dom().contains(pos),
                forall|pos: ChunkPos|
                    before.dom().contains(pos) ==> #[trigger] self.chunks@[pos] == before[pos],
            decreases requests@.len() - i,
        {
            let pos = requests[i].pos;
            chunks_to_keep.push(pos);
            let _ = self.chunks.get_or_create(pos);
            i += 1;
        }
        self.chunks.retain(&chunks_to_keep);
        proof {
            self.chunks.lemma_wf_view();
            assert forall|pos: ChunkPos|
                self.chunks@.dom().contains(pos) <==> in_square(
                    center,
                    policy.cache_radius as int,
                    pos,
                ) by {
                policy.lemma_plan_covers(center, pos);
                if in_square(center, policy.cache_radius as int, pos) {
                    let j = choose|j: int| 0 <= j < plan.len() && (#[trigger] plan[j]).pos == pos;
                    assert(chunks_to_keep@[j] == pos);
                }
            }
        }
        requests
    }
}

} // verus!
