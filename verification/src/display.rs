//! The monochrome frame buffer and its XOR sprite blitter.

use vstd::pervasive::VecAdditionalExecFns;
use vstd::prelude::*;

verus! {

/// Width of the frame buffer in pixels.
pub const DISPLAY_WIDTH: usize = 64;

/// Height of the frame buffer in pixels.
pub const DISPLAY_HEIGHT: usize = 32;

/// A 64x32 grid of monochrome pixels, stored row-major: the pixel at
/// column `x`, row `y` sits at flat index `x + 64 * y`.
pub struct Display {
    buffer: Vec<bool>,
}

impl View for Display {
    type V = Seq<bool>;

    closed spec fn view(&self) -> Seq<bool> {
        self.buffer@
    }
}

/// `a + b` reduced modulo `m`, written for summands already below `m`.
pub open spec fn add_mod(a: int, b: int, m: int) -> int
    recommends
        0 <= a < m,
        0 <= b < m,
{
    if a + b < m {
        a + b
    } else {
        a + b - m
    }
}

/// `a - b` reduced modulo `m`, written for operands already below `m`.
pub open spec fn sub_mod(a: int, b: int, m: int) -> int
    recommends
        0 <= a < m,
        0 <= b < m,
{
    if a >= b {
        a - b
    } else {
        a + m - b
    }
}

/// Whether bit `b` of sprite row `r` is on; bit 0 is the most significant
/// bit of the row byte, matching the leftmost drawn pixel.
pub open spec fn sprite_bit(sprite: Seq<u8>, r: int, b: int) -> bool
    recommends
        0 <= r < sprite.len(),
        0 <= b < 8,
{
    (sprite[r] >> ((7 - b) as u8)) & 1 == 1
}

/// The flat buffer index that sprite row `r`, bit `b` lands on when the
/// sprite is drawn at `(x, y)`: both summed coordinates wrap around the
/// grid edges.
pub open spec fn pixel_index(x: int, y: int, r: int, b: int) -> int {
    add_mod(x % 64, b, 64) + 64 * add_mod(y % 32, r, 32)
}

/// The value of the pixel at flat index `i` after drawing `sprite` at
/// `(x, y)` over `buf`: if some sprite bit lands there, the pixel is the
/// XOR of its old value with that bit, else it is unchanged.  Because
/// coordinates wrap, the row landing on `i` is recovered by subtracting
/// the origin modulo the grid height, and likewise for the column.
pub open spec fn draw_pixel(buf: Seq<bool>, x: int, y: int, sprite: Seq<u8>, i: int) -> bool
    recommends
        buf.len() == 2048,
        0 <= i < 2048,
{
    let r = sub_mod(i / 64, y % 32, 32);
    let b = sub_mod(i % 64, x % 64, 64);
    if r < sprite.len() && b < 8 {
        buf[i] != sprite_bit(sprite, r, b)
    } else {
        buf[i]
    }
}

/// The whole frame buffer after drawing `sprite` at `(x, y)`.
pub open spec fn draw_buf(buf: Seq<bool>, x: int, y: int, sprite: Seq<u8>) -> Seq<bool> {
    Seq::new(2048, |i: int| draw_pixel(buf, x, y, sprite, i))
}

/// Whether drawing `sprite` at `(x, y)` turns some already-on pixel off,
/// that is, some on sprite bit lands on an on pixel.
pub open spec fn draw_collides(buf: Seq<bool>, x: int, y: int, sprite: Seq<u8>) -> bool {
    exists|r: int, b: int|
        0 <= r < sprite.len() && 0 <= b < 8 && sprite_bit(sprite, r, b) && buf[pixel_index(
            x,
            y,
            r,
            b,
        )]
}

/// Like `draw_collides`, restricted to the sprite bits that precede row
/// `r0`, bit `b0` in drawing order.  Drives the loop invariant of `draw`.
spec fn collides_upto(
    buf: Seq<bool>,
    x: int,
    y: int,
    sprite: Seq<u8>,
    r0: int,
    b0: int,
) -> bool {
    exists|r: int, b: int|
        0 <= r < sprite.len() && 0 <= b < 8 && (r < r0 || (r == r0 && b < b0)) && sprite_bit(
            sprite,
            r,
            b,
        ) && buf[pixel_index(x, y, r, b)]
}

/// Like `draw_pixel`, restricted to the sprite bits that precede row `r0`,
/// bit `b0` in drawing order.  Drives the loop invariant of `draw`.
spec fn draw_pixel_upto(
    buf: Seq<bool>,
    x: int,
    y: int,
    sprite: Seq<u8>,
    r0: int,
    b0: int,
    i: int,
) -> bool
    recommends
        buf.len() == 2048,
        0 <= i < 2048,
{
    let r = sub_mod(i / 64, y % 32, 32);
    let b = sub_mod(i % 64, x % 64, 64);
    if r < sprite.len() && b < 8 && (r < r0 || (r == r0 && b < b0)) {
        buf[i] != sprite_bit(sprite, r, b)
    } else {
        buf[i]
    }
}

/// Round trip from a sprite position to its buffer index and back: the
/// index is in range and decodes to the position it was encoded from.
proof fn lemma_pixel_index_decode(x: int, y: int, r: int, b: int)
    requires
        0 <= x,
        0 <= y,
        0 <= r < 32,
        0 <= b < 8,
    ensures
        0 <= pixel_index(x, y, r, b) < 2048,
        sub_mod(pixel_index(x, y, r, b) / 64, y % 32, 32) == r,
        sub_mod(pixel_index(x, y, r, b) % 64, x % 64, 64) == b,
{
    let x0 = x % 64;
    let y0 = y % 32;
    let col = add_mod(x0, b, 64);
    let row = add_mod(y0, r, 32);
    let i = col + 64 * row;
    assert(0 <= x0 < 64);
    assert(0 <= y0 < 32);
    assert(0 <= col < 64);
    assert(0 <= row < 32);
    vstd::arithmetic::div_mod::lemma_fundamental_div_mod_converse(i, 64, row, col);
    assert(i / 64 == row && i % 64 == col);
}

/// Round trip from a buffer index to a sprite position and back: an index
/// whose decoded position is in range is the index that position encodes
/// to.
proof fn lemma_pixel_index_encode(x: int, y: int, i: int)
    requires
        0 <= x,
        0 <= y,
        0 <= i < 2048,
    ensures
        pixel_index(x, y, sub_mod(i / 64, y % 32, 32), sub_mod(i % 64, x % 64, 64)) == i,
{
    let x0 = x % 64;
    let y0 = y % 32;
    let row = i / 64;
    let col = i % 64;
    assert(0 <= col < 64 && 64 * row + col == i) by {
        vstd::arithmetic::div_mod::lemma_fundamental_div_mod(i, 64);
    }
    assert(0 <= row < 32);
    let r = sub_mod(row, y0, 32);
    let b = sub_mod(col, x0, 64);
    assert(add_mod(y0, r, 32) == row);
    assert(add_mod(x0, b, 64) == col);
}

impl Display {
    /// The buffer always holds exactly one entry per pixel of the grid.
    pub open spec fn wf(&self) -> bool {
        self@.len() == DISPLAY_WIDTH * DISPLAY_HEIGHT
    }

    /// A fresh frame buffer with every pixel off.
    pub fn new() -> (d: Display)
        ensures
            d.wf(),
            forall|i: int| 0 <= i < d@.len() ==> !d@[i],
    {
        Display { buffer: vec![false; DISPLAY_WIDTH * DISPLAY_HEIGHT] }
    }

    /// Turns every pixel off.
    pub fn clear(&mut self)
        ensures
            final(self).wf(),
            forall|i: int| 0 <= i < final(self)@.len() ==> !final(self)@[i],
    {
        self.buffer = vec![false; DISPLAY_WIDTH * DISPLAY_HEIGHT];
    }

    /// The flat buffer index of the pixel at column `x`, row `y`.
    pub fn from_coordinates(&self, x: usize, y: usize) -> (idx: usize)
        requires
            x < DISPLAY_WIDTH,
            y < DISPLAY_HEIGHT,
        ensures
            idx == x + DISPLAY_WIDTH * y,
            idx < DISPLAY_WIDTH * DISPLAY_HEIGHT,
    {
        x + DISPLAY_WIDTH * y
    }

    /// XOR-blits `sprite` at `(x, y)`: row `r`, bit `b` of the sprite lands
    /// on column `(x + b) % 64`, row `(y + r) % 32`, so sprites drawn near
    /// an edge continue on the opposite edge.  Returns whether any on
    /// sprite bit hit an on pixel (a collision).  A sprite is at most one
    /// screen tall (the draw instruction carries its height in a nibble),
    /// so each sprite row lands on a distinct display row.
    #[verifier::loop_isolation(false)]
    pub fn draw(&mut self, x: u8, y: u8, sprite: &[u8]) -> (collision: bool)
        requires
            old(self).wf(),
            sprite@.len() <= DISPLAY_HEIGHT,
        ensures
            final(self).wf(),
            final(self)@ == draw_buf(old(self)@, x as int, y as int, sprite@),
            collision == draw_collides(old(self)@, x as int, y as int, sprite@),
    {
        let ghost buf0 = self@;
        let x0: usize = (x as usize) % DISPLAY_WIDTH;
        let y0: usize = (y as usize) % DISPLAY_HEIGHT;
        let mut collision = false;
        let mut r: usize = 0;
        while r < sprite.len()
            invariant
                r <= sprite@.len(),
                self@.len() == 2048,
                forall|i: int|
                    0 <= i < 2048 ==> #[trigger] self@[i] == draw_pixel_upto(
                        buf0,
                        x as int,
                        y as int,
                        sprite@,
                        r as int,
                        0,
                        i,
                    ),
                collision == collides_upto(buf0, x as int, y as int, sprite@, r as int, 0),
            decreases sprite@.len() - r,
        {
            let row_sum = y0 + r;
            let trow = if row_sum >= DISPLAY_HEIGHT {
                row_sum - DISPLAY_HEIGHT
            } else {
                row_sum
            };
            let block = sprite[r];
            let mut b: usize = 0;
            while b < 8
                invariant
                    r < sprite@.len(),
                    b <= 8,
                    trow == add_mod(y0 as int, r as int, 32),
                    self@.len() == 2048,
                    forall|i: int|
                        0 <= i < 2048 ==> #[trigger] self@[i] == draw_pixel_upto(
                            buf0,
                            x as int,
                            y as int,
                            sprite@,
                            r as int,
                            b as int,
                            i,
                        ),
                    collision == collides_upto(buf0, x as int, y as int, sprite@, r as int, b as int),
                decreases 8 - b,
            {
                let col_sum = x0 + b;
                let tcol = if col_sum >= DISPLAY_WIDTH {
                    col_sum - DISPLAY_WIDTH
                } else {
                    col_sum
                };
                let idx = self.from_coordinates(tcol, trow);
                proof {
                    assert(idx == pixel_index(x as int, y as int, r as int, b as int));
                    lemma_pixel_index_decode(x as int, y as int, r as int, b as int);
                }
                let shift: u8 = (7 - b) as u8;
                let sprite_px = (block >> shift) & 1 == 1;
                let buffer_px = self.buffer[idx];
                proof {
                    assert(sprite_px == sprite_bit(sprite@, r as int, b as int));
                    assert(buffer_px == buf0[idx as int]);
                }
                self.buffer.set(idx, buffer_px != sprite_px);
                if buffer_px && sprite_px {
                    collision = true;
                }
                proof {
                    let xi = x as int;
                    let yi = y as int;
                    let ri = r as int;
                    let bi = b as int;
                    assert forall|i: int| 0 <= i < 2048 implies #[trigger] self@[i]
                        == draw_pixel_upto(buf0, xi, yi, sprite@, ri, bi + 1, i) by {
                        lemma_pixel_index_encode(xi, yi, i);
                    }
                    if buffer_px && sprite_px {
                        assert(collides_upto(buf0, xi, yi, sprite@, ri, bi + 1));
                    } else {
                        assert(collision == collides_upto(buf0, xi, yi, sprite@, ri, bi + 1)) by {
                            if collides_upto(buf0, xi, yi, sprite@, ri, bi + 1) {
                                let (rr, bb) = choose|rr: int, bb: int|
                                    0 <= rr < sprite@.len() && 0 <= bb < 8 && (rr < ri || (rr == ri
                                        && bb < bi + 1)) && sprite_bit(sprite@, rr, bb)
                                        && buf0[pixel_index(xi, yi, rr, bb)];
                                assert(!(rr == ri && bb == bi));
                                assert(collides_upto(buf0, xi, yi, sprite@, ri, bi));
                            }
                        }
                    }
                }
                b = b + 1;
            }
            proof {
                let xi = x as int;
                let yi = y as int;
                let ri = r as int;
                assert forall|i: int| 0 <= i < 2048 implies draw_pixel_upto(
                    buf0,
                    xi,
                    yi,
                    sprite@,
                    ri,
                    8,
                    i,
                ) == draw_pixel_upto(buf0, xi, yi, sprite@, ri + 1, 0, i) by {}
                assert(collides_upto(buf0, xi, yi, sprite@, ri, 8) == collides_upto(
                    buf0,
                    xi,
                    yi,
                    sprite@,
                    ri + 1,
                    0,
                )) by {
                    if collides_upto(buf0, xi, yi, sprite@, ri, 8) {
                        assert(collides_upto(buf0, xi, yi, sprite@, ri + 1, 0));
                    }
                    if collides_upto(buf0, xi, yi, sprite@, ri + 1, 0) {
                        assert(collides_upto(buf0, xi, yi, sprite@, ri, 8));
                    }
                }
            }
            r = r + 1;
        }
        proof {
            let xi = x as int;
            let yi = y as int;
            let n = sprite@.len() as int;
            assert(self@ =~= draw_buf(buf0, xi, yi, sprite@));
            assert(collision == draw_collides(buf0, xi, yi, sprite@)) by {
                if collides_upto(buf0, xi, yi, sprite@, n, 0) {
                    assert(draw_collides(buf0, xi, yi, sprite@));
                }
                if draw_collides(buf0, xi, yi, sprite@) {
                    assert(collides_upto(buf0, xi, yi, sprite@, n, 0));
                }
            }
        }
        collision
    }

    /// Reads the pixel at column `x`, row `y`.
    pub fn pixel(&self, x: usize, y: usize) -> (on: bool)
        requires
            self.wf(),
            x < DISPLAY_WIDTH,
            y < DISPLAY_HEIGHT,
        ensures
            on == self@[x + DISPLAY_WIDTH * y],
    {
        let idx = self.from_coordinates(x, y);
        self.buffer[idx]
    }
}

} // verus!
