//! The 64x32 monochrome display surface.
//!
//! Sprites are drawn by XOR, eight pixels per sprite byte, most
//! significant bit leftmost.  Coordinates wrap modulo the grid size
//! rather than clipping.  The collision flag is cleared before a draw and
//! then OR-accumulated over every bit drawn: it reports whether any set
//! sprite bit landed on a pixel that was already lit.

use vstd::prelude::*;

use crate::cpu::Ram;
use crate::nybble::Nybble;

verus! {

pub const SCREEN_WIDTH: usize = 64;
pub const SCREEN_HEIGHT: usize = 32;

/// Bit `j` (0 = leftmost) of a sprite byte.
pub open spec fn spec_sprite_bit(b: u8, j: int) -> bool {
    (b >> ((7 - j) as u8)) & 1 == 1
}

/// Whether some sprite bit among the first `bi` bytes plus `bj` bits of
/// byte `bi` is set and lands on pixel (rr, cc), after wrapping.
pub open spec fn spec_hits_upto(
    sprite: Seq<u8>,
    x: u8,
    y: u8,
    rr: int,
    cc: int,
    bi: int,
    bj: int,
) -> bool {
    exists|i: int, j: int|
        #![trigger spec_sprite_bit(sprite[i], j)]
        0 <= i < sprite.len() && 0 <= j < 8 && (i < bi || (i == bi && j < bj)) && rr == (y + i) % 32
            && cc == (x + j) % 64 && spec_sprite_bit(sprite[i], j)
}

/// Whether some set sprite bit lands on pixel (rr, cc).
pub open spec fn spec_hits(sprite: Seq<u8>, x: u8, y: u8, rr: int, cc: int) -> bool {
    spec_hits_upto(sprite, x, y, rr, cc, sprite.len() as int, 0)
}

/// Whether some set sprite bit among the first `bi` bytes plus `bj` bits
/// of byte `bi` lands on a pixel of `screen` that is already lit.
pub open spec fn spec_coll_upto(
    screen: Seq<Seq<bool>>,
    sprite: Seq<u8>,
    x: u8,
    y: u8,
    bi: int,
    bj: int,
) -> bool {
    exists|i: int, j: int|
        #![trigger spec_sprite_bit(sprite[i], j)]
        0 <= i < sprite.len() && 0 <= j < 8 && (i < bi || (i == bi && j < bj))
            && spec_sprite_bit(sprite[i], j) && screen[(y + i) % 32][(x + j) % 64]
}

/// Whether drawing this sprite overlaps a lit pixel of `screen`.
pub open spec fn spec_collision(screen: Seq<Seq<bool>>, sprite: Seq<u8>, x: u8, y: u8) -> bool {
    spec_coll_upto(screen, sprite, x, y, sprite.len() as int, 0)
}

/// The screen after drawing the first `bi` bytes plus `bj` bits of byte
/// `bi`: every pixel hit so far is toggled, every other pixel keeps its
/// value.
pub open spec fn spec_draw_upto(
    screen: Seq<Seq<bool>>,
    sprite: Seq<u8>,
    x: u8,
    y: u8,
    bi: int,
    bj: int,
) -> Seq<Seq<bool>> {
    Seq::new(
        32,
        |rr: int|
            Seq::new(
                64,
                |cc: int| screen[rr][cc] != spec_hits_upto(sprite, x, y, rr, cc, bi, bj),
            ),
    )
}

/// The screen after drawing the whole sprite: every pixel hit by a set
/// sprite bit is toggled, every other pixel keeps its value.
pub open spec fn spec_draw(screen: Seq<Seq<bool>>, sprite: Seq<u8>, x: u8, y: u8) -> Seq<
    Seq<bool>,
> {
    spec_draw_upto(screen, sprite, x, y, sprite.len() as int, 0)
}

/// An all-dark screen.
pub open spec fn spec_blank_screen() -> Seq<Seq<bool>> {
    Seq::new(32, |rr: int| Seq::new(64, |cc: int| false))
}

proof fn lemma_wrap_inj32(base: int, a: int, b: int)
    requires
        0 <= base < 32,
        0 <= a < 32,
        0 <= b < 32,
        (base + a) % 32 == (base + b) % 32,
    ensures
        a == b,
{
}

proof fn lemma_wrap_inj64(base: int, a: int, b: int)
    requires
        0 <= base < 64,
        0 <= a < 64,
        0 <= b < 64,
        (base + a) % 64 == (base + b) % 64,
    ensures
        a == b,
{
}

/// Extending the processed range by one bit adds exactly the pixel that
/// bit lands on.
proof fn lemma_hits_step(sprite: Seq<u8>, x: u8, y: u8, rr: int, cc: int, bi: int, bj: int)
    requires
        0 <= bi < sprite.len(),
        0 <= bj < 8,
    ensures
        spec_hits_upto(sprite, x, y, rr, cc, bi, bj + 1) == (spec_hits_upto(
            sprite,
            x,
            y,
            rr,
            cc,
            bi,
            bj,
        ) || (rr == (y + bi) % 32 && cc == (x + bj) % 64 && spec_sprite_bit(sprite[bi], bj))),
{
    if spec_hits_upto(sprite, x, y, rr, cc, bi, bj + 1) {
        let (i, j) = choose|i: int, j: int|
            0 <= i < sprite.len() && 0 <= j < 8 && (i < bi || (i == bi && j < bj + 1)) && rr == (y
                + i) % 32 && cc == (x + j) % 64 && spec_sprite_bit(sprite[i], j);
        if i < bi || (i == bi && j < bj) {
            assert(spec_hits_upto(sprite, x, y, rr, cc, bi, bj));
        } else {
            assert(i == bi && j == bj);
        }
    }
    if spec_hits_upto(sprite, x, y, rr, cc, bi, bj) {
        let (i, j) = choose|i: int, j: int|
            0 <= i < sprite.len() && 0 <= j < 8 && (i < bi || (i == bi && j < bj)) && rr == (y + i)
                % 32 && cc == (x + j) % 64 && spec_sprite_bit(sprite[i], j);
        assert(spec_hits_upto(sprite, x, y, rr, cc, bi, bj + 1));
    }
    if rr == (y + bi) % 32 && cc == (x + bj) % 64 && spec_sprite_bit(sprite[bi], bj) {
        assert(spec_hits_upto(sprite, x, y, rr, cc, bi, bj + 1));
    }
}

/// The collision analogue of `lemma_hits_step`.
proof fn lemma_coll_step(
    screen: Seq<Seq<bool>>,
    sprite: Seq<u8>,
    x: u8,
    y: u8,
    bi: int,
    bj: int,
)
    requires
        0 <= bi < sprite.len(),
        0 <= bj < 8,
    ensures
        spec_coll_upto(screen, sprite, x, y, bi, bj + 1) == (spec_coll_upto(
            screen,
            sprite,
            x,
            y,
            bi,
            bj,
        ) || (spec_sprite_bit(sprite[bi], bj) && screen[(y + bi) % 32][(x + bj) % 64])),
{
    if spec_coll_upto(screen, sprite, x, y, bi, bj + 1) {
        let (i, j) = choose|i: int, j: int|
            0 <= i < sprite.len() && 0 <= j < 8 && (i < bi || (i == bi && j < bj + 1))
                && spec_sprite_bit(sprite[i], j) && screen[(y + i) % 32][(x + j) % 64];
        if i < bi || (i == bi && j < bj) {
            assert(spec_coll_upto(screen, sprite, x, y, bi, bj));
        } else {
            assert(i == bi && j == bj);
        }
    }
    if spec_coll_upto(screen, sprite, x, y, bi, bj) {
        let (i, j) = choose|i: int, j: int|
            0 <= i < sprite.len() && 0 <= j < 8 && (i < bi || (i == bi && j < bj))
                && spec_sprite_bit(sprite[i], j) && screen[(y + i) % 32][(x + j) % 64];
        assert(spec_coll_upto(screen, sprite, x, y, bi, bj + 1));
    }
    if spec_sprite_bit(sprite[bi], bj) && screen[(y + bi) % 32][(x + bj) % 64] {
        assert(spec_coll_upto(screen, sprite, x, y, bi, bj + 1));
    }
}

/// Distinct sprite bits land on distinct pixels, so no bit processed
/// before (bi, bj) has touched the pixel that bit (bi, bj) lands on.
proof fn lemma_no_prior_hit(sprite: Seq<u8>, x: u8, y: u8, bi: int, bj: int)
    requires
        sprite.len() <= 15,
        x < 64,
        y < 32,
        0 <= bi < sprite.len(),
        0 <= bj < 8,
    ensures
        !spec_hits_upto(sprite, x, y, (y + bi) % 32, (x + bj) % 64, bi, bj),
{
    let rr = (y + bi) % 32;
    let cc = (x + bj) % 64;
    if spec_hits_upto(sprite, x, y, rr, cc, bi, bj) {
        let (i, j) = choose|i: int, j: int|
            0 <= i < sprite.len() && 0 <= j < 8 && (i < bi || (i == bi && j < bj)) && rr == (y + i)
                % 32 && cc == (x + j) % 64 && spec_sprite_bit(sprite[i], j);
        lemma_wrap_inj32(y as int, i, bi);
        lemma_wrap_inj64(x as int, j, bj);
        assert(false);
    }
}

/// Finishing a byte is the same as standing at the start of the next.
proof fn lemma_hits_roll(sprite: Seq<u8>, x: u8, y: u8, rr: int, cc: int, bi: int)
    ensures
        spec_hits_upto(sprite, x, y, rr, cc, bi, 8) == spec_hits_upto(
            sprite,
            x,
            y,
            rr,
            cc,
            bi + 1,
            0,
        ),
{
    if spec_hits_upto(sprite, x, y, rr, cc, bi, 8) {
        let (i, j) = choose|i: int, j: int|
            0 <= i < sprite.len() && 0 <= j < 8 && (i < bi || (i == bi && j < 8)) && rr == (y + i)
                % 32 && cc == (x + j) % 64 && spec_sprite_bit(sprite[i], j);
        assert(i < bi + 1);
        assert(spec_hits_upto(sprite, x, y, rr, cc, bi + 1, 0));
    }
    if spec_hits_upto(sprite, x, y, rr, cc, bi + 1, 0) {
        let (i, j) = choose|i: int, j: int|
            0 <= i < sprite.len() && 0 <= j < 8 && (i < bi + 1 || (i == bi + 1 && j < 0)) && rr == (
            y + i) % 32 && cc == (x + j) % 64 && spec_sprite_bit(sprite[i], j);
        assert(i < bi || (i == bi && j < 8));
        assert(spec_hits_upto(sprite, x, y, rr, cc, bi, 8));
    }
}

/// The collision analogue of `lemma_hits_roll`.
proof fn lemma_coll_roll(screen: Seq<Seq<bool>>, sprite: Seq<u8>, x: u8, y: u8, bi: int)
    ensures
        spec_coll_upto(screen, sprite, x, y, bi, 8) == spec_coll_upto(
            screen,
            sprite,
            x,
            y,
            bi + 1,
            0,
        ),
{
    if spec_coll_upto(screen, sprite, x, y, bi, 8) {
        let (i, j) = choose|i: int, j: int|
            0 <= i < sprite.len() && 0 <= j < 8 && (i < bi || (i == bi && j < 8))
                && spec_sprite_bit(sprite[i], j) && screen[(y + i) % 32][(x + j) % 64];
        assert(i < bi + 1);
        assert(spec_coll_upto(screen, sprite, x, y, bi + 1, 0));
    }
    if spec_coll_upto(screen, sprite, x, y, bi + 1, 0) {
        let (i, j) = choose|i: int, j: int|
            0 <= i < sprite.len() && 0 <= j < 8 && (i < bi + 1 || (i == bi + 1 && j < 0))
                && spec_sprite_bit(sprite[i], j) && screen[(y + i) % 32][(x + j) % 64];
        assert(i < bi || (i == bi && j < 8));
        assert(spec_coll_upto(screen, sprite, x, y, bi, 8));
    }
}

/// The monochrome pixel grid, 64 wide and 32 tall.
#[derive(Debug, Clone, Copy)]
pub struct Screen {
    pub buffer: [[bool; SCREEN_WIDTH]; SCREEN_HEIGHT],
    pub height: usize,
    pub width: usize,
}

impl Screen {
    /// The grid as a sequence of rows of pixels.
    pub open spec fn rows(self) -> Seq<Seq<bool>> {
        Seq::new(32, |rr: int| self.buffer@[rr]@)
    }

    pub open spec fn wf(self) -> bool {
        self.height == 32 && self.width == 64
    }

    pub fn new() -> (r: Screen)
        ensures
            r.wf(),
            r.rows() == spec_blank_screen(),
    {
        let s = Screen {
            buffer: [[false; SCREEN_WIDTH]; SCREEN_HEIGHT],
            height: SCREEN_HEIGHT,
            width: SCREEN_WIDTH,
        };
        proof {
            assert forall|rr: int| 0 <= rr < 32 implies s.rows()[rr] =~= spec_blank_screen()[rr] by {
                assert forall|cc: int| 0 <= cc < 64 implies s.rows()[rr][cc]
                    == spec_blank_screen()[rr][cc] by {
                    assert(s.buffer@[rr]@[cc] == false);
                }
            }
            assert(s.rows() =~= spec_blank_screen());
        }
        s
    }

    /// Draw `num_bytes` rows of sprite data found at `ram_index`,
    /// XOR-ing each bit into the grid at (x, y) with wraparound, and
    /// report in `collision_flag` whether any set bit hit a lit pixel.
    /// An origin off the grid fails with the offending coordinates and
    /// changes nothing.
    pub fn draw_nybble(
        &mut self,
        x: u8,
        y: u8,
        ram_index: u16,
        num_bytes: Nybble,
        collision_flag: &mut u8,
        ram: &Ram,
    ) -> (r: Result<(), (u8, u8)>)
        requires
            num_bytes.wf(),
            ram_index + num_bytes.0 <= 0xFFF,
        ensures
            final(self).height == old(self).height,
            final(self).width == old(self).width,
            match r {
                Ok(_) => {
                    let sprite = ram.0@.subrange(
                        ram_index as int,
                        ram_index as int + num_bytes.0 as int,
                    );
                    &&& x < 64
                    &&& y < 32
                    &&& final(self).rows() == spec_draw(old(self).rows(), sprite, x, y)
                    &&& *final(collision_flag) == (if spec_collision(
                        old(self).rows(),
                        sprite,
                        x,
                        y,
                    ) {
                        1u8
                    } else {
                        0u8
                    })
                },
                Err(c) => (x >= 64 || y >= 32) && c == (x, y) && final(self).rows() == old(
                    self,
                ).rows() && *final(collision_flag) == *old(collision_flag),
            },
    {
        if x >= 64 || y >= 32 {
            return Err((x, y));
        }
        let sprite: Vec<u8> = ram.retrieve_bytes(ram_index, num_bytes);
        *collision_flag = 0;
        let ghost orig = self.rows();
        let ghost spr = sprite@;
        let ghost gh = self.height;
        let ghost gw = self.width;
        let n: usize = sprite.len();
        proof {
            assert(!spec_coll_upto(orig, spr, x, y, 0, 0));
            assert forall|t: int| 0 <= t < 32 implies #[trigger] orig[t].len() == 64 by {
                assert(orig[t] == self.buffer@[t]@);
            }
            assert forall|rr: int| 0 <= rr < 32 implies orig[rr] =~= spec_draw_upto(
                orig,
                spr,
                x,
                y,
                0,
                0,
            )[rr] by {
                assert forall|cc: int| 0 <= cc < 64 implies orig[rr][cc] == spec_draw_upto(
                    orig,
                    spr,
                    x,
                    y,
                    0,
                    0,
                )[rr][cc] by {
                    assert(!spec_hits_upto(spr, x, y, rr, cc, 0, 0));
                }
            }
            assert(self.rows() =~= spec_draw_upto(orig, spr, x, y, 0, 0));
        }
        for i in 0..n
            invariant
                n == spr.len(),
                n <= 15,
                x < 64,
                y < 32,
                sprite@ == spr,
                self.height == gh,
                self.width == gw,
                orig.len() == 32,
                forall|t: int| 0 <= t < 32 ==> #[trigger] orig[t].len() == 64,
                self.rows() == spec_draw_upto(orig, spr, x, y, i as int, 0),
                *collision_flag == (if spec_coll_upto(orig, spr, x, y, i as int, 0) {
                    1u8
                } else {
                    0u8
                }),
        {
            let b: u8 = sprite[i];
            for j in 0..8usize
                invariant
                    i < n,
                    n == spr.len(),
                    n <= 15,
                    x < 64,
                    y < 32,
                    sprite@ == spr,
                    b == spr[i as int],
                    self.height == gh,
                    self.width == gw,
                    orig.len() == 32,
                    forall|t: int| 0 <= t < 32 ==> #[trigger] orig[t].len() == 64,
                    self.rows() == spec_draw_upto(orig, spr, x, y, i as int, j as int),
                    *collision_flag == (if spec_coll_upto(orig, spr, x, y, i as int, j as int) {
                        1u8
                    } else {
                        0u8
                    }),
            {
                let pixel_val: bool = match get_bit(b, j as u8) {
                    Ok(v) => v,
                    Err(_) => vstd::pervasive::unreached(),
                };
                let y_cord: usize = (y as usize + i) % SCREEN_HEIGHT;
                let x_cord: usize = (x as usize + j) % SCREEN_WIDTH;
                proof {
                    assert(y_cord as int == (y + i as int) % 32);
                    assert(x_cord as int == (x + j as int) % 64);
                    lemma_no_prior_hit(spr, x, y, i as int, j as int);
                }
                let cur: bool = self.buffer[y_cord][x_cord];
                if pixel_val && cur {
                    *collision_flag = 1;
                }
                let ghost pre_buf = self.buffer@;
                let mut row: [bool; SCREEN_WIDTH] = self.buffer[y_cord];
                row[x_cord] = cur != pixel_val;
                self.buffer[y_cord] = row;
                proof {
                    let t_r = y_cord as int;
                    let t_c = x_cord as int;
                    let bi = i as int;
                    let bj = j as int;
                    // The pixel under this bit still holds its original
                    // value: no earlier bit has landed on it.
                    assert(spec_draw_upto(orig, spr, x, y, bi, bj)[t_r][t_c] == (orig[t_r][t_c]
                        != spec_hits_upto(spr, x, y, t_r, t_c, bi, bj)));
                    assert(cur == orig[t_r][t_c]);
                    lemma_coll_step(orig, spr, x, y, bi, bj);
                    assert forall|rr: int| 0 <= rr < 32 implies self.rows()[rr] =~= spec_draw_upto(
                        orig,
                        spr,
                        x,
                        y,
                        bi,
                        bj + 1,
                    )[rr] by {
                        assert forall|cc: int| 0 <= cc < 64 implies self.rows()[rr][cc]
                            == spec_draw_upto(orig, spr, x, y, bi, bj + 1)[rr][cc] by {
                            lemma_hits_step(spr, x, y, rr, cc, bi, bj);
                            assert(self.buffer@ == pre_buf.update(t_r, row));
                            if rr == t_r {
                                assert(self.buffer@[rr]@ == pre_buf[t_r]@.update(
                                    t_c,
                                    cur != pixel_val,
                                ));
                            } else {
                                assert(self.buffer@[rr] == pre_buf[rr]);
                            }
                            assert(pre_buf[rr]@[cc] == spec_draw_upto(
                                orig,
                                spr,
                                x,
                                y,
                                bi,
                                bj,
                            )[rr][cc]);
                        }
                    }
                    assert(self.rows() =~= spec_draw_upto(orig, spr, x, y, bi, bj + 1));
                }
            }
            proof {
                let bi = i as int;
                assert forall|rr: int| 0 <= rr < 32 implies spec_draw_upto(
                    orig,
                    spr,
                    x,
                    y,
                    bi,
                    8,
                )[rr] =~= spec_draw_upto(orig, spr, x, y, bi + 1, 0)[rr] by {
                    assert forall|cc: int| 0 <= cc < 64 implies spec_draw_upto(
                        orig,
                        spr,
                        x,
                        y,
                        bi,
                        8,
                    )[rr][cc] == spec_draw_upto(orig, spr, x, y, bi + 1, 0)[rr][cc] by {
                        lemma_hits_roll(spr, x, y, rr, cc, bi);
                    }
                }
                assert(spec_draw_upto(orig, spr, x, y, bi, 8) =~= spec_draw_upto(
                    orig,
                    spr,
                    x,
                    y,
                    bi + 1,
                    0,
                ));
                lemma_coll_roll(orig, spr, x, y, bi);
            }
        }
        Ok(())
    }
}

/// Drawing is an involution, and the second draw of a sprite always
/// collides where the first one lit pixels: for any sprite whose set
/// bits all land on dark pixels, drawing it twice restores the screen
/// exactly, the first draw reports no collision, and, if the sprite has
/// any set bit at all, the second draw reports a collision.
///
/// The hypothesis that the touched pixels start dark is needed: a set
/// bit landing on an already-lit pixel is cleared by the first draw, so
/// the second draw finds it dark and that bit contributes no collision.
pub proof fn lemma_draw_twice(screen: Seq<Seq<bool>>, sprite: Seq<u8>, x: u8, y: u8)
    requires
        x < 64,
        y < 32,
        sprite.len() <= 15,
        screen.len() == 32,
        forall|rr: int| 0 <= rr < 32 ==> (#[trigger] screen[rr]).len() == 64,
        forall|i: int, j: int|
            0 <= i < sprite.len() && 0 <= j < 8 && #[trigger] spec_sprite_bit(sprite[i], j)
                ==> !screen[(y + i) % 32][(x + j) % 64],
    ensures
        spec_draw(spec_draw(screen, sprite, x, y), sprite, x, y) == screen,
        !spec_collision(screen, sprite, x, y),
        (exists|i: int, j: int|
            0 <= i < sprite.len() && 0 <= j < 8 && #[trigger] spec_sprite_bit(sprite[i], j))
            ==> spec_collision(spec_draw(screen, sprite, x, y), sprite, x, y),
{
    let once = spec_draw(screen, sprite, x, y);
    let twice = spec_draw(once, sprite, x, y);
    assert forall|rr: int| 0 <= rr < 32 implies twice[rr] =~= screen[rr] by {
        assert forall|cc: int| 0 <= cc < 64 implies twice[rr][cc] == screen[rr][cc] by {
            assert(once[rr][cc] == (screen[rr][cc] != spec_hits_upto(
                sprite,
                x,
                y,
                rr,
                cc,
                sprite.len() as int,
                0,
            )));
        }
    }
    assert(twice =~= screen);
    if spec_collision(screen, sprite, x, y) {
        let (i, j) = choose|i: int, j: int|
            0 <= i < sprite.len() && 0 <= j < 8 && (i < sprite.len() || (i == sprite.len() && j
                < 0)) && spec_sprite_bit(sprite[i], j) && screen[(y + i) % 32][(x + j) % 64];
        assert(!screen[(y + i) % 32][(x + j) % 64]);
        assert(false);
    }
    if exists|i: int, j: int|
        0 <= i < sprite.len() && 0 <= j < 8 && #[trigger] spec_sprite_bit(sprite[i], j) {
        let (i, j) = choose|i: int, j: int|
            0 <= i < sprite.len() && 0 <= j < 8 && #[trigger] spec_sprite_bit(sprite[i], j);
        let rr = (y + i) % 32;
        let cc = (x + j) % 64;
        assert(spec_hits_upto(sprite, x, y, rr, cc, sprite.len() as int, 0));
        assert(once[rr][cc] == (screen[rr][cc] != spec_hits(sprite, x, y, rr, cc)));
        assert(once[rr][cc]);
        assert(spec_coll_upto(once, sprite, x, y, sprite.len() as int, 0));
    }
}

/// A set sprite bit always toggles the pixel it wraps to: drawing at
/// column x with bit j set lands on column (x + j) % 64, which for
/// x + j >= 64 is the left edge again, never a clipped or failing write;
/// rows wrap the same way.
pub proof fn lemma_draw_wraparound(
    screen: Seq<Seq<bool>>,
    sprite: Seq<u8>,
    x: u8,
    y: u8,
    i: int,
    j: int,
)
    requires
        x < 64,
        y < 32,
        sprite.len() <= 15,
        screen.len() == 32,
        forall|rr: int| 0 <= rr < 32 ==> (#[trigger] screen[rr]).len() == 64,
        0 <= i < sprite.len(),
        0 <= j < 8,
        spec_sprite_bit(sprite[i], j),
    ensures
        spec_draw(screen, sprite, x, y)[(y + i) % 32][(x + j) % 64] == !screen[(y + i) % 32][(x
            + j) % 64],
        x + j >= 64 ==> (x + j) % 64 == x + j - 64,
        y + i >= 32 ==> (y + i) % 32 == y + i - 32,
{
    let rr = (y + i) % 32;
    let cc = (x + j) % 64;
    assert(spec_hits_upto(sprite, x, y, rr, cc, sprite.len() as int, 0));
    assert(spec_draw(screen, sprite, x, y)[rr][cc] == (screen[rr][cc] != spec_hits_upto(
        sprite,
        x,
        y,
        rr,
        cc,
        sprite.len() as int,
        0,
    )));
}

/// Bit `b` of a byte, counted from the most significant end; asking for
/// a bit index above 7 is an error.
pub fn get_bit(n: u8, b: u8) -> (r: Result<bool, ()>)
    ensures
        b <= 7 ==> r == Ok::<bool, ()>(spec_sprite_bit(n, b as int)),
        b > 7 ==> r is Err,
{
    if b > 7 {
        return Err(());
    }
    Ok((n >> (7 - b)) & 1 == 1)
}

} // verus!
