//! Monochrome framebuffer: a fixed grid of `COLS x ROWS` single-bit cells,
//! stored row-major as one byte per pixel holding only 0 or 1. Pixels are
//! mutated by XOR (a draw that turns a lit pixel off is a "collision");
//! a renderer reads the cells through `pixel`.

use vstd::prelude::*;

verus! {

/// Number of pixel columns.
pub const COLS: u8 = 64;
/// Number of pixel rows.
pub const ROWS: u8 = 32;
/// Total number of cells (`COLS * ROWS`).
pub const SCREEN_SIZE: usize = 2048;

/// A screen state is valid when it has one cell per pixel and every cell
/// holds 0 or 1.
pub open spec fn screen_wf(s: Seq<u8>) -> bool {
    &&& s.len() == 2048
    &&& forall|i: int| 0 <= i < s.len() ==> s[i] == 0 || s[i] == 1
}

/// The all-dark screen.
pub open spec fn blank_screen() -> Seq<u8> {
    Seq::new(2048, |i: int| 0u8)
}

/// Row-major cell index of the pixel at column `x`, row `y`.
pub open spec fn pixel_index(x: int, y: int) -> int {
    y * 64 + x
}

/// The XOR of one cell with a lit sprite bit.
pub open spec fn flip(v: u8) -> u8 {
    if v == 1 { 0 } else { 1 }
}

/// Weight of sprite column `col` within a sprite byte; column 0 is the
/// most significant bit.
pub open spec fn col_mask(col: int) -> u8 {
    if col == 0 { 128 }
    else if col == 1 { 64 }
    else if col == 2 { 32 }
    else if col == 3 { 16 }
    else if col == 4 { 8 }
    else if col == 5 { 4 }
    else if col == 6 { 2 }
    else { 1 }
}

/// Whether sprite column `col` of `sprite` is lit.
pub open spec fn sprite_bit(sprite: u8, col: int) -> bool {
    (sprite / col_mask(col)) % 2 == 1
}

/// Effect of one sprite pixel: a lit bit whose (unwrapped) position is on
/// screen XORs its cell; anything else leaves the screen alone. The second
/// component reports a lit-to-dark transition.
pub open spec fn draw_pixel(screen: Seq<u8>, sprite: u8, xr: int, py: int, col: int) -> (Seq<u8>, bool) {
    if sprite_bit(sprite, col) && xr + col < 64 && py < 32 {
        let idx = pixel_index(xr + col, py);
        (screen.update(idx, flip(screen[idx])), screen[idx] == 1)
    } else {
        (screen, false)
    }
}

/// Effect of sprite columns `col..8` of one sprite row at origin column
/// `xr`, row `py`; the second component reports whether any pixel went from
/// lit to dark.
pub open spec fn draw_cols(screen: Seq<u8>, sprite: u8, xr: int, py: int, col: int) -> (Seq<u8>, bool)
    decreases 8 - col,
{
    if col >= 8 {
        (screen, false)
    } else {
        let (s1, c1) = draw_pixel(screen, sprite, xr, py, col);
        let (s2, c2) = draw_cols(s1, sprite, xr, py, col + 1);
        (s2, c1 || c2)
    }
}

/// Whether cell `i` is the target of some lit sprite column `col..8` of
/// `sprite` drawn at origin `(xr, py)` (clipped pixels target nothing).
pub open spec fn covered_by_row(sprite: u8, xr: int, py: int, col: int, i: int) -> bool {
    exists|j: int| col <= j < 8 && #[trigger] sprite_bit(sprite, j) && xr + j < 64
        && i == pixel_index(xr + j, py)
}

/// Whether some lit, unclipped sprite column `col..8` lands on a lit cell.
pub open spec fn row_collision(screen: Seq<u8>, sprite: u8, xr: int, py: int, col: int) -> bool {
    exists|j: int| col <= j < 8 && #[trigger] sprite_bit(sprite, j) && xr + j < 64
        && screen[pixel_index(xr + j, py)] == 1
}

/// What one sprite row does, cell by cell: each targeted cell is XORed,
/// every other cell keeps its value, and the collision result is exactly
/// "some lit, unclipped column landed on a lit cell".
pub proof fn lemma_draw_cols_pointwise(screen: Seq<u8>, sprite: u8, xr: int, py: int, col: int)
    requires
        screen.len() == 2048,
        0 <= xr < 64,
        0 <= py < 32,
        0 <= col <= 8,
    ensures
        draw_cols(screen, sprite, xr, py, col).0.len() == 2048,
        forall|i: int| 0 <= i < 2048 ==> draw_cols(screen, sprite, xr, py, col).0[i]
            == (if covered_by_row(sprite, xr, py, col, i) { flip(screen[i]) } else { screen[i] }),
        draw_cols(screen, sprite, xr, py, col).1 == row_collision(screen, sprite, xr, py, col),
    decreases 8 - col,
{
    if col >= 8 {
        assert forall|i: int| 0 <= i < 2048 implies !covered_by_row(sprite, xr, py, col, i) by {}
        assert(!row_collision(screen, sprite, xr, py, col));
    } else {
        let p = draw_pixel(screen, sprite, xr, py, col);
        let s1 = p.0;
        lemma_draw_cols_pointwise(s1, sprite, xr, py, col + 1);
        let target = pixel_index(xr + col, py);
        let drawn = sprite_bit(sprite, col) && xr + col < 64;
        if drawn {
            assert(0 <= target < 2048);
        }
        // A later column never lands on this column's cell.
        assert forall|j: int| col + 1 <= j < 8 implies #[trigger] pixel_index(xr + j, py) != target by {}
        assert forall|i: int| 0 <= i < 2048 implies
            (covered_by_row(sprite, xr, py, col, i)
                == ((drawn && i == target) || covered_by_row(sprite, xr, py, col + 1, i))) by {
            if covered_by_row(sprite, xr, py, col, i) {
                let j = choose|j: int| col <= j < 8 && #[trigger] sprite_bit(sprite, j)
                    && xr + j < 64 && i == pixel_index(xr + j, py);
                if j == col {
                } else {
                    assert(covered_by_row(sprite, xr, py, col + 1, i));
                }
            }
            if drawn && i == target {
                assert(covered_by_row(sprite, xr, py, col, i));
            }
            if covered_by_row(sprite, xr, py, col + 1, i) {
                let j = choose|j: int| col + 1 <= j < 8 && #[trigger] sprite_bit(sprite, j)
                    && xr + j < 64 && i == pixel_index(xr + j, py);
                assert(covered_by_row(sprite, xr, py, col, i));
            }
        }
        // Collision of the tail is insensitive to this column's flip.
        assert(row_collision(s1, sprite, xr, py, col + 1)
            == row_collision(screen, sprite, xr, py, col + 1)) by {
            if row_collision(s1, sprite, xr, py, col + 1) {
                let j = choose|j: int| col + 1 <= j < 8 && #[trigger] sprite_bit(sprite, j)
                    && xr + j < 64 && s1[pixel_index(xr + j, py)] == 1;
                assert(screen[pixel_index(xr + j, py)] == 1);
                assert(row_collision(screen, sprite, xr, py, col + 1));
            }
            if row_collision(screen, sprite, xr, py, col + 1) {
                let j = choose|j: int| col + 1 <= j < 8 && #[trigger] sprite_bit(sprite, j)
                    && xr + j < 64 && screen[pixel_index(xr + j, py)] == 1;
                assert(s1[pixel_index(xr + j, py)] == 1);
                assert(row_collision(s1, sprite, xr, py, col + 1));
            }
        }
        assert(row_collision(screen, sprite, xr, py, col)
            == (p.1 || row_collision(screen, sprite, xr, py, col + 1))) by {
            if p.1 {
                assert(row_collision(screen, sprite, xr, py, col));
            }
            if row_collision(screen, sprite, xr, py, col) {
                let j = choose|j: int| col <= j < 8 && #[trigger] sprite_bit(sprite, j)
                    && xr + j < 64 && screen[pixel_index(xr + j, py)] == 1;
                if j == col {
                } else {
                    assert(row_collision(screen, sprite, xr, py, col + 1));
                }
            }
            if row_collision(screen, sprite, xr, py, col + 1) {
                let j = choose|j: int| col + 1 <= j < 8 && #[trigger] sprite_bit(sprite, j)
                    && xr + j < 64 && screen[pixel_index(xr + j, py)] == 1;
                assert(row_collision(screen, sprite, xr, py, col));
            }
        }
    }
}

/// Law: drawing one eight-pixel sprite row twice at the same origin
/// restores the framebuffer to its state before the first draw, whatever
/// the sprite byte and whatever was on screen.
pub proof fn lemma_draw_row_twice_restores(screen: Seq<u8>, sprite: u8, xr: int, py: int)
    requires
        screen_wf(screen),
        0 <= xr < 64,
        0 <= py < 32,
    ensures
        draw_cols(draw_cols(screen, sprite, xr, py, 0).0, sprite, xr, py, 0).0 == screen,
{
    let s1 = draw_cols(screen, sprite, xr, py, 0).0;
    lemma_draw_cols_pointwise(screen, sprite, xr, py, 0);
    lemma_draw_cols_pointwise(s1, sprite, xr, py, 0);
    assert(draw_cols(s1, sprite, xr, py, 0).0 =~= screen);
}

/// Law: on a row whose cells start dark, drawing the full sprite byte 0xFF
/// reports no collision the first time and a collision the second time.
pub proof fn lemma_draw_row_twice_collides(screen: Seq<u8>, xr: int, py: int)
    requires
        screen_wf(screen),
        0 <= xr < 64,
        0 <= py < 32,
        forall|j: int| 0 <= j < 8 && xr + j < 64 ==> screen[#[trigger] pixel_index(xr + j, py)] == 0,
    ensures
        !draw_cols(screen, 0xFF, xr, py, 0).1,
        draw_cols(draw_cols(screen, 0xFF, xr, py, 0).0, 0xFF, xr, py, 0).1,
{
    let s1 = draw_cols(screen, 0xFF, xr, py, 0).0;
    lemma_draw_cols_pointwise(screen, 0xFF, xr, py, 0);
    lemma_draw_cols_pointwise(s1, 0xFF, xr, py, 0);
    assert(sprite_bit(0xFF, 0));
    assert(!row_collision(screen, 0xFF, xr, py, 0)) by {
        if row_collision(screen, 0xFF, xr, py, 0) {
            let j = choose|j: int| 0 <= j < 8 && #[trigger] sprite_bit(0xFF, j)
                && xr + j < 64 && screen[pixel_index(xr + j, py)] == 1;
        }
    }
    // The origin cell itself was dark, so the first draw lit it.
    assert(covered_by_row(0xFF, xr, py, 0, pixel_index(xr, py)));
    assert(s1[pixel_index(xr, py)] == 1);
    assert(row_collision(s1, 0xFF, xr, py, 0));
}

pub struct Display {
    scale: u8,
    screen: Vec<u8>,
}

impl View for Display {
    type V = Seq<u8>;

    closed spec fn view(&self) -> Seq<u8> {
        self.screen@
    }
}

fn blank_vec() -> (v: Vec<u8>)
    ensures
        v@ == blank_screen(),
{
    let mut v: Vec<u8> = Vec::new();
    while v.len() < SCREEN_SIZE
        invariant
            v@.len() <= 2048,
            forall|i: int| 0 <= i < v@.len() ==> v@[i] == 0,
        decreases 2048 - v@.len(),
    {
        v.push(0);
    }
    proof {
        assert(v@ =~= blank_screen());
    }
    v
}

impl Display {
    pub open spec fn wf(&self) -> bool {
        screen_wf(self@)
    }

    /// Magnification hint kept for a renderer; it plays no part in the
    /// pixel semantics.
    pub closed spec fn spec_scale(&self) -> u8 {
        self.scale
    }

    /// A fresh, all-dark framebuffer.
    pub fn new(scale: u8) -> (d: Display)
        ensures
            d.wf(),
            d@ == blank_screen(),
            d.spec_scale() == scale,
    {
        Display { scale, screen: blank_vec() }
    }

    pub fn scale(&self) -> (r: u8)
        ensures
            r == self.spec_scale(),
    {
        self.scale
    }

    /// True iff the (unwrapped) coordinates fall outside the grid; the draw
    /// opcode clips such pixels instead of wrapping them.
    pub fn is_offscreen(&self, x: u8, y: u8) -> (r: bool)
        ensures
            r == (x >= 64 || y >= 32),
    {
        x >= COLS || y >= ROWS
    }

    /// XOR one pixel. The coordinates are wrapped into range; the result
    /// says whether the pixel went from lit to dark (a collision).
    pub fn set_pixel(&mut self, x: u8, y: u8) -> (collision: bool)
        requires
            old(self).wf(),
        ensures
            final(self).wf(),
            final(self)@ == old(self)@.update(
                pixel_index((x % 64) as int, (y % 32) as int),
                flip(old(self)@[pixel_index((x % 64) as int, (y % 32) as int)]),
            ),
            collision == (old(self)@[pixel_index((x % 64) as int, (y % 32) as int)] == 1),
            final(self).spec_scale() == old(self).spec_scale(),
    {
        let px: usize = (x % 64) as usize;
        let py: usize = (y % 32) as usize;
        let idx: usize = py * 64 + px;
        let cur: u8 = self.screen[idx];
        let newv: u8 = if cur == 1 { 0 } else { 1 };
        self.screen[idx] = newv;
        cur == 1
    }

    /// Zero every cell.
    pub fn clear(&mut self)
        ensures
            final(self).wf(),
            final(self)@ == blank_screen(),
            final(self).spec_scale() == old(self).spec_scale(),
    {
        self.screen = blank_vec();
    }

    /// XOR one eight-pixel sprite row. The origin column `xr` has already
    /// been wrapped into range; pixels whose unwrapped position falls past
    /// the right or bottom edge are clipped, not wrapped. Returns whether
    /// any pixel went from lit to dark.
    pub fn draw_sprite_row(&mut self, sprite: u8, xr: u8, py: u8) -> (collision: bool)
        requires
            old(self).wf(),
            xr < 64,
        ensures
            final(self).wf(),
            final(self)@ == draw_cols(old(self)@, sprite, xr as int, py as int, 0).0,
            collision == draw_cols(old(self)@, sprite, xr as int, py as int, 0).1,
            final(self).spec_scale() == old(self).spec_scale(),
    {
        let mut collision: bool = false;
        let mut col: u8 = 0;
        let mut mask: u8 = 128;
        while col < 8
            invariant
                self.wf(),
                xr < 64,
                col <= 8,
                col < 8 ==> mask == col_mask(col as int),
                draw_cols(old(self)@, sprite, xr as int, py as int, 0).0
                    == draw_cols(self@, sprite, xr as int, py as int, col as int).0,
                draw_cols(old(self)@, sprite, xr as int, py as int, 0).1
                    == (collision || draw_cols(self@, sprite, xr as int, py as int, col as int).1),
                self.spec_scale() == old(self).spec_scale(),
            decreases 8 - col,
        {
            let ghost s0 = self@;
            let bit_set: bool = (sprite / mask) % 2 == 1;
            if bit_set {
                let px: u8 = xr + col;
                if !(px >= 64 || py >= 32) {
                    if self.set_pixel(px, py) {
                        collision = true;
                    }
                }
            }
            proof {
                assert(self@ == draw_pixel(s0, sprite, xr as int, py as int, col as int).0);
                assert(draw_cols(s0, sprite, xr as int, py as int, col as int).0
                    == draw_cols(self@, sprite, xr as int, py as int, col as int + 1).0);
            }
            col = col + 1;
            mask = mask / 2;
        }
        collision
    }

    /// Read one cell; 1 means lit.
    pub fn pixel(&self, x: u8, y: u8) -> (r: u8)
        requires
            self.wf(),
            x < 64,
            y < 32,
        ensures
            r == self@[pixel_index(x as int, y as int)],
    {
        let idx: usize = (y as usize) * 64 + (x as usize);
        self.screen[idx]
    }
}

} // verus!
