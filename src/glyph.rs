use vstd::prelude::*;
use crate::grid::{GridModel, ParticleGrid, bit};
use crate::world::{GameWorld, BRAILLE_COLS, BRAILLE_ROWS};

verus! {

/// First code point of the Unicode braille patterns block: the glyph with no
/// dot raised.
pub const BRAILLE_BASE: u32 = 0x2800;

/// Why a mask could not be turned into a glyph.
#[derive(Debug, Clone, Copy, PartialEq, Eq, Structural)]
pub enum GlyphError {
    /// `base + mask` is not a Unicode scalar value.
    InvalidCodepoint { base: u32, mask: u8 },
}

/// Unicode scalar values: the code points that a `char` can hold.
pub open spec fn is_scalar_value(v: int) -> bool {
    (0 <= v < 0xD800) || (0xE000 <= v <= 0x10FFFF)
}

/// Relies on char::from_u32: it returns the `char` of value `v` when `v` is a
/// Unicode scalar value, and `None` otherwise.
#[verifier::external_body]
fn char_from_u32(v: u32) -> (r: Option<char>)
    ensures
        r is Some <==> is_scalar_value(v as int),
        r is Some ==> r.unwrap() as int == v,
{
    char::from_u32(v)
}

/// Bit weight of the dot in column `col` and row `row` of a 2×4 block, in the
/// dot order of the braille alphabet: down the left column for three rows,
/// then down the right column for three rows, then the bottom row left to
/// right.
pub open spec fn dot_weight(col: int, row: int) -> int {
    if col == 0 {
        if row == 0 { 1 } else if row == 1 { 2 } else if row == 2 { 4 } else { 64 }
    } else {
        if row == 0 { 8 } else if row == 1 { 16 } else if row == 2 { 32 } else { 128 }
    }
}

/// Occupancy of the cell in column `col` and row `row` of the block behind
/// screen cell `(sx, sy)`.
pub open spec fn block_cell(g: GridModel, sx: int, sy: int, col: int, row: int) -> bool {
    g.cells[g.index_of(sx * BRAILLE_COLS + col, sy * BRAILLE_ROWS + row)]
}

/// Weight of one dot if its cell is occupied, else zero.
pub open spec fn dot(g: GridModel, sx: int, sy: int, col: int, row: int) -> int {
    bit(block_cell(g, sx, sy, col, row)) * dot_weight(col, row)
}

/// The sum of the weights of the occupied cells of the block behind screen
/// cell `(sx, sy)`.
pub open spec fn block_mask(g: GridModel, sx: int, sy: int) -> int {
    dot(g, sx, sy, 0, 0) + dot(g, sx, sy, 0, 1) + dot(g, sx, sy, 0, 2) + dot(g, sx, sy, 0, 3)
        + dot(g, sx, sy, 1, 0) + dot(g, sx, sy, 1, 1) + dot(g, sx, sy, 1, 2) + dot(g, sx, sy, 1, 3)
}

/// The block behind screen cell `(sx, sy)` lies inside the grid.
pub open spec fn block_in_grid(g: GridModel, sx: int, sy: int) -> bool {
    &&& 0 <= sx
    &&& 0 <= sy
    &&& (sx + 1) * BRAILLE_COLS <= g.width
    &&& (sy + 1) * BRAILLE_ROWS <= g.height
}

/// Packs the 2×4 block behind screen cell `(screen_x, screen_y)` into a mask
/// of braille dots.
pub fn encode_block(grid: &ParticleGrid, screen_x: usize, screen_y: usize) -> (r: u8)
    requires
        grid.wf(),
        block_in_grid(grid@, screen_x as int, screen_y as int),
    ensures
        r == block_mask(grid@, screen_x as int, screen_y as int),
{
    proof {
        let w = grid@.width as int;
        let h = grid@.height as int;
        assert(w <= w * h && h <= w * h) by (nonlinear_arith)
            requires w > 0, h > 0;
    }
    let x = screen_x * BRAILLE_COLS;
    let y = screen_y * BRAILLE_ROWS;
    let mut mask: u8 = 0;
    if grid.is_occupied_at(x, y) {
        mask = mask + 1;
    }
    if grid.is_occupied_at(x, y + 1) {
        mask = mask + 2;
    }
    if grid.is_occupied_at(x, y + 2) {
        mask = mask + 4;
    }
    if grid.is_occupied_at(x + 1, y) {
        mask = mask + 8;
    }
    if grid.is_occupied_at(x + 1, y + 1) {
        mask = mask + 16;
    }
    if grid.is_occupied_at(x + 1, y + 2) {
        mask = mask + 32;
    }
    if grid.is_occupied_at(x, y + 3) {
        mask = mask + 64;
    }
    if grid.is_occupied_at(x + 1, y + 3) {
        mask = mask + 128;
    }
    mask
}

/// The glyph at code point `base + mask`, or an error when that is not a
/// Unicode scalar value.
pub fn glyph_of(base: u32, mask: u8) -> (r: Result<char, GlyphError>)
    ensures
        r is Ok <==> is_scalar_value(base + mask),
        r is Ok ==> r.unwrap() as int == base + mask,
        r is Err ==> r == Err::<char, GlyphError>(GlyphError::InvalidCodepoint { base, mask }),
{
    if base > u32::MAX - mask as u32 {
        return Err(GlyphError::InvalidCodepoint { base, mask });
    }
    match char_from_u32(base + mask as u32) {
        Some(c) => Ok(c),
        None => Err(GlyphError::InvalidCodepoint { base, mask }),
    }
}

/// Number of screen columns: whole blocks across the grid.
pub open spec fn screen_cols(g: GridModel) -> int {
    g.width as int / BRAILLE_COLS as int
}

/// Number of screen rows: whole blocks down the grid.
pub open spec fn screen_rows(g: GridModel) -> int {
    g.height as int / BRAILLE_ROWS as int
}

/// Entry `k` of a frame of `g`: the screen cell at position `k` in
/// row-major order, with the glyph of the block behind it.
pub open spec fn frame_entry(g: GridModel, k: int, e: (usize, usize, char)) -> bool {
    let sx = k % screen_cols(g);
    let sy = k / screen_cols(g);
    &&& e.0 == sx
    &&& e.1 == sy
    &&& e.2 as int == BRAILLE_BASE + block_mask(g, sx, sy)
}

/// `f` holds one entry per screen cell of `g`, in row-major order.
pub open spec fn is_frame(g: GridModel, f: Seq<(usize, usize, char)>) -> bool {
    &&& f.len() == screen_cols(g) * screen_rows(g)
    &&& forall|k: int| 0 <= k < f.len() ==> frame_entry(g, k, #[trigger] f[k])
}

impl GameWorld {
    /// The braille glyph whose raised dots are the set bits of `x`.
    pub fn convert_to_char(x: u8) -> (r: Result<char, GlyphError>)
        ensures
            r is Ok,
            r.unwrap() as int == BRAILLE_BASE + x,
    {
        glyph_of(BRAILLE_BASE, x)
    }

    /// The frame of the current grid: for each screen cell in row-major
    /// order, its column, its row and the glyph of the block behind it.
    pub fn encode_frame(&self) -> (r: Result<Vec<(usize, usize, char)>, GlyphError>)
        requires
            self.wf(),
        ensures
            r is Ok,
            is_frame(self@, r.unwrap()@),
    {
        let grid = self.grid();
        let sw = self.screen_width();
        let sh = self.screen_height();
        let ghost g = self@;
        let mut frame: Vec<(usize, usize, char)> = Vec::new();
        let mut sy: usize = 0;
        while sy < sh
            invariant
                grid.wf(),
                grid@ == g,
                sw == screen_cols(g),
                sh == screen_rows(g),
                0 <= sy <= sh,
                frame@.len() == sy * sw,
                forall|k: int| 0 <= k < frame@.len() ==> frame_entry(g, k, #[trigger] frame@[k]),
            decreases sh - sy,
        {
            let mut sx: usize = 0;
            while sx < sw
                invariant
                    grid.wf(),
                    grid@ == g,
                    sw == screen_cols(g),
                    sh == screen_rows(g),
                    0 <= sy < sh,
                    0 <= sx <= sw,
                    frame@.len() == sy * sw + sx,
                    forall|k: int| 0 <= k < frame@.len() ==> frame_entry(g, k, #[trigger] frame@[k]),
                decreases sw - sx,
            {
                let mask = encode_block(grid, sx, sy);
                let c = match GameWorld::convert_to_char(mask) {
                    Ok(c) => c,
                    Err(e) => {
                        return Err(e);
                    },
                };
                proof {
                    vstd::arithmetic::div_mod::lemma_fundamental_div_mod_converse(
                        sy * sw + sx,
                        sw as int,
                        sy as int,
                        sx as int,
                    );
                }
                frame.push((sx, sy, c));
                sx = sx + 1;
            }
            assert(sy * sw + sw == (sy + 1) * sw) by (nonlinear_arith);
            sy = sy + 1;
        }
        assert(sh * sw == sw * sh) by (nonlinear_arith);
        Ok(frame)
    }
}

} // verus!
