//! The mapping from a 2 x 4 block of luma samples to one Braille glyph.
use vstd::prelude::*;

verus! {

/// A sample raises its dot only when it is strictly brighter than this.
pub const THRESHOLD: u8 = 128;

/// The first code point of the Braille Patterns block: the blank cell.
pub const BRAILLE_BASE: u32 = 0x2800;

/// Columns of pixels covered by one glyph.
pub const CELL_WIDTH: usize = 2;

/// Rows of pixels covered by one glyph.
pub const CELL_HEIGHT: usize = 4;

/// Whether a sample raises its dot.
pub open spec fn raised(v: u8) -> bool {
    v > THRESHOLD
}

/// The bit of the flag byte that holds the dot at `(col, row)` of a cell,
/// after the Unicode numbering of the eight Braille dots: the first three rows
/// run down each column (bits 0-2 and 3-5), the bottom row takes bits 6 and 7.
pub open spec fn dot_bit(col: int, row: int) -> int {
    if row == 3 {
        6 + col
    } else {
        3 * col + row
    }
}

/// The glyph whose dots are the set bits of `flag`.
pub open spec fn glyph(flag: u8) -> char {
    (BRAILLE_BASE + flag as u32) as char
}

/// The sample at column `x`, row `y` of a row-major grid `width` samples wide.
pub open spec fn sample(px: Seq<u8>, width: int, x: int, y: int) -> u8 {
    px[y * width + x]
}

/// The `k`-th sub-pixel of a cell, in reading order: column `k % 2`, row `k / 2`.
pub open spec fn dot_value(px: Seq<u8>, width: int, cx: int, cy: int, k: int) -> u8 {
    let col = k % 2;
    let row = k / 2;
    if raised(sample(px, width, 2 * cx + col, 4 * cy + row)) {
        1u8 << (dot_bit(col, row) as u8)
    } else {
        0
    }
}

/// The bits of the first `n` sub-pixels of cell `(cx, cy)`, OR-ed together.
pub open spec fn flag_prefix(px: Seq<u8>, width: int, cx: int, cy: int, n: nat) -> u8
    decreases n,
{
    if n == 0 {
        0
    } else {
        flag_prefix(px, width, cx, cy, (n - 1) as nat) | dot_value(px, width, cx, cy, n - 1)
    }
}

/// The flag byte of the cell at column `cx`, row `cy` of the character grid.
pub open spec fn cell_flag(px: Seq<u8>, width: int, cx: int, cy: int) -> u8 {
    flag_prefix(px, width, cx, cy, 8)
}

/// Whether cell `(cx, cy)` lies wholly inside the row-major samples `px`,
/// `width` samples to a row.
pub open spec fn cell_inside(px: Seq<u8>, width: int, cx: int, cy: int) -> bool {
    &&& 0 <= cx && 2 * cx + 2 <= width
    &&& 0 <= cy && (4 * cy + 4) * width <= px.len()
}

/// Relies on char::from_u32: `Some` exactly for a Unicode scalar value, and
/// then the character with that code.
#[verifier::external_body]
fn char_from_code(code: u32) -> (r: Option<char>)
    ensures
        r matches Some(c) ==> c as u32 == code,
        (code < 0xD800 || (0xE000 <= code && code <= 0x10FFFF)) ==> r is Some,
{
    char::from_u32(code)
}

/// Whether a sample raises its dot.
pub fn is_raised(v: u8) -> (r: bool)
    ensures
        r == raised(v),
{
    v > THRESHOLD
}

/// The bit index of the dot at `(col, row)` of a cell.
pub fn dot_index(col: u8, row: u8) -> (r: u8)
    requires
        col < 2,
        row < 4,
    ensures
        r as int == dot_bit(col as int, row as int),
        r < 8,
{
    if row == 3 {
        6 + col
    } else {
        3 * col + row
    }
}

/// The Braille glyph for a flag byte.
pub fn glyph_of(flag: u8) -> (c: char)
    ensures
        c == glyph(flag),
        c as u32 == BRAILLE_BASE + flag as u32,
{
    let code: u32 = BRAILLE_BASE + flag as u32;
    match char_from_code(code) {
        Some(c) => {
            proof {
                vstd::utf8::char_u32_cast(c, code);
            }
            c
        },
        None => {
            proof {
                assert(false);
            }
            ' '
        },
    }
}

/// Whether every sample of cell `(cx, cy)` raises its dot (`lit`), or none does.
pub open spec fn cell_uniform(px: Seq<u8>, width: int, cx: int, cy: int, lit: bool) -> bool {
    forall|col: int, row: int|
        0 <= col < 2 && 0 <= row < 4 ==> raised(#[trigger] sample(px, width, 2 * cx + col, 4 * cy + row))
            == lit
}

/// A cell whose samples are all at most the threshold has flag 0, the blank
/// glyph U+2800; a cell whose samples are all above it has flag 255, the glyph
/// U+28FF with all eight dots raised.
pub proof fn lemma_uniform_cell(px: Seq<u8>, width: int, cx: int, cy: int)
    ensures
        cell_uniform(px, width, cx, cy, false) ==> cell_flag(px, width, cx, cy) == 0
            && glyph(cell_flag(px, width, cx, cy)) as u32 == 0x2800,
        cell_uniform(px, width, cx, cy, true) ==> cell_flag(px, width, cx, cy) == 255
            && glyph(cell_flag(px, width, cx, cy)) as u32 == 0x28FF,
{
    reveal_with_fuel(flag_prefix, 9);
    let lit = |k: int| raised(sample(px, width, 2 * cx + k % 2, 4 * cy + k / 2));
    if cell_uniform(px, width, cx, cy, false) || cell_uniform(px, width, cx, cy, true) {
        assert(lit(0) == lit(1) && lit(1) == lit(2) && lit(2) == lit(3) && lit(3) == lit(4)
            && lit(4) == lit(5) && lit(5) == lit(6) && lit(6) == lit(7));
    }
    if cell_uniform(px, width, cx, cy, false) {
        assert(!lit(0));
        assert(0u8 | 0u8 == 0u8) by (bit_vector);
    }
    if cell_uniform(px, width, cx, cy, true) {
        assert(lit(0));
        assert(((((((((0u8 | (1u8 << 0u8)) | (1u8 << 3u8)) | (1u8 << 1u8)) | (1u8 << 4u8)) | (1u8
            << 2u8)) | (1u8 << 5u8)) | (1u8 << 6u8)) | (1u8 << 7u8)) == 255u8) by (bit_vector);
    }
    lemma_glyph_code(cell_flag(px, width, cx, cy));
}

/// The flag byte holds each sub-pixel in its own bit: bit `dot_bit(col, row)`
/// is set exactly when the sample at `(col, row)` of the cell is above the
/// threshold.
pub proof fn lemma_flag_bits(px: Seq<u8>, width: int, cx: int, cy: int, col: int, row: int)
    requires
        0 <= col < 2,
        0 <= row < 4,
    ensures
        ((cell_flag(px, width, cx, cy) >> (dot_bit(col, row) as u8)) & 1u8 == 1u8) == raised(
            sample(px, width, 2 * cx + col, 4 * cy + row),
        ),
{
    reveal_with_fuel(flag_prefix, 9);
    let v0 = dot_value(px, width, cx, cy, 0);
    let v1 = dot_value(px, width, cx, cy, 1);
    let v2 = dot_value(px, width, cx, cy, 2);
    let v3 = dot_value(px, width, cx, cy, 3);
    let v4 = dot_value(px, width, cx, cy, 4);
    let v5 = dot_value(px, width, cx, cy, 5);
    let v6 = dot_value(px, width, cx, cy, 6);
    let v7 = dot_value(px, width, cx, cy, 7);
    let f = cell_flag(px, width, cx, cy);
    assert(f == (((((((0u8 | v0) | v1) | v2) | v3) | v4) | v5) | v6) | v7);
    assert(v0 == 0 || v0 == 1u8 << 0u8);
    assert(v1 == 0 || v1 == 1u8 << 3u8);
    assert(v2 == 0 || v2 == 1u8 << 1u8);
    assert(v3 == 0 || v3 == 1u8 << 4u8);
    assert(v4 == 0 || v4 == 1u8 << 2u8);
    assert(v5 == 0 || v5 == 1u8 << 5u8);
    assert(v6 == 0 || v6 == 1u8 << 6u8);
    assert(v7 == 0 || v7 == 1u8 << 7u8);
    assert({
        &&& ((f >> 0u8) & 1u8 == 1u8) == (v0 != 0)
        &&& ((f >> 3u8) & 1u8 == 1u8) == (v1 != 0)
        &&& ((f >> 1u8) & 1u8 == 1u8) == (v2 != 0)
        &&& ((f >> 4u8) & 1u8 == 1u8) == (v3 != 0)
        &&& ((f >> 2u8) & 1u8 == 1u8) == (v4 != 0)
        &&& ((f >> 5u8) & 1u8 == 1u8) == (v5 != 0)
        &&& ((f >> 6u8) & 1u8 == 1u8) == (v6 != 0)
        &&& ((f >> 7u8) & 1u8 == 1u8) == (v7 != 0)
    }) by (bit_vector)
        requires
            f == (((((((0u8 | v0) | v1) | v2) | v3) | v4) | v5) | v6) | v7,
            v0 == 0 || v0 == 1u8 << 0u8,
            v1 == 0 || v1 == 1u8 << 3u8,
            v2 == 0 || v2 == 1u8 << 1u8,
            v3 == 0 || v3 == 1u8 << 4u8,
            v4 == 0 || v4 == 1u8 << 2u8,
            v5 == 0 || v5 == 1u8 << 5u8,
            v6 == 0 || v6 == 1u8 << 6u8,
            v7 == 0 || v7 == 1u8 << 7u8,
    ;
    assert((1u8 << 0u8) != 0 && (1u8 << 1u8) != 0 && (1u8 << 2u8) != 0 && (1u8 << 3u8) != 0 && (1u8
        << 4u8) != 0 && (1u8 << 5u8) != 0 && (1u8 << 6u8) != 0 && (1u8 << 7u8) != 0) by (bit_vector);
}

/// Each glyph is the Braille pattern whose code is the base plus its flag, so
/// every glyph lies in U+2800..=U+28FF and none is a newline.
pub proof fn lemma_glyph_code(flag: u8)
    ensures
        glyph(flag) as u32 == BRAILLE_BASE + flag as u32,
        0x2800 <= glyph(flag) as u32 <= 0x28FF,
        glyph(flag) != '\n',
{
}

/// The offset of the sample at `(x, y)` in a row-major grid lies before the
/// end of row `rows - 1`.
proof fn lemma_sample_offset(width: int, rows: int, x: int, y: int)
    requires
        0 <= x < width,
        0 <= y < rows,
    ensures
        0 <= y * width + x < rows * width,
        rows <= rows * width,
{
    assert(0 <= y * width + x < rows * width && rows <= rows * width) by (nonlinear_arith)
        requires
            0 <= x < width,
            0 <= y < rows,
    ;
}

/// The flag byte of the cell at column `cx`, row `cy` of the character grid,
/// read from row-major samples `width` to a row.
pub fn cell_flag_of(px: &Vec<u8>, width: usize, cx: usize, cy: usize) -> (flag: u8)
    requires
        cell_inside(px@, width as int, cx as int, cy as int),
    ensures
        flag == cell_flag(px@, width as int, cx as int, cy as int),
{
    let len = px.len();
    let mut flag: u8 = 0;
    let mut k: usize = 0;
    while k < 8
        invariant
            k <= 8,
            len == px@.len(),
            cell_inside(px@, width as int, cx as int, cy as int),
            flag == flag_prefix(px@, width as int, cx as int, cy as int, k as nat),
        decreases 8 - k,
    {
        let col = (k % 2) as u8;
        let row = (k / 2) as u8;
        proof {
            lemma_sample_offset(width as int, 4 * cy + 4, 2 * cx + col, 4 * cy + row);
        }
        let x = CELL_WIDTH * cx + col as usize;
        let y = CELL_HEIGHT * cy + row as usize;
        let v = px[y * width + x];
        let ghost before = flag;
        if is_raised(v) {
            flag = flag | (1u8 << dot_index(col, row));
        } else {
            assert(before | 0u8 == before) by (bit_vector);
        }
        k += 1;
    }
    flag
}

} // verus!
