//! Assembly of the character grid into text: one line per row of cells,
//! the lines joined by single newlines.
use vstd::prelude::*;
use crate::braille::{
    cell_flag, cell_flag_of, cell_inside, glyph, glyph_of, lemma_glyph_code, CELL_WIDTH,
};

verus! {

/// The glyphs of row `cy` of a grid `char_width` cells wide, drawn from the
/// row-major samples `px`, which are `2 * char_width` samples wide.
pub open spec fn row_text(px: Seq<u8>, char_width: nat, cy: int) -> Seq<char> {
    Seq::new(char_width, |cx: int| glyph(cell_flag(px, 2 * char_width as int, cx, cy)))
}

/// The first `char_height` rows of glyphs, joined by newlines.
pub open spec fn braille_text(px: Seq<u8>, char_width: nat, char_height: nat) -> Seq<char>
    decreases char_height,
{
    if char_height == 0 {
        Seq::empty()
    } else if char_height == 1 {
        row_text(px, char_width, 0)
    } else {
        braille_text(px, char_width, (char_height - 1) as nat) + seq!['\n'] + row_text(
            px,
            char_width,
            char_height - 1,
        )
    }
}

/// The text of `char_height > 0` rows has exactly `char_height` lines of
/// `char_width` glyphs: line `y` holds the glyphs of row `y` of cells, and a
/// newline stands after each line but the last. With no rows the text is empty.
pub proof fn lemma_text_lines(px: Seq<u8>, char_width: nat, char_height: nat)
    ensures
        char_height == 0 ==> braille_text(px, char_width, char_height).len() == 0,
        char_height > 0 ==> braille_text(px, char_width, char_height).len() + 1 == char_height * (
        char_width + 1),
        forall|y: int, x: int|
            0 <= y < char_height && 0 <= x < char_width ==> #[trigger] braille_text(
                px,
                char_width,
                char_height,
            )[y * (char_width + 1) + x] == glyph(cell_flag(px, 2 * char_width as int, x, y)),
        forall|y: int|
            0 <= y < char_height - 1 ==> #[trigger] braille_text(px, char_width, char_height)[y * (
            char_width + 1) + char_width] == '\n',
    decreases char_height,
{
    let cw = char_width as int;
    let ch = char_height as int;
    if char_height > 1 {
        lemma_text_lines(px, char_width, (char_height - 1) as nat);
        let prev = braille_text(px, char_width, (char_height - 1) as nat);
        let t = braille_text(px, char_width, char_height);
        let row = row_text(px, char_width, ch - 1);
        assert(prev.len() == (ch - 1) * (cw + 1) - 1) by (nonlinear_arith)
            requires
                prev.len() + 1 == (ch - 1) * (cw + 1),
        ;
        assert(t.len() + 1 == ch * (cw + 1)) by (nonlinear_arith)
            requires
                t.len() == prev.len() + 1 + cw,
                prev.len() == (ch - 1) * (cw + 1) - 1,
        ;
        assert forall|y: int, x: int| 0 <= y < ch && 0 <= x < cw implies #[trigger] t[y * (cw + 1)
            + x] == glyph(cell_flag(px, 2 * cw, x, y)) by {
            if y < ch - 1 {
                assert(y * (cw + 1) + x < prev.len()) by (nonlinear_arith)
                    requires
                        0 <= y < ch - 1,
                        0 <= x < cw,
                        prev.len() == (ch - 1) * (cw + 1) - 1,
                ;
                assert(t[y * (cw + 1) + x] == prev[y * (cw + 1) + x]);
            } else {
                assert(y * (cw + 1) + x == prev.len() + 1 + x) by (nonlinear_arith)
                    requires
                        y == ch - 1,
                        prev.len() == (ch - 1) * (cw + 1) - 1,
                ;
                assert(t[y * (cw + 1) + x] == row[x]);
            }
        }
        assert forall|y: int| 0 <= y < ch - 1 implies #[trigger] t[y * (cw + 1) + cw] == '\n' by {
            if y < ch - 2 {
                assert(y * (cw + 1) + cw < prev.len()) by (nonlinear_arith)
                    requires
                        0 <= y < ch - 2,
                        prev.len() == (ch - 1) * (cw + 1) - 1,
                ;
                assert(t[y * (cw + 1) + cw] == prev[y * (cw + 1) + cw]);
            } else {
                assert(y * (cw + 1) + cw == prev.len()) by (nonlinear_arith)
                    requires
                        y == ch - 2,
                        prev.len() == (ch - 1) * (cw + 1) - 1,
                ;
            }
        }
    } else if char_height == 1 {
        let t = braille_text(px, char_width, char_height);
        assert forall|y: int, x: int| 0 <= y < ch && 0 <= x < cw implies #[trigger] t[y * (cw + 1)
            + x] == glyph(cell_flag(px, 2 * cw, x, y)) by {
            assert(y * (cw + 1) + x == x);
        }
    }
}

/// Every character of the text is a newline or a Braille pattern, U+2800..=U+28FF.
pub proof fn lemma_text_alphabet(px: Seq<u8>, char_width: nat, char_height: nat)
    ensures
        forall|i: int|
            0 <= i < braille_text(px, char_width, char_height).len() ==> {
                let c = #[trigger] braille_text(px, char_width, char_height)[i];
                c == '\n' || 0x2800 <= c as u32 <= 0x28FF
            },
    decreases char_height,
{
    let t = braille_text(px, char_width, char_height);
    if char_height > 0 {
        let row = row_text(px, char_width, char_height - 1);
        assert forall|x: int| 0 <= x < row.len() implies 0x2800 <= #[trigger] row[x] as u32
            <= 0x28FF by {
            lemma_glyph_code(cell_flag(px, 2 * char_width as int, x, char_height - 1));
        }
        if char_height > 1 {
            lemma_text_alphabet(px, char_width, (char_height - 1) as nat);
            let prev = braille_text(px, char_width, (char_height - 1) as nat);
            assert forall|i: int| 0 <= i < t.len() implies (#[trigger] t[i] == '\n' || 0x2800
                <= t[i] as u32 <= 0x28FF) by {
                if i < prev.len() {
                    assert(t[i] == prev[i]);
                } else if i > prev.len() {
                    assert(t[i] == row[i - prev.len() - 1]);
                }
            }
        }
    }
}

/// Relies on String's `FromIterator<char>`: the string holds the characters
/// in the order given.
#[verifier::external_body]
fn string_from_chars(chars: &Vec<char>) -> (r: String)
    ensures
        r@ == chars@,
{
    chars.iter().collect()
}

/// Cell `(cx, cy)` of a grid of `2 * cw` by `4 * ch` samples lies inside it.
proof fn lemma_cell_inside(px: Seq<u8>, cw: int, ch: int, cx: int, cy: int)
    requires
        0 <= cx < cw,
        0 <= cy < ch,
        px.len() == (2 * cw) * (4 * ch),
    ensures
        cell_inside(px, 2 * cw, cx, cy),
{
    assert((4 * cy + 4) * (2 * cw) <= (2 * cw) * (4 * ch)) by (nonlinear_arith)
        requires
            0 <= cx < cw,
            0 <= cy < ch,
    ;
}

/// A grid `2 * cw` samples wide with a cell in it is no wider than its sample count.
proof fn lemma_row_fits(cw: int, ch: int)
    requires
        cw > 0,
        ch > 0,
    ensures
        2 * cw <= (2 * cw) * (4 * ch),
{
    assert(2 * cw <= (2 * cw) * (4 * ch)) by (nonlinear_arith)
        requires
            cw > 0,
            ch > 0,
    ;
}

/// Renders `char_height` rows of `char_width` Braille glyphs from a row-major
/// grid of exactly `2 * char_width` by `4 * char_height` samples.
pub fn render_cells(px: &Vec<u8>, char_width: usize, char_height: usize) -> (r: String)
    requires
        px@.len() == (2 * char_width) * (4 * char_height),
    ensures
        r@ == braille_text(px@, char_width as nat, char_height as nat),
{
    let mut out: Vec<char> = Vec::new();
    let len = px.len();
    if char_height == 0 {
        return string_from_chars(&out);
    }
    if char_width > 0 {
        proof {
            lemma_row_fits(char_width as int, char_height as int);
        }
    }
    let width = if char_width > 0 { CELL_WIDTH * char_width } else { 0 };
    let ghost cw = char_width as nat;
    let mut cy: usize = 0;
    while cy < char_height
        invariant
            cy <= char_height,
            width == 2 * char_width,
            cw == char_width,
            len == px@.len(),
            px@.len() == (2 * char_width) * (4 * char_height),
            out@ == braille_text(px@, cw, cy as nat),
        decreases char_height - cy,
    {
        let ghost head = if cy == 0 {
            Seq::<char>::empty()
        } else {
            braille_text(px@, cw, cy as nat) + seq!['\n']
        };
        if cy > 0 {
            out.push('\n');
        }
        assert(out@ == head);
        let mut cx: usize = 0;
        while cx < char_width
            invariant
                cy < char_height,
                cx <= char_width,
                width == 2 * char_width,
                cw == char_width,
                px@.len() == (2 * char_width) * (4 * char_height),
                out@ == head + row_text(px@, cw, cy as int).take(cx as int),
            decreases char_width - cx,
        {
            proof {
                lemma_cell_inside(px@, char_width as int, char_height as int, cx as int, cy as int);
            }
            let flag = cell_flag_of(px, width, cx, cy);
            let c = glyph_of(flag);
            out.push(c);
            assert(row_text(px@, cw, cy as int).take(cx + 1) =~= row_text(px@, cw, cy as int).take(
                cx as int,
            ).push(c));
            cx += 1;
        }
        assert(row_text(px@, cw, cy as int).take(cx as int) =~= row_text(px@, cw, cy as int));
        assert(out@ =~= braille_text(px@, cw, (cy + 1) as nat));
        cy += 1;
    }
    string_from_chars(&out)
}

} // verus!
