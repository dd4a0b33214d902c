//! The rendering pipeline: grayscale conversion, the character grid's
//! dimensions, resampling to whole Braille cells, and the glyph text.
use vstd::prelude::*;
use image::DynamicImage;
use crate::grid::LumaGrid;
use crate::braille::{cell_flag, glyph, lemma_glyph_code};
use crate::text::{braille_text, lemma_text_alphabet, lemma_text_lines, render_cells};

verus! {

#[verifier::external_type_specification]
#[verifier::external_body]
pub struct ExDynamicImage(image::DynamicImage);

/// Why an image cannot be rendered at a requested width.
#[derive(Debug, Clone, Copy, PartialEq, Eq, Structural)]
pub enum RenderError {
    /// The requested width is zero characters.
    InvalidWidth,
    /// The image has no columns, so its aspect ratio is undefined.
    EmptyImage,
    /// The resampled grid would not fit the resampler's 32-bit sides or memory.
    TooLarge,
}

/// Rows of characters for an image of `width_origin` x `height_origin` pixels
/// drawn `char_width` characters wide. A cell covers 2 x 4 pixels, so the
/// image is scaled by `2 * char_width / width_origin` and cut into bands of 4.
pub open spec fn rows_for(width_origin: nat, height_origin: nat, char_width: nat) -> nat {
    ((height_origin * (2 * char_width)) as int / width_origin as int / 4) as nat
}

/// Whether the resampled grid, `2 * char_width` by `4 * rows` samples, has
/// sides that fit in `u32` and, like the resampler's intermediate of
/// `width_origin` by `4 * rows` samples, a sample count that fits in `usize`.
pub open spec fn grid_fits(width_origin: nat, height_origin: nat, char_width: nat) -> bool {
    let rows = rows_for(width_origin, height_origin, char_width);
    &&& 2 * char_width <= u32::MAX
    &&& 4 * rows <= u32::MAX
    &&& (2 * char_width) * (4 * rows) <= usize::MAX
    &&& width_origin * (4 * rows) <= usize::MAX
}

/// The number of character rows, or why there is none.
pub open spec fn grid_rows(width_origin: nat, height_origin: nat, char_width: nat) -> Result<
    nat,
    RenderError,
> {
    if char_width == 0 {
        Err(RenderError::InvalidWidth)
    } else if width_origin == 0 {
        Err(RenderError::EmptyImage)
    } else if !grid_fits(width_origin, height_origin, char_width) {
        Err(RenderError::TooLarge)
    } else {
        Ok(rows_for(width_origin, height_origin, char_width))
    }
}

/// The samples that Catmull-Rom resampling of a `width` x `height` luma image
/// gives at `new_width` x `new_height`.
pub uninterp spec fn catmull_rom_resized(
    samples: Seq<u8>,
    width: u32,
    height: u32,
    new_width: u32,
    new_height: u32,
) -> Seq<u8>;

/// The width, height and samples that grayscale conversion of `img` gives.
pub uninterp spec fn luma_of(img: DynamicImage) -> (u32, u32, Seq<u8>);

/// Sides below this are exact in `f32`, where resampling to the same size
/// weighs each source sample by exactly 1 and its neighbours by exactly 0.
pub const EXACT_SIDE: u32 = 0x80_0000;

/// The text for a luma image drawn `char_width` characters wide, or why there is none.
pub open spec fn luma_rendering(width: u32, height: u32, samples: Seq<u8>, char_width: nat) -> Result<
    Seq<char>,
    RenderError,
> {
    match grid_rows(width as nat, height as nat, char_width) {
        Ok(rows) => Ok(
            braille_text(
                catmull_rom_resized(
                    samples,
                    width,
                    height,
                    (2 * char_width) as u32,
                    (4 * rows) as u32,
                ),
                char_width,
                rows,
            ),
        ),
        Err(e) => Err(e),
    }
}

/// Whether a `width` x `height` image drawn `char_width` characters wide is
/// resampled to its own size, with sides small enough for that to be exact.
pub open spec fn already_cell_sized(width: u32, height: u32, char_width: nat) -> bool {
    &&& char_width > 0
    &&& width == 2 * char_width
    &&& grid_fits(width as nat, height as nat, char_width)
    &&& height == 4 * rows_for(width as nat, height as nat, char_width)
    &&& width < EXACT_SIDE
    &&& height < EXACT_SIDE
}

/// The characters of a rendering's text, or its error.
pub open spec fn rendered(r: Result<String, RenderError>) -> Result<Seq<char>, RenderError> {
    match r {
        Ok(s) => Ok(s@),
        Err(e) => Err(e),
    }
}

/// Relies on image::imageops::resize with FilterType::CatmullRom on a
/// `Luma<u8>` buffer: it returns `new_width` x `new_height` samples and
/// depends on the source samples and sizes alone. `ImageBuffer::from_raw`
/// and `into_raw` only move the samples in and out; `from_raw` accepts a
/// buffer of exactly `width * height` samples. At the same size the
/// Catmull-Rom weights of the source samples are exactly 1 and 0, so the
/// samples come back unchanged.
#[verifier::external_body]
fn resize_catmull_rom(grid: &LumaGrid, new_width: u32, new_height: u32) -> (r: Vec<u8>)
    requires
        grid.wf(),
        grid.width > 0,
        grid.height > 0,
        new_width > 0,
        new_height > 0,
        grid.width as int * new_height as int <= usize::MAX,
        new_width as int * new_height as int <= usize::MAX,
    ensures
        r@ == catmull_rom_resized(grid.samples@, grid.width, grid.height, new_width, new_height),
        r@.len() == new_width as int * new_height as int,
        new_width == grid.width && new_height == grid.height && grid.width < EXACT_SIDE
            && grid.height < EXACT_SIDE ==> r@ == grid.samples@,
{
    let source: image::GrayImage = image::ImageBuffer::from_raw(
        grid.width,
        grid.height,
        grid.samples.clone(),
    ).unwrap();
    image::imageops::resize(&source, new_width, new_height, image::imageops::FilterType::CatmullRom)
        .into_raw()
}

/// Relies on image::DynamicImage::into_luma8: the image as one luma sample
/// per pixel, with its width and height, a function of the image alone; an
/// `ImageBuffer` never holds fewer than `width * height` samples.
#[verifier::external_body]
fn into_luma_parts(img: DynamicImage) -> (r: (u32, u32, Vec<u8>))
    ensures
        (r.0, r.1, r.2@) == luma_of(img),
        r.2@.len() >= r.0 as int * r.1 as int,
{
    let gray = img.into_luma8();
    let (width, height) = gray.dimensions();
    (width, height, gray.into_raw())
}

/// The number of character rows for an image of `width_origin` x
/// `height_origin` pixels drawn `char_width` characters wide.
pub fn char_height(width_origin: u32, height_origin: u32, char_width: usize) -> (r: Result<
    usize,
    RenderError,
>)
    ensures
        match r {
            Ok(rows) => grid_rows(width_origin as nat, height_origin as nat, char_width as nat)
                == Ok::<nat, RenderError>(rows as nat),
            Err(e) => grid_rows(width_origin as nat, height_origin as nat, char_width as nat)
                == Err::<nat, RenderError>(e),
        },
{
    if char_width == 0 {
        return Err(RenderError::InvalidWidth);
    }
    if width_origin == 0 {
        return Err(RenderError::EmptyImage);
    }
    let cw = char_width as u128;
    let h = height_origin as u128;
    assert(h * (2 * cw) <= 0x1_0000_0000u128 * 0x2_0000_0000_0000_0000u128) by (nonlinear_arith)
        requires
            h < 0x1_0000_0000u128,
            cw < 0x1_0000_0000_0000_0000u128,
    ;
    let rows = h * (2 * cw) / (width_origin as u128) / 4;
    let side_max = u32::MAX as u128;
    if 2 * cw > side_max || 4 * rows > side_max {
        return Err(RenderError::TooLarge);
    }
    let count_max = usize::MAX as u128;
    assert((2 * cw) * (4 * rows) <= side_max * side_max && (width_origin as u128) * (4 * rows)
        <= side_max * side_max) by (nonlinear_arith)
        requires
            2 * cw <= side_max,
            4 * rows <= side_max,
            width_origin <= side_max,
    ;
    if (2 * cw) * (4 * rows) > count_max || (width_origin as u128) * (4 * rows) > count_max {
        return Err(RenderError::TooLarge);
    }
    Ok(rows as usize)
}

/// Renders a luma image `char_width` characters wide: the image is resampled
/// (Catmull-Rom) to exactly 2 x 4 samples per character, then each block
/// becomes one Braille glyph.
pub fn render_luma(grid: &LumaGrid, char_width: usize) -> (r: Result<String, RenderError>)
    requires
        grid.wf(),
    ensures
        rendered(r) == luma_rendering(grid.width, grid.height, grid.samples@, char_width as nat),
        already_cell_sized(grid.width, grid.height, char_width as nat) ==> rendered(r) == Ok::<
            Seq<char>,
            RenderError,
        >(braille_text(grid.samples@, char_width as nat, grid.height as nat / 4)),
{
    let rows = match char_height(grid.width, grid.height, char_width) {
        Ok(rows) => rows,
        Err(e) => {
            return Err(e);
        },
    };
    if rows == 0 {
        let none: Vec<u8> = Vec::new();
        assert((2 * char_width as int) * (4 * 0) == 0) by (nonlinear_arith);
        let text = render_cells(&none, char_width, 0);
        return Ok(text);
    }
    let new_width = (2 * char_width) as u32;
    let new_height = (4 * rows) as u32;
    let resized = resize_catmull_rom(grid, new_width, new_height);
    Ok(render_cells(&resized, char_width, rows))
}

/// Renders an image `char_width` characters wide: it is converted to luma
/// samples, then drawn as `render_luma` draws them.
pub fn image2string(img: DynamicImage, char_width: usize) -> (r: Result<String, RenderError>)
    ensures
        r matches Err(RenderError::InvalidWidth) <==> char_width == 0,
        rendered(r) == luma_rendering(
            luma_of(img).0,
            luma_of(img).1,
            luma_of(img).2.take(luma_of(img).0 as int * luma_of(img).1 as int),
            char_width as nat,
        ),
        already_cell_sized(luma_of(img).0, luma_of(img).1, char_width as nat) ==> rendered(r)
            == Ok::<Seq<char>, RenderError>(
            braille_text(
                luma_of(img).2.take(luma_of(img).0 as int * luma_of(img).1 as int),
                char_width as nat,
                luma_of(img).1 as nat / 4,
            ),
        ),
{
    let (width, height, samples) = into_luma_parts(img);
    match LumaGrid::from_raw(width, height, samples) {
        Some(grid) => render_luma(&grid, char_width),
        None => {
            proof {
                assert(false);
            }
            Err(RenderError::EmptyImage)
        },
    }
}

/// A successful rendering has one line per row of cells, `rows_for` of them,
/// each of exactly `char_width` Braille patterns (U+2800..=U+28FF), with a
/// single newline between lines and none at the end; with no rows it is empty.
/// The glyph at line `y`, column `x` is that of cell `(x, y)` of the resampled
/// samples, so the dot laws of the braille module apply to it.
pub proof fn lemma_rendering_lines(width: u32, height: u32, samples: Seq<u8>, char_width: nat)
    ensures
        luma_rendering(width, height, samples, char_width) matches Ok(t) ==> {
            let rows = rows_for(width as nat, height as nat, char_width);
            &&& rows == 0 ==> t.len() == 0
            &&& rows > 0 ==> t.len() + 1 == rows * (char_width + 1)
            &&& forall|y: int, x: int|
                0 <= y < rows && 0 <= x < char_width ==> 0x2800 <= (#[trigger] t[y * (
                char_width + 1) + x]) as u32 <= 0x28FF && t[y * (char_width + 1) + x] == glyph(
                    cell_flag(
                        catmull_rom_resized(
                            samples,
                            width,
                            height,
                            (2 * char_width) as u32,
                            (4 * rows) as u32,
                        ),
                        2 * char_width as int,
                        x,
                        y,
                    ),
                )
            &&& forall|y: int|
                0 <= y < rows - 1 ==> #[trigger] t[y * (char_width + 1) + char_width] == '\n'
            &&& forall|i: int|
                0 <= i < t.len() ==> (#[trigger] t[i] == '\n' || 0x2800 <= t[i] as u32 <= 0x28FF)
        },
{
    if let Ok(t) = luma_rendering(width, height, samples, char_width) {
        let rows = rows_for(width as nat, height as nat, char_width);
        let px = catmull_rom_resized(
            samples,
            width,
            height,
            (2 * char_width) as u32,
            (4 * rows) as u32,
        );
        assert(t == braille_text(px, char_width, rows));
        lemma_text_lines(px, char_width, rows);
        lemma_text_alphabet(px, char_width, rows);
        assert forall|y: int, x: int| 0 <= y < rows && 0 <= x < char_width implies 0x2800 <= (
        #[trigger] t[y * (char_width + 1) + x]) as u32 <= 0x28FF by {
            lemma_glyph_code(cell_flag(px, 2 * char_width as int, x, y));
        }
    }
}

/// Rendering depends on the luma image and the width alone: equal images
/// drawn at one width give the same text, character for character, or the
/// same error.
pub proof fn lemma_rendering_deterministic(a: LumaGrid, b: LumaGrid, char_width: nat)
    requires
        a.width == b.width,
        a.height == b.height,
        a.samples@ == b.samples@,
    ensures
        luma_rendering(a.width, a.height, a.samples@, char_width) == luma_rendering(
            b.width,
            b.height,
            b.samples@,
            char_width,
        ),
{
}

} // verus!
