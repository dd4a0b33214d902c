use image2txt::braille::{dot_index, glyph_of, is_raised, cell_flag_of};
use image2txt::grid::LumaGrid;
use image2txt::pipeline::{char_height, image2string, render_luma, RenderError};
use image2txt::text::render_cells;

fn block(samples: [u8; 8]) -> Vec<u8> {
    samples.to_vec()
}

#[test]
fn threshold_is_strictly_greater_than_128() {
    assert!(!is_raised(128));
    assert!(is_raised(129));
    assert!(!is_raised(0));
    assert!(is_raised(255));
    assert_eq!(render_cells(&block([128; 8]), 1, 1), "\u{2800}");
    assert_eq!(render_cells(&block([129; 8]), 1, 1), "\u{28FF}");
}

#[test]
fn dark_block_is_blank_and_bright_block_is_full() {
    assert_eq!(render_cells(&block([0; 8]), 1, 1), "\u{2800}");
    assert_eq!(render_cells(&block([255; 8]), 1, 1), "\u{28FF}");
}

#[test]
fn each_sub_pixel_sets_its_braille_dot() {
    // Samples are row-major, two to a row; the expected bit follows the
    // Unicode dot numbering: columns of three, then the bottom row.
    let expected_bits = [0u32, 3, 1, 4, 2, 5, 6, 7];
    for k in 0..8 {
        let mut samples = [0u8; 8];
        samples[k] = 200;
        let text = render_cells(&block(samples), 1, 1);
        let c = char::from_u32(0x2800 + (1 << expected_bits[k])).unwrap();
        assert_eq!(text, c.to_string(), "sub-pixel {}", k);
    }
}

#[test]
fn dot_index_follows_braille_numbering() {
    assert_eq!(dot_index(0, 0), 0);
    assert_eq!(dot_index(0, 1), 1);
    assert_eq!(dot_index(0, 2), 2);
    assert_eq!(dot_index(1, 0), 3);
    assert_eq!(dot_index(1, 1), 4);
    assert_eq!(dot_index(1, 2), 5);
    assert_eq!(dot_index(0, 3), 6);
    assert_eq!(dot_index(1, 3), 7);
}

#[test]
fn glyph_is_base_plus_flag() {
    assert_eq!(glyph_of(0) as u32, 0x2800);
    assert_eq!(glyph_of(0x5A) as u32, 0x285A);
    assert_eq!(glyph_of(255) as u32, 0x28FF);
}

#[test]
fn cell_flag_reads_the_right_block() {
    // A 4 x 4 sample grid is too short for a cell, so use 4 x 8: two cells side by side.
    let mut px = vec![0u8; 32];
    // Right cell of the first row of cells: top-left sample (x = 2, y = 0) and
    // bottom-right sample (x = 3, y = 3).
    px[2] = 255;
    px[3 * 4 + 3] = 255;
    assert_eq!(cell_flag_of(&px, 4, 0, 0), 0);
    assert_eq!(cell_flag_of(&px, 4, 1, 0), 0b1000_0001);
}

#[test]
fn text_has_one_line_per_row_of_cells() {
    let cw = 3usize;
    let ch = 2usize;
    let px: Vec<u8> = (0..(2 * cw * 4 * ch)).map(|i| ((i * 37) % 256) as u8).collect();
    let text = render_cells(&px, cw, ch);
    let lines: Vec<&str> = text.split('\n').collect();
    assert_eq!(lines.len(), ch);
    for line in &lines {
        assert_eq!(line.chars().count(), cw);
    }
    assert!(!text.ends_with('\n'));
}

#[test]
fn every_character_is_a_braille_pattern_or_newline() {
    let cw = 4usize;
    let ch = 3usize;
    let px: Vec<u8> = (0..(2 * cw * 4 * ch)).map(|i| ((i * 91 + 7) % 256) as u8).collect();
    let text = render_cells(&px, cw, ch);
    for c in text.chars() {
        assert!(c == '\n' || (0x2800..=0x28FF).contains(&(c as u32)), "{:?}", c);
    }
}

#[test]
fn zero_rows_give_empty_text() {
    assert_eq!(render_cells(&Vec::new(), 5, 0), "");
}

#[test]
fn rendering_twice_gives_identical_text() {
    let samples: Vec<u8> = (0..(30 * 20)).map(|i| ((i * 13) % 256) as u8).collect();
    let grid = LumaGrid::from_raw(30, 20, samples).unwrap();
    let first = render_luma(&grid, 7).unwrap();
    let second = render_luma(&grid, 7).unwrap();
    assert_eq!(first.as_bytes(), second.as_bytes());
}

#[test]
fn char_height_follows_the_aspect_ratio() {
    assert_eq!(char_height(4, 8, 2), Ok(2));
    // 50 * (20 / 100) / 4 = 2.5
    assert_eq!(char_height(100, 50, 10), Ok(2));
    // 300 * (80 / 200) / 4 = 30
    assert_eq!(char_height(200, 300, 40), Ok(30));
    // 1 * (2 / 1000) / 4 rounds down to nothing.
    assert_eq!(char_height(1000, 1, 1), Ok(0));
    assert_eq!(char_height(7, 0, 3), Ok(0));
}

#[test]
fn char_height_errors() {
    assert_eq!(char_height(4, 8, 0), Err(RenderError::InvalidWidth));
    assert_eq!(char_height(0, 8, 2), Err(RenderError::EmptyImage));
    assert_eq!(char_height(4, 8, usize::MAX), Err(RenderError::TooLarge));
    assert_eq!(char_height(1, u32::MAX, 1 << 20), Err(RenderError::TooLarge));
}

#[test]
fn white_four_by_eight_image_at_width_two() {
    let img = image::DynamicImage::ImageLuma8(image::GrayImage::from_pixel(
        4,
        8,
        image::Luma([255u8]),
    ));
    let text = image2string(img, 2).unwrap();
    assert_eq!(text, "\u{28FF}\u{28FF}\n\u{28FF}\u{28FF}");
}

#[test]
fn colour_image_is_converted_to_luma() {
    let white = image::DynamicImage::ImageRgb8(image::RgbImage::from_pixel(
        8,
        8,
        image::Rgb([255u8, 255, 255]),
    ));
    assert_eq!(image2string(white, 2).unwrap(), "\u{28FF}\u{28FF}");
    let black = image::DynamicImage::ImageRgb8(image::RgbImage::from_pixel(
        8,
        16,
        image::Rgb([0u8, 0, 0]),
    ));
    assert_eq!(image2string(black, 1).unwrap(), "\u{2800}");
}

#[test]
fn image2string_rejects_zero_width() {
    let img = image::DynamicImage::ImageLuma8(image::GrayImage::from_pixel(
        4,
        8,
        image::Luma([255u8]),
    ));
    assert_eq!(image2string(img, 0), Err(RenderError::InvalidWidth));
}

#[test]
fn flat_image_gives_empty_text() {
    let img = image::DynamicImage::ImageLuma8(image::GrayImage::from_pixel(
        100,
        1,
        image::Luma([255u8]),
    ));
    assert_eq!(image2string(img, 3), Ok(String::new()));
}

#[test]
fn render_luma_resamples_to_whole_cells() {
    // 8 x 16 white grid at 2 characters: resampled to 4 x 8, two rows of cells.
    let grid = LumaGrid::from_raw(8, 16, vec![255u8; 128]).unwrap();
    assert_eq!(render_luma(&grid, 2).unwrap(), "\u{28FF}\u{28FF}\n\u{28FF}\u{28FF}");
    // At 1 character: resampled to 2 x 4, a single cell.
    let grid = LumaGrid::from_raw(8, 16, vec![0u8; 128]).unwrap();
    assert_eq!(render_luma(&grid, 1).unwrap(), "\u{2800}");
}

#[test]
fn luma_grid_from_raw_checks_and_trims() {
    assert!(LumaGrid::from_raw(3, 2, vec![1u8; 5]).is_none());
    let grid = LumaGrid::from_raw(3, 2, vec![1u8; 9]).unwrap();
    assert_eq!(grid.width, 3);
    assert_eq!(grid.height, 2);
    assert_eq!(grid.samples.len(), 6);
}

#[test]
fn same_size_resampling_keeps_the_samples() {
    // A 4 x 8 grid at 2 characters is already 2 x 4 samples per cell.
    let samples: Vec<u8> = (0..32u32).map(|i| ((i * 97 + 11) % 256) as u8).collect();
    let direct = render_cells(&samples, 2, 2);
    let grid = LumaGrid::from_raw(4, 8, samples.clone()).unwrap();
    assert_eq!(render_luma(&grid, 2).unwrap(), direct);
    let img = image::DynamicImage::ImageLuma8(image::GrayImage::from_raw(4, 8, samples).unwrap());
    assert_eq!(image2string(img, 2).unwrap(), direct);
}
