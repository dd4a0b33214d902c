//! Renders grayscale raster images as text made of Unicode Braille patterns.
//!
//! Every character stands for a block of 2 x 4 pixels: a pixel brighter than
//! a fixed threshold raises the matching dot of the Braille cell.
pub mod braille;
pub mod text;
pub mod grid;
pub mod pipeline;
pub mod cli;
