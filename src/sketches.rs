//! Demonstration sketches.
pub mod circle_rect;
pub mod diagonals;
pub mod drawing;
pub mod erase;
pub mod erase2;
pub mod lines;
pub mod rand_static;
pub mod rects;
pub mod text;
