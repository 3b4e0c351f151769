//! Score drawing support: glyph mapping and the pieces of drawing logic that
//! decide what to draw.
pub mod draw_utils;
pub mod helpers;
pub mod draw_nrgr;
pub mod draw_object;
