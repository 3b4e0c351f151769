//! Nightingale music notation engine: the verified core.
//!
//! Score data model, musical context propagation, duration arithmetic,
//! glyph mapping, beam slopes, layout helpers and Standard MIDI File export.

pub mod basic_types;
pub mod comparison;
pub mod beam;
pub mod context;
pub mod defs;
pub mod doc_types;
pub mod draw;
pub mod duration;
pub mod layout;
pub mod limits;
pub mod midi;
pub mod music_font;
pub mod score;
pub mod text;
