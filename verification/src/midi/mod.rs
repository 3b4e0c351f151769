//! MIDI export: event generation from a score and Standard MIDI File encoding.
pub mod export;

pub use export::{export_to_midi, MidiExporter};
