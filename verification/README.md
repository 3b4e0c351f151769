# Nightingale core, verified

The data model and engraving logic of the Nightingale music notation
engine, written in Verus: every function in `src/` carries a contract that
Verus proves, except three small trusted wrappers in `text.rs` around
outside calls (std's `String::push` and `String::from_utf8_lossy`, and the
`encoding` crate's Mac Roman decoder), whose contracts are taken on trust.

- `basic_types`, `defs`, `limits`, `music_font`: the score's basic types,
  object type codes, style sizes and limits.
- `score`: the object list (`InterpretedScore`) and its walk.
- `context`: the musical context (clef, key, meter, staff geometry) in force
  at each object, propagated along the walk.
- `duration`: logical durations, beats and measures.
- `doc_types`: the N105 document and score headers, parsed from bytes.
- `beam`: beam slopes.
- `layout`: preamble extraction, measure collection, grouping into systems,
  insertion of systems and pages, geometry fix-ups.
- `draw`: glyph choices, ledger lines, chord symbols, header/footer text and
  other decisions of the drawing code.
- `midi`: Standard MIDI File export.
- `comparison`: pixel diffs of RGBA images.
- `text`: small string helpers.

`app/` holds the floating-point parts (the playback-duration factor and the
percentage of differing pixels).

Not here: the drawing code that emits render commands, the Gourlay spacing
of measures and the placement of measures and syncs along a system, and
hence the whole-score `layout_score` entry point. They compute geometry in
floating point and rest on the renderer and spacing modules, which this
project does not contain; `layout` holds the integer steps they build on.
