//! Limits of the Nightingale data structures. Several are fixed by the file format.
use vstd::prelude::*;

verus! {

/// Maximum filename length (Carbon/legacy MacOS limit)
pub const FILENAME_MAXLEN: usize = 31;

/// Maximum number of staves attached to a system
pub const MAXSTAVES: usize = 64;

/// Maximum number of staves in one part
pub const MAXSTPART: usize = 16;

/// Maximum number of staff lines/spaces (MIDI covers <11 octaves at 7/octave)
pub const MAX_STAFFPOS: usize = 76;

/// Maximum voice number in score
pub const MAXVOICES: usize = 100;

/// Maximum number of notes in a chord
pub const MAXCHORD: usize = 88;

/// Maximum number of notes/chords in a beamset
pub const MAXINBEAM: usize = 127;

/// Maximum number of notes/chords in an ottava
pub const MAXINOTTAVA: usize = 127;

/// Maximum number of notes/chords in a tuplet
pub const MAXINTUPLET: usize = 80;

/// Maximum tuplet numerator and denominator
pub const MAX_TUPLENUM: u8 = 255;

/// Maximum number of nodes (objects) in a measure
pub const MAX_MEASNODES: usize = 250;

/// Maximum legal SYNC l_dur code; shortest legal duration = 1/2^(MAX_L_DUR-WHOLE_L_DUR)
pub const MAX_L_DUR: i8 = 9;

/// Maximum number of items in key signature
pub const MAX_KSITEMS: usize = 7;

/// Maximum value of index into font style table
pub const MAX_FONTSTYLENUM: usize = 15;

/// Maximum number of font families in one score
pub const MAX_SCOREFONTS: usize = 20;

/// Maximum number of cursors used by symtable
pub const MAX_CURSORS: usize = 100;

/// Maximum time signature numerator
pub const MAX_TSNUM: i8 = 99;

/// Maximum time signature denominator
pub const MAX_TSDENOM: i8 = 64;

/// Largest number for the first measure
pub const MAX_FIRSTMEASNUM: i32 = 4000;

/// Maximum number of measures in entire score
pub const MAX_SCORE_MEASURES: usize = 5000;

/// Maximum number of measures we can respace per call
pub const MAX_RSP_MEASURES: usize = 5000;

/// Maximum number of changes in one call to Master Page
pub const MAX_MPCHANGES: usize = 50;

/// Maximum pieces one note/rest can be "clarified" into
pub const MF_MAXPIECES: usize = 300;

/// Maximum reduction = 2^(MIN_MAGNIFY/2)
pub const MIN_MAGNIFY: i8 = -4;

/// Maximum magnification = 2^(MAX_MAGNIFY/2)
pub const MAX_MAGNIFY: i8 = 5;

/// Maximum legal staff rastral size number
pub const MAXRASTRAL: usize = 8;

/// Maximum number of ledger lines (22 reaches MIDI note 127 in bass clef)
pub const MAX_LEDGERS: usize = 22;

/// Minimum legal spacePercent for respacing
pub const MINSPACE: i16 = 10;

/// Maximum legal spacePercent for respacing
pub const MAXSPACE: i16 = 500;

/// Minimum text size in points
pub const MIN_TEXT_SIZE: u8 = 4;

/// Maximum text size in points
pub const MAX_TEXT_SIZE: u8 = 127;

/// Maximum length of any ending label
pub const MAX_ENDING_STRLEN: usize = 16;

/// Maximum number of ending labels
pub const MAX_ENDING_STRINGS: usize = 31;

/// One less than length of comment header field
pub const MAX_COMMENT_LEN: usize = 255;

/// Minimum legal tempo in beats per minute
pub const MIN_BPM: i16 = 10;

/// Maximum legal tempo in beats per minute
pub const MAX_BPM: i16 = 1200;

/// Maximum number of simultaneous notes for Play commands
pub const MAXEVENTLIST: usize = 128;

/// Maximum number of simultaneous notes in MIDI files
pub const MAXMFEVENTLIST: usize = 128;

/// Maximum safe measure duration in PDURticks (cf. ANOTE timeStamp field)
pub const MAX_SAFE_MEASDUR: i32 = 65500;

} // verus!
