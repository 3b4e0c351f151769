//! Text and choice logic of object drawing: header/footer templates, bar
//! line types, measure numbering, font names, chord symbols, tempo glyphs,
//! ottava and ending labels.
use vstd::prelude::*;
use crate::basic_types::Link;
use crate::defs::{
    BREVE_L_DUR, EIGHTH_L_DUR, HALF_L_DUR, ONE28TH_L_DUR, QTR_L_DUR, SIXTEENTH_L_DUR,
    SIXTY4TH_L_DUR, SYNC_TYPE, THIRTY2ND_L_DUR, WHOLE_L_DUR,
};
use crate::score::{AMeasure, ANote, InterpretedScore};
use crate::text::{decimal, push_char, push_chars, push_decimal, str_is};

verus! {

/// Separator of the left, center and right parts of a header/footer template.
pub const HEADERFOOTER_DELIM_CHAR: char = '\x01';

/// Placeholder for the page number in a header/footer template.
pub const PAGE_NUM_CHAR: char = '#';

// ----------------------------------------------------------------------------
// Header and footer
// ----------------------------------------------------------------------------

/// The decimal representation of a signed number, with a leading '-'
/// when it is negative.
pub open spec fn signed_decimal(n: int) -> Seq<char> {
    if n < 0 { seq!['-'] + decimal((-n) as nat) } else { decimal(n as nat) }
}

/// The parts of a header/footer template: the text between separators,
/// each page-number placeholder replaced by `page`.
pub open spec fn template_sections(t: Seq<char>, page: Seq<char>) -> Seq<Seq<char>>
    decreases t.len(),
{
    if t.len() == 0 {
        seq![Seq::empty()]
    } else {
        let f = template_sections(t.drop_last(), page);
        let c = t.last();
        if c == HEADERFOOTER_DELIM_CHAR {
            f.push(Seq::empty())
        } else if c == PAGE_NUM_CHAR {
            f.update(f.len() - 1, f.last() + page)
        } else {
            f.update(f.len() - 1, f.last().push(c))
        }
    }
}

proof fn lemma_template_sections_len(t: Seq<char>, page: Seq<char>)
    ensures
        template_sections(t, page).len() >= 1,
    decreases t.len(),
{
    if t.len() > 0 {
        lemma_template_sections_len(t.drop_last(), page);
    }
}

/// Part `k` of a template, or empty when there is no such part.
pub open spec fn template_part(t: Seq<char>, page: Seq<char>, k: int) -> Seq<char> {
    let f = template_sections(t, page);
    if k < f.len() { f[k] } else { Seq::empty() }
}

/// The characters of a signed number (see `signed_decimal`).
fn signed_decimal_chars(n: i32) -> (r: Vec<char>)
    ensures
        r@ == signed_decimal(n as int),
{
    let mut s = String::new();
    let mag: u64 = if n < 0 { (-(n as i64)) as u64 } else { n as u64 };
    if n < 0 {
        push_char(&mut s, '-');
    }
    push_decimal(&mut s, mag);
    let mut v: Vec<char> = Vec::new();
    for c in it: s.as_str().chars()
        invariant
            it.seq() == signed_decimal(n as int),
            v@ == it.seq().take(it.index() as int),
    {
        v.push(c);
        assert(v@ =~= it.seq().take(it.index() + 1));
    }
    assert(v@ =~= signed_decimal(n as int));
    v
}

/// The left, center and right parts of a header/footer template with the
/// page number filled in (see `template_sections`); parts beyond the third
/// are dropped and missing parts are empty.
pub fn parse_header_footer_template(template: &str, page_num: i32) -> (r: (String, String, String))
    ensures
        r.0@ == template_part(template@, signed_decimal(page_num as int), 0),
        r.1@ == template_part(template@, signed_decimal(page_num as int), 1),
        r.2@ == template_part(template@, signed_decimal(page_num as int), 2),
{
    let page = signed_decimal_chars(page_num);
    let ghost p = page@;
    let mut left = String::new();
    let mut center = String::new();
    let mut right = String::new();
    let mut idx: usize = 0;
    for ch in it: template.chars()
        invariant
            it.seq() == template@,
            page@ == p,
            p == signed_decimal(page_num as int),
            idx == if template_sections(it.seq().take(it.index() as int), p).len() - 1 < 3 {
                template_sections(it.seq().take(it.index() as int), p).len() - 1
            } else {
                3
            },
            left@ == template_part(it.seq().take(it.index() as int), p, 0),
            center@ == template_part(it.seq().take(it.index() as int), p, 1),
            right@ == template_part(it.seq().take(it.index() as int), p, 2),
    {
        let ghost pre = it.seq().take(it.index() as int);
        let ghost post = it.seq().take(it.index() + 1);
        proof {
            assert(post.drop_last() =~= pre);
            assert(post.last() == ch);
            lemma_template_sections_len(pre, p);
        }
        if ch == HEADERFOOTER_DELIM_CHAR {
            if idx < 3 {
                idx = idx + 1;
            }
        } else if ch == PAGE_NUM_CHAR {
            if idx == 0 {
                push_chars(&mut left, page.as_slice());
            } else if idx == 1 {
                push_chars(&mut center, page.as_slice());
            } else if idx == 2 {
                push_chars(&mut right, page.as_slice());
            }
        } else {
            if idx == 0 {
                push_char(&mut left, ch);
            } else if idx == 1 {
                push_char(&mut center, ch);
            } else if idx == 2 {
                push_char(&mut right, ch);
            }
        }
        proof {
            let f = template_sections(pre, p);
            let g = template_sections(post, p);
            if ch == HEADERFOOTER_DELIM_CHAR {
                assert(g == f.push(Seq::<char>::empty()));
            } else if ch == PAGE_NUM_CHAR {
                assert(g == f.update(f.len() - 1, f.last() + p));
            } else {
                assert(g == f.update(f.len() - 1, f.last().push(ch)));
            }
        }
    }
    proof {
        assert(template@.take(template@.len() as int) =~= template@);
    }
    (left, center, right)
}

// ----------------------------------------------------------------------------
// Bar lines and measure numbers
// ----------------------------------------------------------------------------

/// Kinds of bar line.
#[derive(Debug, Clone, Copy, PartialEq, Eq)]
pub enum BarLineType {
    Single,
    Double,
    FinalDouble,
    RepeatLeft,
    RepeatRight,
    RepeatBoth,
}

/// The bar line of a measure subobject type: 1 single, 2 double, 3 final
/// double, 5 repeat left, 6 repeat right, 7 repeat both; single otherwise.
pub fn map_barline_type(sub_type: i8) -> (r: BarLineType)
    ensures
        r == if sub_type == 2 {
            BarLineType::Double
        } else if sub_type == 3 {
            BarLineType::FinalDouble
        } else if sub_type == 5 {
            BarLineType::RepeatLeft
        } else if sub_type == 6 {
            BarLineType::RepeatRight
        } else if sub_type == 7 {
            BarLineType::RepeatBoth
        } else {
            BarLineType::Single
        },
{
    match sub_type {
        1 => BarLineType::Single,
        2 => BarLineType::Double,
        3 => BarLineType::FinalDouble,
        5 => BarLineType::RepeatLeft,
        6 => BarLineType::RepeatRight,
        7 => BarLineType::RepeatBoth,
        _ => BarLineType::Single,
    }
}

/// A measure number is drawn on this staff: numbering is on, the measure
/// is not fake, the staff is the top visible one (numbers above) or the
/// bottom visible one (numbers below), the number reaches the first number
/// printed (1 or 2), and it is a multiple of the numbering interval (or,
/// with a negative interval, the measure starts its system).
pub open spec fn spec_should_draw_meas_num(
    score: InterpretedScore,
    m: AMeasure,
    top_vis_staff: i8,
    bot_vis_staff: i8,
    first_meas_in_system: bool,
) -> bool {
    let num = m.measure_num as int + score.first_mn_number as int;
    &&& score.number_meas != 0
    &&& m.reserved_m >= 0
    &&& m.header.staffn == (if score.above_mn { top_vis_staff } else { bot_vis_staff })
    &&& num >= (if score.start_mn_print1 { 1int } else { 2int })
    &&& if score.number_meas > 0 {
        num % (score.number_meas as int) == 0
    } else {
        first_meas_in_system
    }
}

/// Whether to draw a measure's number on a staff (see `spec_should_draw_meas_num`).
pub fn should_draw_meas_num(
    score: &InterpretedScore,
    ameasure: &AMeasure,
    top_vis_staff: i8,
    bot_vis_staff: i8,
    first_meas_in_system: bool,
) -> (r: bool)
    ensures
        r == spec_should_draw_meas_num(*score, *ameasure, top_vis_staff, bot_vis_staff, first_meas_in_system),
{
    if score.number_meas == 0 {
        return false;
    }
    if ameasure.reserved_m < 0 {
        return false;
    }
    let measure_num: i32 = ameasure.measure_num as i32 + score.first_mn_number as i32;
    let target_staff = if score.above_mn { top_vis_staff } else { bot_vis_staff };
    if ameasure.header.staffn != target_staff {
        return false;
    }
    let threshold: i32 = if score.start_mn_print1 { 1 } else { 2 };
    if measure_num < threshold {
        return false;
    }
    if score.number_meas > 0 {
        let interval: i32 = score.number_meas as i32;
        proof {
            assert(measure_num >= 0);
            assert((measure_num as int) % (interval as int) == (measure_num % interval) as int);
        }
        (measure_num % interval) == 0
    } else {
        first_meas_in_system
    }
}

// ----------------------------------------------------------------------------
// Fonts
// ----------------------------------------------------------------------------

/// Modern equivalent of a Macintosh font name: Times New Roman for Times,
/// New York and the decorative serif fonts (Briard, Zapf Chancery, Apple
/// Chancery, Zapfino); Helvetica for Arial, Geneva, Chicago and the Sonata
/// music font; Courier for Courier New and Monaco; Palatino for Palatino
/// Linotype; any other name unchanged.
pub open spec fn spec_mac_font_name(name: Seq<char>) -> Seq<char> {
    if name == "Times"@ || name == "Times New Roman"@ || name == "New York"@ || name == "Briard"@
        || name == "Zapf Chancery"@ || name == "Apple Chancery"@ || name == "Zapfino"@ {
        "Times New Roman"@
    } else if name == "Helvetica"@ || name == "Arial"@ || name == "Geneva"@ || name == "Chicago"@ || name == "Sonata"@ {
        "Helvetica"@
    } else if name == "Courier"@ || name == "Courier New"@ || name == "Monaco"@ {
        "Courier"@
    } else if name == "Palatino"@ || name == "Palatino Linotype"@ {
        "Palatino"@
    } else {
        name
    }
}

/// Whether `s` is the string literal `lit` (compared character by character).
fn is_lit(s: &str, lit: &str) -> (r: bool)
    ensures
        r == (s@ == lit@),
{
    let mut v: Vec<char> = Vec::new();
    for c in it: lit.chars()
        invariant
            it.seq() == lit@,
            v@ == it.seq().take(it.index() as int),
    {
        v.push(c);
        assert(v@ =~= it.seq().take(it.index() + 1));
    }
    assert(v@ =~= lit@);
    str_is(s, v.as_slice())
}

/// Modern equivalent of a Macintosh font name (see `spec_mac_font_name`).
pub fn map_mac_font_name(name: &str) -> (r: String)
    ensures
        r@ == spec_mac_font_name(name@),
{
    if is_lit(name, "Times") || is_lit(name, "Times New Roman") || is_lit(name, "New York")
        || is_lit(name, "Briard") || is_lit(name, "Zapf Chancery") || is_lit(name, "Apple Chancery")
        || is_lit(name, "Zapfino") {
        "Times New Roman".to_owned()
    } else if is_lit(name, "Helvetica") || is_lit(name, "Arial") || is_lit(name, "Geneva")
        || is_lit(name, "Chicago") || is_lit(name, "Sonata") {
        "Helvetica".to_owned()
    } else if is_lit(name, "Courier") || is_lit(name, "Courier New") || is_lit(name, "Monaco") {
        "Courier".to_owned()
    } else if is_lit(name, "Palatino") || is_lit(name, "Palatino Linotype") {
        "Palatino".to_owned()
    } else {
        name.to_owned()
    }
}

/// Kinds of text graphic that have a font of their own.
#[derive(Debug, Clone, Copy, PartialEq, Eq)]
pub enum GraphicType {
    GrString,
    GrLyric,
    GrRehearsal,
    GrChordSym,
    /// Any other kind of graphic.
    GrOther,
}

/// Default font of a text graphic: Helvetica for rehearsal marks and chord
/// symbols, Times New Roman otherwise.
pub fn default_font_for_type(gtype: &GraphicType) -> (r: String)
    ensures
        r@ == match *gtype {
            GraphicType::GrRehearsal => "Helvetica"@,
            GraphicType::GrChordSym => "Helvetica"@,
            _ => "Times New Roman"@,
        },
{
    match gtype {
        GraphicType::GrLyric => "Times New Roman".to_owned(),
        GraphicType::GrRehearsal => "Helvetica".to_owned(),
        GraphicType::GrChordSym => "Helvetica".to_owned(),
        _ => "Times New Roman".to_owned(),
    }
}

// ----------------------------------------------------------------------------
// Chord symbols
// ----------------------------------------------------------------------------

/// Field separator of a stored chord symbol.
pub const CS_DELIMITER: char = '\x7f';

/// The natural sign.
pub const NATURAL_SIGN: char = '\u{266E}';

/// A control character (Unicode category Cc): U+0000..=U+001F and
/// U+007F..=U+009F.
pub open spec fn is_control(c: char) -> bool {
    (c as u32) <= 0x1F || (0x7F <= (c as u32) && (c as u32) <= 0x9F)
}

/// `s` without its trailing control characters.
pub open spec fn trim_end_control(s: Seq<char>) -> Seq<char>
    decreases s.len(),
{
    if s.len() > 0 && is_control(s.last()) {
        trim_end_control(s.drop_last())
    } else {
        s
    }
}

/// `s` without its delimiters and NULs.
pub open spec fn remove_del_nul(s: Seq<char>) -> Seq<char>
    decreases s.len(),
{
    if s.len() == 0 {
        s
    } else {
        let p = remove_del_nul(s.drop_last());
        if s.last() == CS_DELIMITER || s.last() == '\0' { p } else { p.push(s.last()) }
    }
}

/// The fields of a stored chord symbol: the text between delimiters.
pub open spec fn split_fields(s: Seq<char>) -> Seq<Seq<char>>
    decreases s.len(),
{
    if s.len() == 0 {
        seq![Seq::empty()]
    } else {
        let f = split_fields(s.drop_last());
        if s.last() == CS_DELIMITER {
            f.push(Seq::empty())
        } else {
            f.update(f.len() - 1, f.last().push(s.last()))
        }
    }
}

/// How a chord symbol character is shown: after a note letter A..G, 'n' is
/// a natural sign; the Sonata double flat (U+00BA) and double sharp
/// (U+00DC) become "bb" and "##"; anything else is kept.
pub open spec fn chord_char(c: char, after_note: bool) -> Seq<char> {
    if after_note && c == 'n' {
        seq![NATURAL_SIGN]
    } else if c == '\u{00BA}' {
        seq!['b', 'b']
    } else if c == '\u{00DC}' {
        seq!['#', '#']
    } else {
        seq![c]
    }
}

/// A note letter A..G.
pub open spec fn is_note_letter(c: char) -> bool {
    65 <= (c as u32) && (c as u32) <= 71
}

/// A root or bass field with its accidentals shown (see `chord_char`).
pub open spec fn root_acc(s: Seq<char>) -> Seq<char>
    decreases s.len(),
{
    if s.len() == 0 {
        Seq::empty()
    } else {
        root_acc(s.drop_last()) + chord_char(s.last(), s.len() >= 2 && is_note_letter(s[s.len() - 2]))
    }
}

/// An extension field with its accidentals shown: only the double flat
/// and double sharp are replaced.
pub open spec fn ext_acc(s: Seq<char>) -> Seq<char>
    decreases s.len(),
{
    if s.len() == 0 {
        Seq::empty()
    } else {
        ext_acc(s.drop_last()) + chord_char(s.last(), false)
    }
}

/// The non-empty stacked extensions shown, joined by '/', in parentheses;
/// nothing when all three are empty.
pub open spec fn chord_stack(a: Seq<char>, b: Seq<char>, c: Seq<char>) -> Seq<char> {
    if a.len() == 0 && b.len() == 0 && c.len() == 0 {
        Seq::empty()
    } else {
        let ea = if a.len() > 0 { ext_acc(a) } else { Seq::empty() };
        let sb = if b.len() > 0 { (if a.len() > 0 { seq!['/'] } else { Seq::empty() }) + ext_acc(b) } else { Seq::empty() };
        let sc = if c.len() > 0 {
            (if a.len() > 0 || b.len() > 0 { seq!['/'] } else { Seq::empty() }) + ext_acc(c)
        } else {
            Seq::empty()
        };
        seq!['('] + ea + sb + sc + seq![')']
    }
}

/// A stored chord symbol as display text. With at least seven fields (root,
/// quality, extension, three stacked extensions, bass): the root with its
/// accidentals, the quality as is, the extension, the stack (see
/// `chord_stack`), then '/' and the bass (without trailing control
/// characters) when there is one; fields beyond the seventh are dropped.
/// With fewer fields: the text without delimiters and NULs, trailing
/// control characters removed.
pub open spec fn spec_normalize_chord(raw: Seq<char>) -> Seq<char> {
    let f = split_fields(raw);
    if f.len() < 7 {
        trim_end_control(remove_del_nul(raw))
    } else {
        let bass = trim_end_control(f[6]);
        root_acc(f[0]) + f[1] + ext_acc(f[2]) + chord_stack(f[3], f[4], f[5])
            + if bass.len() > 0 { seq!['/'] + root_acc(bass) } else { Seq::empty() }
    }
}

proof fn lemma_split_fields_len(s: Seq<char>)
    ensures
        split_fields(s).len() >= 1,
    decreases s.len(),
{
    if s.len() > 0 {
        lemma_split_fields_len(s.drop_last());
    }
}

fn is_control_char(c: char) -> (r: bool)
    ensures
        r == is_control(c),
{
    let u = c as u32;
    u <= 0x1F || (0x7F <= u && u <= 0x9F)
}

/// The characters of a string.
fn chars_of(s: &str) -> (r: Vec<char>)
    ensures
        r@ == s@,
{
    let mut v: Vec<char> = Vec::new();
    for c in it: s.chars()
        invariant
            it.seq() == s@,
            v@ == it.seq().take(it.index() as int),
    {
        v.push(c);
        assert(v@ =~= it.seq().take(it.index() + 1));
    }
    assert(v@ =~= s@);
    v
}

/// Append the display form of one chord symbol character (see `chord_char`).
fn push_chord_char(out: &mut String, c: char, after_note: bool)
    ensures
        final(out)@ == old(out)@ + chord_char(c, after_note),
{
    let ghost o = out@;
    if after_note && c == 'n' {
        push_char(out, NATURAL_SIGN);
    } else if c == '\u{00BA}' {
        push_char(out, 'b');
        push_char(out, 'b');
    } else if c == '\u{00DC}' {
        push_char(out, '#');
        push_char(out, '#');
    } else {
        push_char(out, c);
    }
    assert(out@ =~= o + chord_char(c, after_note));
}

/// Append a root or bass field given as characters (see `root_acc`).
fn push_root_acc(out: &mut String, field: &[char])
    ensures
        final(out)@ == old(out)@ + root_acc(field@),
{
    let ghost o = out@;
    let mut i: usize = 0;
    while i < field.len()
        invariant
            i <= field@.len(),
            out@ == o + root_acc(field@.take(i as int)),
        decreases field.len() - i,
    {
        let prev_is_note: bool = i > 0 && 65 <= (field[i - 1] as u32) && (field[i - 1] as u32) <= 71;
        push_chord_char(out, field[i], prev_is_note);
        proof {
            let t = field@.take(i + 1);
            assert(t.drop_last() =~= field@.take(i as int));
            assert(t.last() == field@[i as int]);
            if i > 0 {
                assert(t[t.len() - 2] == field@[i - 1]);
            }
            assert(root_acc(t) == root_acc(field@.take(i as int)) + chord_char(field@[i as int], prev_is_note));
            assert(out@ =~= o + root_acc(t));
        }
        i = i + 1;
    }
    assert(field@.take(field@.len() as int) =~= field@);
}

/// Append an extension field given as characters (see `ext_acc`).
fn push_ext_acc(out: &mut String, field: &[char])
    ensures
        final(out)@ == old(out)@ + ext_acc(field@),
{
    let ghost o = out@;
    let mut i: usize = 0;
    while i < field.len()
        invariant
            i <= field@.len(),
            out@ == o + ext_acc(field@.take(i as int)),
        decreases field.len() - i,
    {
        push_chord_char(out, field[i], false);
        proof {
            let t = field@.take(i + 1);
            assert(t.drop_last() =~= field@.take(i as int));
            assert(t.last() == field@[i as int]);
            assert(out@ =~= o + ext_acc(t));
        }
        i = i + 1;
    }
    assert(field@.take(field@.len() as int) =~= field@);
}

/// Append a root or bass field with its accidentals shown (see `root_acc`).
pub fn replace_root_accidentals(field: &str, out: &mut String)
    ensures
        final(out)@ == old(out)@ + root_acc(field@),
{
    let chars = chars_of(field);
    push_root_acc(out, chars.as_slice());
}

/// Append an extension field with its accidentals shown (see `ext_acc`).
pub fn replace_ext_accidentals(field: &str, out: &mut String)
    ensures
        final(out)@ == old(out)@ + ext_acc(field@),
{
    let chars = chars_of(field);
    push_ext_acc(out, chars.as_slice());
}

/// `s` without its trailing control characters (see `trim_end_control`).
fn trim_end_control_chars(s: &Vec<char>) -> (r: Vec<char>)
    ensures
        r@ == trim_end_control(s@),
{
    let mut n: usize = s.len();
    assert(s@.take(n as int) =~= s@);
    while n > 0 && is_control_char(s[n - 1])
        invariant
            n <= s@.len(),
            trim_end_control(s@) == trim_end_control(s@.take(n as int)),
        decreases n,
    {
        proof {
            assert(s@.take(n as int).drop_last() =~= s@.take(n - 1));
        }
        n = n - 1;
    }
    let mut r: Vec<char> = Vec::new();
    let mut i: usize = 0;
    while i < n
        invariant
            i <= n <= s@.len(),
            r@ == s@.take(i as int),
        decreases n - i,
    {
        r.push(s[i]);
        i = i + 1;
        assert(r@ =~= s@.take(i as int));
    }
    r
}

/// Display text of a stored chord symbol (see `spec_normalize_chord`).
pub fn normalize_chord_symbol(raw: &str) -> (r: String)
    ensures
        r@ == spec_normalize_chord(raw@),
{
    let chars = chars_of(raw);
    let mut fields: Vec<Vec<char>> = Vec::new();
    let mut cur: Vec<char> = Vec::new();
    let mut i: usize = 0;
    while i < chars.len()
        invariant
            i <= chars@.len(),
            fields@.len() + 1 == split_fields(chars@.take(i as int)).len(),
            forall|k: int| 0 <= k < fields@.len() ==> #[trigger] fields@[k]@ == split_fields(chars@.take(i as int))[k],
            cur@ == split_fields(chars@.take(i as int)).last(),
        decreases chars.len() - i,
    {
        let c = chars[i];
        proof {
            let t = chars@.take(i + 1);
            assert(t.drop_last() =~= chars@.take(i as int));
            assert(t.last() == c);
            lemma_split_fields_len(chars@.take(i as int));
        }
        if c == CS_DELIMITER {
            fields.push(cur);
            cur = Vec::new();
        } else {
            cur.push(c);
        }
        i = i + 1;
    }
    fields.push(cur);
    proof {
        assert(chars@.take(chars@.len() as int) =~= chars@);
        lemma_split_fields_len(chars@);
    }
    let ghost f = split_fields(raw@);
    assert(forall|k: int| 0 <= k < fields@.len() ==> #[trigger] fields@[k]@ == f[k]);
    assert(fields@.len() == f.len());

    if fields.len() < 7 {
        let mut kept: Vec<char> = Vec::new();
        let mut j: usize = 0;
        while j < chars.len()
            invariant
                j <= chars@.len(),
                kept@ == remove_del_nul(chars@.take(j as int)),
            decreases chars.len() - j,
        {
            let c = chars[j];
            proof {
                let t = chars@.take(j + 1);
                assert(t.drop_last() =~= chars@.take(j as int));
                assert(t.last() == c);
            }
            if c != CS_DELIMITER && c != '\0' {
                kept.push(c);
            }
            j = j + 1;
        }
        proof {
            assert(chars@.take(chars@.len() as int) =~= chars@);
        }
        let trimmed = trim_end_control_chars(&kept);
        let mut out = String::new();
        push_chars(&mut out, trimmed.as_slice());
        assert(out@ =~= spec_normalize_chord(raw@));
        return out;
    }
    let bass = trim_end_control_chars(&fields[6]);
    let mut out = String::new();
    push_root_acc(&mut out, fields[0].as_slice());
    push_chars(&mut out, fields[1].as_slice());
    push_ext_acc(&mut out, fields[2].as_slice());
    let ghost before_stack = out@;
    let a = &fields[3];
    let b = &fields[4];
    let c = &fields[5];
    let mut any = false;
    if a.len() > 0 {
        push_char(&mut out, '(');
        push_ext_acc(&mut out, a.as_slice());
        any = true;
    }
    if b.len() > 0 {
        if any {
            push_char(&mut out, '/');
        } else {
            push_char(&mut out, '(');
        }
        push_ext_acc(&mut out, b.as_slice());
        any = true;
    }
    if c.len() > 0 {
        if any {
            push_char(&mut out, '/');
        } else {
            push_char(&mut out, '(');
        }
        push_ext_acc(&mut out, c.as_slice());
        any = true;
    }
    if any {
        push_char(&mut out, ')');
    }
    proof {
        assert(out@ =~= before_stack + chord_stack(f[3], f[4], f[5]));
    }
    let ghost before_bass = out@;
    if bass.len() > 0 {
        push_char(&mut out, '/');
        push_root_acc(&mut out, bass.as_slice());
    }
    proof {
        assert(out@ =~= spec_normalize_chord(raw@));
    }
    out
}

// ----------------------------------------------------------------------------
// Tempo, ottava and ending marks
// ----------------------------------------------------------------------------

/// A glyph of a music font.
#[derive(Debug, Clone, Copy, PartialEq, Eq)]
pub enum MusicGlyph {
    /// A SMuFL code point.
    Smufl(u32),
    /// A Sonata font character code.
    Sonata(u8),
}

impl MusicGlyph {
    /// The SMuFL glyph with code point `cp`.
    pub fn smufl(cp: u32) -> (r: MusicGlyph)
        ensures
            r == MusicGlyph::Smufl(cp),
    {
        MusicGlyph::Smufl(cp)
    }
}

/// The note glyph of a tempo mark's beat unit: a double whole note head for
/// a breve, then the whole note U+E1D2 and the stem-up notes U+E1D3 (half)
/// ... U+E1DF (128th), two code points apart; none for other codes.
pub open spec fn spec_tempo_glyph(sub_type: i8) -> Option<MusicGlyph> {
    if sub_type == BREVE_L_DUR {
        Some(MusicGlyph::Smufl(0xE0A0))
    } else if sub_type == WHOLE_L_DUR {
        Some(MusicGlyph::Smufl(0xE1D2))
    } else if HALF_L_DUR <= sub_type <= ONE28TH_L_DUR {
        Some(MusicGlyph::Smufl((0xE1D3 + 2 * (sub_type - HALF_L_DUR)) as u32))
    } else {
        None
    }
}

/// The note glyph of a tempo mark's beat unit (see `spec_tempo_glyph`).
pub fn tempo_glyph(sub_type: i8) -> (r: Option<MusicGlyph>)
    ensures
        r == spec_tempo_glyph(sub_type),
{
    if sub_type == BREVE_L_DUR {
        Some(MusicGlyph::smufl(0xE0A0))
    } else if sub_type == WHOLE_L_DUR {
        Some(MusicGlyph::smufl(0xE1D2))
    } else if sub_type == HALF_L_DUR {
        Some(MusicGlyph::smufl(0xE1D3))
    } else if sub_type == QTR_L_DUR {
        Some(MusicGlyph::smufl(0xE1D5))
    } else if sub_type == EIGHTH_L_DUR {
        Some(MusicGlyph::smufl(0xE1D7))
    } else if sub_type == SIXTEENTH_L_DUR {
        Some(MusicGlyph::smufl(0xE1D9))
    } else if sub_type == THIRTY2ND_L_DUR {
        Some(MusicGlyph::smufl(0xE1DB))
    } else if sub_type == SIXTY4TH_L_DUR {
        Some(MusicGlyph::smufl(0xE1DD))
    } else if sub_type == ONE28TH_L_DUR {
        Some(MusicGlyph::smufl(0xE1DF))
    } else {
        None
    }
}

// ----------------------------------------------------------------------------
// Slurs
// ----------------------------------------------------------------------------

/// The note starts (`is_start`) or ends a slur.
pub open spec fn slur_flag(n: ANote, is_start: bool) -> bool {
    if is_start { n.slurred_r } else { n.slurred_l }
}

/// The note is in `voice` and, when `need_flag`, starts or ends a slur.
pub open spec fn slur_candidate(n: ANote, voice: i8, is_start: bool, need_flag: bool) -> bool {
    n.voice == voice && (!need_flag || slur_flag(n, is_start))
}

/// The first note of `notes` from position `i` on that is a candidate.
pub open spec fn first_slur_candidate(notes: Seq<ANote>, voice: i8, is_start: bool, need_flag: bool, i: int) -> Option<ANote>
    decreases notes.len() - i,
{
    if i < 0 || i >= notes.len() {
        None
    } else if slur_candidate(notes[i], voice, is_start, need_flag) {
        Some(notes[i])
    } else {
        first_slur_candidate(notes, voice, is_start, need_flag, i + 1)
    }
}

/// The note of `voice` in the Sync at `sync_link` where a slur starts
/// (`is_start`) or ends: the first one flagged so, else the first note of
/// the voice; none when the link holds no Sync or the voice has no note.
pub open spec fn spec_find_slur_note(score: InterpretedScore, sync_link: Link, voice: i8, is_start: bool) -> Option<ANote> {
    if sync_link as int >= score.objects@.len() || score.objects@[sync_link as int].header.obj_type != SYNC_TYPE as i8 {
        None
    } else {
        let sub = score.objects@[sync_link as int].header.first_sub_obj;
        let notes = if score.notes@.contains_key(sub) { score.notes@[sub]@ } else { Seq::empty() };
        match first_slur_candidate(notes, voice, is_start, true, 0) {
            Some(n) => Some(n),
            None => first_slur_candidate(notes, voice, is_start, false, 0),
        }
    }
}

fn find_slur_candidate(notes: &Vec<ANote>, voice: i8, is_start: bool, need_flag: bool) -> (r: Option<ANote>)
    ensures
        r == first_slur_candidate(notes@, voice, is_start, need_flag, 0),
{
    let mut i: usize = 0;
    while i < notes.len()
        invariant
            i <= notes@.len(),
            first_slur_candidate(notes@, voice, is_start, need_flag, 0)
                == first_slur_candidate(notes@, voice, is_start, need_flag, i as int),
        decreases notes@.len() - i,
    {
        let n = notes[i];
        let flag = if is_start { n.slurred_r } else { n.slurred_l };
        if n.voice == voice && (!need_flag || flag) {
            return Some(n);
        }
        i = i + 1;
    }
    None
}

/// The note where a slur of `voice` starts or ends in a Sync (see
/// `spec_find_slur_note`).
pub fn find_slur_note(score: &InterpretedScore, sync_link: Link, voice: i8, is_start: bool) -> (r: Option<ANote>)
    ensures
        r == spec_find_slur_note(*score, sync_link, voice, is_start),
{
    if sync_link as usize >= score.objects.len() {
        return None;
    }
    let sync_obj = &score.objects[sync_link as usize];
    if sync_obj.header.obj_type != SYNC_TYPE as i8 {
        return None;
    }
    match score.notes.get(&sync_obj.header.first_sub_obj) {
        Some(notes) => {
            let slurred = find_slur_candidate(notes, voice, is_start, true);
            if slurred.is_some() {
                return slurred;
            }
            find_slur_candidate(notes, voice, is_start, false)
        },
        None => {
            let empty: Vec<ANote> = Vec::new();
            proof {
                assert(first_slur_candidate(empty@, voice, is_start, true, 0) is None);
                assert(first_slur_candidate(empty@, voice, is_start, false, 0) is None);
            }
            None
        },
    }
}

// ----------------------------------------------------------------------------
// Dynamics
// ----------------------------------------------------------------------------

/// SMuFL code points of dynamic markings (U+E520..U+E54F).
pub const DYNAMIC_PIANO: u32 = 0xE520;
pub const DYNAMIC_MEZZO: u32 = 0xE521;
pub const DYNAMIC_FORTE: u32 = 0xE522;
pub const DYNAMIC_RINFORZANDO: u32 = 0xE523;
pub const DYNAMIC_SFORZANDO: u32 = 0xE524;
pub const DYNAMIC_Z: u32 = 0xE525;
pub const DYNAMIC_PPPPPP: u32 = 0xE527;
pub const DYNAMIC_PPPPP: u32 = 0xE528;
pub const DYNAMIC_PPPP: u32 = 0xE529;
pub const DYNAMIC_PPP: u32 = 0xE52A;
pub const DYNAMIC_PP: u32 = 0xE52B;
pub const DYNAMIC_MP: u32 = 0xE52C;
pub const DYNAMIC_MF: u32 = 0xE52D;
pub const DYNAMIC_FF: u32 = 0xE52F;
pub const DYNAMIC_FFF: u32 = 0xE530;
pub const DYNAMIC_FFFF: u32 = 0xE531;
pub const DYNAMIC_FFFFF: u32 = 0xE532;
pub const DYNAMIC_FFFFFF: u32 = 0xE533;
pub const DYNAMIC_FP: u32 = 0xE534;
pub const DYNAMIC_FZ: u32 = 0xE535;
pub const DYNAMIC_SF: u32 = 0xE536;
pub const DYNAMIC_SFP: u32 = 0xE537;
pub const DYNAMIC_SFZ: u32 = 0xE53B;
pub const DYNAMIC_RF: u32 = 0xE53C;
pub const DYNAMIC_RFZ: u32 = 0xE53D;

/// The SMuFL glyph of a dynamic type: 1..=10 pppp through ffff; the
/// relative dynamics 11, 12 (più/meno piano) as p and 13, 14 (meno/più
/// forte) as f; 15..=21 sf, fz, sfz, rf, rfz, fp, sfp; none for hairpins
/// and other types.
pub open spec fn spec_dynamic_glyph(t: i8) -> Option<u32> {
    if t == 1 { Some(DYNAMIC_PPPP) }
    else if t == 2 { Some(DYNAMIC_PPP) }
    else if t == 3 { Some(DYNAMIC_PP) }
    else if t == 4 { Some(DYNAMIC_PIANO) }
    else if t == 5 { Some(DYNAMIC_MP) }
    else if t == 6 { Some(DYNAMIC_MF) }
    else if t == 7 { Some(DYNAMIC_FORTE) }
    else if t == 8 { Some(DYNAMIC_FF) }
    else if t == 9 { Some(DYNAMIC_FFF) }
    else if t == 10 { Some(DYNAMIC_FFFF) }
    else if t == 11 || t == 12 { Some(DYNAMIC_PIANO) }
    else if t == 13 || t == 14 { Some(DYNAMIC_FORTE) }
    else if t == 15 { Some(DYNAMIC_SF) }
    else if t == 16 { Some(DYNAMIC_FZ) }
    else if t == 17 { Some(DYNAMIC_SFZ) }
    else if t == 18 { Some(DYNAMIC_RF) }
    else if t == 19 { Some(DYNAMIC_RFZ) }
    else if t == 20 { Some(DYNAMIC_FP) }
    else if t == 21 { Some(DYNAMIC_SFP) }
    else { None }
}

/// The SMuFL glyph of a dynamic type (see `spec_dynamic_glyph`).
pub fn dynamic_type_to_smufl(dynamic_type: i8) -> (r: Option<u32>)
    ensures
        r == spec_dynamic_glyph(dynamic_type),
{
    match dynamic_type {
        1 => Some(DYNAMIC_PPPP),
        2 => Some(DYNAMIC_PPP),
        3 => Some(DYNAMIC_PP),
        4 => Some(DYNAMIC_PIANO),
        5 => Some(DYNAMIC_MP),
        6 => Some(DYNAMIC_MF),
        7 => Some(DYNAMIC_FORTE),
        8 => Some(DYNAMIC_FF),
        9 => Some(DYNAMIC_FFF),
        10 => Some(DYNAMIC_FFFF),
        11 => Some(DYNAMIC_PIANO),
        12 => Some(DYNAMIC_PIANO),
        13 => Some(DYNAMIC_FORTE),
        14 => Some(DYNAMIC_FORTE),
        15 => Some(DYNAMIC_SF),
        16 => Some(DYNAMIC_FZ),
        17 => Some(DYNAMIC_SFZ),
        18 => Some(DYNAMIC_RF),
        19 => Some(DYNAMIC_RFZ),
        20 => Some(DYNAMIC_FP),
        21 => Some(DYNAMIC_SFP),
        _ => None,
    }
}

/// Number and direction of an ottava sign type: 1..=3 are 8va, 15ma and
/// 22ma above, 4..=6 the same bassa; (0, false) for other types.
pub fn get_oct_type_info(oct_sign_type: u8) -> (r: (i32, bool))
    ensures
        r == if 1 <= oct_sign_type <= 6 {
            (if oct_sign_type % 3 == 1 { 8i32 } else if oct_sign_type % 3 == 2 { 15i32 } else { 22i32 }, oct_sign_type >= 4)
        } else {
            (0i32, false)
        },
{
    match oct_sign_type {
        1 => (8, false),
        2 => (15, false),
        3 => (22, false),
        4 => (8, true),
        5 => (15, true),
        6 => (22, true),
        _ => (0, false),
    }
}

/// The Sonata italic digit codes, 0..=9.
pub open spec fn italic_digit(d: int) -> u8 {
    let t: Seq<u8> = seq![0xBCu8, 0xC1, 0xAA, 0xA3, 0xA2, 0xB0, 0xA4, 0xA6, 0xA5, 0xBB];
    t[d]
}

/// The Sonata italic glyph of a decimal digit; that of 0 for values above 9.
pub fn sonata_italic_digit(digit: u8) -> (r: u8)
    ensures
        r == if digit < 10 { italic_digit(digit as int) } else { italic_digit(0) },
{
    let digits: [u8; 10] = [0xBC, 0xC1, 0xAA, 0xA3, 0xA2, 0xB0, 0xA4, 0xA6, 0xA5, 0xBB];
    assert(digits@ =~= seq![0xBCu8, 0xC1, 0xAA, 0xA3, 0xA2, 0xB0, 0xA4, 0xA6, 0xA5, 0xBB]);
    if (digit as usize) < 10 {
        digits[digit as usize]
    } else {
        digits[0]
    }
}

/// The label of an ending: "1.", "2.", "1. 2.", "1. 2. 3.", else the
/// number followed by '.'.
pub open spec fn spec_ending_label(end_num: u8) -> Seq<char> {
    if end_num == 1 {
        "1."@
    } else if end_num == 2 {
        "2."@
    } else if end_num == 3 {
        "1. 2."@
    } else if end_num == 4 {
        "1. 2. 3."@
    } else {
        decimal(end_num as nat).push('.')
    }
}

/// The label of an ending (see `spec_ending_label`).
pub fn ending_label(end_num: u8) -> (r: String)
    ensures
        r@ == spec_ending_label(end_num),
{
    match end_num {
        1 => "1.".to_owned(),
        2 => "2.".to_owned(),
        3 => "1. 2.".to_owned(),
        4 => "1. 2. 3.".to_owned(),
        n => {
            let mut s = String::new();
            push_decimal(&mut s, n as u64);
            push_char(&mut s, '.');
            assert(s@ =~= decimal(n as nat).push('.'));
            s
        },
    }
}

} // verus!
