//! Which glyph draws a character, and how many cells it takes. The glyphs are GNU Unifont's, from the
//! `unifont` crate: 8x16 for most, 16x16 for the wide ones (CJK and friends). The crate covers the
//! Basic Multilingual Plane only; anything it lacks draws U+FFFD.
//!
//! Also the console's older fixed font: a raw table of 256 8x16 glyphs indexed by byte.

use vstd::prelude::*;

use crate::keyboard::line::{char_is_control, is_control};

verus! {

/// The width of a one-cell glyph in pixels; a wide glyph is two cells.
pub const GLYPH_WIDTH: usize = 8;
/// The height of every glyph in pixels.
pub const GLYPH_HEIGHT: usize = 16;

/// The character whose glyph stands in for one the font lacks.
pub const REPLACEMENT: char = '\u{FFFD}';

/// Whether Unifont has a glyph for `c`, and if so whether it is a wide (16-pixel) one: what
/// `unifont::get_glyph(c)` returns, reduced to the glyph's kind.
pub uninterp spec fn unifont_glyph_wide(c: char) -> Option<bool>;

/// `unifont::get_glyph`, reduced to whether the glyph found is a wide one. The crate's table is
/// keyed by 16-bit code points, so nothing above U+FFFF has a glyph; U+FFFD's glyph is a narrow one.
#[verifier::external_body]
fn unifont_glyph_kind(c: char) -> (r: Option<bool>)
    ensures
        r == unifont_glyph_wide(c),
        (c as u32) > 0xFFFF ==> r is None,
        c == REPLACEMENT ==> r == Some(false),
{
    match unifont::get_glyph(c) {
        Some(unifont::Glyph::Halfwidth(_)) => Some(false),
        Some(unifont::Glyph::Fullwidth(_)) => Some(true),
        None => None,
    }
}

/// Which glyph draws a character: the Unifont glyph of `code`, and whether it is wide.
#[derive(Clone, Copy, Debug, PartialEq, Eq, Structural)]
pub struct GlyphRef {
    pub code: char,
    pub wide: bool,
}

/// Code points that take no cell and draw nothing: zero-width space, joiners and directional marks
/// (U+200B..U+200F), the word joiner (U+2060), variation selectors (U+FE00..U+FE0F) and the
/// byte-order mark (U+FEFF).
pub open spec fn spec_is_zero_width(c: char) -> bool {
    let u = c as u32;
    (0x200B <= u && u <= 0x200F) || u == 0x2060 || (0xFE00 <= u && u <= 0xFE0F) || u == 0xFEFF
}

/// Whether `c` takes no cell and draws nothing.
pub fn is_zero_width(c: char) -> (b: bool)
    ensures
        b == spec_is_zero_width(c),
{
    let u = c as u32;
    (0x200B <= u && u <= 0x200F) || u == 0x2060 || (0xFE00 <= u && u <= 0xFE0F) || u == 0xFEFF
}

/// The glyph that draws `c`: its own, or U+FFFD's if the font has none or `c` is a control
/// character.
pub open spec fn spec_glyph_for(c: char) -> GlyphRef {
    let found = if is_control(c) { None } else { unifont_glyph_wide(c) };
    match found {
        Some(wide) => GlyphRef { code: c, wide },
        None => GlyphRef { code: REPLACEMENT, wide: false },
    }
}

/// The glyph that draws `c`, given what the font answers for `c` (`found`, whether its glyph is wide)
/// and for U+FFFD (`replacement`): `c`'s own, unless `c` is a control character or the font has
/// none; else U+FFFD's, narrow unless the font says it is wide.
pub open spec fn spec_glyph_choice(c: char, found: Option<bool>, replacement: Option<bool>) -> GlyphRef {
    match (if is_control(c) { None } else { found }) {
        Some(wide) => GlyphRef { code: c, wide },
        None => GlyphRef { code: REPLACEMENT, wide: match replacement { Some(w) => w, None => false } },
    }
}

/// The glyph that draws `c`, given the font's answers for `c` and for U+FFFD.
pub fn glyph_choice(c: char, found: Option<bool>, replacement: Option<bool>) -> (g: GlyphRef)
    ensures
        g == spec_glyph_choice(c, found, replacement),
{
    match (if char_is_control(c) { None } else { found }) {
        Some(wide) => GlyphRef { code: c, wide },
        None => GlyphRef { code: REPLACEMENT, wide: match replacement { Some(w) => w, None => false } },
    }
}

/// The glyph that draws `c`: Unifont's, or U+FFFD's if the font has none (everything above
/// U+FFFF, or unassigned) or `c` is a control character (the console interprets the few it uses
/// before asking for a glyph).
pub fn glyph_for(c: char) -> (g: GlyphRef)
    ensures
        g == spec_glyph_for(c),
{
    let found = if char_is_control(c) { None } else { unifont_glyph_kind(c) };
    let replacement = if found.is_none() { unifont_glyph_kind(REPLACEMENT) } else { None };
    glyph_choice(c, found, replacement)
}

/// The characters the console interprets rather than draws: newline, carriage return, tab and
/// backspace.
pub open spec fn is_interpreted(c: char) -> bool {
    c == '\n' || c == '\r' || c == '\t' || c == '\u{8}'
}

/// How many cells `c` takes when written: 0 for a zero-width code point, 2 for a wide glyph, else 1.
/// The characters the console interprets count as 1.
pub open spec fn spec_cell_width(c: char) -> usize {
    if spec_is_zero_width(c) {
        0
    } else if spec_glyph_for(c).wide && !is_interpreted(c) {
        2
    } else {
        1
    }
}

/// How many cells `c` takes when written: 0, 1 or 2.
pub fn cell_width(c: char) -> (w: usize)
    ensures
        w == spec_cell_width(c),
{
    if is_zero_width(c) {
        0
    } else if glyph_for(c).wide && !(c == '\n' || c == '\r' || c == '\t' || c == '\u{8}') {
        2
    } else {
        1
    }
}

/// How many glyphs the raw font holds.
pub const GLYPH_COUNT: usize = 256;
/// The bytes of one raw glyph: one per row of 8 pixels.
pub const BYTES_PER_GLYPH: usize = 16;

/// A raw font: 256 glyphs of 16 row-bytes each, most significant bit leftmost, indexed directly by
/// character code.
pub struct Font<'a> {
    data: &'a [u8],
}

impl<'a> Font<'a> {
    /// The raw font bytes.
    pub closed spec fn data(&self) -> Seq<u8> {
        self.data@
    }

    /// `data` must be exactly 256 glyphs' worth of bytes.
    pub fn new(data: &'a [u8]) -> (f: Self)
        requires
            data@.len() == GLYPH_COUNT * BYTES_PER_GLYPH,
        ensures
            f.data() == data@,
    {
        Self { data }
    }

    /// The 16 row-bytes of `ch`'s glyph.
    pub fn glyph(&self, ch: u8) -> (rows: [u8; 16])
        requires
            self.data().len() == GLYPH_COUNT * BYTES_PER_GLYPH,
        ensures
            rows@ == self.data().subrange(ch as int * 16, ch as int * 16 + 16),
    {
        let start = ch as usize * BYTES_PER_GLYPH;
        let mut rows = [0u8; 16];
        let mut i: usize = 0;
        while i < BYTES_PER_GLYPH
            invariant
                i <= 16,
                start == ch as int * 16,
                self.data@.len() == 4096,
                rows@.len() == 16,
                forall|k: int| 0 <= k < i ==> rows@[k] == self.data@[start + k],
            decreases 16 - i,
        {
            rows[i] = self.data[start + i];
            i += 1;
        }
        assert(rows@ =~= self.data@.subrange(start as int, start + 16));
        rows
    }
}

} // verus!
