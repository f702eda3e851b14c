//! Glyph lookup in the font's character map.

use skrifa::FontRef;
use skrifa::MetadataProvider;
use vstd::prelude::*;

verus! {

/// The glyph drawn for a character without a mapping.
pub const NOTDEF: u32 = 0;

/// What a character of a line turns into.
#[derive(Clone, Copy, Debug, PartialEq, Eq, Structural)]
pub enum GlyphSlot {
    /// A tab: no glyph, and an advance of four fallback widths.
    Tab,
    /// The glyph with this identifier, advancing by its own width.
    Glyph(u32),
}

/// Whether `data` holds a font at `index` that skrifa can read.
pub uninterp spec fn font_is_readable(data: Seq<u8>, index: u32) -> bool;

/// The glyph that the character map of the font at `index` in `data` gives
/// for `c`, if it maps `c`.
pub uninterp spec fn charmap_glyph(data: Seq<u8>, index: u32, c: char) -> Option<u32>;

/// `FontRef::from_index` of skrifa: whether the font at `index` in `data`
/// can be read.
#[verifier::external_body]
fn read_font(data: &[u8], index: u32) -> (readable: bool)
    ensures
        readable == font_is_readable(data@, index),
{
    FontRef::from_index(data, index).is_ok()
}

/// `Charmap::map` of skrifa, on the character map that
/// `MetadataProvider::charmap` gives for the font at `index` in `data`: the
/// identifier of the glyph that `c` is mapped to, or `None` where the font
/// maps `c` to nothing.
#[verifier::external_body]
fn map_char(data: &[u8], index: u32, c: char) -> (glyph: Option<u32>)
    requires
        font_is_readable(data@, index),
    ensures
        glyph == charmap_glyph(data@, index, c),
{
    let font = FontRef::from_index(data, index).unwrap();
    match font.charmap().map(c) {
        Some(glyph) => Some(glyph.to_u32()),
        None => None,
    }
}

/// What a character turns into, given what the character map gives for it.
pub open spec fn spec_glyph_slot(c: char, mapped: Option<u32>) -> GlyphSlot {
    if c == '\t' {
        GlyphSlot::Tab
    } else {
        match mapped {
            Some(glyph) => GlyphSlot::Glyph(glyph),
            None => GlyphSlot::Glyph(NOTDEF),
        }
    }
}

/// What a character turns into, given what the character map gives for it.
#[verifier::when_used_as_spec(spec_glyph_slot)]
pub fn glyph_slot(c: char, mapped: Option<u32>) -> (slot: GlyphSlot)
    ensures
        slot == spec_glyph_slot(c, mapped),
{
    if c == '\t' {
        GlyphSlot::Tab
    } else {
        match mapped {
            Some(glyph) => GlyphSlot::Glyph(glyph),
            None => GlyphSlot::Glyph(NOTDEF),
        }
    }
}

/// How far a slot moves the pen: a tab by `tab_width`, four fallback
/// widths; a glyph by its own advance, or by the fallback width where the
/// font gives none for it.
pub open spec fn spec_slot_advance(
    slot: GlyphSlot,
    advance: Option<u32>,
    fallback_width: u32,
    tab_width: u32,
) -> u32 {
    match slot {
        GlyphSlot::Tab => tab_width,
        GlyphSlot::Glyph(_) => match advance {
            Some(width) => width,
            None => fallback_width,
        },
    }
}

/// How far a slot moves the pen.
#[verifier::when_used_as_spec(spec_slot_advance)]
pub fn slot_advance(
    slot: GlyphSlot,
    advance: Option<u32>,
    fallback_width: u32,
    tab_width: u32,
) -> (width: u32)
    ensures
        width == spec_slot_advance(slot, advance, fallback_width, tab_width),
{
    match slot {
        GlyphSlot::Tab => tab_width,
        GlyphSlot::Glyph(_) => match advance {
            Some(width) => width,
            None => fallback_width,
        },
    }
}

/// What the characters of a line turn into in the font at `index` in
/// `data`, one slot for each character in order; `None` exactly when the
/// font cannot be read.
pub fn line_slots(data: &[u8], index: u32, line: &[char]) -> (slots: Option<Vec<GlyphSlot>>)
    ensures
        slots is Some <==> font_is_readable(data@, index),
        slots matches Some(found) ==> found@ == Seq::new(
            line@.len(),
            |i: int| glyph_slot(line@[i], charmap_glyph(data@, index, line@[i])),
        ),
{
    if !read_font(data, index) {
        return None;
    }
    let mut found: Vec<GlyphSlot> = Vec::new();
    let mut i: usize = 0;
    while i < line.len()
        invariant
            i <= line.len(),
            font_is_readable(data@, index),
            found@ == Seq::new(
                i as nat,
                |k: int| glyph_slot(line@[k], charmap_glyph(data@, index, line@[k])),
            ),
        decreases line.len() - i,
    {
        let c = line[i];
        let mapped = if c == '\t' {
            None
        } else {
            map_char(data, index, c)
        };
        found.push(glyph_slot(c, mapped));
        assert(found@ =~= Seq::new(
            (i + 1) as nat,
            |k: int| glyph_slot(line@[k], charmap_glyph(data@, index, line@[k])),
        ));
        i += 1;
    }
    Some(found)
}

} // verus!
