//! Rules of the text shaper that are decided on bit patterns: which size,
//! metrics and line height a text is shaped with, and where a line starts.
//!
//! Widths, metrics and sizes are single-precision bit patterns. The sums
//! and products of the shaper are worked out by the embedding program and
//! handed in; what is chosen among them is decided here.

use crate::ieee::is_finite;
use crate::ieee::is_finite_positive;
use crate::ieee::SIXTEEN;
use crate::ieee::ZERO;
use vstd::prelude::*;

verus! {

/// Horizontal placement of a line inside the wrapping width.
#[derive(Clone, Copy, Debug, PartialEq, Eq, Structural)]
pub enum TextAlign {
    Start,
    Center,
    End,
}

impl TextAlign {
    /// The alignment that a wire byte names; unknown bytes mean `Start`.
    pub open spec fn spec_from_u8(value: u8) -> TextAlign {
        if value == 1 {
            TextAlign::Center
        } else if value == 2 {
            TextAlign::End
        } else {
            TextAlign::Start
        }
    }

    /// The alignment that a wire byte names.
    pub fn from_u8(value: u8) -> (align: TextAlign)
        ensures
            align == Self::spec_from_u8(value),
    {
        match value {
            1 => TextAlign::Center,
            2 => TextAlign::End,
            _ => TextAlign::Start,
        }
    }
}

/// The font size to shape at: the requested one if it is finite and
/// positive, else 16.
pub open spec fn spec_effective_font_size(font_size: u32) -> u32 {
    if is_finite_positive(font_size) {
        font_size
    } else {
        SIXTEEN
    }
}

/// The font size to shape at.
#[verifier::when_used_as_spec(spec_effective_font_size)]
pub fn effective_font_size(font_size: u32) -> (size: u32)
    ensures
        size == spec_effective_font_size(font_size),
{
    if is_finite_positive(font_size) {
        font_size
    } else {
        SIXTEEN
    }
}

/// A metric of the font if it is finite, else the substitute for it.
pub open spec fn spec_metric_or(metric: u32, substitute: u32) -> u32 {
    if is_finite(metric) {
        metric
    } else {
        substitute
    }
}

/// A metric of the font, or the substitute for it.
#[verifier::when_used_as_spec(spec_metric_or)]
pub fn metric_or(metric: u32, substitute: u32) -> (chosen: u32)
    ensures
        chosen == spec_metric_or(metric, substitute),
{
    if is_finite(metric) {
        metric
    } else {
        substitute
    }
}

/// The advance of a character without a glyph or without an advance: the
/// font's average advance if it reports one that is finite and positive,
/// else `half_size`, half the font size.
pub open spec fn spec_fallback_width(average: Option<u32>, half_size: u32) -> u32 {
    match average {
        Some(width) => if is_finite_positive(width) {
            width
        } else {
            half_size
        },
        None => half_size,
    }
}

/// The advance of a character without a glyph or without an advance.
#[verifier::when_used_as_spec(spec_fallback_width)]
pub fn fallback_width(average: Option<u32>, half_size: u32) -> (width: u32)
    ensures
        width == spec_fallback_width(average, half_size),
{
    match average {
        Some(width) => if is_finite_positive(width) {
            width
        } else {
            half_size
        },
        None => half_size,
    }
}

/// The distance between baselines: the requested line height if it is
/// finite and positive; else `natural`, the font's ascent less its descent
/// plus its leading, if that is finite and positive; else `scaled`, 1.2
/// times the font size.
pub open spec fn spec_effective_line_height(line_height: u32, natural: u32, scaled: u32) -> u32 {
    if is_finite_positive(line_height) {
        line_height
    } else if is_finite_positive(natural) {
        natural
    } else {
        scaled
    }
}

/// The distance between baselines.
#[verifier::when_used_as_spec(spec_effective_line_height)]
pub fn effective_line_height(line_height: u32, natural: u32, scaled: u32) -> (height: u32)
    ensures
        height == spec_effective_line_height(line_height, natural, scaled),
{
    if is_finite_positive(line_height) {
        line_height
    } else if is_finite_positive(natural) {
        natural
    } else {
        scaled
    }
}

/// Whether lines are wrapped at all: only at a width that is finite and
/// positive.
pub open spec fn spec_wraps(max_width: u32) -> bool {
    is_finite_positive(max_width)
}

/// Whether lines are wrapped at all.
#[verifier::when_used_as_spec(spec_wraps)]
pub fn wraps(max_width: u32) -> (wrap: bool)
    ensures
        wrap == spec_wraps(max_width),
{
    is_finite_positive(max_width)
}

/// The width a line is aligned in: the wrapping width where lines wrap,
/// else the line's own width, so that every alignment starts the line at
/// the origin.
pub open spec fn spec_alignment_width(max_width: u32, line_width: u32) -> u32 {
    if wraps(max_width) {
        max_width
    } else {
        line_width
    }
}

/// The width a line is aligned in.
#[verifier::when_used_as_spec(spec_alignment_width)]
pub fn alignment_width(max_width: u32, line_width: u32) -> (width: u32)
    ensures
        width == spec_alignment_width(max_width, line_width),
{
    if wraps(max_width) {
        max_width
    } else {
        line_width
    }
}

/// Where a line starts, relative to the origin: at it for `Start`; for
/// `End` by `slack`, the alignment width less the line's width; for
/// `Center` by `half_slack`, half of that.
pub open spec fn spec_align_offset(align: TextAlign, slack: u32, half_slack: u32) -> u32 {
    match align {
        TextAlign::Start => ZERO,
        TextAlign::Center => half_slack,
        TextAlign::End => slack,
    }
}

/// Where a line starts, relative to the origin.
#[verifier::when_used_as_spec(spec_align_offset)]
pub fn align_offset(align: TextAlign, slack: u32, half_slack: u32) -> (offset: u32)
    ensures
        offset == spec_align_offset(align, slack, half_slack),
{
    match align {
        TextAlign::Start => ZERO,
        TextAlign::Center => half_slack,
        TextAlign::End => slack,
    }
}

} // verus!
