//! What each operation of a display list paints, and in which order.

use crate::display_list::Color;
use crate::display_list::PathOp;
use crate::display_list::PathOpView;
use crate::ieee::clamp_unit;
use vello::kurbo::BezPath;
use vstd::prelude::*;

verus! {

/// Which points of a self-intersecting outline count as inside.
#[derive(Clone, Copy, Debug, PartialEq, Eq, Structural)]
pub enum FillRule {
    NonZero,
    EvenOdd,
}

impl FillRule {
    /// The rule that a wire byte names: 1 is even-odd, every other byte
    /// non-zero.
    pub open spec fn spec_from_u8(value: u8) -> FillRule {
        if value == 1 {
            FillRule::EvenOdd
        } else {
            FillRule::NonZero
        }
    }

    /// The rule that a wire byte names.
    pub fn from_u8(value: u8) -> (rule: FillRule)
        ensures
            rule == Self::spec_from_u8(value),
    {
        if value == 1 {
            FillRule::EvenOdd
        } else {
            FillRule::NonZero
        }
    }
}

/// One way of painting a shape.
#[derive(Clone, Copy, Debug, PartialEq, Eq, Structural)]
pub enum Paint {
    /// Fill the inside with a color.
    Fill { rule: FillRule, color: Color },
    /// Draw the outline with a width and a color.
    Stroke { width: u32, color: Color },
}

/// The alpha a primitive is painted with: the product of the color's alpha
/// and the opacity, clamped to `[0, 1]`. `product` is that product in single
/// precision.
pub open spec fn spec_final_alpha(product: u32) -> u32 {
    clamp_unit(product)
}

/// The alpha a primitive is painted with, given the product of its
/// color's alpha and its opacity.
#[verifier::when_used_as_spec(spec_final_alpha)]
pub fn final_alpha(product: u32) -> (alpha: u32)
    ensures
        alpha == spec_final_alpha(product),
{
    clamp_unit(product)
}

/// `BezPath` of kurbo: an outline of lines and curves. Nothing is known
/// here of what one holds.
#[verifier::external_type_specification]
#[verifier::external_body]
pub struct ExBezPath(vello::kurbo::BezPath);

/// Whether kurbo reads `path` as SVG path data.
pub uninterp spec fn svg_path_parses(path: Seq<char>) -> bool;

/// Whether path data holds the letter of an arc command.
pub open spec fn has_arc(path: Seq<char>) -> bool {
    exists|i: int| 0 <= i < path.len() && (path[i] == 'a' || path[i] == 'A')
}

/// `BezPath::from_svg` of kurbo: the outline that the path data stands for,
/// and `None` where kurbo does not read it as path data. On an arc whose
/// end points all but coincide kurbo fails an assertion when it is built
/// with debug assertions, so path data with arc commands is kept away from
/// it here.
#[verifier::external_body]
fn parse_svg(path: &str) -> (outline: Option<BezPath>)
    requires
        !has_arc(path@),
    ensures
        outline is Some <==> svg_path_parses(path@),
{
    BezPath::from_svg(path).ok()
}

/// What the path data of a record gives.
#[derive(Debug)]
pub enum PathData {
    /// The outline that the data stands for.
    Outline(BezPath),
    /// The data is no path data: the record paints nothing.
    Malformed,
    /// The data holds arc commands and was not read; whether it parses is
    /// for the caller to find out.
    Unread,
}

fn mentions_arc(path: &str) -> (found: bool)
    ensures
        found == has_arc(path@),
{
    let mut found = false;
    for c in it: path.chars()
        invariant
            it.seq() == path@,
            found == has_arc(path@.take(it.index() as int)),
    {
        proof {
            let before = path@.take(it.index() as int);
            let now = path@.take(it.index() + 1);
            assert(now.drop_last() =~= before);
            if has_arc(now) {
                let i = choose|i: int| 0 <= i < now.len() && (now[i] == 'a' || now[i] == 'A');
                if i < before.len() {
                    assert(before[i] == now[i]);
                }
            }
            if has_arc(before) {
                let i = choose|i: int|
                    0 <= i < before.len() && (before[i] == 'a' || before[i] == 'A');
                assert(now[i] == before[i]);
            }
            if c == 'a' || c == 'A' {
                assert(now[now.len() - 1] == c);
            }
        }
        if c == 'a' || c == 'A' {
            found = true;
        }
    }
    assert(path@.take(path@.len() as int) =~= path@);
    found
}

/// Reads the path data of a record, unless it holds arc commands.
pub fn read_path_data(path: &str) -> (data: PathData)
    ensures
        data is Unread <==> has_arc(path@),
        data is Outline <==> !has_arc(path@) && svg_path_parses(path@),
        data is Malformed <==> !has_arc(path@) && !svg_path_parses(path@),
{
    if mentions_arc(path) {
        return PathData::Unread;
    }
    match parse_svg(path) {
        Some(outline) => PathData::Outline(outline),
        None => PathData::Malformed,
    }
}

/// How a path is painted. A path whose data does not parse is not painted
/// at all. One that parses is filled, if it has a fill, by the rule it
/// names, and then stroked, if it has a stroke.
pub open spec fn spec_path_paints(op: PathOpView, parsed: bool) -> Seq<Paint> {
    if !parsed {
        seq![]
    } else {
        let fill = match op.fill {
            Some(color) => seq![Paint::Fill { rule: FillRule::spec_from_u8(op.fill_rule), color }],
            None => seq![],
        };
        let stroke = match op.stroke {
            Some(style) => seq![Paint::Stroke { width: style.width, color: style.color }],
            None => seq![],
        };
        fill + stroke
    }
}

/// The paints of a path, in order, given whether its data parsed.
pub fn path_paints(op: &PathOp, parsed: bool) -> (paints: Vec<Paint>)
    ensures
        paints@ == spec_path_paints(op@, parsed),
{
    let mut paints: Vec<Paint> = Vec::new();
    if !parsed {
        return paints;
    }
    if let Some(color) = op.fill {
        paints.push(Paint::Fill { rule: FillRule::from_u8(op.fill_rule), color });
    }
    if let Some(style) = op.stroke {
        paints.push(Paint::Stroke { width: style.width, color: style.color });
    }
    assert(paints@ =~= spec_path_paints(op@, parsed));
    paints
}

/// A fill, where there is one, comes before the stroke, and there are no
/// other paints.
pub proof fn lemma_fill_precedes_stroke(op: PathOpView, parsed: bool)
    ensures
        spec_path_paints(op, parsed).len() <= 2,
        forall|i: int, j: int|
            0 <= i < j < spec_path_paints(op, parsed).len() ==> spec_path_paints(op, parsed)[i]
                is Fill && spec_path_paints(op, parsed)[j] is Stroke,
        !parsed ==> spec_path_paints(op, parsed).len() == 0,
{
}

} // verus!
