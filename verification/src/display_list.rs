//! The drawing operations that a display list stands for, and its decoder.
//!
//! A display list is one `BeginFrame`, any number of draw records and an
//! `EndFrame`. Decoding walks the opcodes in order and turns every record
//! into the operations it implies; it stops at the first `EndFrame`, at the
//! end of the buffer, or at the first malformed record. What was decoded
//! before a malformed record still counts.

use crate::decoder::mat3_at;
use crate::decoder::string_at;
use crate::decoder::u32_at;
use crate::decoder::Decoder;
use crate::decoder::Mat3;
use crate::decoder::OpCode;
use crate::error::DecodeError;
use crate::text::TextAlign;
use vstd::prelude::*;

verus! {

/// Four linear channels in `[0, 1]`, each a single-precision bit pattern.
#[derive(Clone, Copy, Debug, PartialEq, Eq, Structural)]
pub struct Color {
    pub r: u32,
    pub g: u32,
    pub b: u32,
    pub a: u32,
}

/// Width and color of a path outline.
#[derive(Clone, Copy, Debug, PartialEq, Eq, Structural)]
pub struct StrokeStyle {
    pub width: u32,
    pub color: Color,
}

/// A surface size in logical units and the device pixel ratio to scale it by.
#[derive(Clone, Copy, Debug, PartialEq, Eq, Structural)]
pub struct ResizeOp {
    pub logical_width: u32,
    pub logical_height: u32,
    pub dpr: u32,
}

/// A rounded rectangle with top-left corner `(ox, oy)`, filled non-zero.
#[derive(Clone, Copy, Debug, PartialEq, Eq, Structural)]
pub struct RectOp {
    pub opacity: u32,
    pub transform: Mat3,
    pub ox: u32,
    pub oy: u32,
    pub width: u32,
    pub height: u32,
    pub radius: u32,
    pub color: Color,
}

/// A vector path given as SVG path data, with an optional fill and an
/// optional stroke.
#[derive(Clone, Debug, PartialEq, Eq)]
pub struct PathOp {
    pub opacity: u32,
    pub transform: Mat3,
    pub fill_rule: u8,
    pub fill: Option<Color>,
    pub stroke: Option<StrokeStyle>,
    pub path: String,
}

/// A run of text to wrap, align and place at `(ox, oy)`.
#[derive(Clone, Debug, PartialEq, Eq)]
pub struct TextOp {
    pub opacity: u32,
    pub transform: Mat3,
    pub ox: u32,
    pub oy: u32,
    pub font_size: u32,
    pub line_height: u32,
    pub max_width: u32,
    pub align: TextAlign,
    pub color: Color,
    pub text: String,
}

/// One operation of a decoded display list.
#[derive(Clone, Debug, PartialEq, Eq)]
pub enum DrawOp {
    /// Resize the surface (first half of `BeginFrame`).
    Resize(ResizeOp),
    /// Set the color the frame is cleared to (second half of `BeginFrame`).
    Clear(Color),
    Rect(RectOp),
    Path(PathOp),
    Text(TextOp),
}

/// Mathematical value of a [`PathOp`].
pub ghost struct PathOpView {
    pub opacity: u32,
    pub transform: Mat3,
    pub fill_rule: u8,
    pub fill: Option<Color>,
    pub stroke: Option<StrokeStyle>,
    pub path: Seq<char>,
}

/// Mathematical value of a [`TextOp`].
pub ghost struct TextOpView {
    pub opacity: u32,
    pub transform: Mat3,
    pub ox: u32,
    pub oy: u32,
    pub font_size: u32,
    pub line_height: u32,
    pub max_width: u32,
    pub align: TextAlign,
    pub color: Color,
    pub text: Seq<char>,
}

/// Mathematical value of a [`DrawOp`].
pub ghost enum DrawOpView {
    Resize(ResizeOp),
    Clear(Color),
    Rect(RectOp),
    Path(PathOpView),
    Text(TextOpView),
}

impl View for PathOp {
    type V = PathOpView;

    open spec fn view(&self) -> PathOpView {
        PathOpView {
            opacity: self.opacity,
            transform: self.transform,
            fill_rule: self.fill_rule,
            fill: self.fill,
            stroke: self.stroke,
            path: self.path@,
        }
    }
}

impl View for TextOp {
    type V = TextOpView;

    open spec fn view(&self) -> TextOpView {
        TextOpView {
            opacity: self.opacity,
            transform: self.transform,
            ox: self.ox,
            oy: self.oy,
            font_size: self.font_size,
            line_height: self.line_height,
            max_width: self.max_width,
            align: self.align,
            color: self.color,
            text: self.text@,
        }
    }
}

impl View for DrawOp {
    type V = DrawOpView;

    open spec fn view(&self) -> DrawOpView {
        match *self {
            DrawOp::Resize(op) => DrawOpView::Resize(op),
            DrawOp::Clear(color) => DrawOpView::Clear(color),
            DrawOp::Rect(op) => DrawOpView::Rect(op),
            DrawOp::Path(op) => DrawOpView::Path(op@),
            DrawOp::Text(op) => DrawOpView::Text(op@),
        }
    }
}

/// The values of a sequence of operations, in order.
pub open spec fn ops_view(ops: Seq<DrawOp>) -> Seq<DrawOpView> {
    ops.map_values(|op: DrawOp| op@)
}

/// Four consecutive channels at `at`, if the buffer reaches that far.
pub open spec fn color_at(data: Seq<u8>, at: int) -> Option<Color> {
    if 0 <= at && at + 16 <= data.len() {
        Some(
            Color {
                r: u32_at(data, at)->0,
                g: u32_at(data, at + 4)->0,
                b: u32_at(data, at + 8)->0,
                a: u32_at(data, at + 12)->0,
            },
        )
    } else {
        None
    }
}

/// What one record decodes to.
pub ghost enum Parsed {
    /// The record is whole: the operations it implies, and where the next
    /// opcode stands.
    Done { ops: Seq<DrawOpView>, next: int },
    /// The record is malformed: the operations it implied before that showed,
    /// and why it is malformed.
    Failed { ops: Seq<DrawOpView>, error: DecodeError },
}

/// Payload of `BeginFrame` at `at`: logical width, logical height and device
/// pixel ratio, then the clear color. The resize counts as soon as its three
/// numbers are there.
pub open spec fn begin_frame_at(data: Seq<u8>, at: int) -> Parsed {
    if at + 12 > data.len() {
        Parsed::Failed { ops: seq![], error: DecodeError::UnexpectedEnd }
    } else {
        let resize = DrawOpView::Resize(
            ResizeOp {
                logical_width: u32_at(data, at)->0,
                logical_height: u32_at(data, at + 4)->0,
                dpr: u32_at(data, at + 8)->0,
            },
        );
        match color_at(data, at + 12) {
            None => Parsed::Failed { ops: seq![resize], error: DecodeError::UnexpectedEnd },
            Some(color) => Parsed::Done {
                ops: seq![resize, DrawOpView::Clear(color)],
                next: at + 28,
            },
        }
    }
}

/// Payload of `Rect` at `at`: opacity, transform, origin, size, corner
/// radius and color, 64 bytes in all.
pub open spec fn rect_at(data: Seq<u8>, at: int) -> Parsed {
    if at + 64 > data.len() {
        Parsed::Failed { ops: seq![], error: DecodeError::UnexpectedEnd }
    } else {
        Parsed::Done {
            ops: seq![
                DrawOpView::Rect(
                    RectOp {
                        opacity: u32_at(data, at)->0,
                        transform: mat3_at(data, at + 4)->0,
                        ox: u32_at(data, at + 28)->0,
                        oy: u32_at(data, at + 32)->0,
                        width: u32_at(data, at + 36)->0,
                        height: u32_at(data, at + 40)->0,
                        radius: u32_at(data, at + 44)->0,
                        color: color_at(data, at + 48)->0,
                    },
                ),
            ],
            next: at + 64,
        }
    }
}

/// Where the `has_stroke` byte of a `Path` payload at `at` stands, given
/// that its `has_fill` byte is there.
pub open spec fn path_stroke_flag_at(data: Seq<u8>, at: int) -> int {
    if data[at + 29] != 0 {
        at + 46
    } else {
        at + 30
    }
}

/// Where the length of the path data of a `Path` payload at `at` stands,
/// given that its `has_stroke` byte is there.
pub open spec fn path_length_at(data: Seq<u8>, at: int) -> int {
    let flag = path_stroke_flag_at(data, at);
    if data[flag] != 0 {
        flag + 21
    } else {
        flag + 1
    }
}

/// Payload of `Path` at `at`: opacity, transform, fill rule, a flag and the
/// fill color if the flag is set, a flag and the stroke width and color if
/// that flag is set, then the length of the path data and the data.
pub open spec fn path_at(data: Seq<u8>, at: int) -> Parsed {
    let failed = Parsed::Failed { ops: seq![], error: DecodeError::UnexpectedEnd };
    if at + 30 > data.len() {
        failed
    } else if path_stroke_flag_at(data, at) + 1 > data.len() {
        failed
    } else if path_length_at(data, at) + 4 > data.len() {
        failed
    } else {
        let flag = path_stroke_flag_at(data, at);
        let length = path_length_at(data, at);
        let len = u32_at(data, length)->0 as int;
        match string_at(data, length + 4, len) {
            Err(error) => Parsed::Failed { ops: seq![], error },
            Ok(path) => Parsed::Done {
                ops: seq![
                    DrawOpView::Path(
                        PathOpView {
                            opacity: u32_at(data, at)->0,
                            transform: mat3_at(data, at + 4)->0,
                            fill_rule: data[at + 28],
                            fill: if data[at + 29] != 0 {
                                color_at(data, at + 30)
                            } else {
                                None
                            },
                            stroke: if data[flag] != 0 {
                                Some(
                                    StrokeStyle {
                                        width: u32_at(data, flag + 1)->0,
                                        color: color_at(data, flag + 5)->0,
                                    },
                                )
                            } else {
                                None
                            },
                            path,
                        },
                    ),
                ],
                next: length + 4 + len,
            },
        }
    }
}

/// Payload of `Text` at `at`: opacity, transform, origin, font size, line
/// height, wrapping width, alignment, color, then the length of the text and
/// the text. Empty text implies no operation.
pub open spec fn text_at(data: Seq<u8>, at: int) -> Parsed {
    if at + 69 > data.len() {
        Parsed::Failed { ops: seq![], error: DecodeError::UnexpectedEnd }
    } else {
        let len = u32_at(data, at + 65)->0 as int;
        match string_at(data, at + 69, len) {
            Err(error) => Parsed::Failed { ops: seq![], error },
            Ok(text) => Parsed::Done {
                ops: if text.len() == 0 {
                    seq![]
                } else {
                    seq![
                        DrawOpView::Text(
                            TextOpView {
                                opacity: u32_at(data, at)->0,
                                transform: mat3_at(data, at + 4)->0,
                                ox: u32_at(data, at + 28)->0,
                                oy: u32_at(data, at + 32)->0,
                                font_size: u32_at(data, at + 36)->0,
                                line_height: u32_at(data, at + 40)->0,
                                max_width: u32_at(data, at + 44)->0,
                                align: TextAlign::spec_from_u8(data[at + 48]),
                                color: color_at(data, at + 49)->0,
                                text,
                            },
                        ),
                    ]
                },
                next: at + 69 + len,
            },
        }
    }
}

/// The record that opcode `op` introduces, read from `at`.
pub open spec fn record_at(op: OpCode, data: Seq<u8>, at: int) -> Parsed {
    match op {
        OpCode::BeginFrame => begin_frame_at(data, at),
        OpCode::Rect => rect_at(data, at),
        OpCode::Path => path_at(data, at),
        _ => text_at(data, at),
    }
}

/// Mathematical value of a [`Decoded`].
pub ghost struct DecodedView {
    pub ops: Seq<DrawOpView>,
    pub outcome: Result<int, DecodeError>,
}

/// What the display list `data` decodes to from the opcode at `at` on.
pub open spec fn decode_from(data: Seq<u8>, at: int) -> DecodedView
    decreases data.len() - at,
{
    if at < 0 || at >= data.len() {
        DecodedView { ops: seq![], outcome: Ok(at) }
    } else {
        match OpCode::spec_from_byte(data[at]) {
            None => DecodedView { ops: seq![], outcome: Err(DecodeError::UnknownOpcode) },
            Some(OpCode::EndFrame) => DecodedView { ops: seq![], outcome: Ok(at + 1) },
            Some(op) => {
                match record_at(op, data, at + 1) {
                    Parsed::Failed { ops, error } => DecodedView { ops, outcome: Err(error) },
                    Parsed::Done { ops, next } => {
                        let rest = decode_from(data, next);
                        DecodedView { ops: ops + rest.ops, outcome: rest.outcome }
                    },
                }
            },
        }
    }
}

/// Whether `a` and `b` both reach `n` bytes and hold the same first `n`.
pub open spec fn same_prefix(a: Seq<u8>, b: Seq<u8>, n: int) -> bool {
    &&& n <= a.len()
    &&& n <= b.len()
    &&& forall|i: int| 0 <= i < n ==> a[i] == b[i]
}

/// A whole record ends inside the buffer, after where it starts.
pub proof fn lemma_record_extent(op: OpCode, data: Seq<u8>, at: int)
    requires
        0 <= at,
        op != OpCode::EndFrame,
    ensures
        record_at(op, data, at) matches Parsed::Done { next, .. } ==> at < next <= data.len(),
{
}

/// A whole record reads nothing past its end: a buffer with the same bytes
/// up to there holds the same record.
pub proof fn lemma_record_local(op: OpCode, data: Seq<u8>, other: Seq<u8>, at: int)
    requires
        0 <= at,
        op != OpCode::EndFrame,
        record_at(op, data, at) matches Parsed::Done { next, .. } && same_prefix(
            data,
            other,
            next,
        ),
    ensures
        record_at(op, other, at) == record_at(op, data, at),
{
    let next = record_at(op, data, at)->Done_next;
    match op {
        OpCode::Path => {
            let length = path_length_at(data, at);
            let len = u32_at(data, length)->0 as int;
            assert(data.subrange(length + 4, length + 4 + len) =~= other.subrange(
                length + 4,
                length + 4 + len,
            ));
        },
        OpCode::Text => {
            let len = u32_at(data, at + 65)->0 as int;
            assert(data.subrange(at + 69, at + 69 + len) =~= other.subrange(
                at + 69,
                at + 69 + len,
            ));
        },
        _ => {},
    }
}

/// A display list that decodes without error was consumed up to the end of
/// the buffer or up to just behind an `EndFrame` opcode.
pub proof fn lemma_decode_consumes_prefix(data: Seq<u8>, at: int)
    requires
        0 <= at <= data.len(),
    ensures
        decode_from(data, at).outcome matches Ok(end) ==> at <= end <= data.len() && (end
            == data.len() || data[end - 1] == 255),
    decreases data.len() - at,
{
    if at < data.len() {
        match OpCode::spec_from_byte(data[at]) {
            None => {},
            Some(OpCode::EndFrame) => {},
            Some(op) => {
                lemma_record_extent(op, data, at + 1);
                match record_at(op, data, at + 1) {
                    Parsed::Failed { .. } => {},
                    Parsed::Done { ops, next } => {
                        lemma_decode_consumes_prefix(data, next);
                    },
                }
            },
        }
    }
}

/// Bytes behind the `EndFrame` that ended decoding are ignored: a display
/// list that decodes without error and leaves bytes over decodes to the same
/// operations, and consumes as much, whatever those bytes are and whether
/// they are there at all.
pub proof fn lemma_decode_ignores_trailing(data: Seq<u8>, other: Seq<u8>, at: int)
    requires
        0 <= at <= data.len(),
        decode_from(data, at).outcome matches Ok(end) && end < data.len() && same_prefix(
            data,
            other,
            end,
        ),
    ensures
        decode_from(other, at) == decode_from(data, at),
    decreases data.len() - at,
{
    let end = decode_from(data, at).outcome->Ok_0;
    lemma_decode_consumes_prefix(data, at);
    if at < data.len() {
        match OpCode::spec_from_byte(data[at]) {
            None => {},
            Some(OpCode::EndFrame) => {},
            Some(op) => {
                lemma_record_extent(op, data, at + 1);
                match record_at(op, data, at + 1) {
                    Parsed::Failed { .. } => {},
                    Parsed::Done { ops, next } => {
                        lemma_decode_consumes_prefix(data, next);
                        lemma_record_local(op, data, other, at + 1);
                        lemma_decode_ignores_trailing(data, other, next);
                    },
                }
            },
        }
    }
}

/// A decoded display list.
#[derive(Debug, PartialEq, Eq)]
pub struct Decoded {
    /// The operations in stream order. After a malformed record these are
    /// the operations that came before it.
    pub ops: Vec<DrawOp>,
    /// The number of bytes consumed, or why decoding stopped early.
    pub outcome: Result<usize, DecodeError>,
}

impl View for Decoded {
    type V = DecodedView;

    open spec fn view(&self) -> DecodedView {
        DecodedView {
            ops: ops_view(self.ops@),
            outcome: match self.outcome {
                Ok(consumed) => Ok(consumed as int),
                Err(error) => Err(error),
            },
        }
    }
}

/// `done` followed by what `rest` holds.
pub open spec fn after(done: Seq<DrawOpView>, rest: DecodedView) -> DecodedView {
    DecodedView { ops: done + rest.ops, outcome: rest.outcome }
}

/// Whether reading one record took the reader from `before` to `now`, grew
/// the operations from `old_ops` to `new_ops` and returned `result` as
/// `parsed` says.
pub open spec fn read_as(
    parsed: Parsed,
    old_ops: Seq<DrawOp>,
    new_ops: Seq<DrawOp>,
    now: int,
    result: Result<(), DecodeError>,
) -> bool {
    match parsed {
        Parsed::Done { ops, next } => {
            &&& result is Ok
            &&& now == next
            &&& ops_view(new_ops) == ops_view(old_ops) + ops
        },
        Parsed::Failed { ops, error } => {
            &&& result == Err::<(), DecodeError>(error)
            &&& ops_view(new_ops) == ops_view(old_ops) + ops
        },
    }
}

/// Reads four channels.
fn read_color(decoder: &mut Decoder) -> (r: Result<Color, DecodeError>)
    ensures
        final(decoder).bytes() == old(decoder).bytes(),
        match color_at(old(decoder).bytes(), old(decoder).position() as int) {
            Some(color) => r == Ok::<Color, DecodeError>(color) && final(decoder).position() == old(
                decoder,
            ).position() + 16,
            None => r == Err::<Color, DecodeError>(DecodeError::UnexpectedEnd),
        },
{
    let r = decoder.read_f32()?;
    let g = decoder.read_f32()?;
    let b = decoder.read_f32()?;
    let a = decoder.read_f32()?;
    Ok(Color { r, g, b, a })
}

/// Reads the payload of a `BeginFrame` and appends its operations.
fn read_begin_frame(decoder: &mut Decoder, ops: &mut Vec<DrawOp>) -> (r: Result<
    (),
    DecodeError,
>)
    ensures
        final(decoder).bytes() == old(decoder).bytes(),
        read_as(
            begin_frame_at(old(decoder).bytes(), old(decoder).position() as int),
            old(ops)@,
            final(ops)@,
            final(decoder).position() as int,
            r,
        ),
{
    let ghost before = ops@;
    assert(ops_view(before) =~= ops_view(before) + seq![]);
    let logical_width = decoder.read_f32()?;
    let logical_height = decoder.read_f32()?;
    let dpr = decoder.read_f32()?;
    ops.push(DrawOp::Resize(ResizeOp { logical_width, logical_height, dpr }));
    assert(ops_view(ops@) =~= ops_view(before) + seq![ops@.last()@]);
    let color = read_color(decoder)?;
    ops.push(DrawOp::Clear(color));
    assert(ops_view(ops@) =~= ops_view(before) + seq![ops@[ops@.len() - 2]@, ops@.last()@]);
    Ok(())
}

/// Reads the payload of a `Rect` and appends its operation.
fn read_rect(decoder: &mut Decoder, ops: &mut Vec<DrawOp>) -> (r: Result<(), DecodeError>)
    ensures
        final(decoder).bytes() == old(decoder).bytes(),
        read_as(
            rect_at(old(decoder).bytes(), old(decoder).position() as int),
            old(ops)@,
            final(ops)@,
            final(decoder).position() as int,
            r,
        ),
{
    let ghost before = ops@;
    assert(ops_view(before) =~= ops_view(before) + seq![]);
    let opacity = decoder.read_f32()?;
    let transform = decoder.read_mat3()?;
    let ox = decoder.read_f32()?;
    let oy = decoder.read_f32()?;
    let width = decoder.read_f32()?;
    let height = decoder.read_f32()?;
    let radius = decoder.read_f32()?;
    let color = read_color(decoder)?;
    ops.push(DrawOp::Rect(RectOp { opacity, transform, ox, oy, width, height, radius, color }));
    assert(ops_view(ops@) =~= ops_view(before) + seq![ops@.last()@]);
    Ok(())
}

/// Reads the payload of a `Path` and appends its operation.
fn read_path(decoder: &mut Decoder, ops: &mut Vec<DrawOp>) -> (r: Result<(), DecodeError>)
    ensures
        final(decoder).bytes() == old(decoder).bytes(),
        read_as(
            path_at(old(decoder).bytes(), old(decoder).position() as int),
            old(ops)@,
            final(ops)@,
            final(decoder).position() as int,
            r,
        ),
{
    let ghost before = ops@;
    assert(ops_view(before) =~= ops_view(before) + seq![]);
    let opacity = decoder.read_f32()?;
    let transform = decoder.read_mat3()?;
    let fill_rule = decoder.read_u8()?;
    let has_fill = decoder.read_u8()? != 0;
    let fill = if has_fill {
        Some(read_color(decoder)?)
    } else {
        None
    };
    let has_stroke = decoder.read_u8()? != 0;
    let stroke = if has_stroke {
        let width = decoder.read_f32()?;
        let color = read_color(decoder)?;
        Some(StrokeStyle { width, color })
    } else {
        None
    };
    let path_len = decoder.read_u32()?;
    let path = decoder.read_string(path_len as usize)?;
    ops.push(DrawOp::Path(PathOp { opacity, transform, fill_rule, fill, stroke, path }));
    assert(ops_view(ops@) =~= ops_view(before) + seq![ops@.last()@]);
    Ok(())
}

/// Reads the payload of a `Text` and appends its operation, if the text is
/// not empty.
fn read_text(decoder: &mut Decoder, ops: &mut Vec<DrawOp>) -> (r: Result<(), DecodeError>)
    ensures
        final(decoder).bytes() == old(decoder).bytes(),
        read_as(
            text_at(old(decoder).bytes(), old(decoder).position() as int),
            old(ops)@,
            final(ops)@,
            final(decoder).position() as int,
            r,
        ),
{
    let ghost before = ops@;
    assert(ops_view(before) =~= ops_view(before) + seq![]);
    let opacity = decoder.read_f32()?;
    let transform = decoder.read_mat3()?;
    let ox = decoder.read_f32()?;
    let oy = decoder.read_f32()?;
    let font_size = decoder.read_f32()?;
    let line_height = decoder.read_f32()?;
    let max_width = decoder.read_f32()?;
    let align = TextAlign::from_u8(decoder.read_u8()?);
    let color = read_color(decoder)?;
    let text_len = decoder.read_u32()?;
    let text = decoder.read_string(text_len as usize)?;
    if text.as_str().is_empty() {
        return Ok(());
    }
    ops.push(
        DrawOp::Text(
            TextOp {
                opacity,
                transform,
                ox,
                oy,
                font_size,
                line_height,
                max_width,
                align,
                color,
                text,
            },
        ),
    );
    assert(ops_view(ops@) =~= ops_view(before) + seq![ops@.last()@]);
    Ok(())
}

/// Decodes a display list: every operation up to the first `EndFrame` or
/// the end of the buffer, and the number of bytes that took; or the
/// operations before the first malformed record, and what is wrong with it.
pub fn decode(bytes: &[u8]) -> (decoded: Decoded)
    ensures
        decoded@ == decode_from(bytes@, 0),
{
    let mut decoder = Decoder::new(bytes);
    let mut ops: Vec<DrawOp> = Vec::new();
    assert(ops_view(ops@) + decode_from(bytes@, 0).ops =~= decode_from(bytes@, 0).ops);
    loop
        invariant
            decoder.bytes() == bytes@,
            0 <= decoder.position() <= bytes@.len(),
            decode_from(bytes@, 0) == after(
                ops_view(ops@),
                decode_from(bytes@, decoder.position() as int),
            ),
        decreases bytes@.len() - decoder.position(),
    {
        let ghost done = ops_view(ops@);
        let ghost at = decoder.position() as int;
        assert(done + seq![] =~= done);
        let op = match decoder.next_opcode() {
            Err(error) => {
                return Decoded { ops, outcome: Err(error) };
            },
            Ok(None) => {
                return Decoded { ops, outcome: Ok(decoder.offset()) };
            },
            Ok(Some(op)) => op,
        };
        let read = match op {
            OpCode::EndFrame => {
                return Decoded { ops, outcome: Ok(decoder.offset()) };
            },
            OpCode::BeginFrame => read_begin_frame(&mut decoder, &mut ops),
            OpCode::Rect => read_rect(&mut decoder, &mut ops),
            OpCode::Path => read_path(&mut decoder, &mut ops),
            OpCode::Text => read_text(&mut decoder, &mut ops),
        };
        proof {
            match record_at(op, bytes@, at + 1) {
                Parsed::Failed { ops: more, error } => {
                    assert(ops_view(ops@) == done + more);
                },
                Parsed::Done { ops: more, next } => {
                    let rest = decode_from(bytes@, next);
                    assert(done + (more + rest.ops) =~= (done + more) + rest.ops);
                },
            }
        }
        if let Err(error) = read {
            return Decoded { ops, outcome: Err(error) };
        }
    }
}

} // verus!
