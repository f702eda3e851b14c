use rvello::decoder::Mat3;
use rvello::display_list::decode;
use rvello::display_list::Color;
use rvello::display_list::DrawOp;
use rvello::display_list::PathOp;
use rvello::display_list::StrokeStyle;
use rvello::font::glyph_slot;
use rvello::font::line_slots;
use rvello::font::slot_advance;
use rvello::font::GlyphSlot;
use rvello::scene::path_paints;
use rvello::scene::read_path_data;
use rvello::scene::FillRule;
use rvello::scene::Paint;
use rvello::scene::PathData;
use vello::kurbo::BezPath;
use vello::kurbo::PathEl;
use vello::kurbo::Point;
use vello::kurbo::Shape;

fn color(r: f32, g: f32, b: f32, a: f32) -> Color {
    Color { r: r.to_bits(), g: g.to_bits(), b: b.to_bits(), a: a.to_bits() }
}

fn path_op(fill_rule: u8, fill: Option<Color>, stroke: Option<StrokeStyle>, path: &str) -> PathOp {
    let one = 1.0f32.to_bits();
    PathOp {
        opacity: one,
        transform: Mat3 { a: one, b: 0, c: 0, d: one, e: 0, f: 0 },
        fill_rule,
        fill,
        stroke,
        path: String::from(path),
    }
}

fn path_record(fill_rule: u8, data: &[u8]) -> Vec<u8> {
    let mut out = vec![3u8];
    for value in [1.0f32, 1.0, 0.0, 0.0, 1.0, 0.0, 0.0] {
        out.extend_from_slice(&value.to_le_bytes());
    }
    out.push(fill_rule);
    out.push(1);
    for value in [0.0f32, 1.0, 0.0, 1.0] {
        out.extend_from_slice(&value.to_le_bytes());
    }
    out.push(0);
    out.extend_from_slice(&(data.len() as u32).to_le_bytes());
    out.extend_from_slice(data);
    out
}

/// A font of one table: a character map that gives `a` to `z` the glyphs
/// 5 to 30.
fn small_font() -> Vec<u8> {
    let mut font = Vec::new();
    font.extend_from_slice(&[0x00, 0x01, 0x00, 0x00]);
    font.extend_from_slice(&[0x00, 0x01, 0x00, 0x10, 0x00, 0x00, 0x00, 0x00]);
    font.extend_from_slice(b"cmap");
    font.extend_from_slice(&[0, 0, 0, 0]);
    font.extend_from_slice(&28u32.to_be_bytes());
    font.extend_from_slice(&40u32.to_be_bytes());
    font.extend_from_slice(&[0x00, 0x00, 0x00, 0x01]);
    font.extend_from_slice(&[0x00, 0x03, 0x00, 0x0a]);
    font.extend_from_slice(&12u32.to_be_bytes());
    font.extend_from_slice(&[0x00, 0x0c, 0x00, 0x00]);
    font.extend_from_slice(&28u32.to_be_bytes());
    font.extend_from_slice(&0u32.to_be_bytes());
    font.extend_from_slice(&1u32.to_be_bytes());
    font.extend_from_slice(&('a' as u32).to_be_bytes());
    font.extend_from_slice(&('z' as u32).to_be_bytes());
    font.extend_from_slice(&5u32.to_be_bytes());
    font
}

/// With how many paints the record is painted.
fn painted(op: &PathOp) -> usize {
    let parsed = match read_path_data(&op.path) {
        PathData::Outline(_) => true,
        PathData::Malformed => false,
        PathData::Unread => BezPath::from_svg(&op.path).is_ok(),
    };
    path_paints(op, parsed).len()
}

#[test]
fn path_data_is_parsed_to_an_outline() {
    match read_path_data("M0 0 L10 0 L10 10 Z") {
        PathData::Outline(outline) => {
            assert_eq!(
                outline.elements(),
                [
                    PathEl::MoveTo(Point::new(0.0, 0.0)),
                    PathEl::LineTo(Point::new(10.0, 0.0)),
                    PathEl::LineTo(Point::new(10.0, 10.0)),
                    PathEl::ClosePath,
                ]
            );
        }
        other => panic!("unexpected path data {:?}", other),
    }
    let samples = [
        "",
        "M1 2",
        "m10 10 100 0 0 100 -100 0z",
        "M0 0 C1 1 2 2 3 3 Q4 4 5 5 T6 6 S7 7 8 8",
        "\u{e9}",
        "M0 0 L1 1 #",
    ];
    for data in samples {
        match read_path_data(data) {
            PathData::Outline(outline) => assert_eq!(outline, BezPath::from_svg(data).unwrap()),
            other => panic!("unexpected path data {:?} for {:?}", other, data),
        }
    }
}

#[test]
fn malformed_path_data_is_told_apart() {
    let samples = [
        "L1 1",
        "M0 0 L10 oops",
        "M0 0 L1",
        "M 1",
        "M0 0 X",
        "M0 0 L1 \u{e9}",
    ];
    for data in samples {
        assert!(BezPath::from_svg(data).is_err());
        assert!(matches!(read_path_data(data), PathData::Malformed), "{:?}", data);
    }
}

#[test]
fn path_data_with_arcs_is_left_unread() {
    let samples = ["M0 0 A1 1 0 0 0 1 1", "M3.5 8a.5.5 0 01.5-.5h8", "a", "M0 0 L1 1 bAd", "A"];
    for data in samples {
        assert!(matches!(read_path_data(data), PathData::Unread), "{:?}", data);
    }
}

#[test]
fn fill_rule_bytes() {
    assert_eq!(FillRule::from_u8(0), FillRule::NonZero);
    assert_eq!(FillRule::from_u8(1), FillRule::EvenOdd);
    for byte in 2u8..=255 {
        assert_eq!(FillRule::from_u8(byte), FillRule::NonZero);
    }
}

#[test]
fn path_with_fill_only() {
    let green = color(0.0, 1.0, 0.0, 1.0);
    let data = "M0 0 L10 0 L10 10 L0 10 Z";
    let decoded = decode(&path_record(0, data.as_bytes()));
    let op = match &decoded.ops[0] {
        DrawOp::Path(op) => op.clone(),
        other => panic!("unexpected operation {:?}", other),
    };
    let square = match read_path_data(&op.path) {
        PathData::Outline(outline) => outline,
        other => panic!("unexpected path data {:?}", other),
    };
    assert_eq!(
        path_paints(&op, true),
        vec![Paint::Fill { rule: FillRule::NonZero, color: green }]
    );
    assert_eq!(square.area().abs(), 100.0);

    let even_odd = match &decode(&path_record(1, data.as_bytes())).ops[0] {
        DrawOp::Path(op) => op.clone(),
        other => panic!("unexpected operation {:?}", other),
    };
    assert_eq!(
        path_paints(&even_odd, true),
        vec![Paint::Fill { rule: FillRule::EvenOdd, color: green }]
    );
}

#[test]
fn fill_precedes_stroke() {
    let blue = color(0.0, 0.0, 1.0, 1.0);
    let red = color(1.0, 0.0, 0.0, 0.5);
    let stroke = StrokeStyle { width: 3.0f32.to_bits(), color: red };
    let both = path_op(1, Some(blue), Some(stroke), "M0 0 L1 1");
    assert_eq!(
        path_paints(&both, true),
        vec![
            Paint::Fill { rule: FillRule::EvenOdd, color: blue },
            Paint::Stroke { width: 3.0f32.to_bits(), color: red },
        ]
    );
    let stroke_only = path_op(0, None, Some(stroke), "M0 0 L1 1");
    assert_eq!(
        path_paints(&stroke_only, true),
        vec![Paint::Stroke { width: 3.0f32.to_bits(), color: red }]
    );
    let neither = path_op(0, None, None, "M0 0 L1 1");
    assert!(path_paints(&neither, true).is_empty());
}

#[test]
fn malformed_path_is_skipped_and_later_records_still_apply() {
    let mut bytes = path_record(0, b"M0 0 L10 oops");
    bytes.extend(path_record(0, b"M0 0 L10 0 L10 10 Z"));
    bytes.push(255);
    let decoded = decode(&bytes);
    assert_eq!(decoded.outcome, Ok(bytes.len()));
    assert_eq!(decoded.ops.len(), 2);
    let mut paints = Vec::new();
    for op in &decoded.ops {
        if let DrawOp::Path(op) = op {
            paints.push(painted(op));
        }
    }
    assert_eq!(paints, [0, 1]);
}

#[test]
fn tab_takes_no_glyph_and_unmapped_characters_take_notdef() {
    assert_eq!(glyph_slot('\t', None), GlyphSlot::Tab);
    assert_eq!(glyph_slot('\t', Some(9)), GlyphSlot::Tab);
    assert_eq!(glyph_slot('a', Some(9)), GlyphSlot::Glyph(9));
    assert_eq!(glyph_slot('a', None), GlyphSlot::Glyph(0));
    assert_eq!(glyph_slot(' ', None), GlyphSlot::Glyph(0));
}

#[test]
fn slots_advance_by_their_own_width_or_the_fallback() {
    let (own, fallback, tab) = (7.5f32.to_bits(), 8.0f32.to_bits(), 32.0f32.to_bits());
    assert_eq!(slot_advance(GlyphSlot::Tab, None, fallback, tab), tab);
    assert_eq!(slot_advance(GlyphSlot::Tab, Some(own), fallback, tab), tab);
    assert_eq!(slot_advance(GlyphSlot::Glyph(3), Some(own), fallback, tab), own);
    assert_eq!(slot_advance(GlyphSlot::Glyph(3), None, fallback, tab), fallback);
    assert_eq!(slot_advance(GlyphSlot::Glyph(0), None, fallback, tab), fallback);
}

#[test]
fn characters_map_through_the_font() {
    let font = small_font();
    let line: Vec<char> = "az\tA c".chars().collect();
    assert_eq!(
        line_slots(&font, 0, &line),
        Some(vec![
            GlyphSlot::Glyph(5),
            GlyphSlot::Glyph(30),
            GlyphSlot::Tab,
            GlyphSlot::Glyph(0),
            GlyphSlot::Glyph(0),
            GlyphSlot::Glyph(7),
        ])
    );
    assert_eq!(line_slots(&font, 0, &[]), Some(vec![]));
}

#[test]
fn an_unreadable_font_gives_no_slots() {
    assert_eq!(line_slots(&[], 0, &['a']), None);
    assert_eq!(line_slots(&[1, 2, 3, 4, 5, 6, 7, 8, 9, 10, 11, 12], 0, &['a']), None);
    assert_eq!(line_slots(&small_font(), 1, &['a']), None);
    assert_eq!(line_slots(&[], 0, &[]), None);
}

#[test]
fn damaged_fonts_are_read_or_refused() {
    let font = small_font();
    let line: Vec<char> = "a\u{3b1}\u{1f600} ~".chars().collect();
    for cut in 0..font.len() {
        let slots = line_slots(&font[..cut], 0, &line);
        assert!(slots.map_or(true, |slots| slots.len() == line.len()));
    }
    let mut state: u32 = 0x2545_f491;
    for position in 0..font.len() {
        for _ in 0..64 {
            state ^= state << 13;
            state ^= state >> 17;
            state ^= state << 5;
            let mut damaged = font.clone();
            damaged[position] = state as u8;
            let slots = line_slots(&damaged, 0, &line);
            assert!(slots.map_or(true, |slots| slots.len() == line.len()));
        }
    }
    for length in 0..200usize {
        let mut noise = Vec::with_capacity(length);
        for _ in 0..length {
            state ^= state << 13;
            state ^= state >> 17;
            state ^= state << 5;
            noise.push((state >> 8) as u8);
        }
        let slots = line_slots(&noise, state % 3, &line);
        assert!(slots.map_or(true, |slots| slots.len() == line.len()));
    }
}

#[test]
fn path_data_without_arcs_is_always_read() {
    let alphabet: Vec<char> = "MmLlHhVvCcSsQqTtZz0123456789.,-+eE \t\nxX#\u{e9}".chars().collect();
    let mut state: u32 = 0x9e37_79b9;
    for _ in 0..4000 {
        let mut data = String::new();
        state ^= state << 13;
        state ^= state >> 17;
        state ^= state << 5;
        let length = state % 24;
        for _ in 0..length {
            state ^= state << 13;
            state ^= state >> 17;
            state ^= state << 5;
            data.push(alphabet[(state >> 4) as usize % alphabet.len()]);
        }
        let reference = BezPath::from_svg(&data);
        match read_path_data(&data) {
            PathData::Outline(outline) => {
                let expected = reference.unwrap();
                assert_eq!(outline.elements().len(), expected.elements().len(), "{:?}", data);
            }
            PathData::Malformed => assert!(reference.is_err(), "{:?}", data),
            PathData::Unread => panic!("no arc command in {:?}", data),
        }
    }
}
