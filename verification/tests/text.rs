use rvello::lines::chars_of;
use rvello::lines::is_whitespace;
use rvello::lines::split_lines;
use rvello::lines::split_words;
use rvello::text::TextAlign;
use rvello::text::align_offset;
use rvello::text::alignment_width;
use rvello::text::effective_font_size;
use rvello::text::effective_line_height;
use rvello::text::fallback_width;
use rvello::text::metric_or;
use rvello::text::wraps;
use rvello::wrap::LineBreaker;
use rvello::wrap::LineLayout;

fn bits(x: f32) -> u32 {
    x.to_bits()
}

/// Eight units for every character, four times that for a tab.
fn measure(text: &[char]) -> f32 {
    let mut width = 0.0;
    for c in text {
        width += if *c == '\t' { 32.0 } else { 8.0 };
    }
    width
}

/// Drives the breaker the way an embedding program does.
fn wrap(text: &str, max_width: f32) -> Vec<LineLayout> {
    let chars = chars_of(text);
    let space = measure(&[' ']);
    let mut breaker = LineBreaker::new(bits(max_width));
    for raw in split_lines(&chars) {
        if !wraps(bits(max_width)) {
            breaker.push_line(&raw, bits(measure(&raw)));
            continue;
        }
        for word in split_words(&raw) {
            let width = measure(&word);
            let extended = f32::from_bits(breaker.current_width) + space + width;
            breaker.place_word(&word, bits(width), bits(extended));
        }
        breaker.end_line();
    }
    breaker.finish()
}

/// The same algorithm on strings, with the standard library's splitting.
fn reference_wrap(text: &str, max_width: f32) -> Vec<(String, f32)> {
    let measure_str = |s: &str| measure(&s.chars().collect::<Vec<char>>());
    let mut lines = Vec::new();
    let wrap = max_width.is_finite() && max_width > 0.0;
    let space_width = measure_str(" ");
    for raw_line in text.split('\n') {
        if !wrap {
            lines.push((raw_line.to_string(), measure_str(raw_line)));
            continue;
        }
        let words: Vec<&str> = raw_line.split_whitespace().collect();
        if words.is_empty() {
            lines.push((String::new(), 0.0));
            continue;
        }
        let mut current = String::new();
        let mut current_width = 0.0;
        for word in words {
            let word_width = measure_str(word);
            if current.is_empty() {
                current.push_str(word);
                current_width = word_width;
                continue;
            }
            let next_width = current_width + space_width + word_width;
            if next_width <= max_width {
                current.push(' ');
                current.push_str(word);
                current_width = next_width;
            } else {
                lines.push((current, current_width));
                current = word.to_string();
                current_width = word_width;
            }
        }
        lines.push((current, current_width));
    }
    lines
}

fn texts(lines: &[LineLayout]) -> Vec<String> {
    lines.iter().map(|line| line.text.iter().collect()).collect()
}

fn widths(lines: &[LineLayout]) -> Vec<f32> {
    lines.iter().map(|line| f32::from_bits(line.width)).collect()
}

#[test]
fn alignment_bytes() {
    assert_eq!(TextAlign::from_u8(0), TextAlign::Start);
    assert_eq!(TextAlign::from_u8(1), TextAlign::Center);
    assert_eq!(TextAlign::from_u8(2), TextAlign::End);
    for byte in 3u8..=255 {
        assert_eq!(TextAlign::from_u8(byte), TextAlign::Start);
    }
}

#[test]
fn font_size_zero_uses_sixteen() {
    assert_eq!(effective_font_size(bits(0.0)), bits(16.0));
    assert_eq!(effective_font_size(bits(-0.0)), bits(16.0));
    assert_eq!(effective_font_size(bits(-12.0)), bits(16.0));
}

#[test]
fn font_size_nan_uses_sixteen() {
    assert_eq!(effective_font_size(bits(f32::NAN)), bits(16.0));
    assert_eq!(effective_font_size(0xffc0_0001), bits(16.0));
    assert_eq!(effective_font_size(bits(f32::INFINITY)), bits(16.0));
    assert_eq!(effective_font_size(bits(f32::NEG_INFINITY)), bits(16.0));
}

#[test]
fn usable_font_size_is_kept() {
    for size in [1.0e-40f32, 0.5, 12.0, 16.0, 300.0, f32::MAX] {
        assert_eq!(effective_font_size(bits(size)), bits(size));
    }
}

#[test]
fn metrics_fall_back_when_not_finite() {
    assert_eq!(metric_or(bits(12.5), bits(1.0)), bits(12.5));
    assert_eq!(metric_or(bits(-3.0), bits(1.0)), bits(-3.0));
    assert_eq!(metric_or(bits(0.0), bits(1.0)), bits(0.0));
    assert_eq!(metric_or(bits(f32::NAN), bits(1.0)), bits(1.0));
    assert_eq!(metric_or(bits(f32::INFINITY), bits(1.0)), bits(1.0));
    assert_eq!(metric_or(bits(f32::NEG_INFINITY), bits(-3.2)), bits(-3.2));
}

#[test]
fn fallback_width_prefers_the_average_advance() {
    assert_eq!(fallback_width(Some(bits(7.0)), bits(8.0)), bits(7.0));
    assert_eq!(fallback_width(Some(bits(0.0)), bits(8.0)), bits(8.0));
    assert_eq!(fallback_width(Some(bits(-1.0)), bits(8.0)), bits(8.0));
    assert_eq!(fallback_width(Some(bits(f32::NAN)), bits(8.0)), bits(8.0));
    assert_eq!(fallback_width(Some(bits(f32::INFINITY)), bits(8.0)), bits(8.0));
    assert_eq!(fallback_width(None, bits(8.0)), bits(8.0));
}

#[test]
fn line_height_falls_back_in_order() {
    assert_eq!(effective_line_height(bits(20.0), bits(18.0), bits(19.2)), bits(20.0));
    assert_eq!(effective_line_height(bits(0.0), bits(18.0), bits(19.2)), bits(18.0));
    assert_eq!(effective_line_height(bits(f32::NAN), bits(18.0), bits(19.2)), bits(18.0));
    assert_eq!(effective_line_height(bits(-1.0), bits(0.0), bits(19.2)), bits(19.2));
    assert_eq!(effective_line_height(bits(-1.0), bits(f32::INFINITY), bits(19.2)), bits(19.2));
    assert_eq!(effective_line_height(bits(f32::INFINITY), bits(-4.0), bits(19.2)), bits(19.2));
}

#[test]
fn wrapping_needs_a_finite_positive_width() {
    assert!(wraps(bits(80.0)));
    assert!(wraps(bits(1.0e-40)));
    assert!(!wraps(bits(0.0)));
    assert!(!wraps(bits(-0.0)));
    assert!(!wraps(bits(-80.0)));
    assert!(!wraps(bits(f32::INFINITY)));
    assert!(!wraps(bits(f32::NAN)));
}

#[test]
fn alignment_offsets() {
    let slack = 80.0f32 - 48.0;
    assert_eq!(align_offset(TextAlign::Start, bits(slack), bits(slack * 0.5)), bits(0.0));
    assert_eq!(align_offset(TextAlign::Center, bits(slack), bits(slack * 0.5)), bits(16.0));
    assert_eq!(align_offset(TextAlign::End, bits(slack), bits(slack * 0.5)), bits(32.0));
    assert_eq!(alignment_width(bits(80.0), bits(48.0)), bits(80.0));
    assert_eq!(alignment_width(bits(0.0), bits(48.0)), bits(48.0));
    assert_eq!(alignment_width(bits(f32::NAN), bits(48.0)), bits(48.0));
    assert_eq!(alignment_width(bits(f32::INFINITY), bits(48.0)), bits(48.0));
}

#[test]
fn unconstrained_lines_start_at_the_origin() {
    for align in [TextAlign::Start, TextAlign::Center, TextAlign::End] {
        let span = f32::from_bits(alignment_width(bits(-1.0), bits(48.0)));
        let slack = span - 48.0;
        assert_eq!(f32::from_bits(align_offset(align, bits(slack), bits(slack * 0.5))), 0.0);
    }
}

#[test]
fn white_space_is_the_unicode_property() {
    for code in 0u32..=0x10_ffff {
        if let Some(c) = char::from_u32(code) {
            assert_eq!(is_whitespace(c), c.is_whitespace(), "{:#x}", code);
        }
    }
}

#[test]
fn characters_of_a_string() {
    assert_eq!(chars_of(""), Vec::<char>::new());
    assert_eq!(chars_of("a\u{e9}\u{1f600}\n"), vec!['a', '\u{e9}', '\u{1f600}', '\n']);
}

#[test]
fn lines_split_at_newlines() {
    for text in ["", "a", "\n", "a\nb", "a\n", "\na", "a\n\nb", "\n\n\n", "one two\nthree\r\nfour"] {
        let expected: Vec<Vec<char>> = text.split('\n').map(|line| line.chars().collect()).collect();
        assert_eq!(split_lines(&chars_of(text)), expected, "{:?}", text);
    }
    assert_eq!(split_lines(&chars_of("a\n\nb")).len(), 3);
}

#[test]
fn words_split_at_white_space_runs() {
    let cases = [
        "",
        " ",
        "word",
        "  lead",
        "trail  ",
        "a b",
        "a \t\u{a0} b",
        "\u{3000}wide\u{2003}spaces\u{85}",
        "tab\tseparated\tfields",
        "x\u{200b}y z",
    ];
    for text in cases {
        let expected: Vec<Vec<char>> =
            text.split_whitespace().map(|word| word.chars().collect()).collect();
        assert_eq!(split_words(&chars_of(text)), expected, "{:?}", text);
    }
}

#[test]
fn left_aligned_text_wraps_at_eighty() {
    let lines = wrap("hello world from the renderer", 80.0);
    assert_eq!(texts(&lines), ["hello", "world from", "the", "renderer"]);
    assert_eq!(widths(&lines), [40.0, 80.0, 24.0, 64.0]);
    assert!(lines.len() >= 2);
    assert!(f32::from_bits(lines[0].width) <= 80.0);
    let with_next = f32::from_bits(lines[0].width) + measure(&[' ']) + measure(&chars_of("world"));
    assert!(with_next > 80.0);
}

#[test]
fn hard_newline_gives_two_lines() {
    for max_width in [80.0, 8.0, 0.0, -1.0, f32::INFINITY, f32::NAN, 1.0e9] {
        let lines = wrap("a\nb", max_width);
        assert_eq!(texts(&lines), ["a", "b"], "{}", max_width);
        assert_eq!(widths(&lines), [8.0, 8.0]);
    }
    let line_height = f32::from_bits(effective_line_height(bits(0.0), bits(18.5), bits(19.2)));
    let first_baseline = 4.0 + 12.5;
    let second_baseline = first_baseline + line_height;
    assert_eq!(second_baseline - first_baseline, 18.5);
}

#[test]
fn a_word_wider_than_the_width_keeps_its_own_line() {
    let lines = wrap("a extraordinarily b", 40.0);
    assert_eq!(texts(&lines), ["a", "extraordinarily", "b"]);
    assert_eq!(widths(&lines), [8.0, 120.0, 8.0]);
}

#[test]
fn blank_raw_lines_give_empty_visual_lines() {
    let lines = wrap("a\n \t \n\nb", 80.0);
    assert_eq!(texts(&lines), ["a", "", "", "b"]);
    assert_eq!(widths(&lines), [8.0, 0.0, 0.0, 8.0]);
}

#[test]
fn unwrapped_text_keeps_its_raw_lines() {
    for max_width in [0.0, -5.0, f32::INFINITY, f32::NEG_INFINITY, f32::NAN] {
        let lines = wrap("  two  spaces \n\ttab\n", max_width);
        assert_eq!(texts(&lines), ["  two  spaces ", "\ttab", ""]);
        assert_eq!(widths(&lines), [112.0, 56.0, 0.0]);
    }
}

#[test]
fn wrapped_lines_join_words_with_one_space() {
    let lines = wrap("  a \t b\u{a0}\u{a0}c  ", 800.0);
    assert_eq!(texts(&lines), ["a b c"]);
    assert_eq!(widths(&lines), [40.0]);
}

#[test]
fn wrapping_agrees_with_the_string_algorithm() {
    let samples = [
        "",
        "hello world from the renderer",
        "a\nb",
        "the quick brown fox jumps over the lazy dog",
        "  leading and trailing  \n\n  second paragraph here ",
        "tabs\tcount as\tspace\n\tindented",
        "supercalifragilisticexpialidocious is long",
        "x y z w v u t s r q p o n m l k j i h g f e d c b a",
        "\n\n",
        "caf\u{e9} na\u{ef}ve \u{4e16}\u{754c} wide\u{3000}gap",
    ];
    let limits = [
        8.0, 16.0, 24.0, 39.9, 40.0, 47.0, 48.0, 80.0, 200.0, 0.0, -1.0, f32::INFINITY, f32::NAN, 0.5,
    ];
    for text in samples {
        for max_width in limits {
            let lines = wrap(text, max_width);
            let expected = reference_wrap(text, max_width);
            assert_eq!(lines.len(), expected.len(), "{:?} at {}", text, max_width);
            for (line, (expected_text, expected_width)) in lines.iter().zip(expected) {
                assert_eq!(line.text.iter().collect::<String>(), expected_text);
                assert_eq!(line.width, expected_width.to_bits());
            }
        }
    }
}

#[test]
fn lines_of_fitting_words_fit() {
    let text = "one two three four five six seven eight nine ten eleven twelve";
    for max_width in [48.0f32, 56.0, 64.0, 100.0, 1000.0] {
        for line in wrap(text, max_width) {
            assert!(f32::from_bits(line.width) <= max_width);
        }
    }
}

#[test]
fn unwrapped_line_count_is_newlines_plus_one() {
    for text in ["", "a", "a\nb", "\n", "a\n\n\nb\n"] {
        let newlines = text.chars().filter(|c| *c == '\n').count();
        assert_eq!(wrap(text, 0.0).len(), newlines + 1);
        assert_eq!(wrap(text, f32::NAN).len(), newlines + 1);
    }
}

#[test]
fn breaker_steps() {
    let mut breaker = LineBreaker::new(bits(10.0));
    assert!(breaker.lines.is_empty());
    assert!(breaker.current.is_empty());
    assert_eq!(breaker.current_width, bits(0.0));
    breaker.place_word(&['a', 'b'], bits(4.0), bits(99.0));
    assert_eq!(breaker.current, ['a', 'b']);
    assert_eq!(breaker.current_width, bits(4.0));
    breaker.place_word(&['c'], bits(2.0), bits(10.0));
    assert_eq!(breaker.current, ['a', 'b', ' ', 'c']);
    assert_eq!(breaker.current_width, bits(10.0));
    breaker.place_word(&['d'], bits(2.0), bits(10.000001));
    assert_eq!(breaker.lines, [LineLayout { text: vec!['a', 'b', ' ', 'c'], width: bits(10.0) }]);
    assert_eq!(breaker.current, ['d']);
    assert_eq!(breaker.current_width, bits(2.0));
    breaker.place_word(&['e'], bits(2.0), bits(f32::NAN));
    assert_eq!(breaker.lines.len(), 2);
    breaker.end_line();
    assert_eq!(breaker.lines.len(), 3);
    assert!(breaker.current.is_empty());
    assert_eq!(breaker.current_width, bits(0.0));
    breaker.end_line();
    breaker.push_line(&['r', 'a', 'w'], bits(6.0));
    let lines = breaker.finish();
    assert_eq!(texts(&lines), ["ab c", "d", "e", "", "raw"]);
    assert_eq!(widths(&lines), [10.0, 2.0, 2.0, 0.0, 6.0]);
}
