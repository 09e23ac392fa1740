use kirei::text::LineSpan;
use kirei::wrap::{is_whitespace, layout_lines, wrap_segment};

fn chars(s: &str) -> Vec<char> {
    s.chars().collect()
}

fn spans(pairs: &[(usize, usize)]) -> Vec<LineSpan> {
    pairs.iter().map(|&(start, end)| LineSpan { start, end }).collect()
}

fn width(max: usize) -> impl Fn(usize, usize) -> bool {
    move |a: usize, b: usize| b - a <= max
}

#[test]
fn whitespace_matches_std() {
    for c in [' ', '\t', '\n', '\r', '\u{a0}', '\u{2003}', '\u{3000}', 'a', '0', '-', '\u{200b}'] {
        assert_eq!(is_whitespace(c), c.is_whitespace(), "{:?}", c);
    }
}

#[test]
fn wraps_after_last_space_that_fits() {
    let text = chars("hello world foo");
    let lines = layout_lines(&text, &width(6));
    assert_eq!(lines, spans(&[(0, 6), (6, 12), (12, 15)]));
}

#[test]
fn newlines_split_segments() {
    let text = chars("ab\ncd");
    assert_eq!(layout_lines(&text, &width(100)), spans(&[(0, 2), (3, 5)]));
}

#[test]
fn empty_text_is_one_empty_line() {
    assert_eq!(layout_lines(&[], &width(10)), spans(&[(0, 0)]));
}

#[test]
fn trailing_newline_gives_empty_last_line() {
    let text = chars("a\n");
    assert_eq!(layout_lines(&text, &width(10)), spans(&[(0, 1), (2, 2)]));
}

#[test]
fn long_word_breaks_where_width_runs_out() {
    let text = chars("abcdefgh");
    assert_eq!(layout_lines(&text, &width(3)), spans(&[(0, 3), (3, 6), (6, 8)]));
}

#[test]
fn every_line_holds_a_character_even_when_nothing_fits() {
    let text = chars("ab");
    assert_eq!(layout_lines(&text, &width(0)), spans(&[(0, 1), (1, 2)]));
}

#[test]
fn wrap_segment_appends_after_existing_lines() {
    let text = chars("xx one two");
    let mut lines = spans(&[(0, 2)]);
    wrap_segment(&text, 3, 10, &width(4), &mut lines);
    assert_eq!(lines, spans(&[(0, 2), (3, 7), (7, 10)]));
}

#[test]
fn wrap_segment_of_empty_range_pushes_empty_line() {
    let text = chars("abc");
    let mut lines = Vec::new();
    wrap_segment(&text, 2, 2, &width(4), &mut lines);
    assert_eq!(lines, spans(&[(2, 2)]));
}
