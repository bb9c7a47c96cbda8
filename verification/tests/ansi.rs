use mso::ansi::{parse_ansi, apply_sgr_params, SegmentStyle, SgrState, TermColor};

fn style(fg: Option<TermColor>, bg: Option<TermColor>, bold: bool, dim: bool) -> SegmentStyle {
    SegmentStyle { fg, bg, bold, dim }
}

fn default_text() -> SegmentStyle {
    style(Some(TermColor::Rgb(200, 210, 220)), None, false, false)
}

fn chars(s: &str) -> Vec<char> {
    s.chars().collect()
}

#[test]
fn plain_line_is_one_default_segment() {
    assert_eq!(parse_ansi("ERROR: boom"), vec![(default_text(), "ERROR: boom".to_string())]);
}

#[test]
fn colour_and_reset() {
    let segs = parse_ansi("\x1b[31mred\x1b[0m plain");
    assert_eq!(segs, vec![
        (style(Some(TermColor::Red), None, false, false), "red".to_string()),
        (style(None, None, false, false), " plain".to_string()),
    ]);
}

#[test]
fn text_before_first_escape_keeps_default() {
    let segs = parse_ansi("a\x1b[1mb");
    assert_eq!(segs, vec![
        (default_text(), "a".to_string()),
        (style(None, None, true, false), "b".to_string()),
    ]);
}

#[test]
fn attributes_accumulate() {
    let segs = parse_ansi("\x1b[1;2;33;44mY\x1b[22mZ\x1b[91mW");
    assert_eq!(segs, vec![
        (style(Some(TermColor::Yellow), Some(TermColor::Blue), true, true), "Y".to_string()),
        (style(Some(TermColor::Yellow), Some(TermColor::Blue), false, false), "Z".to_string()),
        (style(Some(TermColor::LightRed), Some(TermColor::Blue), false, false), "W".to_string()),
    ]);
}

#[test]
fn indexed_foreground() {
    let segs = parse_ansi("\x1b[38;5;196mX");
    assert_eq!(segs, vec![(style(Some(TermColor::Indexed(196)), None, false, false), "X".to_string())]);
    let segs = parse_ansi("\x1b[38;5;300mX");
    assert_eq!(segs, vec![(style(None, None, false, false), "X".to_string())]);
}

#[test]
fn non_sgr_sequence_keeps_attributes() {
    let segs = parse_ansi("\x1b[31mA\x1b(BC");
    assert_eq!(segs, vec![
        (style(Some(TermColor::Red), None, false, false), "A".to_string()),
        (style(Some(TermColor::Red), None, false, false), "C".to_string()),
    ]);
}

#[test]
fn unterminated_escape_repeats_text() {
    let segs = parse_ansi("ERROR\x1b[1");
    assert_eq!(segs, vec![
        (default_text(), "ERROR".to_string()),
        (default_text(), "ERROR\x1b[1".to_string()),
    ]);
}

#[test]
fn line_without_text_gets_level_colour() {
    assert_eq!(parse_ansi(""), vec![(default_text(), String::new())]);
    assert_eq!(parse_ansi("\x1b[1m"), vec![(default_text(), "\x1b[1m".to_string())]);
}

#[test]
fn sgr_params_apply_in_order() {
    let start = SgrState { bold: false, dim: false, fg: None, bg: None };
    let params = vec![chars("1"), chars("31"), chars("0"), chars("2")];
    assert_eq!(apply_sgr_params(&params, start), SgrState { bold: false, dim: true, fg: None, bg: None });
    let params = vec![chars("01"), chars("3"), chars("97"), chars("47")];
    assert_eq!(
        apply_sgr_params(&params, start),
        SgrState { bold: false, dim: false, fg: Some(TermColor::White), bg: Some(TermColor::White) }
    );
    let params = vec![chars("38"), chars("5"), chars("32"), chars("38")];
    assert_eq!(apply_sgr_params(&params, start).fg, Some(TermColor::Indexed(32)));
}

#[test]
fn indexed_colour_uses_up_its_parameters() {
    let start = SgrState { bold: false, dim: false, fg: None, bg: None };
    let params = vec![chars("38"), chars("5"), chars("31")];
    assert_eq!(apply_sgr_params(&params, start), SgrState { bold: false, dim: false, fg: Some(TermColor::Indexed(31)), bg: None });
    let params = vec![chars("38"), chars("5"), chars("1"), chars("41")];
    assert_eq!(apply_sgr_params(&params, start), SgrState { bold: false, dim: false, fg: Some(TermColor::Indexed(1)), bg: Some(TermColor::Red) });
    let params = vec![chars("38"), chars("5"), chars("300")];
    assert_eq!(apply_sgr_params(&params, start), start);
    let params = vec![chars("38"), chars("1")];
    assert_eq!(apply_sgr_params(&params, start).bold, true);
    let params = vec![chars("1"), chars("0")];
    assert_eq!(apply_sgr_params(&params, start), start);
}
