use actioneer::ansi::{parse_ansi, AnsiColor, AnsiStyle};

#[test]
fn parses_plain_text_as_single_span() {
    let spans = parse_ansi("hello world");
    assert_eq!(spans.len(), 1);
    assert_eq!(spans[0].text, "hello world");
    assert!(spans[0].style.is_default());
}

#[test]
fn parses_basic_color_and_reset() {
    let spans = parse_ansi("hi \u{1b}[31mred\u{1b}[0m ok");
    assert_eq!(spans.len(), 3);
    assert_eq!(spans[0].text, "hi ");
    assert!(spans[0].style.is_default());
    assert_eq!(spans[1].text, "red");
    assert_eq!(spans[1].style.fg, Some(AnsiColor::Basic(1)));
    assert_eq!(spans[2].text, " ok");
    assert!(spans[2].style.is_default());
}

#[test]
fn parses_bold_underline_and_color_resets() {
    let spans = parse_ansi("A\u{1b}[1;4;32mB\u{1b}[22;24;39mC");
    assert_eq!(spans.len(), 3);
    assert_eq!(spans[0].text, "A");
    assert!(spans[0].style.is_default());
    assert_eq!(spans[1].text, "B");
    assert!(spans[1].style.bold);
    assert!(spans[1].style.underline);
    assert_eq!(spans[1].style.fg, Some(AnsiColor::Basic(2)));
    assert_eq!(spans[2].text, "C");
    assert!(spans[2].style.is_default());
}

#[test]
fn bright_background_and_plus_sign_codes_are_read() {
    let spans = parse_ansi("\u{1b}[+101;93mX");
    assert_eq!(spans.len(), 1);
    assert_eq!(spans[0].style.bg, Some(AnsiColor::Bright(1)));
    assert_eq!(spans[0].style.fg, Some(AnsiColor::Bright(3)));
}

#[test]
fn an_empty_or_unreadable_sequence_resets_the_style() {
    let spans = parse_ansi("\u{1b}[1ma\u{1b}[mb\u{1b}[1mc\u{1b}[xyzmd");
    assert_eq!(spans.len(), 4);
    assert!(spans[0].style.bold);
    assert!(spans[1].style.is_default());
    assert!(spans[2].style.bold);
    assert!(spans[3].style.is_default());
}

#[test]
fn an_unterminated_escape_stays_text() {
    let spans = parse_ansi("a\u{1b}[31");
    assert_eq!(spans.len(), 1);
    assert_eq!(spans[0].text, "a\u{1b}[31");
}

#[test]
fn empty_parts_count_as_reset() {
    let spans = parse_ansi("\u{1b}[1;;4mz");
    assert_eq!(spans.len(), 1);
    assert!(!spans[0].style.bold);
    assert!(spans[0].style.underline);
}

#[test]
fn colours_map_to_css() {
    assert_eq!(AnsiColor::Basic(1).to_css(), "#cc0000");
    assert_eq!(AnsiColor::Bright(7).to_css(), "#eeeeec");
    assert_eq!(AnsiColor::Basic(9).to_css(), "#ffffff");
    assert!(AnsiStyle::default().is_default());
}
