use held::utils::buffer::LineBuffer;
use held::utils::input::{KeyCodeParser, KeyEventType};
use held::utils::reg::Register;
use held::utils::ui::mode::matching::{
    get_nested_pair, pair_from_match, pairing_pattern,
    find_matching_left, find_matching_right, get_pair, is_left, is_quote, is_right,
};
use held::utils::ui::mode::reg::Register as ModeRegister;
use held::utils::ui::{AppInfo, InfoLevel};
use held::view::monitor::scroll_controller::ScrollController;
use held::view::render::lexeme_mapper::MappedLexeme;
use held::view::render::line_number_string_iter::LineNumberStringIter;

fn chars(s: &str) -> Vec<char> {
    s.chars().collect()
}

#[test]
fn parse_plain_keys() {
    assert!(matches!(KeyCodeParser::parse(&[10]), KeyEventType::Enter));
    assert!(matches!(KeyCodeParser::parse(&[9]), KeyEventType::Tab));
    assert!(matches!(KeyCodeParser::parse(&[0]), KeyEventType::Esc));
    assert!(matches!(KeyCodeParser::parse(&[8]), KeyEventType::Backspace));
    assert!(matches!(KeyCodeParser::parse(b"a"), KeyEventType::Common(b'a')));
    assert!(matches!(KeyCodeParser::parse(&[200, 1]), KeyEventType::Unknown(_)));
}

#[test]
fn parse_cursor_keys() {
    assert!(matches!(KeyCodeParser::parse(&[224, 72]), KeyEventType::Up));
    assert!(matches!(KeyCodeParser::parse(&[224, 80]), KeyEventType::Down));
    assert!(matches!(KeyCodeParser::parse(&[224, 75]), KeyEventType::Left));
    assert!(matches!(KeyCodeParser::parse(&[224, 77]), KeyEventType::Right));
}

#[test]
fn brackets_and_quotes() {
    assert!(is_left('(') && is_left('<') && !is_left(')'));
    assert!(is_right(']') && !is_right('['));
    assert!(is_quote('"') && is_quote('`') && !is_quote('a'));
    assert_eq!(get_pair('('), ')');
    assert_eq!(get_pair('}'), '{');
    assert_eq!(get_pair('"'), '"');
}

#[test]
fn matching_right_skips_nested_brackets() {
    let t = chars("f(a(b)c)d");
    assert_eq!(find_matching_right(&t, '(', 1), Some(chars("(a(b)c)")));
    assert_eq!(find_matching_right(&t, '(', 3), Some(chars("(b)")));
    let open = chars("f(a(b");
    assert_eq!(find_matching_right(&open, '(', 1), None);
}

#[test]
fn matching_left_skips_nested_brackets() {
    let t = chars("f(a(b)c)d");
    assert_eq!(find_matching_left(&t, ')', 7), Some((1, chars("(a(b)c"))));
    assert_eq!(find_matching_left(&t, ')', 5), Some((3, chars("(b"))));
    let unopened = chars("ab)");
    assert_eq!(find_matching_left(&unopened, ')', 2), None);
}

#[test]
fn register_kinds() {
    let mut r = Register::new();
    assert!(!r.is_muti_line() && !r.is_single_line());
    r.copy(vec![LineBuffer::new(b"line\n".to_vec())]);
    assert!(r.is_single_line());
    assert!(!r.is_muti_line());
    let r2 = Register::from(vec![
        LineBuffer::new(b"a\n".to_vec()),
        LineBuffer::new(b"b\n".to_vec()),
    ]);
    assert!(r2.is_muti_line());
    let mut w = Register::new();
    w.copy(vec![LineBuffer::new(b"word".to_vec())]);
    assert!(!w.is_single_line());
}

#[test]
fn mode_register_pop_undoes_push() {
    let mut r = ModeRegister::new();
    assert!(r.pop().is_none());
    r.push(LineBuffer::new(b"x\n".to_vec()));
    r.push(LineBuffer::new(b"y\n".to_vec()));
    assert_eq!(r.pop().unwrap().data, b"y\n".to_vec());
    assert_eq!(r.pop().unwrap().data, b"x\n".to_vec());
    assert!(r.pop().is_none());
}

#[test]
fn app_info_reset() {
    let mut info = AppInfo { level: InfoLevel::Error, info: "bad".to_string() };
    info.reset();
    assert_eq!(info.level, InfoLevel::Info);
    assert!(info.info.is_empty());
}

#[test]
fn scroll_into_monitor_shows_the_cursor_line() {
    let mut s = ScrollController::new(0);
    s.scroll_into_monitor(10, 7);
    assert_eq!(s.line_offset(), 6);
    s.scroll_into_monitor(8, 7);
    assert_eq!(s.line_offset(), 6);
    s.scroll_into_monitor(2, 7);
    assert_eq!(s.line_offset(), 2);
    for line in [0usize, 3, 17, 40] {
        s.scroll_into_monitor(line, 7);
        let off = s.line_offset();
        assert!(off <= line && line < off + 5);
    }
}

#[test]
fn scroll_to_center_and_saturating_scrolls() {
    let mut s = ScrollController::new(4);
    s.scroll_to_center(10, 7);
    assert_eq!(s.line_offset(), 7);
    s.scroll_to_center(2, 7);
    assert_eq!(s.line_offset(), 0);
    s.scroll_down(3);
    assert_eq!(s.line_offset(), 3);
    s.scroll_up(100);
    assert_eq!(s.line_offset(), 0);
    s.scroll_down(usize::MAX);
    s.scroll_down(5);
    assert_eq!(s.line_offset(), usize::MAX);
}

#[test]
fn line_numbers_are_padded_to_the_widest() {
    let mut it = LineNumberStringIter::new(120, 0);
    assert_eq!(it.width(), 5);
    assert_eq!(it.next(), Some("   1 ".to_string()));
    assert_eq!(it.next(), Some("   2 ".to_string()));
    let mut it = LineNumberStringIter::new(120, 99);
    assert_eq!(it.next(), Some(" 100 ".to_string()));
    let mut it = LineNumberStringIter::new(9, 8);
    assert_eq!(it.width(), 3);
    assert_eq!(it.next(), Some(" 9 ".to_string()));
    assert_eq!(it.next(), Some(" 10 ".to_string()));
}

#[test]
fn line_number_labels_line_up() {
    let count = 1234usize;
    let mut it = LineNumberStringIter::new(count, 0);
    let w = it.width();
    for _ in 0..count {
        assert_eq!(it.next().unwrap().len(), w);
    }
}

#[test]
fn mapped_lexemes_compare() {
    assert_eq!(MappedLexeme::Focused("a"), MappedLexeme::Focused("a"));
    assert_ne!(MappedLexeme::Focused("a"), MappedLexeme::Blurred("a"));
}

#[test]
fn a_bracket_finds_the_text_it_encloses() {
    let t = "a(b(c)d)e";
    assert_eq!(get_nested_pair(t, '(', 0), Some((1, 8)));
    assert_eq!(&t[1..8], "(b(c)d)");
    assert_eq!(get_nested_pair(t, '(', 2), Some((3, 6)));
    assert_eq!(get_nested_pair(t, ')', 0), Some((3, 6)));
    assert_eq!(get_nested_pair(t, ')', 6), Some((1, 8)));
    assert_eq!(get_nested_pair("a(b", '(', 0), None);
    assert_eq!(get_nested_pair(t, '[', 0), None);
    assert_eq!(get_nested_pair(t, 'x', 0), None);
}

#[test]
fn a_quote_finds_the_quoted_text() {
    let t = "say 'hi' and \"yo\"";
    assert_eq!(get_nested_pair(t, '\'', 0), Some((4, 8)));
    assert_eq!(get_nested_pair(t, '"', 0), Some((13, 17)));
    assert_eq!(get_nested_pair(t, '\'', 5), None);
}

#[test]
fn a_match_is_completed_to_its_pair() {
    let t = b"x{a{b}}";
    assert_eq!(pair_from_match(t, '{', Some((1, 2))), Some((1, 7)));
    assert_eq!(pair_from_match(t, '}', Some((5, 6))), Some((3, 6)));
    assert_eq!(pair_from_match(t, '`', Some((0, 3))), Some((0, 3)));
    assert_eq!(pair_from_match(t, '{', None), None);
    assert_eq!(pairing_pattern('<'), Some("(?s)<.*?"));
    assert_eq!(pairing_pattern('a'), None);
}
