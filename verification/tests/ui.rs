use held::utils::buffer::{EditBuffer, LineState};
use held::utils::cursor::{marker_color, CursorAction, CursorCrtl, MarkerColor};
use held::utils::ui::event::{backspace, down, left, right, up, WarpUiCallBackType};
use held::utils::ui::mode::mode::{set_mode, Command, Insert, LastLine, ModeType};
use held::utils::ui::uicore::{UiCore, WinSize};
use held::utils::ui::{AppInfo, InfoLevel};

const SIZE: WinSize = WinSize { cols: 20, rows: 6 };

fn ui_with(text: &str, size: WinSize) -> UiCore {
    let mut c = CursorCrtl::new();
    c.move_to(0, 0, size);
    UiCore::new(EditBuffer::new(text.as_bytes().to_vec()), c, size)
}

fn ui(text: &str) -> UiCore {
    ui_with(text, SIZE)
}

fn lines(ui: &UiCore) -> Vec<Vec<u8>> {
    ui.buffer.all_buffer().into_iter().map(|l| l.data).collect()
}

fn bytes(v: &[&str]) -> Vec<Vec<u8>> {
    v.iter().map(|s| s.as_bytes().to_vec()).collect()
}

fn key(ui: &mut UiCore, k: &str) -> WarpUiCallBackType {
    Command.input_data(ui, k.as_bytes())
}

fn ten_lines() -> String {
    (0..10).map(|i| format!("line {} of text\n", i)).collect()
}

#[test]
fn a_new_screen_has_nothing_to_do() {
    let mut u = ui("abc\n");
    assert!(!u.edited());
    assert!(u.is_ok());
    assert_eq!(u.content_rows(), 5);
    assert_eq!(u.linesize(0), 4);
    assert!(u.take_ops().is_empty());
}

#[test]
fn motion_keys_keep_the_text() {
    let text = ten_lines();
    for k in ["h", "j", "k", "0", "$", "w", "e", "b", "^", "H", "M", "L", "G", "W", "q", "s", "n", "i", "I", "a", "A", ":"] {
        let mut u = ui(&text);
        let before = lines(&u);
        key(&mut u, k);
        assert_eq!(lines(&u), before, "key {}", k);
    }
}

#[test]
fn keys_that_start_typing_or_switch_modes() {
    let mut u = ui("hello\n");
    assert_eq!(key(&mut u, "i"), WarpUiCallBackType::ChangMode(ModeType::Insert));
    assert_eq!(key(&mut u, "n"), WarpUiCallBackType::ChangMode(ModeType::Normal));
    assert_eq!(key(&mut u, "A"), WarpUiCallBackType::ChangMode(ModeType::Insert));
    assert_eq!(u.cursor.x(), 5);
    assert_eq!(key(&mut u, "I"), WarpUiCallBackType::ChangMode(ModeType::Insert));
    assert_eq!(u.cursor.x(), 0);
    assert_eq!(key(&mut u, "z"), WarpUiCallBackType::Nothing);
    assert_eq!(key(&mut u, ":"), WarpUiCallBackType::ChangMode(ModeType::LastLine));
}

#[test]
fn h_j_k_move_the_cursor() {
    let mut u = ui("abc\ndef\n");
    right(&mut u);
    assert_eq!(u.cursor.x(), 1);
    key(&mut u, "j");
    assert_eq!(u.cursor.y(), 1);
    key(&mut u, "h");
    assert_eq!(u.cursor.x(), 0);
    key(&mut u, "k");
    assert_eq!(u.cursor.y(), 0);
    key(&mut u, "$");
    assert_eq!(u.cursor.x(), 3);
    key(&mut u, "0");
    assert_eq!(u.cursor.x(), 0);
}

#[test]
fn right_stops_before_the_newline() {
    let mut u = ui("ab\n");
    for _ in 0..5 {
        right(&mut u);
    }
    assert_eq!(u.cursor.x(), 2);
    left(&mut u);
    assert_eq!(u.cursor.x(), 1);
    for _ in 0..5 {
        left(&mut u);
    }
    assert_eq!(u.cursor.x(), 0);
    key(&mut u, "0");
    left(&mut u);
    assert_eq!(u.cursor.x(), 0);
}

#[test]
fn x_deletes_the_byte_under_the_cursor() {
    let mut u = ui("hello\n");
    u.take_ops();
    key(&mut u, "x");
    assert_eq!(lines(&u), bytes(&["ello\n"]));
    let ops = u.take_ops();
    assert_eq!(
        ops,
        vec![
            CursorAction::Render(0, 1),
            CursorAction::LineNumberStyle,
            CursorAction::MoveTo(0, 0),
            CursorAction::MarkerStyle(MarkerColor::Plain),
            CursorAction::Print(b'~'),
            CursorAction::ResetColor,
            CursorAction::MoveTo(1, 0),
            CursorAction::Highlight(None),
        ]
    );
}

#[test]
fn x_on_the_last_column_does_nothing() {
    let mut u = ui("ab\n");
    key(&mut u, "$");
    key(&mut u, "x");
    assert_eq!(lines(&u), bytes(&["ab\n"]));
}

#[test]
fn f_toggles_the_flag_and_twice_gives_the_lines_back() {
    let mut u = ui("a\nb\n");
    key(&mut u, "f");
    assert!(u.buffer.line_flags(0).contains(LineState::flaged()));
    key(&mut u, "F");
    assert!(!u.buffer.line_flags(0).contains(LineState::flaged()));
    assert_eq!(u.buffer.line_flags(0).bits(), 0);
}

#[test]
fn w_jumps_to_the_next_flagged_line() {
    let mut u = ui(&ten_lines());
    u.buffer.add_line_flags(3, LineState::flaged());
    key(&mut u, "W");
    assert_eq!(u.buffer.offset(), 1);
    assert_eq!(u.cursor.y(), 2);
}

#[test]
fn s_jumps_to_the_next_locked_line() {
    let mut u = ui(&ten_lines());
    u.buffer.add_line_flags(8, LineState::locked());
    key(&mut u, "s");
    assert_eq!(u.buffer.offset() + u.cursor.y() as usize, 8);
}

#[test]
fn capital_g_goes_to_the_last_line() {
    let mut u = ui(&ten_lines());
    key(&mut u, "G");
    assert_eq!(u.buffer.offset(), 5);
    assert_eq!(u.cursor.y(), 4);
    key(&mut u, "H");
    assert_eq!(u.buffer.offset() + u.cursor.y() as usize, 5);
}

#[test]
fn dd_deletes_the_line() {
    let mut u = ui("a\nb\nc\n");
    key(&mut u, "dd");
    assert_eq!(lines(&u), bytes(&["b\n", "c\n"]));
}

#[test]
fn dd_on_the_only_line_leaves_an_empty_line() {
    let mut u = ui("abc\n");
    key(&mut u, "dd");
    assert_eq!(lines(&u), bytes(&["\n"]));
}

#[test]
fn d0_deletes_up_to_the_cursor() {
    let mut u = ui("abcdef\n");
    for _ in 0..3 {
        right(&mut u);
    }
    key(&mut u, "d0");
    assert_eq!(lines(&u), bytes(&["def\n"]));
    assert_eq!(u.cursor.x(), 0);
}

#[test]
fn d_dollar_deletes_to_the_end() {
    let mut u = ui("abcdef\n");
    right(&mut u);
    right(&mut u);
    key(&mut u, "d$");
    assert_eq!(lines(&u), bytes(&["ab\n"]));
    assert_eq!(u.cursor.x(), 1);
}

#[test]
fn dw_deletes_a_word() {
    let mut u = ui("foo bar\n");
    key(&mut u, "dw");
    assert_eq!(lines(&u), bytes(&["bar\n"]));
}

#[test]
fn o_opens_a_line_below() {
    let mut u = ui("hello\nworld\n");
    assert_eq!(key(&mut u, "o"), WarpUiCallBackType::ChangMode(ModeType::Insert));
    assert_eq!(lines(&u), bytes(&["hello\n", "\n", "world\n"]));
    assert_eq!(u.cursor.y(), 1);
    assert_eq!(u.cursor.x(), 0);
}

#[test]
fn capital_o_opens_a_line_above() {
    let mut u = ui("hello\n");
    key(&mut u, "O");
    assert_eq!(lines(&u), bytes(&["\n", "hello\n"]));
}

#[test]
fn typing_inserts_at_the_cursor() {
    let mut u = ui("hello\n");
    assert_eq!(Insert.input_data(&mut u, b"XY"), WarpUiCallBackType::Nothing);
    assert_eq!(lines(&u), bytes(&["XYhello\n"]));
    assert_eq!(u.cursor.x(), 2);
    assert!(u.edited());
}

#[test]
fn backspace_undoes_typing() {
    let mut u = ui("hello\n");
    Insert.input_data(&mut u, b"XY");
    backspace(&mut u);
    assert_eq!(lines(&u), bytes(&["Xhello\n"]));
    assert_eq!(u.cursor.x(), 1);
    backspace(&mut u);
    assert_eq!(lines(&u), bytes(&["hello\n"]));
    assert_eq!(u.cursor.x(), 0);
}

#[test]
fn typing_on_a_locked_line_is_refused() {
    let mut u = ui("hello\n");
    u.buffer.add_line_flags(0, LineState::locked());
    u.take_ops();
    Insert.input_data(&mut u, b"X");
    assert_eq!(lines(&u), bytes(&["hello\n"]));
    assert_eq!(u.take_ops(), vec![CursorAction::RowLocked]);
    assert!(!u.edited());
}

#[test]
fn enter_splits_and_backspace_joins() {
    let mut u = ui("hello\n");
    right(&mut u);
    right(&mut u);
    Insert.enter(&mut u);
    assert_eq!(lines(&u), bytes(&["he\n", "llo\n"]));
    assert_eq!(u.cursor.y(), 1);
    assert_eq!(u.cursor.x(), 0);
    assert!(u.edited());
    backspace(&mut u);
    assert_eq!(lines(&u), bytes(&["hello\n"]));
    assert_eq!(u.cursor.y(), 0);
    assert_eq!(u.cursor.x(), 2);
}

#[test]
fn backspace_at_the_start_of_the_text_does_nothing() {
    let mut u = ui("hello\n");
    backspace(&mut u);
    assert_eq!(lines(&u), bytes(&["hello\n"]));
    assert!(!u.edited());
}

#[test]
fn tab_fills_to_the_next_stop() {
    let mut u = ui("hello\n");
    right(&mut u);
    Insert.tab(&mut u);
    assert_eq!(lines(&u), bytes(&["h   ello\n"]));
    assert_eq!(u.cursor.x(), 4);
    assert_eq!(Insert.esc(), WarpUiCallBackType::ChangMode(ModeType::Command));
}

#[test]
fn render_content_stops_at_the_text_area_and_the_buffer() {
    let mut u = ui(&ten_lines());
    assert_eq!(u.render_content(0, 5), 5);
    assert_eq!(u.render_content(3, 5), 2);
    let mut v = ui("a\nb\n");
    assert_eq!(v.render_content(0, 5), 2);
    v.take_ops();
    v.render_content(1, 1);
    assert_eq!(
        v.take_ops(),
        vec![
            CursorAction::Render(1, 1),
            CursorAction::LineNumberStyle,
            CursorAction::MoveTo(0, 1),
            CursorAction::MarkerStyle(MarkerColor::Plain),
            CursorAction::Print(b'~'),
            CursorAction::ResetColor,
            CursorAction::MoveTo(1, 0),
            CursorAction::Highlight(None),
        ]
    );
}

#[test]
fn down_on_the_last_row_scrolls() {
    let mut u = ui(&ten_lines());
    for _ in 0..4 {
        down(&mut u);
    }
    assert_eq!(u.cursor.y(), 4);
    assert_eq!(u.buffer.offset(), 0);
    down(&mut u);
    assert_eq!(u.cursor.y(), 4);
    assert_eq!(u.buffer.offset(), 1);
    for _ in 0..4 {
        up(&mut u);
    }
    assert_eq!(u.cursor.y(), 0);
    up(&mut u);
    assert_eq!(u.cursor.y(), 0);
    assert_eq!(u.buffer.offset(), 0);
}

#[test]
fn scroll_up_then_down() {
    let mut u = ui(&ten_lines());
    u.cursor.move_to(0, 4, SIZE);
    u.scroll_up(2);
    assert_eq!(u.buffer.offset(), 2);
    assert_eq!(u.cursor.y(), 4);
    u.scroll_down(2);
    assert_eq!(u.buffer.offset(), 0);
    assert_eq!(u.cursor.y(), 4);
}

#[test]
fn last_line_typing_and_backspace() {
    let mut u = ui("text\n");
    let mut ll = LastLine::new();
    u.cursor.store_pos();
    u.cursor.set_prefix_mode(false, SIZE);
    u.cursor.move_to(0, u16::MAX - 1, SIZE);
    u.cursor.write(b":", &mut u.buffer, SIZE);
    assert_eq!(u.cursor.x(), 1);
    ll.input_data(&mut u, b"w");
    assert_eq!(ll.bytes().clone(), b":w".to_vec());
    ll.backspace(&mut u);
    assert_eq!(ll.bytes().clone(), b":".to_vec());
    ll.backspace(&mut u);
    assert_eq!(ll.bytes().clone(), b":".to_vec());
    ll.input_data(&mut u, b"q");
    assert_eq!(
        ll.enter(&mut u, WarpUiCallBackType::Nothing),
        WarpUiCallBackType::ChangMode(ModeType::Command)
    );
    assert_eq!(ll.bytes().clone(), b":".to_vec());
    assert_eq!(u.cursor.y(), 0);
}

#[test]
fn last_line_enter_passes_an_exit_on() {
    let mut u = ui("text\n");
    let mut ll = LastLine::new();
    ll.reset();
    assert_eq!(ll.enter(&mut u, WarpUiCallBackType::Exit(true)), WarpUiCallBackType::Exit(true));
}

#[test]
fn last_line_esc_restores_the_cursor() {
    let mut u = ui("text\n");
    let ll = LastLine::new();
    right(&mut u);
    key(&mut u, ":");
    u.cursor.move_to(5, 5, SIZE);
    assert_eq!(ll.esc(&mut u), WarpUiCallBackType::ChangMode(ModeType::Command));
    assert_eq!(u.cursor.x(), 1);
    assert_eq!(u.cursor.y(), 0);
}

#[test]
fn command_line_exit_requests() {
    let mut u = ui("abc\n");
    let mut l = LastLine::new();
    assert_eq!(l.exit_command(), WarpUiCallBackType::Nothing);
    for (typed, want) in [
        ("q", WarpUiCallBackType::Exit(false)),
        ("q!", WarpUiCallBackType::Exit(false)),
        ("wq", WarpUiCallBackType::Exit(true)),
        ("w", WarpUiCallBackType::Nothing),
        ("qq", WarpUiCallBackType::Nothing),
    ] {
        l.reset();
        u.cursor.set_prefix_mode(false, SIZE);
        u.cursor.move_to(1, u16::MAX - 1, SIZE);
        for b in typed.bytes() {
            l.input_data(&mut u, &[b]);
        }
        assert_eq!(l.bytes()[1..].to_vec(), typed.as_bytes().to_vec());
        assert_eq!(l.exit_command(), want, "{}", typed);
    }
}

#[test]
fn a_locked_line_refuses_typing_enter_and_backspace() {
    let mut u = ui("abc\ndef\n");
    u.buffer.add_line_flags(0, LineState::locked());
    right(&mut u);
    u.take_ops();
    assert_eq!(Insert.input_data(&mut u, b"z"), WarpUiCallBackType::Nothing);
    assert_eq!(Insert.enter(&mut u), WarpUiCallBackType::Nothing);
    assert_eq!(backspace(&mut u), WarpUiCallBackType::Nothing);
    assert_eq!(lines(&u), bytes(&["abc\n", "def\n"]));
    assert!(u.take_ops().contains(&CursorAction::RowLocked));
    assert!(!u.edited());
}

#[test]
fn dd_keeps_a_locked_line() {
    let mut u = ui("abc\ndef\n");
    u.buffer.add_line_flags(0, LineState::locked());
    key(&mut u, "dd");
    assert_eq!(lines(&u), bytes(&["abc\n", "def\n"]));
}

fn printed(ops: &[CursorAction]) -> String {
    ops.iter()
        .filter_map(|a| match a {
            CursorAction::Print(b) => Some(*b as char),
            _ => None,
        })
        .collect()
}

#[test]
fn the_status_bar_shows_the_mode_the_place_and_the_message() {
    let size = WinSize { cols: 40, rows: 6 };
    let mut u = ui_with("abc\ndef\n", size);
    key(&mut u, "j");
    u.take_ops();
    let mut info = AppInfo { level: InfoLevel::Warn, info: "hi".to_string() };
    u.update_bottom_state_bar(ModeType::Command, &mut info);
    let ops = u.take_ops();
    assert_eq!(printed(&ops), "Commandrow:2 col:0hi");
    assert!(ops.contains(&CursorAction::InfoStyle(InfoLevel::Warn)));
    assert_eq!(ops.last(), Some(&CursorAction::ResetColor));
    assert!(info.info.is_empty());
    assert_eq!(info.level, InfoLevel::Info);
    assert_eq!((u.cursor.x(), u.cursor.y()), (0, 1));
}

#[test]
fn the_status_bar_waits_while_the_command_line_is_open() {
    let mut u = ui("abc\n");
    u.take_ops();
    let mut info = AppInfo { level: InfoLevel::Error, info: "x".to_string() };
    u.update_bottom_state_bar(ModeType::LastLine, &mut info);
    assert!(u.take_ops().is_empty());
    assert_eq!(info.info, "x");
}

#[test]
fn switching_to_the_command_line_writes_the_colon() {
    let mut u = ui("abc\n");
    let mut ll = LastLine::new();
    u.take_ops();
    key(&mut u, ":");
    set_mode(&mut u, &mut ll, ModeType::LastLine);
    let ops = u.take_ops();
    assert_eq!(printed(&ops), ":");
    assert!(ops.contains(&CursorAction::CommandStyle));
    assert_eq!(ll.bytes().clone(), b":".to_vec());
    assert_eq!(u.cursor.y(), SIZE.rows - 1);
    set_mode(&mut u, &mut ll, ModeType::Command);
    assert!(u.take_ops().contains(&CursorAction::Render(0, 1)));
}

#[test]
fn l_locks_the_line_and_a_and_s_jump_between_locked_lines() {
    let mut u = ui(&ten_lines());
    key(&mut u, "l");
    assert!(u.buffer.line_flags(0).contains(LineState::locked()));
    u.buffer.add_line_flags(4, LineState::locked());
    key(&mut u, "s");
    assert_eq!(u.buffer.offset() + u.cursor.y() as usize, 4);
    key(&mut u, "a");
    assert_eq!(u.buffer.offset() + u.cursor.y() as usize, 0);
}

#[test]
fn w_and_q_jump_between_flagged_lines() {
    let mut u = ui(&ten_lines());
    u.buffer.add_line_flags(2, LineState::flaged());
    u.buffer.add_line_flags(3, LineState::flaged());
    key(&mut u, "w");
    assert_eq!(u.buffer.offset() + u.cursor.y() as usize, 2);
    key(&mut u, "w");
    assert_eq!(u.buffer.offset() + u.cursor.y() as usize, 3);
    // The flagged line right above the cursor is the previous one.
    key(&mut u, "q");
    assert_eq!(u.buffer.offset() + u.cursor.y() as usize, 2);
}

#[test]
fn a_redraw_draws_the_markers_of_flagged_and_locked_lines() {
    let mut u = ui("a\nb\nc\n");
    u.buffer.add_line_flags(0, LineState::flaged());
    u.buffer.add_line_flags(2, LineState::locked());
    u.take_ops();
    assert_eq!(u.render_content(0, 3), 3);
    let ops = u.take_ops();
    let colors: Vec<MarkerColor> = ops
        .iter()
        .filter_map(|a| match a {
            CursorAction::MarkerStyle(c) => Some(*c),
            _ => None,
        })
        .collect();
    assert_eq!(colors, vec![MarkerColor::Flagged, MarkerColor::Plain, MarkerColor::Locked]);
    assert_eq!(ops.iter().filter(|a| **a == CursorAction::Print(b'~')).count(), 3);
    assert_eq!(ops.last(), Some(&CursorAction::Highlight(None)));
}

#[test]
fn a_marker_takes_the_color_of_its_flags() {
    assert_eq!(marker_color(LineState::default()), MarkerColor::Plain);
    assert_eq!(marker_color(LineState::flaged()), MarkerColor::Flagged);
    assert_eq!(marker_color(LineState::locked()), MarkerColor::Locked);
    let mut both = LineState::flaged();
    both.insert(LineState::locked());
    assert_eq!(marker_color(both), MarkerColor::Locked);
}

#[test]
fn the_prefix_with_line_numbers_labels_every_row() {
    let size = WinSize { cols: 20, rows: 6 };
    let mut c = CursorCrtl::new();
    c.move_to(0, 0, size);
    let mut buf = EditBuffer::new(b"a\nb\n".to_vec());
    let flags = vec![LineState::flaged(), LineState::default()];
    let ops = c.update_line_prefix(&flags, 0, 1, 1, true, &mut buf, size);
    let text: String = ops
        .iter()
        .filter_map(|a| match a {
            CursorAction::Print(b) => Some(*b as char),
            _ => None,
        })
        .collect();
    assert_eq!(text, "~~ 1  2  3  4  5 ");
    assert!(ops.contains(&CursorAction::MarkerStyle(MarkerColor::Flagged)));
    assert!(ops.contains(&CursorAction::MoveTo(CursorCrtl::PREFIX_COL, 4)));
    assert_eq!(ops.last(), Some(&CursorAction::MoveToColumn(4)));
    assert_eq!(c.x(), 0);
    assert_eq!(c.y(), 0);
    assert_eq!(c.width(), 4);
    assert_eq!(buf.line_count(), 2);
}

#[test]
fn the_prefix_without_line_numbers_keeps_its_width() {
    let size = WinSize { cols: 20, rows: 6 };
    let mut c = CursorCrtl::new();
    c.move_to(2, 1, size);
    let mut buf = EditBuffer::new(b"a\n".to_vec());
    let flags = vec![LineState::locked()];
    let ops = c.update_line_prefix(&flags, 1, 1, 1, false, &mut buf, size);
    assert_eq!(
        ops,
        vec![
            CursorAction::LineNumberStyle,
            CursorAction::MoveTo(0, 1),
            CursorAction::MarkerStyle(MarkerColor::Locked),
            CursorAction::Print(b'~'),
            CursorAction::ResetColor,
            CursorAction::MoveTo(3, 1),
        ]
    );
    assert_eq!((c.x(), c.y(), c.width()), (2, 1, CursorCrtl::PREFIX_COL));
}

#[test]
fn backspace_joining_onto_a_locked_line_says_so() {
    let mut u = ui("abc\ndef\n");
    u.buffer.add_line_flags(0, LineState::locked());
    down(&mut u);
    u.take_ops();
    assert_eq!(backspace(&mut u), WarpUiCallBackType::Nothing);
    assert_eq!(lines(&u), bytes(&["abc\n", "def\n"]));
    assert_eq!(u.take_ops(), vec![CursorAction::RowLocked]);
    let mut v = ui("abc\n");
    v.take_ops();
    backspace(&mut v);
    assert!(v.take_ops().is_empty());
}

#[test]
fn moving_left_steps_back_by_the_count_in_prefix_mode() {
    let size = WinSize { cols: 80, rows: 24 };
    let mut c = CursorCrtl::new();
    c.move_to(5, 0, size);
    c.move_left(1, size);
    assert_eq!((c.x(), c.y()), (4, 0));
    c.move_left(3, size);
    assert_eq!(c.x(), 1);
    c.move_left(7, size);
    assert_eq!(c.x(), 0);
    c.set_prefix_mode(false, size);
    c.move_to(6, 2, size);
    c.move_left(2, size);
    assert_eq!((c.x(), c.y()), (4, 2));
}

#[test]
fn a_redraw_prints_each_row_without_its_newline() {
    let u = ui("ab\ncd\n");
    let acts = u.render_actions(0, 3);
    assert_eq!(
        acts,
        vec![
            CursorAction::SavePosition,
            CursorAction::MoveTo(1, 0),
            CursorAction::ClearUntilNewLine,
            CursorAction::Print(b'a'),
            CursorAction::Print(b'b'),
            CursorAction::MoveTo(1, 1),
            CursorAction::ClearUntilNewLine,
            CursorAction::Print(b'c'),
            CursorAction::Print(b'd'),
            CursorAction::MoveTo(1, 2),
            CursorAction::ClearUntilNewLine,
            CursorAction::RestorePosition,
        ]
    );
}

#[test]
fn a_long_row_is_cut_at_the_edge_of_the_screen() {
    let u = ui_with("abcdefgh\n", WinSize { cols: 5, rows: 4 });
    let acts = u.render_actions(0, 1);
    let text: Vec<u8> = acts
        .iter()
        .filter_map(|a| match a {
            CursorAction::Print(b) => Some(*b),
            _ => None,
        })
        .collect();
    assert_eq!(text, b"abcd".to_vec());
}

#[test]
fn a_highlight_redraws_the_old_row_plainly_and_the_cursor_row_highlighted() {
    let mut u = ui("ab\ncd\n");
    down(&mut u);
    let acts = u.highlight_actions(Some(0));
    assert_eq!(
        acts,
        vec![
            CursorAction::SavePosition,
            CursorAction::MoveTo(1, 0),
            CursorAction::ClearUntilNewLine,
            CursorAction::Print(b'a'),
            CursorAction::Print(b'b'),
            CursorAction::HighlightStyle,
            CursorAction::MoveTo(1, 1),
            CursorAction::ClearUntilNewLine,
            CursorAction::Print(b'c'),
            CursorAction::Print(b'd'),
            CursorAction::ResetColor,
            CursorAction::RestorePosition,
        ]
    );
}
