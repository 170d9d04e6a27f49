use held::utils::buffer::{EditBuffer, LineState};
use held::utils::cursor::{CursorAction, CursorCrtl};
use held::utils::ui::event::WarpUiCallBackType;
use held::utils::ui::mode::mode::ModeType;
use held::utils::ui::mode::normal::{
    locate_next_word, locate_nextw_ending, locate_prevw_begin, Normal, NormalState,
};
use held::utils::ui::uicore::{UiCore, WinSize};

const SIZE: WinSize = WinSize { cols: 20, rows: 6 };

fn ui(text: &str) -> UiCore {
    let mut c = CursorCrtl::new();
    c.move_to(0, 0, SIZE);
    UiCore::new(EditBuffer::new(text.as_bytes().to_vec()), c, SIZE)
}

fn ten_lines() -> String {
    (0..10).map(|i| format!("line {} of text\n", i)).collect()
}

fn lines(ui: &UiCore) -> Vec<Vec<u8>> {
    ui.buffer.all_buffer().into_iter().map(|l| l.data).collect()
}

fn typed(ui: &mut UiCore, state: &mut NormalState, keys: &str) -> WarpUiCallBackType {
    let mut r = WarpUiCallBackType::Nothing;
    for b in keys.bytes() {
        r = Normal::new().input_data(ui, state, &[b]);
    }
    r
}

#[test]
fn a_count_then_j_moves_down_that_many_lines() {
    let mut u = ui(&ten_lines());
    let mut st = NormalState::new();
    typed(&mut u, &mut st, "2");
    assert_eq!(st.count, Some(2));
    assert_eq!(st.cmdchar, None);
    typed(&mut u, &mut st, "j");
    assert_eq!(u.cursor.y(), 2);
    assert_eq!(st.count, None);
    assert!(st.cmdbuf.is_empty());
}

#[test]
fn a_count_of_two_digits_is_decimal() {
    let mut u = ui(&ten_lines());
    let mut st = NormalState::new();
    typed(&mut u, &mut st, "12");
    assert_eq!(st.count, Some(12));
    typed(&mut u, &mut st, "0");
    assert_eq!(st.count, Some(120));
}

#[test]
fn j_stops_at_the_last_line() {
    let mut u = ui("a\nb\n");
    let mut st = NormalState::new();
    typed(&mut u, &mut st, "9j");
    assert_eq!(u.cursor.y(), 1);
}

#[test]
fn dd_in_normal_mode_deletes_lines() {
    let mut u = ui("a\nb\nc\n");
    let mut st = NormalState::new();
    typed(&mut u, &mut st, "dd");
    assert_eq!(lines(&u), vec![b"b\n".to_vec(), b"c\n".to_vec()]);
    typed(&mut u, &mut st, "2dd");
    assert_eq!(lines(&u), vec![b"\n".to_vec()]);
}

#[test]
fn a_count_then_capital_g_goes_to_that_line() {
    let mut u = ui(&ten_lines());
    let mut st = NormalState::new();
    typed(&mut u, &mut st, "3G");
    assert_eq!(u.buffer.offset() + u.cursor.y() as usize, 2);
    typed(&mut u, &mut st, "G");
    assert_eq!(u.buffer.offset() + u.cursor.y() as usize, 9);
    typed(&mut u, &mut st, "gg");
    assert_eq!(u.buffer.offset() + u.cursor.y() as usize, 0);
}

#[test]
fn i_switches_to_insert_mode_and_resets() {
    let mut u = ui("abc\n");
    let mut st = NormalState::new();
    assert_eq!(typed(&mut u, &mut st, "i"), WarpUiCallBackType::ChangMode(ModeType::Insert));
    assert_eq!(st.cmdchar, None);
}

#[test]
fn colon_opens_the_command_line() {
    let mut u = ui("abc\n");
    let mut st = NormalState::new();
    assert_eq!(typed(&mut u, &mut st, ":"), WarpUiCallBackType::ChangMode(ModeType::LastLine));
}

#[test]
fn dollar_and_zero_move_along_the_line() {
    let mut u = ui("hello\n");
    let mut st = NormalState::new();
    typed(&mut u, &mut st, "$");
    assert_eq!(u.cursor.x(), 5);
    typed(&mut u, &mut st, "0");
    assert_eq!(u.cursor.x(), 0);
}

#[test]
fn x_deletes_under_the_cursor_in_normal_mode() {
    let mut u = ui("hello\n");
    let mut st = NormalState::new();
    typed(&mut u, &mut st, "x");
    assert_eq!(lines(&u), vec![b"ello\n".to_vec()]);
}

#[test]
fn writing_past_the_last_column_continues_on_the_next_line() {
    let size = WinSize { cols: 6, rows: 6 };
    let mut buf = EditBuffer::new(b"a\nb\n".to_vec());
    let mut c = CursorCrtl::new();
    c.move_to(0, 0, size);
    let ops = c.write(b"abcdefg", &mut buf, size);
    assert_eq!(ops[0], CursorAction::Print(b'a'));
    assert!(ops.contains(&CursorAction::MoveToNextLine(1)));
    assert_eq!(ops.iter().filter(|a| matches!(a, CursorAction::Print(_))).count(), 7);
    assert_eq!(c.y(), 1);
}

#[test]
fn writing_drops_newlines() {
    let mut buf = EditBuffer::new(b"a\n".to_vec());
    let mut c = CursorCrtl::new();
    c.move_to(0, 0, SIZE);
    let ops = c.write(b"a\nb", &mut buf, SIZE);
    assert_eq!(ops, vec![CursorAction::Print(b'a'), CursorAction::Print(b'b')]);
    assert_eq!(c.x(), 2);
}

#[test]
fn a_stored_position_comes_back() {
    let mut c = CursorCrtl::new();
    c.move_to(3, 2, SIZE);
    c.store_pos();
    c.move_to(7, 4, SIZE);
    c.restore_pos();
    assert_eq!((c.x(), c.y()), (3, 2));
}

#[test]
fn e_moves_to_the_end_of_the_word() {
    let mut u = ui("foo bar\nbaz\n");
    let mut st = NormalState::new();
    typed(&mut u, &mut st, "e");
    assert_eq!(u.cursor.x(), 2);
    assert_eq!(st.end_pos, None);
}

#[test]
fn e_at_the_end_of_a_line_goes_to_the_next_line() {
    let mut u = ui("ab\ncd x\n");
    let mut st = NormalState::new();
    typed(&mut u, &mut st, "e");
    assert_eq!(u.cursor.x(), 2);
    typed(&mut u, &mut st, "e");
    assert_eq!((u.cursor.x(), u.cursor.y()), (1, 1));
}

#[test]
fn word_places_from_a_column() {
    let u = ui("foo bar\nbaz\n");
    assert_eq!(locate_next_word(&u, (0, 0)), (4, 0));
    assert_eq!(locate_nextw_ending(&u, 0, 0), (2, 0));
    assert_eq!(locate_nextw_ending(&u, 4, 0), (7, 0));
}

#[test]
fn normal_dd_keeps_a_locked_line() {
    let mut u = ui("a\nb\n");
    u.buffer.add_line_flags(0, LineState::locked());
    let mut st = NormalState::new();
    typed(&mut u, &mut st, "dd");
    assert_eq!(lines(&u), vec![b"a\n".to_vec(), b"b\n".to_vec()]);
}

#[test]
fn a_column_moved_to_reads_back() {
    let mut c = CursorCrtl::new();
    c.move_to(0, 0, SIZE);
    c.move_to_columu(5, SIZE);
    assert_eq!(c.x(), 5);
}

#[test]
fn a_stored_position_comes_back_after_several_moves() {
    let mut c = CursorCrtl::new();
    c.move_to(3, 2, SIZE);
    c.store_pos();
    c.move_to(7, 4, SIZE);
    c.move_up(2);
    c.move_to_columu(9, SIZE);
    c.set_prefix_mode(false, SIZE);
    c.set_prefix_mode(true, SIZE);
    assert_eq!(c.restore_pos(), CursorAction::MoveTo(4, 2));
    assert_eq!((c.x(), c.y()), (3, 2));
}

#[test]
fn digits_typed_one_by_one_make_the_count() {
    let mut st = NormalState::new();
    st.on_nonzero_clicked(b"1");
    st.on_zero_clicked();
    st.on_nonzero_clicked(b"5");
    st.on_zero_clicked();
    assert_eq!(st.count, Some(1050));
    assert_eq!(st.cmdchar, None);
    let mut fresh = NormalState::new();
    fresh.on_zero_clicked();
    assert_eq!(fresh.cmdchar, Some('0'));
    assert_eq!(fresh.count, None);
}

#[test]
fn b_moves_back_to_the_start_of_each_word() {
    let mut u = ui("foo bar baz\nqux\n");
    let mut st = NormalState::new();
    typed(&mut u, &mut st, "$");
    assert_eq!(u.cursor.x(), 11);
    typed(&mut u, &mut st, "b");
    assert_eq!(u.cursor.x(), 8);
    assert_eq!(st.end_pos, None);
    typed(&mut u, &mut st, "b");
    assert_eq!(u.cursor.x(), 4);
    typed(&mut u, &mut st, "b");
    assert_eq!(u.cursor.x(), 0);
    typed(&mut u, &mut st, "b");
    assert_eq!((u.cursor.x(), u.cursor.y()), (0, 0));
}

#[test]
fn b_with_a_count_and_from_the_start_of_a_line() {
    let mut u = ui("foo bar baz\nqux\n");
    let mut st = NormalState::new();
    typed(&mut u, &mut st, "$");
    typed(&mut u, &mut st, "2b");
    assert_eq!(u.cursor.x(), 4);
    let v = ui("foo bar baz\nqux\n");
    assert_eq!(locate_prevw_begin(&v, 0, 1), (8, 0));
    assert_eq!(locate_prevw_begin(&v, 0, 0), (0, 0));
    assert_eq!(locate_prevw_begin(&v, 2, 1), (0, 1));
    assert_eq!(v.buffer.search_prevw_begin_abs(6, 0), 4);
    assert_eq!(v.buffer.search_prevw_begin_abs(2, 0), 0);
}
