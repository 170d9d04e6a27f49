use held::utils::buffer::{copy_range, EditBuffer, LineBuffer, LineState, NEWLINE};

fn buf(text: &str) -> EditBuffer {
    EditBuffer::new(text.as_bytes().to_vec())
}

fn line(b: &EditBuffer, y: u16) -> Vec<u8> {
    b.get_line(y).data
}

#[test]
fn new_splits_lines_and_ends_the_last_with_a_newline() {
    let b = buf("ab\ncd");
    assert_eq!(b.line_count(), 2);
    assert_eq!(line(&b, 0), b"ab\n".to_vec());
    assert_eq!(line(&b, 1), b"cd\n".to_vec());
    assert_eq!(b.offset(), 0);
}

#[test]
fn new_on_empty_text_gives_one_empty_line() {
    let b = EditBuffer::new(Vec::new());
    assert_eq!(b.line_count(), 1);
    assert_eq!(line(&b, 0), vec![NEWLINE]);
}

#[test]
fn new_gives_lines_their_identities_in_order() {
    let b = buf("a\nb\nc\n");
    let all = b.all_buffer();
    assert_eq!(all.len(), 3);
    for (i, l) in all.iter().enumerate() {
        assert_eq!(l.id(), i);
        assert_eq!(l.flags.bits(), 0);
    }
}

#[test]
fn linesize_is_zero_past_the_end() {
    let b = buf("hello\n");
    assert_eq!(b.get_linesize(0), 6);
    assert_eq!(b.get_linesize(1), 0);
}

#[test]
fn get_line_past_the_end_is_empty() {
    let b = buf("x\n");
    let l = b.get_line(3);
    assert!(l.data.is_empty());
    assert_eq!(l.id(), 0);
}

#[test]
fn insert_then_remove_char_gives_the_line_back() {
    let mut b = buf("hello\n");
    b.insert_char(b'X', 2, 0);
    assert_eq!(line(&b, 0), b"heXllo\n".to_vec());
    b.remove_char(2, 0);
    assert_eq!(line(&b, 0), b"hello\n".to_vec());
}

#[test]
fn insert_char_into_an_empty_buffer_adds_a_line() {
    let mut b = buf("a\n");
    b.delete_line(0);
    assert_eq!(b.line_count(), 0);
    b.insert_char(NEWLINE, 0, 0);
    assert_eq!(b.line_count(), 1);
    assert_eq!(line(&b, 0), vec![NEWLINE]);
}

#[test]
fn remove_str_removes_a_run_of_bytes() {
    let mut b = buf("abcdef\n");
    b.remove_str(1, 0, 3);
    assert_eq!(line(&b, 0), b"aef\n".to_vec());
}

#[test]
fn enter_then_merge_gives_the_line_back() {
    let mut b = buf("hello\nworld\n");
    b.input_enter(2, 0);
    assert_eq!(b.line_count(), 3);
    assert_eq!(line(&b, 0), b"he\n".to_vec());
    assert_eq!(line(&b, 1), b"llo\n".to_vec());
    assert_eq!(b.get_line(1).id(), 2);
    let (merged, len) = b.merge_line(1);
    assert!(merged);
    assert_eq!(len, 2);
    assert_eq!(b.line_count(), 2);
    assert_eq!(line(&b, 0), b"hello\n".to_vec());
    assert_eq!(line(&b, 1), b"world\n".to_vec());
}

#[test]
fn merge_is_refused_on_the_first_line() {
    let mut b = buf("a\nb\n");
    assert_eq!(b.merge_line(0), (false, 0));
    assert_eq!(b.line_count(), 2);
}

#[test]
fn merge_is_refused_next_to_a_locked_line() {
    let mut b = buf("a\nb\n");
    b.add_line_flags(0, LineState::locked());
    assert_eq!(b.merge_line(1), (false, 0));
    assert_eq!(b.line_count(), 2);
}

#[test]
fn flags_are_added_and_removed() {
    let mut b = buf("a\nb\n");
    b.add_line_flags(1, LineState::flaged());
    assert!(b.line_flags(1).contains(LineState::flaged()));
    assert!(!b.line_flags(0).contains(LineState::flaged()));
    b.remove_line_flags(1, LineState::flaged());
    assert!(!b.line_flags(1).contains(LineState::flaged()));
    assert_eq!(b.line_flags(7).bits(), 0);
}

#[test]
fn flags_on_a_missing_line_change_nothing() {
    let mut b = buf("a\n");
    b.add_line_flags(5, LineState::flaged());
    assert_eq!(b.line_flags(0).bits(), 0);
}

#[test]
fn delete_lines_keeps_locked_lines() {
    let mut b = buf("0\n1\n2\n3\n");
    b.add_line_flags(1, LineState::locked());
    let n = b.delete_lines(0, 2);
    assert_eq!(n, 2);
    assert_eq!(b.line_count(), 2);
    assert_eq!(line(&b, 0), b"1\n".to_vec());
    assert_eq!(line(&b, 1), b"3\n".to_vec());
}

#[test]
fn delete_lines_past_the_end_deletes_nothing() {
    let mut b = buf("0\n1\n");
    assert_eq!(b.delete_lines(5, 1), 0);
    assert_eq!(b.line_count(), 2);
}

#[test]
fn delete_line_keeps_a_locked_line() {
    let mut b = buf("0\n1\n");
    b.add_line_flags(0, LineState::locked());
    b.delete_line(0);
    assert_eq!(b.line_count(), 2);
    b.delete_line(1);
    assert_eq!(b.line_count(), 1);
}

#[test]
fn delete_until_line_beg_drops_the_bytes_before_x() {
    let mut b = buf("abcdef\n");
    assert_eq!(b.delete_until_line_beg(3, 0), Some(2));
    assert_eq!(line(&b, 0), b"def\n".to_vec());
}

#[test]
fn delete_until_line_beg_on_an_empty_line_is_refused() {
    let mut b = buf("\nx\n");
    assert_eq!(b.delete_until_line_beg(1, 0), None);
}

#[test]
fn delete_until_endl_keeps_the_newline() {
    let mut b = buf("abcdef\n");
    assert_eq!(b.delete_until_endl(2, 0), Some(2));
    assert_eq!(line(&b, 0), b"ab\n".to_vec());
}

#[test]
fn word_searches() {
    let b = buf("foo bar baz\n");
    assert_eq!(b.search_nextw_begin(0, 0), 4);
    assert_eq!(b.search_nextw_begin(4, 0), 8);
    assert_eq!(b.search_nextw_begin(8, 0), 12);
    // Only blanks after the last word: the line's length.
    assert_eq!(buf("ab \n").search_nextw_begin(0, 0), 4);
    assert_eq!(b.search_nextw_end(0, 0), 2);
    assert_eq!(b.search_nextw_end(2, 0), 6);
    assert_eq!(b.search_prevw_begin(8, 0), Some(4));
    assert_eq!(b.search_prevw_begin(6, 0), Some(4));
    assert_eq!(b.search_prevw_begin(1, 0), None);
}

#[test]
fn word_motions_stay_on_the_line() {
    let b = buf("a  bc   d\n");
    for x in 0..9u16 {
        let n = b.search_nextw_begin(x, 0);
        assert!(n >= x as usize && n <= 10);
        if let Some(p) = b.search_prevw_begin(x, 0) {
            assert!(p > 0 && p <= x as usize);
        }
    }
}

#[test]
fn goto_line_centres_the_target() {
    let mut b = buf("0\n1\n2\n3\n4\n5\n6\n7\n8\n9\n");
    assert_eq!(b.goto_line(0, 4), 0);
    assert_eq!(b.offset(), 0);
    assert_eq!(b.goto_line(5, 4), 2);
    assert_eq!(b.offset(), 3);
    assert_eq!(b.goto_line(9, 4), 3);
    assert_eq!(b.offset(), 6);
    assert_eq!(b.goto_line(100, 4), 3);
    assert_eq!(b.offset(), 6);
}

#[test]
fn set_offset_stops_at_the_last_line() {
    let mut b = buf("a\nb\nc\n");
    b.set_offset(10);
    assert_eq!(b.offset(), 2);
    b.set_offset(1);
    assert_eq!(b.offset(), 1);
    assert_eq!(line(&b, 0), b"b\n".to_vec());
}

#[test]
fn get_content_counts_from_the_top_of_the_screen() {
    let mut b = buf("a\nb\nc\nd\n");
    b.set_offset(1);
    let c = b.get_content(1, 10).unwrap();
    assert_eq!(c.len(), 2);
    assert_eq!(c[0].data, b"c\n".to_vec());
    assert_eq!(c[1].data, b"d\n".to_vec());
}

#[test]
fn line_state_bits() {
    let mut s = LineState::empty();
    assert_eq!(s.bits(), 0);
    s.insert(LineState::flaged());
    s.insert(LineState::locked());
    assert!(s.contains(LineState::flaged()));
    assert!(s.contains(LineState::locked()));
    s.remove(LineState::flaged());
    assert!(!s.contains(LineState::flaged()));
    assert!(s.contains(LineState::locked()));
    assert_eq!(s.bits(), 4);
}

#[test]
fn line_buffer_edits() {
    let mut l = LineBuffer::new(b"ac".to_vec());
    assert_eq!(l.id(), 0);
    l.insert(1, b'b');
    assert_eq!(l.data, b"abc".to_vec());
    assert_eq!(l.size(), 3);
    l.remove(0);
    assert_eq!(l.data, b"bc".to_vec());
    l.extend(LineBuffer::new(b"d\n".to_vec()));
    assert_eq!(l.data, b"bcd\n".to_vec());
    let d = l.duplicate();
    assert_eq!(d.data, l.data);
}

#[test]
fn copy_range_copies_a_slice() {
    let v = vec![1u8, 2, 3, 4, 5];
    assert_eq!(copy_range(&v, 1, 4), vec![2, 3, 4]);
    assert_eq!(copy_range(&v, 2, 2), Vec::<u8>::new());
}

#[test]
fn the_lines_give_back_the_file() {
    let whole = |b: &EditBuffer| -> Vec<u8> { b.all_buffer().into_iter().flat_map(|l| l.data).collect() };
    assert_eq!(whole(&buf("ab\ncd\n")), b"ab\ncd\n".to_vec());
    assert_eq!(whole(&buf("ab\ncd")), b"ab\ncd\n".to_vec());
    assert_eq!(whole(&buf("")), b"\n".to_vec());
}
