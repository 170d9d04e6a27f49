use crate::utils::buffer::{
    bits_have,
    is_locked_bits,
    FLAGED_BITS,
    LOCKED_BITS,
    NEWLINE,
    goto_offset,
    goto_ok,
    goto_target,
    law_prev_word_begin_is_previous_start,
    law_word_motions_stay_on_line,
    word_starts_at,
    lemma_next_word_begin_bounds,
    models,
    next_word_begin,
    next_word_end,
    prev_word_begin,
    LineModel,
    LineState,
};
use crate::utils::cursor::{
    col_fits,
    col_of,
    screen_col,
    nextline_ok,
    sp_move_to,
    sp_move_to_columu,
    sp_move_to_nextline,
    sp_clear_current_line,
    sp_move_right,
    sp_move_to_row,
    sp_move_up,
    sp_restore_pos,
    sp_set_prefix_mode,
    sp_store_pos,
    sp_write,
    write_ok,
    CursorAction,
};
use crate::utils::ui::event::{
    down,
    down_ok,
    left,
    left_ok,
    m_backspace,
    m_down,
    m_highlight,
    m_left,
    m_right,
    m_up,
    right,
    right_ok,
    up,
    up_ok,
    WarpUiCallBackType,
};
use crate::utils::ui::uicore::{
    enter_ok,
    insert_char_ok,
    line_size,
    m_delete_line,
    m_enter,
    m_flags_added,
    m_flags_removed,
    m_insert_char,
    m_lines,
    m_merge,
    m_op,
    m_remove_char,
    m_remove_str,
    m_render,
    m_scroll_up,
    m_scrolls,
    m_step,
    m_steps,
    render_count,
    scroll_up_ok,
    m_until_beg,
    m_until_endl,
    merge_ok,
    render_ok,
    text_rows,
    ui_ok,
    UiCore,
    UiModel,
};
use vstd::prelude::*;

verus! {

/// The modes of the editor.
#[derive(Debug, PartialEq, Eq, Clone, Copy)]
pub enum ModeType {
    Command,
    LastLine,
    Insert,
    Normal,
}

/// The mode in which keys are commands.
#[derive(Debug)]
pub struct Command;

/// The line under row `y` of the text area, or an empty line when there is none.
pub open spec fn screen_line(m: UiModel, y: int) -> LineModel {
    let i = m.offset + y;
    if 0 <= i < m.lines.len() {
        m.lines[i]
    } else {
        LineModel { id: 0, data: Seq::empty(), flags: 0 }
    }
}

/// A jump to line `k` of the buffer: the text area shows it (see `goto_offset`) and is
/// redrawn, the cursor goes to its row, and the lines are highlighted anew with row `last`
/// redrawn plainly.
pub open spec fn m_show(m: UiModel, k: int, last: u16) -> UiModel {
    let rows = text_rows(m.size) as u16;
    let len = m.lines.len();
    let off = goto_offset(len, k, rows);
    let m1 = UiModel { offset: off as usize, ..m };
    let m2 = m_render(m1, 0, rows as usize);
    let m3 = m_step(m2, sp_move_to_row(m2.cursor, (goto_target(len, k) - off) as u16, m.size));
    m_highlight(m3, Some(last))
}

/// What a jump to line `k` needs.
pub open spec fn show_ok(m: UiModel, k: int) -> bool {
    let rows = text_rows(m.size) as u16;
    let m1 = UiModel { offset: goto_offset(m.lines.len(), k, rows) as usize, ..m };
    &&& ui_ok(m)
    &&& 0 <= k <= usize::MAX
    &&& goto_ok(m.lines.len(), k, rows)
    &&& render_ok(m1, 0, rows as usize)
}

/// The first line from line `k` on whose flags include `bits`.
pub open spec fn first_flagged(ls: Seq<LineModel>, k: int, bits: u32) -> Option<int>
    decreases ls.len() - k,
{
    if k < 0 || k >= ls.len() {
        None
    } else if bits_have(ls[k].flags, bits) {
        Some(k)
    } else {
        first_flagged(ls, k + 1, bits)
    }
}

/// The last line before line `end` whose flags include `bits`.
pub open spec fn last_flagged(ls: Seq<LineModel>, end: int, bits: u32) -> Option<int>
    decreases end,
{
    if end <= 0 {
        None
    } else if bits_have(ls[end - 1].flags, bits) {
        Some(end - 1)
    } else {
        last_flagged(ls, end - 1, bits)
    }
}

/// A jump to the next line below the cursor's whose flags include `bits`; nothing when there
/// is none.
pub open spec fn m_next_flag(m: UiModel, bits: u32) -> UiModel {
    let start = m.offset + m.cursor.y + 1;
    if start >= m.lines.len() {
        m
    } else {
        match first_flagged(m.lines, start, bits) {
            Some(k) => m_show(m, k, m.cursor.y),
            None => m,
        }
    }
}

/// What a jump to the next flagged line needs.
pub open spec fn next_flag_ok(m: UiModel, bits: u32) -> bool {
    let start = m.offset + m.cursor.y + 1;
    &&& ui_ok(m)
    &&& start < m.lines.len() ==> (first_flagged(m.lines, start, bits) matches Some(k) ==> show_ok(m, k))
}

/// A jump to the last line above the cursor's whose flags include `bits`; nothing on the first
/// line of the text, or when there is none.
pub open spec fn m_prev_flag(m: UiModel, bits: u32) -> UiModel {
    if m.offset == 0 && m.cursor.y == 0 {
        m
    } else {
        match last_flagged(m.lines, m.offset + m.cursor.y, bits) {
            Some(k) => m_show(m, k, m.cursor.y),
            None => m,
        }
    }
}

/// What a jump to the previous flagged line needs.
pub open spec fn prev_flag_ok(m: UiModel, bits: u32) -> bool {
    let end = m.offset + m.cursor.y;
    &&& ui_ok(m)
    &&& !(m.offset == 0 && m.cursor.y == 0) ==> {
        &&& end <= m.lines.len()
        &&& last_flagged(m.lines, end, bits) matches Some(k) ==> show_ok(m, k)
    }
}

/// The columns the blanks of a line take: one for each space, four for each tab, wherever
/// they stand on the line.
pub open spec fn blank_width(d: Seq<u8>) -> int
    decreases d.len(),
{
    if d.len() == 0 {
        0
    } else {
        blank_width(d.drop_last()) + if d.last() == 32 {
            1int
        } else if d.last() == 9 {
            4int
        } else {
            0int
        }
    }
}

/// `^`: the cursor moves to the column the line's blanks take.
pub open spec fn m_first_char(m: UiModel) -> UiModel {
    let w = blank_width(screen_line(m, m.cursor.y as int).data);
    m_step(m, sp_move_to_columu(m.cursor, w as u16, m.size))
}

/// The column `w` of the next word's start on the line under the cursor.
pub open spec fn next_word_col(m: UiModel) -> int {
    let d = m.lines[m.offset + m.cursor.y].data;
    next_word_begin(d.take(d.len() as u16 as int), col_of(m.cursor) as int)
}

/// `w`: to the start of the next word on the line; past the line's end, to the start of the
/// next line when there is one, otherwise to the line's last column.
pub open spec fn m_next_word(m: UiModel) -> UiModel {
    let y = m.cursor.y;
    let pos = next_word_col(m);
    let ls = line_size(m, y as int);
    if pos < ls {
        m_step(m, sp_move_to_columu(m.cursor, pos as u16, m.size))
    } else if y + 1 < (m.lines.len() as u16) {
        let m1 = m_down(m);
        m_step(m1, sp_move_to_columu(m1.cursor, 0, m.size))
    } else {
        m_step(m, sp_move_to_columu(m.cursor, (ls - 1) as u16, m.size))
    }
}

/// What `w` needs.
pub open spec fn next_word_ok(m: UiModel) -> bool {
    let y = m.cursor.y;
    let pos = next_word_col(m);
    let ls = line_size(m, y as int);
    &&& ui_ok(m)
    &&& m.offset + y < m.lines.len()
    &&& y < u16::MAX
    &&& pos >= ls && y + 1 < (m.lines.len() as u16) ==> down_ok(m)
    &&& pos >= ls && !(y + 1 < (m.lines.len() as u16)) ==> ls >= 1
}

/// `e`: to the end of the word on the line (no further than the column before the line's
/// last); from the line's last two columns, to the end of the first word of the next line when
/// there is one, otherwise to the line's last column.
pub open spec fn m_next_word_end(m: UiModel) -> UiModel {
    let c = m.cursor;
    let x = col_of(c) as int;
    let y = c.y;
    let ls = line_size(m, y as int) as int;
    if x >= ls - 2 {
        if y < (m.lines.len() as u16) - 1 {
            let d1 = m.lines[m.offset + y + 1].data;
            let next = next_word_end(d1.take(d1.len() as u16 as int), 0) as u16;
            m_highlight(m_step(m, sp_move_to(c, next, (y + 1) as u16, m.size)), Some(y))
        } else {
            m_step(m, sp_move_to_columu(c, (ls - 1) as u16, m.size))
        }
    } else {
        let d = m.lines[m.offset + y].data;
        let next = (next_word_end(d.take(d.len() as u16 as int), x) as u16) as int;
        m_step(m, sp_move_to_columu(c, (if next < ls - 2 { next } else { ls - 2 }) as u16, m.size))
    }
}

/// What `e` needs.
pub open spec fn next_word_end_ok(m: UiModel) -> bool {
    let c = m.cursor;
    let y = c.y;
    let ls = line_size(m, y as int) as int;
    &&& ui_ok(m)
    &&& m.offset + y < m.lines.len()
    &&& ls >= 2
    &&& (m.lines.len() as u16) >= 1
    &&& col_of(c) >= ls - 2 && y < (m.lines.len() as u16) - 1 ==> {
        let d1 = m.lines[m.offset + y + 1].data;
        &&& m.offset + y + 1 < m.lines.len()
        &&& col_fits(c, next_word_end(d1.take(d1.len() as u16 as int), 0) as u16)
    }
}

/// The start of the word the cursor moves back to from column `x` of row `y`, or 0.
pub open spec fn prev_word_col(m: UiModel, x: int, y: int) -> int {
    match prev_word_begin(m.lines[m.offset + y].data, x) {
        Some(p) => p,
        None => 0,
    }
}

/// `b`: back to the start of the word before the cursor; at the start of a line, to the start
/// of the last word of the line above, or to the first column on the top row.
pub open spec fn m_prev_word(m: UiModel) -> UiModel {
    let c = m.cursor;
    let x = col_of(c) as int;
    let y = c.y as int;
    if x == 0 {
        if y > 0 {
            let e = line_size(m, y - 1) - 1;
            let pos = prev_word_col(m, e, y - 1);
            m_highlight(m_step(m, sp_move_to(c, pos as u16, (y - 1) as u16, m.size)), Some(y as u16))
        } else {
            m_step(m, sp_move_to_columu(c, 0, m.size))
        }
    } else {
        m_step(m, sp_move_to(c, prev_word_col(m, x, y) as u16, y as u16, m.size))
    }
}

/// What `b` needs: the line to search, reaching past the column searched from.
pub open spec fn prev_word_ok(m: UiModel) -> bool {
    let c = m.cursor;
    let x = col_of(c) as int;
    let y = c.y as int;
    &&& ui_ok(m)
    &&& x == 0 && y > 0 ==> {
        &&& m.offset + y - 1 < m.lines.len()
        &&& line_size(m, y - 1) >= 1
        &&& line_size(m, y - 1) - 1 < m.lines[m.offset + y - 1].data.len()
    }
    &&& x != 0 ==> m.offset + y < m.lines.len() && x < m.lines[m.offset + y].data.len()
}


/// `f`: the flag of the line under the cursor is taken off when it is there and put on
/// otherwise, and its row is redrawn.
pub open spec fn m_toggle_flag(m: UiModel) -> UiModel {
    let y = m.cursor.y;
    let i = m.offset + y;
    let m1 = if bits_have(screen_line(m, y as int).flags, FLAGED_BITS) {
        m_flags_removed(m, i, FLAGED_BITS)
    } else {
        m_flags_added(m, i, FLAGED_BITS)
    };
    m_render(m1, y, 1)
}

/// `l`: the line under the cursor is locked, and its row is redrawn.
pub open spec fn m_lock_line(m: UiModel) -> UiModel {
    let y = m.cursor.y;
    m_render(m_flags_added(m, m.offset + y, LOCKED_BITS), y, 1)
}

/// What `l` needs.
pub open spec fn lock_line_ok(m: UiModel) -> bool {
    let y = m.cursor.y;
    ui_ok(m) && render_ok(m_flags_added(m, m.offset + y, LOCKED_BITS), y, 1)
}

/// What `f` needs.
pub open spec fn toggle_flag_ok(m: UiModel) -> bool {
    let y = m.cursor.y;
    let i = m.offset + y;
    let m1 = if bits_have(screen_line(m, y as int).flags, FLAGED_BITS) {
        m_flags_removed(m, i, FLAGED_BITS)
    } else {
        m_flags_added(m, i, FLAGED_BITS)
    };
    ui_ok(m) && render_ok(m1, y, 1)
}

/// `x`: the byte under the cursor goes and the row is redrawn, unless the cursor stands on
/// the line's last column.
pub open spec fn m_delete_char(m: UiModel) -> UiModel {
    let y = m.cursor.y;
    let x = col_of(m.cursor);
    if x < line_size(m, y as int) - 1 {
        m_render(m_remove_char(m, x as int, y as int), y, 1)
    } else {
        m
    }
}

/// What `x` needs.
pub open spec fn delete_char_ok(m: UiModel) -> bool {
    let y = m.cursor.y;
    let x = col_of(m.cursor);
    let i = m.offset + y;
    &&& ui_ok(m)
    &&& line_size(m, y as int) >= 1
    &&& x < line_size(m, y as int) - 1 ==> {
        &&& i < m.lines.len()
        &&& x < m.lines[i].data.len()
        &&& render_ok(m_remove_char(m, x as int, y as int), y, 1)
    }
}

/// `o`: to the end of the line, which is split there, and to the start of the new line below;
/// then typing starts.
pub open spec fn m_open_below(m: UiModel) -> UiModel {
    let m1 = m_step(m, sp_move_to_columu(m.cursor, (line_size(m, m.cursor.y as int) - 1) as u16, m.size));
    let m2 = m_enter(m1, col_of(m1.cursor) as int, m1.cursor.y as int);
    m_scrolls(m2, sp_move_to_nextline(m2.cursor, 1, m2.offset, m2.lines.len(), m2.size))
}

/// What `o` needs.
pub open spec fn open_below_ok(m: UiModel) -> bool {
    let m1 = m_step(m, sp_move_to_columu(m.cursor, (line_size(m, m.cursor.y as int) - 1) as u16, m.size));
    let m2 = m_enter(m1, col_of(m1.cursor) as int, m1.cursor.y as int);
    &&& ui_ok(m)
    &&& line_size(m, m.cursor.y as int) >= 1
    &&& enter_ok(m1, col_of(m1.cursor) as int, m1.cursor.y as int)
    &&& nextline_ok(m2.cursor, 1, m2.lines.len(), m2.size)
}

/// `O`: to the start of the line, which is split there, leaving an empty line above; then
/// typing starts.
pub open spec fn m_open_above(m: UiModel) -> UiModel {
    let m1 = m_step(m, sp_move_to_columu(m.cursor, 0, m.size));
    m_enter(m1, col_of(m1.cursor) as int, m1.cursor.y as int)
}

/// What `O` needs.
pub open spec fn open_above_ok(m: UiModel) -> bool {
    let m1 = m_step(m, sp_move_to_columu(m.cursor, 0, m.size));
    ui_ok(m) && enter_ok(m1, col_of(m1.cursor) as int, m1.cursor.y as int)
}

/// `dd`: the line at the buffer's index equal to the cursor's row is deleted (kept when it is
/// empty or locked) after the row and all below it are cleared, the rows from the cursor's on
/// are redrawn, the cursor moves up when that line was the last, and a buffer left with one
/// line gets a newline typed at its start and its first row redrawn.
pub open spec fn m_dd(m: UiModel) -> UiModel {
    let y = m.cursor.y;
    let lc = m.lines.len();
    let cnt: int = if lc - y > 1 { lc - y } else { 1 };
    let m0 = m_op(m_op(m, CursorAction::ClearCurrentLine), CursorAction::ClearUnderCursor);
    let m1 = m_delete_line(m0, y as int);
    let m2 = m_render(m1, y, cnt as usize);
    let m3 = if y == lc - 1 { m_up(m2) } else { m2 };
    if lc == 1 {
        let m4 = m_step(m3, sp_move_to_columu(m3.cursor, 0, m.size));
        m_render(m_insert_char(m4, NEWLINE, 0, 0), 0, 1)
    } else {
        m3
    }
}

/// What `dd` needs.
pub open spec fn dd_ok(m: UiModel) -> bool {
    let y = m.cursor.y;
    let lc = m.lines.len();
    let cnt: int = if lc - y > 1 { lc - y } else { 1 };
    let m0 = m_op(m_op(m, CursorAction::ClearCurrentLine), CursorAction::ClearUnderCursor);
    let m1 = m_delete_line(m0, y as int);
    let m2 = m_render(m1, y, cnt as usize);
    let m3 = if y == lc - 1 { m_up(m2) } else { m2 };
    let m4 = m_step(m3, sp_move_to_columu(m3.cursor, 0, m.size));
    &&& ui_ok(m)
    &&& y < lc
    &&& render_ok(m1, y, cnt as usize)
    &&& y == lc - 1 ==> up_ok(m2)
    &&& lc == 1 ==> insert_char_ok(m4, 0, 0) && render_ok(m_insert_char(m4, NEWLINE, 0, 0), 0, 1)
}

/// `d0`: the line at the buffer's index equal to the cursor's row loses the bytes before the
/// cursor's column; when it did, the cursor goes to the first column and the row is redrawn.
pub open spec fn m_d0(m: UiModel) -> UiModel {
    let y = m.cursor.y;
    let r = m_until_beg(m, col_of(m.cursor) as int, y as int);
    match r.0 {
        Some(_) => {
            let m1 = m_step(r.1, sp_move_to_columu(r.1.cursor, 0, m.size));
            m_render(m1, y, 1)
        },
        None => m,
    }
}

/// What `d0` needs.
pub open spec fn d0_ok(m: UiModel) -> bool {
    let y = m.cursor.y as int;
    let x = col_of(m.cursor) as int;
    let r = m_until_beg(m, x, y);
    &&& ui_ok(m)
    &&& y < m.lines.len()
    &&& m.lines[y].data.len() >= 2 ==> 1 <= x <= m.lines[y].data.len()
    &&& r.0 is Some ==> render_ok(m_step(r.1, sp_move_to_columu(r.1.cursor, 0, m.size)), y as u16, 1)
}

/// `d$`: the line at the buffer's index equal to the cursor's row loses the bytes from the
/// cursor's column to its newline; when it did, the cursor moves left and the row is redrawn.
pub open spec fn m_d_end(m: UiModel) -> UiModel {
    let y = m.cursor.y;
    let r = m_until_endl(m, col_of(m.cursor) as int, y as int);
    match r.0 {
        Some(_) => m_render(m_left(r.1), y, 1),
        None => m,
    }
}

/// What `d$` needs.
pub open spec fn d_end_ok(m: UiModel) -> bool {
    let y = m.cursor.y as int;
    let x = col_of(m.cursor) as int;
    let r = m_until_endl(m, x, y);
    &&& ui_ok(m)
    &&& y < m.lines.len()
    &&& m.lines[y].data.len() >= 2 ==> x <= m.lines[y].data.len() - 1
    &&& r.0 is Some ==> left_ok(r.1) && render_ok(m_left(r.1), y as u16, 1)
}

/// `dw`: the bytes from the cursor to the next word on the line go; when no word follows on
/// the line, the cursor moves left and the line at the buffer's index equal to the cursor's
/// row loses the bytes from the cursor's old column to its newline. The row is redrawn.
pub open spec fn m_dw(m: UiModel) -> UiModel {
    let y = m.cursor.y;
    let x = col_of(m.cursor) as int;
    let next = next_word_col(m);
    let m1 = if next < line_size(m, y as int) {
        m_remove_str(m, x, y as int, next - x)
    } else {
        m_until_endl(m_left(m), x, y as int).1
    };
    m_render(m1, y, 1)
}

/// What `dw` needs.
pub open spec fn dw_ok(m: UiModel) -> bool {
    let y = m.cursor.y as int;
    let x = col_of(m.cursor) as int;
    let i = m.offset + y;
    let next = next_word_col(m);
    let m1 = if next < line_size(m, y) {
        m_remove_str(m, x, y, next - x)
    } else {
        m_until_endl(m_left(m), x, y).1
    };
    &&& ui_ok(m)
    &&& i < m.lines.len()
    &&& x < m.lines[i].data.len()
    &&& next < line_size(m, y) ==> next <= m.lines[i].data.len()
    &&& !(next < line_size(m, y)) ==> {
        &&& left_ok(m)
        &&& y < m.lines.len()
        &&& m.lines[y].data.len() >= 2 ==> x <= m.lines[y].data.len() - 1
    }
    &&& render_ok(m1, y as u16, 1)
}

/// `db`: the cursor moves back to the start of the word (see `m_prev_word`); on the same row,
/// the bytes it passed go and the row is redrawn; on the row above, the line it lands on loses
/// the bytes from there to its newline, the line it left loses the bytes before its old
/// column, the two are joined, and the rows from the new one on are redrawn. Lines are taken
/// at the buffer's index equal to the row.
pub open spec fn m_db(m: UiModel) -> UiModel {
    let old_x = col_of(m.cursor) as int;
    let old_y = m.cursor.y;
    let m1 = m_prev_word(m);
    let x = col_of(m1.cursor) as int;
    let y = m1.cursor.y;
    if old_y == y {
        m_render(m_remove_str(m1, x, y as int, old_x - x), y, 1)
    } else {
        let m2 = m_until_endl(m1, x, y as int).1;
        let m3 = m_until_beg(m2, old_x, old_y as int).1;
        let m4 = m_merge(m3, old_y as int).2;
        let m5 = m_op(m4, CursorAction::ClearUnderCursor);
        m_render(m5, y, (m4.lines.len() - y - 1) as usize)
    }
}

/// What `db` needs.
pub open spec fn db_ok(m: UiModel) -> bool {
    let old_x = col_of(m.cursor) as int;
    let old_y = m.cursor.y;
    let m1 = m_prev_word(m);
    let x = col_of(m1.cursor) as int;
    let y = m1.cursor.y;
    let m2 = m_until_endl(m1, x, y as int).1;
    let m3 = m_until_beg(m2, old_x, old_y as int).1;
    let m4 = m_merge(m3, old_y as int).2;
    let m5 = m_op(m4, CursorAction::ClearUnderCursor);
    &&& prev_word_ok(m)
    &&& old_y == y ==> {
        let i = m1.offset + y;
        &&& x <= old_x
        &&& i < m1.lines.len() ==> old_x <= m1.lines[i].data.len()
        &&& render_ok(m_remove_str(m1, x, y as int, old_x - x), y, 1)
    }
    &&& old_y != y ==> {
        &&& y < m1.lines.len()
        &&& m1.lines[y as int].data.len() >= 2 ==> x <= m1.lines[y as int].data.len() - 1
        &&& old_y < m2.lines.len()
        &&& m2.lines[old_y as int].data.len() >= 2 ==> 1 <= old_x <= m2.lines[old_y as int].data.len()
        &&& merge_ok(m3, old_y as int)
        &&& m4.lines.len() >= y + 1
        &&& render_ok(m5, y, (m4.lines.len() - y - 1) as usize)
    }
}

/// `d` followed by `key`: see `m_dd`, `m_d0`, `m_d_end`, `m_dw` (for `w` and `e`) and `m_db`;
/// any other key does nothing.
pub open spec fn m_delete_key(m: UiModel, key: u8) -> UiModel {
    if key == ('d' as u8) {
        m_dd(m)
    } else if key == ('0' as u8) {
        m_d0(m)
    } else if key == ('$' as u8) {
        m_d_end(m)
    } else if key == ('w' as u8) || key == ('e' as u8) {
        m_dw(m)
    } else if key == ('b' as u8) {
        m_db(m)
    } else {
        m
    }
}

/// What `d` followed by `key` needs.
pub open spec fn delete_key_ok(m: UiModel, key: u8) -> bool {
    if key == ('d' as u8) {
        dd_ok(m)
    } else if key == ('0' as u8) {
        d0_ok(m)
    } else if key == ('$' as u8) {
        d_end_ok(m)
    } else if key == ('w' as u8) || key == ('e' as u8) {
        dw_ok(m)
    } else if key == ('b' as u8) {
        db_ok(m)
    } else {
        true
    }
}

/// A key of the command mode, with the screen's state after it: see the doc of
/// `Command::input_data`.
pub open spec fn m_command(m: UiModel, data: Seq<u8>) -> (WarpUiCallBackType, UiModel) {
    let rows = text_rows(m.size);
    let nothing = WarpUiCallBackType::Nothing;
    let insert = WarpUiCallBackType::ChangMode(ModeType::Insert);
    if data.len() == 2 && data[0] == ('d' as u8) {
        (nothing, m_delete_key(m, data[1]))
    } else if data.len() != 1 {
        (nothing, m)
    } else {
        let k = data[0];
        let ls = line_size(m, m.cursor.y as int);
        if k == (':' as u8) {
            (WarpUiCallBackType::ChangMode(ModeType::LastLine), UiModel { cursor: sp_store_pos(m.cursor), ..m })
        } else if k == ('i' as u8) {
            (insert, m)
        } else if k == ('I' as u8) {
            (insert, m_step(m, sp_move_to_columu(m.cursor, 0, m.size)))
        } else if k == ('a' as u8) {
            (nothing, m_prev_flag(m, LOCKED_BITS))
        } else if k == ('A' as u8) {
            (insert, m_step(m, sp_move_to_columu(m.cursor, (ls - 1) as u16, m.size)))
        } else if k == ('o' as u8) {
            (insert, m_open_below(m))
        } else if k == ('O' as u8) {
            (insert, m_open_above(m))
        } else if k == ('h' as u8) {
            (nothing, m_left(m))
        } else if k == ('j' as u8) {
            (nothing, m_down(m))
        } else if k == ('k' as u8) {
            (nothing, m_up(m))
        } else if k == ('l' as u8) {
            (nothing, m_lock_line(m))
        } else if k == ('L' as u8) {
            (nothing, m_show(m, m.offset + rows - 1, m.cursor.y))
        } else if k == ('f' as u8) || k == ('F' as u8) {
            (nothing, m_toggle_flag(m))
        } else if k == ('q' as u8) || k == ('Q' as u8) {
            (nothing, m_prev_flag(m, FLAGED_BITS))
        } else if k == ('w' as u8) {
            (nothing, m_next_flag(m, FLAGED_BITS))
        } else if k == ('e' as u8) {
            (nothing, m_next_word_end(m))
        } else if k == ('b' as u8) {
            (nothing, m_prev_word(m))
        } else if k == ('W' as u8) {
            (nothing, m_next_flag(m, FLAGED_BITS))
        } else if k == ('s' as u8) || k == ('S' as u8) {
            (nothing, m_next_flag(m, LOCKED_BITS))
        } else if k == ('0' as u8) {
            (nothing, m_step(m, sp_move_to_columu(m.cursor, 0, m.size)))
        } else if k == ('^' as u8) {
            (nothing, m_first_char(m))
        } else if k == ('$' as u8) {
            (nothing, m_step(m, sp_move_to_columu(m.cursor, (ls - 1) as u16, m.size)))
        } else if k == ('x' as u8) {
            (nothing, m_delete_char(m))
        } else if k == ('G' as u8) {
            (nothing, m_show(m, (m.lines.len() as u16) - 1, m.cursor.y))
        } else if k == ('n' as u8) {
            (WarpUiCallBackType::ChangMode(ModeType::Normal), m)
        } else if k == ('H' as u8) {
            (nothing, m_show(m, m.offset as int, m.cursor.y))
        } else if k == ('M' as u8) {
            (nothing, m_show(m, m.offset + rows / 2, m.cursor.y))
        } else {
            (nothing, m)
        }
    }
}

/// What a key of the command mode needs: for `d` followed by a key see `delete_key_ok`; for
/// the others, what the operation bound to the key needs.
pub open spec fn command_ok(m: UiModel, data: Seq<u8>) -> bool {
    let rows = text_rows(m.size);
    if data.len() == 2 && data[0] == ('d' as u8) {
        delete_key_ok(m, data[1])
    } else if data.len() != 1 {
        true
    } else {
        let k = data[0];
        let ls = line_size(m, m.cursor.y as int);
        if k == (':' as u8) {
            !m.cursor.stored
        } else if k == ('i' as u8) || k == ('n' as u8) {
            true
        } else if k == ('I' as u8) || k == ('0' as u8) {
            ui_ok(m)
        } else if k == ('a' as u8) {
            prev_flag_ok(m, LOCKED_BITS)
        } else if k == ('l' as u8) {
            lock_line_ok(m)
        } else if k == ('A' as u8) || k == ('$' as u8) {
            ui_ok(m) && ls >= 1
        } else if k == ('o' as u8) {
            open_below_ok(m)
        } else if k == ('O' as u8) {
            open_above_ok(m)
        } else if k == ('h' as u8) {
            left_ok(m)
        } else if k == ('j' as u8) {
            down_ok(m)
        } else if k == ('k' as u8) {
            up_ok(m)
        } else if k == ('L' as u8) {
            m.offset + rows - 1 <= usize::MAX && show_ok(m, m.offset + rows - 1)
        } else if k == ('f' as u8) || k == ('F' as u8) {
            toggle_flag_ok(m)
        } else if k == ('q' as u8) || k == ('Q' as u8) {
            prev_flag_ok(m, FLAGED_BITS)
        } else if k == ('w' as u8) {
            next_flag_ok(m, FLAGED_BITS)
        } else if k == ('e' as u8) {
            next_word_end_ok(m)
        } else if k == ('b' as u8) {
            prev_word_ok(m)
        } else if k == ('W' as u8) {
            next_flag_ok(m, FLAGED_BITS)
        } else if k == ('s' as u8) || k == ('S' as u8) {
            next_flag_ok(m, LOCKED_BITS)
        } else if k == ('^' as u8) {
            ui_ok(m) && blank_width(screen_line(m, m.cursor.y as int).data) < u16::MAX
        } else if k == ('x' as u8) {
            delete_char_ok(m)
        } else if k == ('G' as u8) {
            (m.lines.len() as u16) >= 1 && show_ok(m, (m.lines.len() as u16) - 1)
        } else if k == ('H' as u8) {
            show_ok(m, m.offset as int)
        } else if k == ('M' as u8) {
            m.offset + rows / 2 <= usize::MAX && show_ok(m, m.offset + rows / 2)
        } else {
            true
        }
    }
}

/// Enter while typing: refused with a message on a locked line; otherwise the line is split at
/// the cursor, the rest of its row is cleared, the cursor moves to the start of the next row
/// (scrolling at the bottom), that row is cleared, and the rows below are redrawn; when none
/// could be drawn, the text scrolls up a row, the rows are drawn again and the cursor moves up
/// a row. The lines are then highlighted anew, and the text is marked as edited.
pub open spec fn m_insert_enter(m: UiModel) -> UiModel {
    let y = m.cursor.y;
    let x = col_of(m.cursor);
    if is_locked_bits(screen_line(m, y as int).flags) {
        m_op(m, CursorAction::RowLocked)
    } else {
        let m1 = m_enter(m, x as int, y as int);
        let m2 = m_op(m_op(m1, CursorAction::ContentStyle), CursorAction::ClearUntilNewLine);
        let m3 = m_scrolls(m2, sp_move_to_nextline(m2.cursor, 1, m2.offset, m2.lines.len(), m.size));
        let m4 = m_steps(m3, sp_clear_current_line(m3.cursor, m.size));
        let cnt = ((text_rows(m.size) - y) as u16) as usize;
        let m5 = m_render(m4, (y + 1) as u16, cnt);
        let m6 = if render_count(m4, (y + 1) as u16, cnt) == 0 {
            let a = m_scroll_up(m5, 1);
            let b = m_render(a, (y + 1) as u16, cnt);
            m_step(b, sp_move_up(b.cursor, 1))
        } else {
            m5
        };
        let m7 = m_highlight(m6, Some((m6.cursor.y - 1) as u16));
        UiModel { edited: true, ..m7 }
    }
}

/// What Enter needs while typing.
pub open spec fn insert_enter_ok(m: UiModel) -> bool {
    let y = m.cursor.y;
    let x = col_of(m.cursor);
    let m1 = m_enter(m, x as int, y as int);
    let m2 = m_op(m_op(m1, CursorAction::ContentStyle), CursorAction::ClearUntilNewLine);
    let m3 = m_scrolls(m2, sp_move_to_nextline(m2.cursor, 1, m2.offset, m2.lines.len(), m.size));
    let m4 = m_steps(m3, sp_clear_current_line(m3.cursor, m.size));
    let cnt = ((text_rows(m.size) - y) as u16) as usize;
    let m5 = m_render(m4, (y + 1) as u16, cnt);
    let a = m_scroll_up(m5, 1);
    let b = m_render(a, (y + 1) as u16, cnt);
    let m6 = if render_count(m4, (y + 1) as u16, cnt) == 0 {
        m_step(b, sp_move_up(b.cursor, 1))
    } else {
        m5
    };
    &&& ui_ok(m)
    &&& !is_locked_bits(screen_line(m, y as int).flags) ==> {
        &&& enter_ok(m, x as int, y as int)
        &&& nextline_ok(m2.cursor, 1, m2.lines.len(), m.size)
        &&& y < text_rows(m.size)
        &&& render_ok(m4, (y + 1) as u16, cnt)
        &&& render_count(m4, (y + 1) as u16, cnt) == 0 ==> {
            &&& scroll_up_ok(m5, 1)
            &&& render_ok(a, (y + 1) as u16, cnt)
            &&& b.cursor.y >= 1
        }
        &&& m6.cursor.y >= 1
    }
}

/// `n` spaces.
pub open spec fn blanks(n: nat) -> Seq<u8> {
    Seq::new(n, |j: int| 32u8)
}

/// The columns a tab takes.
pub const TAB_SIZE: u16 = 4;

/// Tab while typing: spaces up to the next multiple of `TAB_SIZE` columns go in at the cursor,
/// the row is redrawn, and the cursor moves right by as many columns.
pub open spec fn m_insert_tab(m: UiModel) -> UiModel {
    let x = col_of(m.cursor) as int;
    let y = m.cursor.y;
    let n = TAB_SIZE - x % (TAB_SIZE as int);
    let i = m.offset + y;
    let d = m.lines[i].data;
    let m0 = UiModel { edited: true, ..m };
    let m1 = m_lines(m0, m.lines.update(i, LineModel { data: d.subrange(0, x) + blanks(n as nat) + d.subrange(x, d.len() as int), ..m.lines[i] }));
    let m2 = m_render(m1, y, 1);
    m_right_by(m2, n as u16)
}

/// Moving the cursor right by `n` columns.
pub open spec fn m_right_by(m: UiModel, n: u16) -> UiModel {
    m_steps(m, sp_move_right(m.cursor, n, line_size(m, m.cursor.y as int), m.size))
}

/// What Tab needs while typing.
pub open spec fn insert_tab_ok(m: UiModel) -> bool {
    let x = col_of(m.cursor) as int;
    let y = m.cursor.y;
    let n = TAB_SIZE - x % (TAB_SIZE as int);
    let i = m.offset + y;
    let d = m.lines[i].data;
    let m1 = m_lines(m, m.lines.update(i, LineModel { data: d.subrange(0, x) + blanks(n as nat) + d.subrange(x, d.len() as int), ..m.lines[i] }));
    let m2 = m_render(m1, y, 1);
    &&& ui_ok(m)
    &&& i < m.lines.len()
    &&& x <= d.len()
    &&& render_ok(m1, y, 1)
    &&& right_ok(m2)
    &&& m2.cursor.x + n <= u16::MAX
}

/// Typing `data` at the cursor: refused with a message on a locked line; otherwise the bytes go
/// in at the cursor, the rest of the line (without its newline) is written from the cursor, the
/// cursor moves to the column after the typed bytes, the text is marked as edited, and the
/// line is highlighted.
pub open spec fn m_insert_input(m: UiModel, data: Seq<u8>) -> UiModel {
    let x = col_of(m.cursor) as int;
    let y = m.cursor.y;
    let i = m.offset + y;
    if is_locked_bits(screen_line(m, y as int).flags) {
        m_op(m, CursorAction::RowLocked)
    } else {
        let d = m.lines[i].data;
        let nd = d.subrange(0, x) + data + d.subrange(x, d.len() as int);
        let m1 = m_lines(m, m.lines.update(i, LineModel { data: nd, ..m.lines[i] }));
        let m2 = m_scrolls(
            m1,
            sp_write((m1.cursor, Seq::empty(), m1.offset), nd.subrange(x, nd.len() - 1), m1.lines.len(), m.size),
        );
        let m3 = m_step(m2, sp_move_to_columu(m2.cursor, (x + (data.len() as u16)) as u16, m.size));
        m_highlight(UiModel { edited: true, ..m3 }, None)
    }
}

/// What typing `data` needs: a line under the cursor reaching to it, columns for the typed
/// bytes, and room to write the rest of the line.
pub open spec fn insert_input_ok(m: UiModel, data: Seq<u8>) -> bool {
    let x = col_of(m.cursor) as int;
    let y = m.cursor.y;
    let i = m.offset + y;
    &&& ui_ok(m)
    &&& !is_locked_bits(screen_line(m, y as int).flags) ==> {
        let d = m.lines[i].data;
        &&& i < m.lines.len()
        &&& x < d.len()
        &&& x + data.len() <= u16::MAX
        &&& x + (data.len() as u16) + m.cursor.width <= u16::MAX
        &&& write_ok(m.cursor, m.lines.len(), m.size)
    }
}

/// Typing `data` into the command line at the cursor's column: appended when the column is
/// the line's length cut to 16 bits, otherwise inserted there.
pub open spec fn typed(content: Seq<u8>, x: u16, data: Seq<u8>) -> Seq<u8> {
    if x == (content.len() as u16) {
        content + data
    } else {
        content.subrange(0, x as int) + data + content.subrange(x as int, content.len() as int)
    }
}

/// The mode in which keys are typed into the text.
#[derive(Debug)]
pub struct Insert;

/// The mode of the command line at the bottom of the screen, which starts with ':'.
#[derive(Debug)]
pub struct LastLine {
    buf: Vec<u8>,
}

/// The byte that starts the command line.
pub const COLON: u8 = 58;

impl Insert {
    /// The mode this is.
    pub fn mode_type(&self) -> (r: ModeType)
        ensures
            r == ModeType::Insert,
    {
        ModeType::Insert
    }

    /// Enter: splits the line at the cursor (see `m_insert_enter`).
    pub fn enter(&self, ui: &mut UiCore) -> (r: WarpUiCallBackType)
        requires
            insert_enter_ok(old(ui)@),
        ensures
            r == WarpUiCallBackType::Nothing,
            final(ui)@ == m_insert_enter(old(ui)@),
    {
        let line_idx = ui.cursor.y();
        let col = ui.cursor.x();
        let line = ui.buffer.get_line(line_idx);
        if line.flags.contains(LineState::locked()) {
            ui.op(CursorAction::RowLocked);
            return WarpUiCallBackType::Nothing;
        }
        ui.buffer.input_enter(col, line_idx);
        ui.op(CursorAction::ContentStyle);
        ui.op(CursorAction::ClearUntilNewLine);
        ui.c_move_to_nextline(1);
        ui.c_clear_current_line();
        let rows = ui.content_rows();
        let ret = ui.render_content(line_idx + 1, (rows - line_idx) as usize);
        if ret == 0 {
            ui.scroll_up(1);
            ui.render_content(line_idx + 1, (rows - line_idx) as usize);
            ui.c_move_up(1);
        }
        let last = ui.cursor.y() - 1;
        ui.c_highlight(Some(last));
        ui.set_edited();
        WarpUiCallBackType::Nothing
    }

    /// Tab: spaces up to the next tab stop (see `m_insert_tab`).
    pub fn tab(&self, ui: &mut UiCore) -> (r: WarpUiCallBackType)
        requires
            insert_tab_ok(old(ui)@),
        ensures
            r == WarpUiCallBackType::Nothing,
            final(ui)@ == m_insert_tab(old(ui)@),
    {
        ui.set_edited();
        let x = ui.cursor.x();
        let space_size = TAB_SIZE - (x % TAB_SIZE);
        let ghost m0 = ui@;
        let ghost i = m0.offset + m0.cursor.y;
        let ghost d = m0.lines[i].data;
        let mut k: u16 = 0;
        assert(d.subrange(0, x as int) + blanks(0nat) + d.subrange(x as int, d.len() as int) =~= d);
        assert(m0.lines.update(i, LineModel { data: d, ..m0.lines[i] }) =~= m0.lines);
        while k < space_size
            invariant
                k <= space_size,
                space_size <= TAB_SIZE,
                x == col_of(m0.cursor),
                ui@ == m_lines(m0, m0.lines.update(i, LineModel { data: d.subrange(0, x as int) + blanks(k as nat) + d.subrange(x as int, d.len() as int), ..m0.lines[i] })),
                ui_ok(m0),
                i == m0.offset + m0.cursor.y,
                d == m0.lines[i].data,
                i < m0.lines.len(),
                x <= d.len(),
            decreases space_size - k,
        {
            let ghost sp = blanks(k as nat);
            let ghost a = d.subrange(0, x as int);
            let ghost c = d.subrange(x as int, d.len() as int);
            let ghost before = ui@.lines;
            assert(before =~= m0.lines.update(i, LineModel { data: a + sp + c, ..m0.lines[i] }));
            assert(before[i].data =~= a + sp + c);
            assert(a.len() == x);
            proof {
                lemma_insert_concat(a, sp, c, 0, 32u8);
                assert(sp.insert(0, 32u8) =~= blanks((k + 1) as nat));
            }
            ui.buffer.insert_char(32u8, ui.cursor.x(), ui.cursor.y());
            assert(ui@.lines == before.update(i, LineModel { data: before[i].data.insert(x as int, 32u8), ..before[i] }));
            k = k + 1;
            assert(ui@.lines =~= m0.lines.update(i, LineModel { data: a + blanks(k as nat) + c, ..m0.lines[i] }));
        }
        let y = ui.cursor.y();
        ui.render_content(y, 1);
        let mut a = ui.cursor.move_right(space_size, &ui.buffer, ui.size);
        ui.ops.append(&mut a);
        WarpUiCallBackType::Nothing
    }

    /// Esc: back to the command mode.
    pub fn esc(&self) -> (r: WarpUiCallBackType)
        ensures
            r == WarpUiCallBackType::ChangMode(ModeType::Command),
    {
        WarpUiCallBackType::ChangMode(ModeType::Command)
    }

    /// Types `data` at the cursor (see `m_insert_input`).
    pub fn input_data(&self, ui: &mut UiCore, data: &[u8]) -> (r: WarpUiCallBackType)
        requires
            insert_input_ok(old(ui)@, data@),
        ensures
            r == WarpUiCallBackType::Nothing,
            final(ui)@ == m_insert_input(old(ui)@, data@),
    {
        let x = ui.cursor.x();
        let y = ui.cursor.y();
        let line = ui.buffer.get_line(y);
        if line.flags.contains(LineState::locked()) {
            ui.op(CursorAction::RowLocked);
            return WarpUiCallBackType::Nothing;
        }
        let ghost m0 = ui@;
        let ghost i = m0.offset + y;
        let ghost d = m0.lines[i].data;
        let n = data.len();
        let mut k: usize = 0;
        assert(d.subrange(0, x as int) + data@.take(0) + d.subrange(x as int, d.len() as int) =~= d);
        assert(m0.lines.update(i, LineModel { data: d, ..m0.lines[i] }) =~= m0.lines);
        while k < n
            invariant
                k <= n,
                n == data@.len(),
                x + n <= u16::MAX,
                ui@ == m_lines(m0, m0.lines.update(i, LineModel { data: d.subrange(0, x as int) + data@.take(k as int) + d.subrange(x as int, d.len() as int), ..m0.lines[i] })),
                ui_ok(m0),
                i == m0.offset + m0.cursor.y,
                d == m0.lines[i].data,
                i < m0.lines.len(),
                x < d.len(),
                y == m0.cursor.y,
            decreases n - k,
        {
            let ghost tk = data@.take(k as int);
            let ghost a = d.subrange(0, x as int);
            let ghost c = d.subrange(x as int, d.len() as int);
            let ghost before = ui@.lines;
            assert(before[i].data == a + tk + c);
            assert(a.len() == x);
            proof {
                lemma_insert_concat(a, tk, c, k as int, data@[k as int]);
                assert(tk.insert(k as int, data@[k as int]) =~= data@.take(k + 1));
            }
            ui.buffer.insert_char(data[k], x + k as u16, y);
            assert(ui@.lines == before.update(i, LineModel { data: before[i].data.insert(x + k, data@[k as int]), ..before[i] }));
            assert(before[i].data.insert(x + k, data@[k as int]) == a + data@.take(k + 1) + c);
            k = k + 1;
            assert(ui@.lines =~= m0.lines.update(i, LineModel { data: a + data@.take(k as int) + c, ..m0.lines[i] }));
        }
        assert(data@.take(n as int) =~= data@);
        let line_data = ui.buffer.get_line(y);
        let size = line_data.data.len();
        let mut text: Vec<u8> = Vec::new();
        let mut j = x as usize;
        while j < size - 1
            invariant
                x <= j <= size - 1,
                size == line_data.data@.len(),
                size >= 1,
                text@ == line_data.data@.subrange(x as int, j as int),
            decreases size - 1 - j,
        {
            text.push(line_data.data[j]);
            j = j + 1;
            assert(text@ =~= line_data.data@.subrange(x as int, j as int));
        }
        ui.c_write(&text);
        ui.c_move_to_columu(x + n as u16);
        ui.set_edited();
        ui.c_highlight(None);
        WarpUiCallBackType::Nothing
    }
}

/// Typing `data` in the command line `c` on the screen `m`: the command line with the bytes
/// typed at the cursor's column (see `typed`), and the screen once they are written at the
/// cursor.
pub open spec fn ll_input(c: Seq<u8>, m: UiModel, data: Seq<u8>) -> (Seq<u8>, UiModel) {
    (
        typed(c, col_of(m.cursor), data),
        m_scrolls(m, sp_write((m.cursor, Seq::empty(), m.offset), data, m.lines.len(), m.size)),
    )
}

/// What typing in the command line needs: the cursor's column within the line, and room to
/// write at the cursor.
pub open spec fn ll_input_ok(c: Seq<u8>, m: UiModel) -> bool {
    let x = col_of(m.cursor);
    &&& x != (c.len() as u16) ==> x <= c.len()
    &&& write_ok(m.cursor, m.lines.len(), m.size)
}

/// Backspace in the command line `c`: nothing right after the ':'; otherwise the cursor moves
/// left, the byte there goes, a blank is written over it, and the cursor moves left again.
pub open spec fn ll_backspace(c: Seq<u8>, m: UiModel) -> (Seq<u8>, UiModel) {
    let m1 = m_left(m);
    let m2 = m_scrolls(m1, sp_write((m1.cursor, Seq::empty(), m1.offset), seq![32u8], m1.lines.len(), m1.size));
    if col_of(m.cursor) == 1 {
        (c, m)
    } else {
        (c.remove(col_of(m1.cursor) as int), m_left(m2))
    }
}

/// What Backspace in the command line needs.
pub open spec fn ll_backspace_ok(c: Seq<u8>, m: UiModel) -> bool {
    let m1 = m_left(m);
    let m2 = m_scrolls(m1, sp_write((m1.cursor, Seq::empty(), m1.offset), seq![32u8], m1.lines.len(), m1.size));
    col_of(m.cursor) != 1 ==> {
        &&& left_ok(m)
        &&& col_of(m1.cursor) < c.len()
        &&& write_ok(m1.cursor, m1.lines.len(), m1.size)
        &&& left_ok(m2)
    }
}

/// Enter in the command line `c`, once the command it holds was run and answered `ret`: the
/// answer, the command line cut to its first byte (a zero byte when it is empty), and the
/// screen, where the line is cleared after the ':' and, when the command asked for nothing,
/// the cursor goes back to the stored position as the command mode comes back.
pub open spec fn ll_enter(c: Seq<u8>, m: UiModel, ret: WarpUiCallBackType) -> (WarpUiCallBackType, Seq<u8>, UiModel) {
    let m1 = m_step(m, sp_move_to(m.cursor, 1, (u16::MAX - 1) as u16, m.size));
    let m2 = m_op(m1, CursorAction::ClearUntilNewLine);
    let m3 = m_step(m2, sp_move_to(m2.cursor, 1, (u16::MAX - 1) as u16, m.size));
    let c2 = if c.len() == 0 { seq![0u8] } else { c.take(1) };
    if ret == WarpUiCallBackType::Nothing {
        (WarpUiCallBackType::ChangMode(ModeType::Command), c2, m_step(m3, sp_restore_pos(m3.cursor)))
    } else {
        (ret, c2, m3)
    }
}

/// What Enter in the command line needs: a screen the editor works with, and a stored
/// position to go back to when the command asked for nothing.
pub open spec fn ll_enter_ok(m: UiModel, ret: WarpUiCallBackType) -> bool {
    &&& ui_ok(m)
    &&& ret == WarpUiCallBackType::Nothing ==> sp_move_to(
        sp_move_to(m.cursor, 1, (u16::MAX - 1) as u16, m.size).0,
        1,
        (u16::MAX - 1) as u16,
        m.size,
    ).0.stored
}

/// The leaving commands of the command line: `:q` and `:q!` leave without saving, `:wq` saves
/// and leaves; any other line does not ask to leave.
pub open spec fn exit_request(cmd: Seq<u8>) -> WarpUiCallBackType {
    if cmd == seq![COLON, 'q' as u8] || cmd == seq![COLON, 'q' as u8, '!' as u8] {
        WarpUiCallBackType::Exit(false)
    } else if cmd == seq![COLON, 'w' as u8, 'q' as u8] {
        WarpUiCallBackType::Exit(true)
    } else {
        WarpUiCallBackType::Nothing
    }
}

/// The command line cut to its first byte, or ':' when it is empty.
pub open spec fn reset_content(c: Seq<u8>) -> Seq<u8> {
    if c.len() == 0 {
        seq![COLON]
    } else {
        c.take(1)
    }
}

/// Switching the editor to mode `mode`: outside the command line, prefix mode comes back on and
/// the text area is redrawn; for the command line, prefix mode goes off, the cursor goes to the
/// bottom row (the last row it can reach) in the command line's colors, the row is cleared,
/// and ':' is written at its start.
pub open spec fn m_set_mode(m: UiModel, mode: ModeType) -> UiModel {
    if mode != ModeType::LastLine {
        let m1 = m_steps(m, sp_set_prefix_mode(m.cursor, true, m.size));
        m_render(m1, 0, text_rows(m.size) as usize)
    } else {
        let m1 = m_steps(m, sp_set_prefix_mode(m.cursor, false, m.size));
        let m2 = m_op(m_step(m1, sp_move_to(m1.cursor, 0, (u16::MAX - 1) as u16, m.size)), CursorAction::CommandStyle);
        let m3 = m_steps(m2, sp_clear_current_line(m2.cursor, m.size));
        let m4 = m_step(m3, sp_move_to_columu(m3.cursor, 0, m.size));
        m_scrolls(m4, sp_write((m4.cursor, Seq::empty(), m4.offset), seq![COLON], m4.lines.len(), m.size))
    }
}

/// What switching the editor to mode `mode` needs: a screen the editor works with, and room to
/// redraw the text area outside the command line.
pub open spec fn set_mode_ok(m: UiModel, mode: ModeType) -> bool {
    &&& ui_ok(m)
    &&& mode != ModeType::LastLine ==> render_ok(
        m_steps(m, sp_set_prefix_mode(m.cursor, true, m.size)),
        0,
        text_rows(m.size) as usize,
    )
}

/// Switches the editor to mode `mode` (see `m_set_mode`); for the command line, `lastline`
/// keeps only its first byte.
pub fn set_mode(ui: &mut UiCore, lastline: &mut LastLine, mode: ModeType)
    requires
        set_mode_ok(old(ui)@, mode),
    ensures
        final(ui)@ == m_set_mode(old(ui)@, mode),
        final(lastline).content() == if mode == ModeType::LastLine {
            reset_content(old(lastline).content())
        } else {
            old(lastline).content()
        },
{
    match mode {
        ModeType::LastLine => {
            ui.c_set_prefix_mode(false);
            lastline.reset();
            ui.c_move_to(0, u16::MAX - 1);
            ui.op(CursorAction::CommandStyle);
            ui.c_clear_current_line();
            ui.c_move_to_columu(0);
            let colon: Vec<u8> = vec![COLON];
            assert(colon@ =~= seq![COLON]);
            ui.c_write(&colon);
        },
        _ => {
            ui.c_set_prefix_mode(true);
            let rows = ui.content_rows();
            ui.render_content(0, rows as usize);
        },
    }
}

impl LastLine {
    /// The mode this is.
    pub fn mode_type(&self) -> (r: ModeType)
        ensures
            r == ModeType::LastLine,
    {
        ModeType::LastLine
    }

    /// What the command line holds.
    pub closed spec fn content(&self) -> Seq<u8> {
        self.buf@
    }

    /// A command line holding just ':'.
    pub fn new() -> (r: LastLine)
        ensures
            r.content() == seq![COLON],
    {
        let r = LastLine { buf: vec![COLON] };
        assert(r.content() =~= seq![COLON]);
        r
    }

    /// Keeps only the first byte of the command line, or ':' when it is empty.
    pub fn reset(&mut self)
        ensures
            final(self).content() == reset_content(old(self).content()),
    {
        if self.buf.len() == 0 {
            self.buf.push(COLON);
            assert(self.buf@ =~= seq![COLON]);
        } else {
            self.buf.truncate(1);
        }
    }

    /// The command line's bytes.
    pub fn bytes(&self) -> (r: &Vec<u8>)
        ensures
            r@ == self.content(),
    {
        &self.buf
    }

    /// What the command line asks of the interface loop when Enter is typed, as far as it asks
    /// to leave: see `exit_request`.
    pub fn exit_command(&self) -> (r: WarpUiCallBackType)
        ensures
            r == exit_request(self.content()),
    {
        let b = &self.buf;
        let n = b.len();
        let ghost c = self.content();
        let ghost quit = seq![COLON, 'q' as u8];
        let ghost force = seq![COLON, 'q' as u8, '!' as u8];
        let ghost save = seq![COLON, 'w' as u8, 'q' as u8];
        assert(c.len() != 2 ==> c != quit);
        assert(c.len() != 3 ==> c != force && c != save);
        if n == 2 && b[0] == COLON && b[1] == ('q' as u8) {
            assert(c =~= quit);
            return WarpUiCallBackType::Exit(false);
        }
        if n == 3 && b[0] == COLON && b[1] == ('q' as u8) && b[2] == ('!' as u8) {
            assert(c =~= force);
            return WarpUiCallBackType::Exit(false);
        }
        if n == 3 && b[0] == COLON && b[1] == ('w' as u8) && b[2] == ('q' as u8) {
            assert(c =~= save);
            return WarpUiCallBackType::Exit(true);
        }
        assert(c != quit && c != force && c != save) by {
            if c == quit {
                assert(c[0] == quit[0] && c[1] == quit[1]);
            }
            if c == force {
                assert(c[0] == force[0] && c[1] == force[1] && c[2] == force[2]);
            }
            if c == save {
                assert(c[0] == save[0] && c[1] == save[1] && c[2] == save[2]);
            }
        }
        WarpUiCallBackType::Nothing
    }

    /// Types `data` at column `x` of the command line.
    fn insert_at(&mut self, x: usize, data: &[u8])
        requires
            x <= old(self).content().len(),
        ensures
            final(self).content() == old(self).content().subrange(0, x as int) + data@
                + old(self).content().subrange(x as int, old(self).content().len() as int),
    {
        let ghost c0 = self.buf@;
        let n = data.len();
        for i in 0..n
            invariant
                n == data@.len(),
                x <= c0.len(),
                self.buf@ == c0.subrange(0, x as int) + data@.take(i as int) + c0.subrange(
                    x as int,
                    c0.len() as int,
                ),
        {
            assert(self.buf@.len() == c0.len() + i);
            assert(x + i <= self.buf.len());
            self.buf.insert(x + i, data[i]);
            assert(self.buf@ =~= c0.subrange(0, x as int) + data@.take(i + 1) + c0.subrange(
                x as int,
                c0.len() as int,
            ));
        }
        assert(data@.take(n as int) =~= data@);
    }

    /// Appends `data` to the command line.
    fn append(&mut self, data: &[u8])
        ensures
            final(self).content() == old(self).content() + data@,
    {
        let ghost c0 = self.buf@;
        let n = data.len();
        for i in 0..n
            invariant
                n == data@.len(),
                self.buf@ == c0 + data@.take(i as int),
        {
            self.buf.push(data[i]);
            assert(self.buf@ =~= c0 + data@.take(i + 1));
        }
        assert(data@.take(n as int) =~= data@);
    }

    /// Types `data` in the command line at the cursor's column (see `typed`) and writes it at
    /// the cursor.
    pub fn input_data(&mut self, ui: &mut UiCore, data: &[u8]) -> (r: WarpUiCallBackType)
        requires
            ll_input_ok(old(self).content(), old(ui)@),
        ensures
            r == WarpUiCallBackType::Nothing,
            (final(self).content(), final(ui)@) == ll_input(old(self).content(), old(ui)@, data@),
    {
        let x = ui.cursor.x();
        if x == self.buf.len() as u16 {
            self.append(data);
        } else {
            self.insert_at(x as usize, data);
        }
        ui.c_write(data);
        WarpUiCallBackType::Nothing
    }

    /// Backspace in the command line: nothing right after the ':'; otherwise the cursor moves
    /// left, the byte there goes, a blank is written over it, and the cursor moves left again.
    pub fn backspace(&mut self, ui: &mut UiCore) -> (r: WarpUiCallBackType)
        requires
            ll_backspace_ok(old(self).content(), old(ui)@),
        ensures
            r == WarpUiCallBackType::Nothing,
            (final(self).content(), final(ui)@) == ll_backspace(old(self).content(), old(ui)@),
    {
        if ui.cursor.x() == 1 {
            return WarpUiCallBackType::Nothing;
        }
        left(ui);
        self.remove(ui.cursor.x() as usize);
        let blank: Vec<u8> = vec![32u8];
        assert(blank@ =~= seq![32u8]);
        ui.c_write(&blank);
        left(ui);
        WarpUiCallBackType::Nothing
    }

    /// Esc in the command line: the cursor goes back to the stored position, and the command
    /// mode comes back.
    pub fn esc(&self, ui: &mut UiCore) -> (r: WarpUiCallBackType)
        requires
            old(ui)@.cursor.stored,
        ensures
            r == WarpUiCallBackType::ChangMode(ModeType::Command),
            final(ui)@ == m_step(old(ui)@, sp_restore_pos(old(ui)@.cursor)),
    {
        ui.c_restore_pos();
        WarpUiCallBackType::ChangMode(ModeType::Command)
    }

    /// Enter in the command line, once the command it holds was run and answered `ret`: the
    /// line is cleared after the ':', and cut to its first byte (a zero byte when it is
    /// empty); when the command asked for nothing, the cursor goes back to the stored position
    /// and the command mode comes back, otherwise `ret` is answered.
    pub fn enter(&mut self, ui: &mut UiCore, ret: WarpUiCallBackType) -> (r: WarpUiCallBackType)
        requires
            ll_enter_ok(old(ui)@, ret),
        ensures
            (r, final(self).content(), final(ui)@) == ll_enter(old(self).content(), old(ui)@, ret),
    {
        ui.c_move_to(1, u16::MAX - 1);
        ui.op(CursorAction::ClearUntilNewLine);
        ui.c_move_to(1, u16::MAX - 1);
        if self.buf.len() == 0 {
            self.buf.push(0u8);
            assert(self.buf@ =~= seq![0u8]);
        } else {
            self.buf.truncate(1);
        }
        match ret {
            WarpUiCallBackType::Nothing => {
                ui.c_restore_pos();
                WarpUiCallBackType::ChangMode(ModeType::Command)
            },
            _ => ret,
        }
    }

    /// Deletes the byte at column `x` of the command line.
    fn remove(&mut self, x: usize)
        requires
            x < old(self).content().len(),
        ensures
            final(self).content() == old(self).content().remove(x as int),
    {
        self.buf.remove(x);
    }
}

fn show_line(ui: &mut UiCore, k: usize, last: u16)
    requires
        show_ok(old(ui)@, k as int),
    ensures
        final(ui)@ == m_show(old(ui)@, k as int, last),
{
    let rows = ui.content_rows();
    let new_y = ui.buffer.goto_line(k, rows);
    ui.render_content(0, rows as usize);
    ui.c_move_to_row(new_y);
    ui.c_highlight(Some(last));
}

impl Command {
    /// The mode this is.
    pub fn mode_type(&self) -> (r: ModeType)
        ensures
            r == ModeType::Command,
    {
        ModeType::Command
    }

    /// Jumps to the next line below the cursor's whose flags include `flags`.
    pub fn jump_to_next_flag(&self, ui: &mut UiCore, flags: LineState)
        requires
            next_flag_ok(old(ui)@, flags.bits),
        ensures
            final(ui)@ == m_next_flag(old(ui)@, flags.bits),
    {
        let ghost m = ui@;
        let offset = ui.buffer.offset();
        let y = ui.cursor.y() as usize;
        let start = offset + y + 1;
        if start >= ui.buffer.line_count() {
            return ;
        }
        let content = ui.buffer.all_buffer();
        let n = content.len();
        let mut k = start;
        while k < n && !content[k].flags.contains(flags)
            invariant
                start <= k <= n,
                n == m.lines.len(),
                models(content@) == m.lines,
                first_flagged(m.lines, start as int, flags.bits) == first_flagged(m.lines, k as int, flags.bits),
            decreases n - k,
        {
            assert(models(content@)[k as int] == content@[k as int]@);
            k = k + 1;
        }
        if k < n {
            assert(models(content@)[k as int] == content@[k as int]@);
            show_line(ui, k, y as u16);
        }
    }

    /// Jumps to the last line whose flags include `flags` among the lines above the cursor's
    /// (see `m_prev_flag`).
    pub fn jump_to_previous_flag(&self, ui: &mut UiCore, flags: LineState)
        requires
            prev_flag_ok(old(ui)@, flags.bits),
        ensures
            final(ui)@ == m_prev_flag(old(ui)@, flags.bits),
    {
        let ghost m = ui@;
        let offset = ui.buffer.offset();
        let y = ui.cursor.y() as usize;
        if offset == 0 && y == 0 {
            return ;
        }
        let end = offset + y;
        let content = ui.buffer.all_buffer();
        let mut k = end;
        while k > 0 && !content[k - 1].flags.contains(flags)
            invariant
                k <= end <= m.lines.len(),
                content@.len() == m.lines.len(),
                models(content@) == m.lines,
                last_flagged(m.lines, end as int, flags.bits) == last_flagged(m.lines, k as int, flags.bits),
            decreases k,
        {
            assert(models(content@)[k - 1] == content@[k - 1]@);
            k = k - 1;
        }
        if k > 0 {
            assert(models(content@)[k - 1] == content@[k - 1]@);
            show_line(ui, k - 1, y as u16);
        }
    }

    /// Moves the cursor to the column the line's blanks take.
    fn jump_to_first_char(&self, ui: &mut UiCore) -> (r: WarpUiCallBackType)
        requires
            ui_ok(old(ui)@),
            blank_width(screen_line(old(ui)@, old(ui)@.cursor.y as int).data) < u16::MAX,
        ensures
            r == WarpUiCallBackType::Nothing,
            final(ui)@ == m_first_char(old(ui)@),
    {
        let line = ui.buffer.get_line(ui.cursor.y()).data;
        let ghost d = line@;
        let n = line.len();
        let mut idx: u16 = 0;
        let mut k: usize = 0;
        while k < n
            invariant
                k <= n,
                n == d.len(),
                d == line@,
                idx == blank_width(d.take(k as int)),
                blank_width(d) < u16::MAX,
            decreases n - k,
        {
            assert(d.take(k + 1).drop_last() =~= d.take(k as int));
            proof {
                lemma_blank_width_prefix(d, k + 1);
                lemma_blank_width_monotone(d, k + 1);
            }
            if line[k] == 32 {
                idx = idx + 1;
            } else if line[k] == 9 {
                idx = idx + 4;
            }
            k = k + 1;
        }
        assert(d.take(n as int) =~= d);
        ui.c_move_to_columu(idx);
        WarpUiCallBackType::Nothing
    }

    /// Moves to the start of the next word.
    pub(crate) fn jump_to_next_word(&self, ui: &mut UiCore) -> (r: WarpUiCallBackType)
        requires
            next_word_ok(old(ui)@),
        ensures
            r == WarpUiCallBackType::Nothing,
            final(ui)@ == m_next_word(old(ui)@),
    {
        let x = ui.cursor.x();
        let y = ui.cursor.y();
        let pos = ui.buffer.search_nextw_begin(x, y);
        let linesize = ui.linesize(y);
        if pos < linesize as usize {
            ui.c_move_to_columu(pos as u16);
        } else if y + 1 < ui.buffer.line_count() as u16 {
            down(ui);
            ui.c_move_to_columu(0);
        } else {
            ui.c_move_to_columu(linesize - 1);
        }
        WarpUiCallBackType::Nothing
    }

    /// Moves to the end of the word.
    fn jump_to_nextw_ending(&self, ui: &mut UiCore) -> (r: WarpUiCallBackType)
        requires
            next_word_end_ok(old(ui)@),
        ensures
            r == WarpUiCallBackType::Nothing,
            final(ui)@ == m_next_word_end(old(ui)@),
    {
        let x = ui.cursor.x();
        let y = ui.cursor.y();
        let linesize = ui.linesize(y) as usize;
        let final_char_pos = linesize - 2;
        if x as usize >= final_char_pos {
            if y < ui.buffer.line_count() as u16 - 1 {
                let next_end_pos = ui.buffer.search_nextw_end(0, y + 1) as u16;
                ui.c_move_to(next_end_pos, y + 1);
                ui.c_highlight(Some(y));
            } else {
                ui.c_move_to_columu(linesize as u16 - 1);
            }
            return WarpUiCallBackType::Nothing;
        }
        let next_end_pos = ui.buffer.search_nextw_end(x, y) as u16;
        let limit = linesize as u16 - 2;
        ui.c_move_to_columu(if next_end_pos < limit { next_end_pos } else { limit });
        WarpUiCallBackType::Nothing
    }

    /// Moves back to the start of the word.
    fn jump_to_prevw_beg(&self, ui: &mut UiCore) -> (r: WarpUiCallBackType)
        requires
            prev_word_ok(old(ui)@),
        ensures
            r == WarpUiCallBackType::Nothing,
            final(ui)@ == m_prev_word(old(ui)@),
    {
        let x = ui.cursor.x();
        let y = ui.cursor.y();
        if x == 0 {
            if y > 0 {
                let end_of_prev_line = ui.linesize(y - 1) - 1;
                proof {
                    let m = ui@;
                    law_word_motions_stay_on_line(
                        m.lines[m.offset + y - 1].data,
                        end_of_prev_line as int,
                    );
                }
                let prev_word_pos = match ui.buffer.search_prevw_begin(end_of_prev_line, y - 1) {
                    Some(pos) => pos,
                    None => 0,
                };
                ui.c_move_to(prev_word_pos as u16, y - 1);
                ui.c_highlight(Some(y));
            } else {
                ui.c_move_to_columu(0);
            }
            return WarpUiCallBackType::Nothing;
        }
        proof {
            let m = ui@;
            law_word_motions_stay_on_line(m.lines[m.offset + y].data, x as int);
        }
        let prev_word_pos = match ui.buffer.search_prevw_begin(x, y) {
            Some(pos) => pos,
            None => 0,
        };
        ui.c_move_to(prev_word_pos as u16, y);
        WarpUiCallBackType::Nothing
    }

    /// Toggles the flag of the line under the cursor.
    fn toggle_flag(&self, ui: &mut UiCore)
        requires
            toggle_flag_ok(old(ui)@),
        ensures
            final(ui)@ == m_toggle_flag(old(ui)@),
    {
        let y = ui.cursor.y();
        let flag = ui.buffer.line_flags(y);
        let offset = ui.buffer.offset();
        if flag.contains(LineState::flaged()) {
            ui.buffer.remove_line_flags(offset + y as usize, LineState::flaged());
        } else {
            ui.buffer.add_line_flags(offset + y as usize, LineState::flaged());
        }
        ui.render_content(y, 1);
    }

    /// Locks the line under the cursor and redraws its row.
    fn lock_line(&self, ui: &mut UiCore)
        requires
            lock_line_ok(old(ui)@),
        ensures
            final(ui)@ == m_lock_line(old(ui)@),
    {
        let y = ui.cursor.y();
        let offset = ui.buffer.offset();
        ui.buffer.add_line_flags(offset + y as usize, LineState::locked());
        ui.render_content(y, 1);
    }

    /// Deletes the byte under the cursor, unless it stands on the line's last column.
    fn delete_char(&self, ui: &mut UiCore)
        requires
            delete_char_ok(old(ui)@),
        ensures
            final(ui)@ == m_delete_char(old(ui)@),
    {
        let y = ui.cursor.y();
        let x = ui.cursor.x();
        if x < ui.linesize(y) - 1 {
            ui.buffer.remove_char(x, y);
            ui.render_content(y, 1);
        }
    }

    /// `dd`: see `m_dd`.
    fn delete_line_key(&self, ui: &mut UiCore)
        requires
            dd_ok(old(ui)@),
        ensures
            final(ui)@ == m_dd(old(ui)@),
    {
        ui.op(CursorAction::ClearCurrentLine);
        ui.op(CursorAction::ClearUnderCursor);
        let y = ui.cursor.y() as usize;
        let old_line_count = ui.buffer.line_count();
        let count = old_line_count - y;
        ui.buffer.delete_line(y);
        ui.render_content(y as u16, if count > 1 { count } else { 1 });
        if y == old_line_count - 1 {
            up(ui);
        }
        if old_line_count == 1 {
            ui.c_move_to_columu(0);
            ui.buffer.insert_char(NEWLINE, 0, 0);
            ui.render_content(0, 1);
        }
    }

    /// `d0`: see `m_d0`.
    fn delete_to_start_key(&self, ui: &mut UiCore)
        requires
            d0_ok(old(ui)@),
        ensures
            final(ui)@ == m_d0(old(ui)@),
    {
        let x = ui.cursor.x() as usize;
        let y = ui.cursor.y() as usize;
        match ui.buffer.delete_until_line_beg(x, y) {
            Some(_) => {
                ui.c_move_to_columu(0);
                ui.render_content(y as u16, 1);
            },
            None => {},
        }
    }

    /// `d$`: see `m_d_end`.
    fn delete_to_end_key(&self, ui: &mut UiCore)
        requires
            d_end_ok(old(ui)@),
        ensures
            final(ui)@ == m_d_end(old(ui)@),
    {
        let x = ui.cursor.x() as usize;
        let y = ui.cursor.y() as usize;
        match ui.buffer.delete_until_endl(x, y) {
            Some(_) => {
                left(ui);
                ui.render_content(y as u16, 1);
            },
            None => {},
        }
    }

    /// `dw`: see `m_dw`.
    fn delete_word_key(&self, ui: &mut UiCore)
        requires
            dw_ok(old(ui)@),
        ensures
            final(ui)@ == m_dw(old(ui)@),
    {
        let x = ui.cursor.x();
        let y = ui.cursor.y();
        proof {
            let m = ui@;
            let d = m.lines[m.offset + y].data;
            lemma_next_word_begin_bounds(d.take(d.len() as u16 as int), x as int);
        }
        let next_word_pos = ui.buffer.search_nextw_begin(x, y);
        let linesize = ui.linesize(y);
        if next_word_pos < linesize as usize {
            ui.buffer.remove_str(x, y, next_word_pos - x as usize);
        } else {
            left(ui);
            ui.buffer.delete_until_endl(x as usize, y as usize);
        }
        ui.render_content(y, 1);
    }

    /// `db`: see `m_db`.
    fn delete_word_back_key(&self, ui: &mut UiCore)
        requires
            db_ok(old(ui)@),
        ensures
            final(ui)@ == m_db(old(ui)@),
    {
        let old_x = ui.cursor.x();
        let old_y = ui.cursor.y();
        self.jump_to_prevw_beg(ui);
        let x = ui.cursor.x();
        let y = ui.cursor.y();
        if old_y == y {
            ui.buffer.remove_str(x, y, old_x as usize - x as usize);
            ui.render_content(y, 1);
        } else {
            ui.buffer.delete_until_endl(x as usize, y as usize);
            ui.buffer.delete_until_line_beg(old_x as usize, old_y as usize);
            let (merged, _) = ui.buffer.merge_line(old_y);
            if !merged && ui.buffer.offset() + (old_y as usize) != 0 {
                ui.op(CursorAction::RowLocked);
            }
            let linecount = ui.buffer.line_count();
            ui.op(CursorAction::ClearUnderCursor);
            ui.render_content(y, linecount - y as usize - 1);
        }
    }

    /// `d` followed by `key`: deletes part of the text (see `m_delete_key`).
    pub fn do_delete_on_d_clicked(&self, ui: &mut UiCore, key: u8) -> (r: WarpUiCallBackType)
        requires
            delete_key_ok(old(ui)@, key),
        ensures
            r == WarpUiCallBackType::Nothing,
            final(ui)@ == m_delete_key(old(ui)@, key),
    {
        if key == ('d' as u8) {
            self.delete_line_key(ui);
        } else if key == ('0' as u8) {
            self.delete_to_start_key(ui);
        } else if key == ('$' as u8) {
            self.delete_to_end_key(ui);
        } else if key == ('w' as u8) || key == ('e' as u8) {
            self.delete_word_key(ui);
        } else if key == ('b' as u8) {
            self.delete_word_back_key(ui);
        }
        WarpUiCallBackType::Nothing
    }

    /// A key typed in the command mode, as `data`: `:` stores the cursor's position and opens
    /// the command line; `i`, `I` (from the line's start), `A` (from the line's end), `o` (on a
    /// new line below) and `O` (on a new line above) start typing; `h`, `j`, `k` move left,
    /// down, up; `H`, `M`, `L` jump to the top, middle and bottom rows of the text area and `G`
    /// to the last line; `0`, `^`, `$` go to the line's start, to the column its blanks take,
    /// and to its end; `e`, `b` move by words; `f` toggles the line's flag and `l` locks the
    /// line; `w` (or `W`) and `q` jump to the next and previous flagged lines, `s` and `a` to
    /// the next and previous locked lines; `x` deletes the byte under the cursor; `n` switches
    /// to the normal mode. `d` comes with the key typed after it, as the second byte of `data` (see
    /// `do_delete_on_d_clicked`). Other keys do nothing.
    #[verifier::rlimit(100)]
    #[verifier::spinoff_prover]
    pub fn input_data(&self, ui: &mut UiCore, data: &[u8]) -> (r: WarpUiCallBackType)
        requires
            command_ok(old(ui)@, data@),
        ensures
            (r, final(ui)@) == m_command(old(ui)@, data@),
    {
        if data.len() == 2 && data[0] == ('d' as u8) {
            return self.do_delete_on_d_clicked(ui, data[1]);
        }
        if data.len() != 1 {
            return WarpUiCallBackType::Nothing;
        }
        let k = data[0];
        let insert = WarpUiCallBackType::ChangMode(ModeType::Insert);
        if k == (':' as u8) {
            ui.c_store_pos();
            WarpUiCallBackType::ChangMode(ModeType::LastLine)
        } else if k == ('i' as u8) {
            insert
        } else if k == ('I' as u8) {
            ui.c_move_to_columu(0);
            insert
        } else if k == ('a' as u8) {
            self.jump_to_previous_flag(ui, LineState::locked());
            WarpUiCallBackType::Nothing
        } else if k == ('A' as u8) {
            let linesize = ui.linesize(ui.cursor.y());
            ui.c_move_to_columu(linesize - 1);
            insert
        } else if k == ('o' as u8) {
            let linesize = ui.linesize(ui.cursor.y());
            ui.c_move_to_columu(linesize - 1);
            let x = ui.cursor.x();
            let y = ui.cursor.y();
            ui.buffer.input_enter(x, y);
            ui.c_move_to_nextline(1);
            insert
        } else if k == ('O' as u8) {
            ui.c_move_to_columu(0);
            let x = ui.cursor.x();
            let y = ui.cursor.y();
            ui.buffer.input_enter(x, y);
            insert
        } else if k == ('h' as u8) {
            left(ui)
        } else if k == ('j' as u8) {
            down(ui)
        } else if k == ('k' as u8) {
            up(ui)
        } else if k == ('l' as u8) {
            self.lock_line(ui);
            WarpUiCallBackType::Nothing
        } else if k == ('L' as u8) {
            let rows = ui.content_rows() as usize;
            self.move_to_nlines_of_screen(ui, rows - 1);
            WarpUiCallBackType::Nothing
        } else if k == ('f' as u8) || k == ('F' as u8) {
            self.toggle_flag(ui);
            WarpUiCallBackType::Nothing
        } else if k == ('q' as u8) || k == ('Q' as u8) {
            self.jump_to_previous_flag(ui, LineState::flaged());
            WarpUiCallBackType::Nothing
        } else if k == ('w' as u8) {
            self.jump_to_next_flag(ui, LineState::flaged());
            WarpUiCallBackType::Nothing
        } else if k == ('e' as u8) {
            self.jump_to_nextw_ending(ui)
        } else if k == ('b' as u8) {
            self.jump_to_prevw_beg(ui)
        } else if k == ('W' as u8) {
            self.jump_to_next_flag(ui, LineState::flaged());
            WarpUiCallBackType::Nothing
        } else if k == ('s' as u8) || k == ('S' as u8) {
            self.jump_to_next_flag(ui, LineState::locked());
            WarpUiCallBackType::Nothing
        } else if k == ('0' as u8) {
            ui.c_move_to_columu(0);
            WarpUiCallBackType::Nothing
        } else if k == ('^' as u8) {
            self.jump_to_first_char(ui)
        } else if k == ('$' as u8) {
            let line_end = ui.linesize(ui.cursor.y()) - 1;
            ui.c_move_to_columu(line_end);
            WarpUiCallBackType::Nothing
        } else if k == ('x' as u8) {
            self.delete_char(ui);
            WarpUiCallBackType::Nothing
        } else if k == ('G' as u8) {
            let line_count = ui.buffer.line_count() as u16;
            let y = ui.cursor.y();
            show_line(ui, line_count as usize - 1, y);
            WarpUiCallBackType::Nothing
        } else if k == ('n' as u8) {
            WarpUiCallBackType::ChangMode(ModeType::Normal)
        } else if k == ('H' as u8) {
            self.move_to_nlines_of_screen(ui, 0);
            WarpUiCallBackType::Nothing
        } else if k == ('M' as u8) {
            let rows = ui.content_rows() as usize;
            self.move_to_nlines_of_screen(ui, rows / 2);
            WarpUiCallBackType::Nothing
        } else {
            WarpUiCallBackType::Nothing
        }
    }

    /// Jumps to the line `n` rows below the top of the text area.
    pub fn move_to_nlines_of_screen(&self, ui: &mut UiCore, n: usize)
        requires
            old(ui)@.offset + n <= usize::MAX,
            show_ok(old(ui)@, old(ui)@.offset + n),
        ensures
            final(ui)@ == m_show(old(ui)@, old(ui)@.offset + n, old(ui)@.cursor.y),
    {
        let y = ui.cursor.y();
        let offset = ui.buffer.offset();
        show_line(ui, offset + n, y);
    }
}

/// Inserting into the middle part of a sequence made of three parts inserts into that part.
proof fn lemma_insert_concat(a: Seq<u8>, b: Seq<u8>, c: Seq<u8>, j: int, ch: u8)
    requires
        0 <= j <= b.len(),
    ensures
        (a + b + c).insert(a.len() + j, ch) == a + b.insert(j, ch) + c,
{
    assert((a + b + c).insert(a.len() + j, ch) =~= a + b.insert(j, ch) + c);
}

proof fn lemma_blank_width_prefix(d: Seq<u8>, k: int)
    requires
        0 < k <= d.len(),
    ensures
        blank_width(d.take(k)) == blank_width(d.take(k - 1)) + if d[k - 1] == 32 {
            1int
        } else if d[k - 1] == 9 {
            4int
        } else {
            0int
        },
        blank_width(d.take(k)) >= blank_width(d.take(k - 1)),
{
    assert(d.take(k).drop_last() =~= d.take(k - 1));
}

proof fn lemma_blank_width_monotone(d: Seq<u8>, k: int)
    requires
        0 <= k <= d.len(),
    ensures
        blank_width(d.take(k)) <= blank_width(d),
    decreases d.len() - k,
{
    if k < d.len() {
        lemma_blank_width_prefix(d, k + 1);
        lemma_blank_width_monotone(d, k + 1);
    } else {
        assert(d.take(k) =~= d);
    }
}

/// Whether two states of the screen hold the same text: the same lines, flags, identities.
pub open spec fn same_text(a: UiModel, b: UiModel) -> bool {
    &&& a.lines == b.lines
    &&& a.flagged == b.flagged
    &&& a.locked == b.locked
    &&& a.next_id == b.next_id
}

/// The keys of the command mode that only move the cursor, scroll, or switch modes.
pub open spec fn is_motion_key(k: u8) -> bool {
    ||| k == (':' as u8) || k == ('i' as u8) || k == ('I' as u8) || k == ('a' as u8) || k == ('A' as u8)
    ||| k == ('h' as u8) || k == ('j' as u8) || k == ('k' as u8)
    ||| k == ('H' as u8) || k == ('M' as u8) || k == ('L' as u8) || k == ('G' as u8)
    ||| k == ('0' as u8) || k == ('^' as u8) || k == ('$' as u8)
    ||| k == ('w' as u8) || k == ('e' as u8) || k == ('b' as u8)
    ||| k == ('W' as u8) || k == ('q' as u8) || k == ('Q' as u8) || k == ('s' as u8) || k == ('S' as u8)
    ||| k == ('n' as u8)
}

/// A jump to a line keeps the text.
pub proof fn lemma_show_keeps_text(m: UiModel, k: int, last: u16)
    ensures
        same_text(m_show(m, k, last), m),
{
}

/// A jump to line `k` of the buffer lands on it: the line shown at the top of the screen and the
/// cursor's row add up to `k`.
pub proof fn lemma_show_lands(m: UiModel, k: int, last: u16)
    requires
        show_ok(m, k),
        k < m.lines.len(),
    ensures
        m_show(m, k, last).offset + m_show(m, k, last).cursor.y == k,
{
    let rows = text_rows(m.size) as u16;
    let len = m.lines.len();
    let off = goto_offset(len, k, rows);
    assert(goto_target(len, k) == k);
    assert(0 <= off <= k);
    assert(k - off < rows);
}

/// A jump to the previous line carrying `bits` lands on the nearest one above the cursor's
/// line: that line carries `bits` and none between it and the cursor's line does. When no line
/// above carries `bits`, nothing changes.
pub proof fn law_prev_flag_is_nearest(m: UiModel, bits: u32)
    requires
        prev_flag_ok(m, bits),
        m.offset + m.cursor.y <= m.lines.len(),
    ensures
        ({
            let end = m.offset + m.cursor.y;
            let r = m_prev_flag(m, bits);
            let k = r.offset + r.cursor.y;
            if exists|j: int| 0 <= j < end && #[trigger] bits_have(m.lines[j].flags, bits) {
                &&& 0 <= k < end
                &&& bits_have(m.lines[k].flags, bits)
                &&& forall|j: int| k < j < end ==> !#[trigger] bits_have(m.lines[j].flags, bits)
            } else {
                r == m
            }
        }),
{
    let end = m.offset + m.cursor.y;
    lemma_last_flagged(m.lines, end, bits);
    if exists|j: int| 0 <= j < end && #[trigger] bits_have(m.lines[j].flags, bits) {
        let k = last_flagged(m.lines, end, bits).unwrap();
        lemma_show_lands(m, k, m.cursor.y);
    }
}

/// A jump to the next line carrying `bits` lands on the nearest one below the cursor's line:
/// that line carries `bits` and none between the cursor's line and it does. When no line
/// below carries `bits`, nothing changes.
pub proof fn law_next_flag_is_nearest(m: UiModel, bits: u32)
    requires
        next_flag_ok(m, bits),
    ensures
        ({
            let start = m.offset + m.cursor.y + 1;
            let r = m_next_flag(m, bits);
            let k = r.offset + r.cursor.y;
            if exists|j: int| start <= j < m.lines.len() && #[trigger] bits_have(m.lines[j].flags, bits) {
                &&& start <= k < m.lines.len()
                &&& bits_have(m.lines[k].flags, bits)
                &&& forall|j: int| start <= j < k ==> !#[trigger] bits_have(m.lines[j].flags, bits)
            } else {
                r == m
            }
        }),
{
    let start = m.offset + m.cursor.y + 1;
    if start < m.lines.len() {
        lemma_first_flagged(m.lines, start, bits);
        if exists|j: int| start <= j < m.lines.len() && #[trigger] bits_have(m.lines[j].flags, bits) {
            let k = first_flagged(m.lines, start, bits).unwrap();
            lemma_show_lands(m, k, m.cursor.y);
        }
    }
}

/// `last_flagged` finds the nearest line before `end` that carries `bits`.
proof fn lemma_last_flagged(ls: Seq<LineModel>, end: int, bits: u32)
    requires
        end <= ls.len(),
    ensures
        match last_flagged(ls, end, bits) {
            Some(k) => 0 <= k < end && bits_have(ls[k].flags, bits) && forall|j: int|
                k < j < end ==> !#[trigger] bits_have(ls[j].flags, bits),
            None => forall|j: int| 0 <= j < end ==> !#[trigger] bits_have(ls[j].flags, bits),
        },
    decreases end,
{
    if end > 0 {
        lemma_last_flagged(ls, end - 1, bits);
    }
}

/// `first_flagged` finds the nearest line from `k` on that carries `bits`.
proof fn lemma_first_flagged(ls: Seq<LineModel>, k: int, bits: u32)
    requires
        0 <= k,
    ensures
        match first_flagged(ls, k, bits) {
            Some(i) => k <= i < ls.len() && bits_have(ls[i].flags, bits) && forall|j: int|
                k <= j < i ==> !#[trigger] bits_have(ls[j].flags, bits),
            None => forall|j: int| k <= j < ls.len() ==> !#[trigger] bits_have(ls[j].flags, bits),
        },
    decreases ls.len() - k,
{
    if k < ls.len() {
        lemma_first_flagged(ls, k + 1, bits);
    }
}

/// `b` inside a line moves back to the nearest column before the cursor's where a word starts
/// (a byte that is neither a space nor a tab after one that is), or to the first column when
/// there is none; the row stays.
pub proof fn law_b_moves_to_previous_word_start(m: UiModel)
    requires
        prev_word_ok(m),
        col_of(m.cursor) > 0,
        screen_col(m.cursor, col_of(m.cursor)) <= m.size.cols - 1,
        m.cursor.y < m.size.rows,
    ensures
        ({
            let x = col_of(m.cursor) as int;
            let d = m.lines[m.offset + m.cursor.y].data;
            let r = m_prev_word(m);
            let k = col_of(r.cursor) as int;
            &&& r.cursor.y == m.cursor.y
            &&& k < x
            &&& k == 0 || word_starts_at(d, k)
            &&& forall|j: int| k < j < x ==> !#[trigger] word_starts_at(d, j)
        }),
{
    let x = col_of(m.cursor) as int;
    let d = m.lines[m.offset + m.cursor.y].data;
    law_prev_word_begin_is_previous_start(d, x);
    let pos = prev_word_col(m, x, m.cursor.y as int);
    assert(0 <= pos < x);
    assert(screen_col(m.cursor, pos as u16) < screen_col(m.cursor, col_of(m.cursor)));
    assert(col_of(m_prev_word(m).cursor) == pos);
}

/// `db` on one row removes exactly the bytes from the column `b` moves back to up to, not
/// including, the cursor's column: the line becomes its bytes before the new column followed by
/// its bytes from the old column on, and no other line changes.
pub proof fn law_db_removes_back_to_word(m: UiModel)
    requires
        db_ok(m),
        m_prev_word(m).cursor.y == m.cursor.y,
        m.offset + m.cursor.y < m.lines.len(),
    ensures
        ({
            let x = col_of(m_prev_word(m).cursor) as int;
            let old_x = col_of(m.cursor) as int;
            let i = m.offset + m.cursor.y;
            let d = m.lines[i].data;
            &&& x <= old_x <= d.len()
            &&& m_db(m).lines == m.lines.update(
                i,
                LineModel { data: d.take(x) + d.skip(old_x), ..m.lines[i] },
            )
        }),
{
    let x = col_of(m_prev_word(m).cursor) as int;
    let old_x = col_of(m.cursor) as int;
    let i = m.offset + m.cursor.y;
    let d = m.lines[i].data;
    assert(d.subrange(0, x) =~= d.take(x));
    assert(d.subrange(x + (old_x - x), d.len() as int) =~= d.skip(old_x));
}

/// Moving up or down keeps the text.
pub proof fn lemma_up_down_keep_text(m: UiModel)
    ensures
        same_text(m_up(m), m),
        same_text(m_down(m), m),
{
}

/// Keys of the command mode that move the cursor, scroll or switch modes leave the text as it
/// was: the same lines, flags and line identities.
#[verifier::rlimit(50)]
#[verifier::spinoff_prover]
pub proof fn law_motion_keys_keep_text(m: UiModel, k: u8)
    requires
        is_motion_key(k),
    ensures
        same_text(m_command(m, seq![k]).1, m),
{
    lemma_up_down_keep_text(m);
    let rows = text_rows(m.size);
    lemma_show_keeps_text(m, m.offset + rows - 1, m.cursor.y);
    lemma_show_keeps_text(m, (m.lines.len() as u16) - 1, m.cursor.y);
    lemma_show_keeps_text(m, m.offset as int, m.cursor.y);
    lemma_show_keeps_text(m, m.offset + rows / 2, m.cursor.y);
    match first_flagged(m.lines, m.offset + m.cursor.y + 1, FLAGED_BITS) {
        Some(j) => lemma_show_keeps_text(m, j, m.cursor.y),
        None => {},
    }
    match first_flagged(m.lines, m.offset + m.cursor.y + 1, LOCKED_BITS) {
        Some(j) => lemma_show_keeps_text(m, j, m.cursor.y),
        None => {},
    }
    match last_flagged(m.lines, m.offset + m.cursor.y, FLAGED_BITS) {
        Some(j) => lemma_show_keeps_text(m, j, m.cursor.y),
        None => {},
    }
    match last_flagged(m.lines, m.offset + m.cursor.y, LOCKED_BITS) {
        Some(j) => lemma_show_keeps_text(m, j, m.cursor.y),
        None => {},
    }
}

/// Typing a byte into the command line at the cursor's column `x` and deleting the byte at
/// `x` gives back the line, when `x` lies within the line and is not a column past it that
/// only its length cut to 16 bits reaches.
pub proof fn law_lastline_remove_undoes_input(c: Seq<u8>, x: u16, b: u8)
    requires
        x <= c.len(),
        x == (c.len() as u16) ==> x == c.len(),
    ensures
        typed(c, x, seq![b]).remove(x as int) == c,
{
    assert(typed(c, x, seq![b]).remove(x as int) =~= c);
}

/// Toggling a line's flag with `f` twice gives back the buffer's lines, when the cursor stands
/// on a line of the buffer and on a row of the screen.
pub proof fn law_toggle_flag_twice(m: UiModel)
    requires
        m.offset + m.cursor.y < m.lines.len(),
        m.cursor.y < m.size.rows,
    ensures
        m_toggle_flag(m_toggle_flag(m)).lines == m.lines,
{
    let i = m.offset + m.cursor.y;
    let f = m.lines[i].flags;
    let f2 = FLAGED_BITS;
    assert(f2 == 2);
    assert(bits_have(f, 2) ==> bits_have(f & !2u32, 2) == false && ((f & !2u32) | 2u32) == f) by (bit_vector);
    assert(!bits_have(f, 2) ==> bits_have(f | 2u32, 2) && ((f | 2u32) & !2u32) == f) by (bit_vector);
    let m1 = m_toggle_flag(m);
    assert(m1.lines[i].flags == if bits_have(f, 2) { f & !2u32 } else { f | 2u32 });
    assert(m1.offset + m1.cursor.y == i);
    assert(m_toggle_flag(m1).lines =~= m.lines);
}

/// A locked line refuses what is typed on it: typing, Enter and Backspace leave the text as it
/// was when the line under the cursor is locked.
pub proof fn law_locked_line_refuses_typing(m: UiModel, data: Seq<u8>)
    requires
        m.offset + m.cursor.y < m.lines.len(),
        is_locked_bits(m.lines[m.offset + m.cursor.y].flags),
    ensures
        same_text(m_insert_input(m, data), m),
        same_text(m_insert_enter(m), m),
        same_text(m_backspace(m), m),
{
}

/// `dd` keeps a locked line: the text stays as it was when the line it deletes (the line at
/// the index of the cursor's row) is locked and is not the only line.
pub proof fn law_dd_keeps_locked_line(m: UiModel)
    requires
        m.cursor.y < m.lines.len(),
        m.lines.len() > 1,
        is_locked_bits(m.lines[m.cursor.y as int].flags),
    ensures
        same_text(m_dd(m), m),
{
    let y = m.cursor.y;
    let lc = m.lines.len();
    let cnt: int = if lc - y > 1 { lc - y } else { 1 };
    let m0 = m_op(m_op(m, CursorAction::ClearCurrentLine), CursorAction::ClearUnderCursor);
    let m2 = m_render(m_delete_line(m0, y as int), y, cnt as usize);
    lemma_up_down_keep_text(m2);
}

} // verus!
