//! What the keys common to all modes do: the arrows and Backspace.
use crate::utils::buffer::{is_locked_bits, merged, LineModel};
use crate::utils::cursor::{
    col_of,
    nextline_ok,
    put_back,
    sp_clear_current_line,
    sp_move_down,
    sp_move_left,
    sp_move_right,
    sp_move_to_columu,
    sp_move_to_nextline,
    sp_move_to_row,
    sp_move_up,
    sp_set_prefix_mode,
    sp_write,
    write_ok,
    CursorAction,
};
use crate::utils::buffer::LineState;
use crate::utils::ui::mode::mode::ModeType;
use crate::utils::ui::uicore::{
    line_size,
    m_lines,
    m_op,
    m_render,
    m_scroll_down,
    m_scroll_up,
    m_scrolls,
    m_step,
    m_steps,
    render_count,
    render_ok,
    scroll_down_ok,
    scroll_up_ok,
    text_rows,
    ui_ok,
    UiCore,
    UiModel,
    UI_CMD_HEIGHT,
};
use vstd::prelude::*;

verus! {

/// Spaces that a tab stands for, at most.
pub const TAB_STR: &'static str = "        ";

/// What a key handler asks of the interface loop.
#[derive(Debug, PartialEq, Eq, Clone, Copy)]
pub enum WarpUiCallBackType {
    /// Switch to another mode.
    ChangMode(ModeType),
    /// Leave the editor; `true` when the text is to be stored first.
    Exit(bool),
    /// Nothing to do.
    Nothing,
}

/// Moving the cursor to column `ls - 1` of the text area when it stands further right.
pub open spec fn m_clamp_col(m: UiModel, ls: u16) -> UiModel {
    if ls - 1 < col_of(m.cursor) {
        m_step(m, sp_move_to_columu(m.cursor, (ls - 1) as u16, m.size))
    } else {
        m
    }
}

/// Highlighting the line under the cursor, with row `last` redrawn plainly.
pub open spec fn m_highlight(m: UiModel, last: Option<u16>) -> UiModel {
    m_step(m, (put_back(m.cursor, m.size), CursorAction::Highlight(last)))
}

/// Left: one column left, not past the first column of the text area.
pub open spec fn m_left(m: UiModel) -> UiModel {
    m_steps(m, sp_move_left(m.cursor, 1, m.size))
}

/// What Left needs: a column to the cursor's right on the screen.
pub open spec fn left_ok(m: UiModel) -> bool {
    &&& ui_ok(m)
    &&& m.cursor.x as int + m.cursor.width <= u16::MAX
}

/// Right: one column right, not past the last byte before the line's newline.
pub open spec fn m_right(m: UiModel) -> UiModel {
    m_steps(m, sp_move_right(m.cursor, 1, line_size(m, m.cursor.y as int), m.size))
}

/// What Right needs: a line under the cursor with a byte in it, and a column to the
/// cursor's right on the screen.
pub open spec fn right_ok(m: UiModel) -> bool {
    &&& ui_ok(m)
    &&& m.offset + m.cursor.y < m.lines.len()
    &&& line_size(m, m.cursor.y as int) >= 1
    &&& m.cursor.x as int + 1 <= u16::MAX
}

/// Up: on the top row the text scrolls down by a row when there is a line above the screen;
/// elsewhere the cursor moves up a row when a line is there. The cursor then stands no
/// further right than the new line's last byte, and the lines are highlighted anew.
pub open spec fn m_up(m: UiModel) -> UiModel {
    if m.cursor.y == 0 {
        if m.offset == 0 {
            m
        } else {
            let m1 = m_scroll_down(m, 1);
            m_clamp_col(m1, line_size(m1, m1.cursor.y as int))
        }
    } else {
        let ls = line_size(m, m.cursor.y - 1);
        if ls == 0 {
            m
        } else {
            let m1 = m_step(m, sp_move_up(m.cursor, 1));
            let m2 = m_clamp_col(m1, ls);
            m_highlight(m2, Some((m2.cursor.y + 1) as u16))
        }
    }
}

/// What Up needs: room to scroll, and a byte on the line scrolled to.
pub open spec fn up_ok(m: UiModel) -> bool {
    &&& ui_ok(m)
    &&& m.cursor.y == 0 && m.offset != 0 ==> {
        let m1 = m_scroll_down(m, 1);
        &&& scroll_down_ok(m, 1)
        &&& line_size(m1, m1.cursor.y as int) >= 1
    }
}

/// Down: when a line is below the cursor, the cursor moves down a row, or on the last row of
/// the text area the text scrolls up by a row. The cursor then stands no further right than
/// the new line's last byte, and the lines are highlighted anew.
pub open spec fn m_down(m: UiModel) -> UiModel {
    let ls = line_size(m, m.cursor.y + 1);
    if ls == 0 {
        m
    } else if m.cursor.y == text_rows(m.size) - UI_CMD_HEIGHT {
        let m1 = m_scroll_up(m, 1);
        if ls < col_of(m1.cursor) {
            m_step(m1, sp_move_to_columu(m1.cursor, (ls - 1) as u16, m.size))
        } else {
            m1
        }
    } else {
        let m1 = m_step(m, sp_move_down(m.cursor, 1));
        let m2 = m_clamp_col(m1, ls);
        m_highlight(m2, Some((m2.cursor.y - 1) as u16))
    }
}

/// What Down needs: a row below the cursor's, and room to scroll on the last row.
pub open spec fn down_ok(m: UiModel) -> bool {
    &&& ui_ok(m)
    &&& m.cursor.y + 1 <= u16::MAX
    &&& line_size(m, m.cursor.y + 1) != 0 && m.cursor.y == text_rows(m.size) - UI_CMD_HEIGHT
        ==> scroll_up_ok(m, 1)
}

/// The buffer's lines after the byte at column `x` of row `y` of the text area is removed,
/// when a line is there.
pub open spec fn removed_at(m: UiModel, x: int, y: int) -> Seq<LineModel> {
    let i = m.offset + y;
    if i < m.lines.len() {
        m.lines.update(i, LineModel { data: m.lines[i].data.remove(x), ..m.lines[i] })
    } else {
        m.lines
    }
}

/// Backspace inside a line: refused with a message on a locked line; otherwise the cursor
/// moves left, the byte before it goes, the rest of the line is written again from the
/// cursor's old column (with a blank after it to wipe the last column), the line is
/// highlighted, and the cursor stands one column left of where it was.
pub open spec fn m_backspace_in_line(m: UiModel) -> UiModel {
    let y = m.cursor.y;
    let x = col_of(m.cursor);
    let i = m.offset + y;
    if is_locked_bits(m.lines[i].flags) {
        m_op(m, CursorAction::RowLocked)
    } else {
        let m1 = m_left(m);
        let m2 = m_lines(m1, removed_at(m1, x - 1, y as int));
        let d = m2.lines[i].data;
        let m3 = m_scrolls(
            m2,
            sp_write((m2.cursor, Seq::empty(), m2.offset), d.subrange(x as int, d.len() as int).push(32u8), m2.lines.len(), m2.size),
        );
        let m4 = m_highlight(m3, None);
        m_step(m4, sp_move_to_columu(m4.cursor, (x - 1) as u16, m.size))
    }
}

/// The line length after a join, and the screen's state when the line under the cursor is
/// joined to the one above it at the start of the line, before the screen is redrawn: the
/// text scrolls down when the cursor is on the top row, and the cursor moves up a row.
pub open spec fn m_join_start(m: UiModel) -> UiModel {
    let i = m.offset + m.cursor.y;
    let m0 = m_lines(m, merged(m.lines, i));
    let m1 = if m.cursor.y == 0 {
        let a = m_scroll_down(m0, 1);
        m_scrolls(a, sp_move_to_nextline(a.cursor, 1, a.offset, a.lines.len(), a.size))
    } else {
        m0
    };
    m_step(m1, sp_move_up(m1.cursor, 1))
}

/// The number of rows redrawn after a join: from the cursor's row to one past the text area.
pub open spec fn join_rows(m: UiModel, y: u16) -> usize {
    ((text_rows(m.size) - y + 1) as u16) as usize
}

/// The rest of a join at the start of a line, from state `m2` where the cursor stands on the
/// joined line, whose first part is `linelen` bytes long: the text area is redrawn from the
/// cursor's row, the row left over below the text is wiped (its prefix written blank and its
/// text cleared), the cursor goes to the joint, and the lines are highlighted anew.
pub open spec fn m_join_finish(m2: UiModel, linelen: usize) -> UiModel {
    let size = m2.size;
    let y = m2.cursor.y;
    let cnt = join_rows(m2, y);
    let ret = render_count(m2, y, cnt);
    let m3 = m_render(m2, y, cnt);
    let clear_y = if m3.cursor.y == 0 { (y + 1) as u16 } else { y };
    let row = (clear_y + ret) as u16;
    let m4 = m_step(m3, sp_move_to_row(m3.cursor, row, size));
    let m5 = m_op(m4, CursorAction::ContentStyle);
    let m6 = m_steps(m5, sp_set_prefix_mode(m5.cursor, false, size));
    let m7 = m_op(m6, CursorAction::ResetColor);
    let m8 = m_step(m7, sp_move_to_columu(m7.cursor, 0, size));
    let m9 = m_scrolls(m8, sp_write((m8.cursor, Seq::empty(), m8.offset), seq![32u8], m8.lines.len(), size));
    let m10 = m_steps(m9, sp_set_prefix_mode(m9.cursor, true, size));
    let m11 = m_steps(m10, sp_clear_current_line(m10.cursor, size));
    let m12 = m_step(m11, sp_move_to_row(m11.cursor, y, size));
    let m13 = m_step(m12, sp_move_to_columu(m12.cursor, linelen as u16, size));
    let m14 = m_highlight(m13, Some(clear_y));
    UiModel { edited: true, ..m14 }
}

/// Whether a join at the start of the line under the cursor is refused: on the first line of
/// the text, or when either line is locked.
pub open spec fn join_refused(m: UiModel) -> bool {
    let i = m.offset + m.cursor.y;
    i == 0 || is_locked_bits(m.lines[i - 1].flags) || is_locked_bits(m.lines[i].flags)
}

/// Backspace: at the start of a line, joins it to the line above (see `m_join_start` and
/// `m_join_finish`) unless that is refused, which a locked line tells the user; inside a
/// line, see `m_backspace_in_line`.
pub open spec fn m_backspace(m: UiModel) -> UiModel {
    if col_of(m.cursor) == 0 {
        if join_refused(m) {
            if m.offset + m.cursor.y == 0 {
                m
            } else {
                m_op(m, CursorAction::RowLocked)
            }
        } else {
            let i = m.offset + m.cursor.y;
            m_join_finish(m_join_start(m), (m.lines[i - 1].data.len() - 1) as usize)
        }
    } else {
        m_backspace_in_line(m)
    }
}

/// What Backspace needs. At the start of a line (unless the join is refused): a line under
/// the cursor and a byte on the line above, room to scroll on the top row, and room for the
/// redraw and the moves after it. Inside a line: a line under the cursor reaching past the
/// cursor's column, and room to write the rest of it.
pub open spec fn backspace_ok(m: UiModel) -> bool {
    let i = m.offset + m.cursor.y;
    let x = col_of(m.cursor);
    &&& ui_ok(m)
    &&& x == 0 && i != 0 ==> i < m.lines.len()
    &&& x == 0 && !join_refused(m) ==> {
        let linelen = (m.lines[i - 1].data.len() - 1) as usize;
        let m0 = m_lines(m, merged(m.lines, i));
        let a = m_scroll_down(m0, 1);
        let m2 = m_join_start(m);
        let y = m2.cursor.y;
        let cnt = join_rows(m2, y);
        let ret = render_count(m2, y, cnt);
        let m3 = m_render(m2, y, cnt);
        let clear_y: int = if m3.cursor.y == 0 { y + 1 } else { y as int };
        &&& m.lines[i - 1].data.len() >= 1
        &&& m.cursor.y == 0 ==> scroll_down_ok(m0, 1) && nextline_ok(a.cursor, 1, a.lines.len(), a.size)
        &&& m.cursor.y != 0 ==> m.cursor.y >= 1
        &&& y <= text_rows(m.size)
        &&& render_ok(m2, y, cnt)
        &&& clear_y + ret <= u16::MAX
        &&& (linelen as u16) < u16::MAX
    }
    &&& x != 0 ==> {
        let m1 = m_left(m);
        &&& i < m.lines.len()
        &&& x <= m.lines[i].data.len() - 1
        &&& m.cursor.x as int + m.cursor.width <= u16::MAX
        &&& write_ok(m1.cursor, m1.lines.len(), m1.size)
    }
}

/// Moves the cursor one column left.
pub fn left(ui: &mut UiCore) -> (r: WarpUiCallBackType)
    requires
        left_ok(old(ui)@),
    ensures
        r == WarpUiCallBackType::Nothing,
        final(ui)@ == m_left(old(ui)@),
{
    ui.c_move_left(1);
    WarpUiCallBackType::Nothing
}

/// Moves the cursor one column right.
pub fn right(ui: &mut UiCore) -> (r: WarpUiCallBackType)
    requires
        right_ok(old(ui)@),
    ensures
        r == WarpUiCallBackType::Nothing,
        final(ui)@ == m_right(old(ui)@),
{
    ui.c_move_right(1);
    WarpUiCallBackType::Nothing
}

fn clamp_col(ui: &mut UiCore, ls: u16)
    requires
        ls >= 1,
        ui_ok(old(ui)@),
    ensures
        final(ui)@ == m_clamp_col(old(ui)@, ls),
{
    if ls - 1 < ui.cursor.x() {
        ui.c_move_to_columu(ls - 1);
    }
}

/// Moves the cursor one row up, scrolling on the top row.
pub fn up(ui: &mut UiCore) -> (r: WarpUiCallBackType)
    requires
        up_ok(old(ui)@),
    ensures
        r == WarpUiCallBackType::Nothing,
        final(ui)@ == m_up(old(ui)@),
{
    if ui.cursor.y() == 0 {
        if ui.buffer.offset() == 0 {
            return WarpUiCallBackType::Nothing;
        }
        ui.scroll_down(1);
        let y = ui.cursor.y();
        let linesize = ui.linesize(y);
        clamp_col(ui, linesize);
        return WarpUiCallBackType::Nothing;
    }
    let linesize = ui.linesize(ui.cursor.y() - 1);
    if linesize == 0 {
        return WarpUiCallBackType::Nothing;
    }
    ui.c_move_up(1);
    clamp_col(ui, linesize);
    let last_y = ui.cursor.y() + 1;
    ui.c_highlight(Some(last_y));
    WarpUiCallBackType::Nothing
}

/// Moves the cursor one row down, scrolling on the last row of the text area.
pub fn down(ui: &mut UiCore) -> (r: WarpUiCallBackType)
    requires
        down_ok(old(ui)@),
    ensures
        r == WarpUiCallBackType::Nothing,
        final(ui)@ == m_down(old(ui)@),
{
    let rows = ui.content_rows();
    let linesize = ui.linesize(ui.cursor.y() + 1);
    if linesize == 0 {
        return WarpUiCallBackType::Nothing;
    }
    if ui.cursor.y() == rows - UI_CMD_HEIGHT {
        ui.scroll_up(1);
        if linesize < ui.cursor.x() {
            ui.c_move_to_columu(linesize - 1);
        }
        return WarpUiCallBackType::Nothing;
    }
    ui.c_move_down(1);
    clamp_col(ui, linesize);
    let last_y = ui.cursor.y() - 1;
    ui.c_highlight(Some(last_y));
    WarpUiCallBackType::Nothing
}

/// Backspace: joins the line to the one above at its start, otherwise deletes the byte
/// before the cursor.
pub fn backspace(ui: &mut UiCore) -> (r: WarpUiCallBackType)
    requires
        backspace_ok(old(ui)@),
    ensures
        r == WarpUiCallBackType::Nothing,
        final(ui)@ == m_backspace(old(ui)@),
{
    if ui.cursor.x() == 0 {
        let y = ui.cursor.y();
        let ghost m = ui@;
        let (merge, linelen) = ui.buffer.merge_line(y);
        if !merge {
            if ui.buffer.offset() + (y as usize) != 0 {
                ui.op(CursorAction::RowLocked);
            }
            return WarpUiCallBackType::Nothing;
        }
        if ui.cursor.y() == 0 {
            ui.scroll_down(1);
            ui.c_move_to_nextline(1);
        }
        ui.c_move_up(1);
        assert(ui@ == m_join_start(m));
        join_finish(ui, linelen);
        return WarpUiCallBackType::Nothing;
    }
    let y = ui.cursor.y();
    let x = ui.cursor.x();
    let line = ui.buffer.get_line(y);
    if line.flags.contains(LineState::locked()) {
        ui.op(CursorAction::RowLocked);
        return WarpUiCallBackType::Nothing;
    }
    ui.c_move_left(1);
    ui.buffer.remove_char(x - 1, y);
    let line = ui.buffer.get_line(y);
    let len = line.data.len();
    let mut text: Vec<u8> = Vec::new();
    let mut k = x as usize;
    while k < len
        invariant
            x <= k <= len,
            len == line.data@.len(),
            text@ == line.data@.subrange(x as int, k as int),
        decreases len - k,
    {
        text.push(line.data[k]);
        k = k + 1;
        assert(text@ =~= line.data@.subrange(x as int, k as int));
    }
    text.push(32u8);
    ui.c_write(&text);
    ui.c_highlight(None);
    ui.c_move_to_columu(x - 1);
    WarpUiCallBackType::Nothing
}

fn join_finish(ui: &mut UiCore, linelen: usize)
    requires
        ({
            let m2 = old(ui)@;
            let y = m2.cursor.y;
            let cnt = join_rows(m2, y);
            let ret = render_count(m2, y, cnt);
            let m3 = m_render(m2, y, cnt);
            let clear_y: int = if m3.cursor.y == 0 { y + 1 } else { y as int };
            &&& ui_ok(m2)
            &&& y <= text_rows(m2.size)
            &&& render_ok(m2, y, cnt)
            &&& clear_y + ret <= u16::MAX
            &&& (linelen as u16) < u16::MAX
        }),
    ensures
        final(ui)@ == m_join_finish(old(ui)@, linelen),
{
    let rows = ui.content_rows();
    let y = ui.cursor.y();
    let ret = ui.render_content(y, (rows - y + 1) as usize);
    let clear_y = if ui.cursor.y() == 0 { y + 1 } else { y };
    let row = clear_y + ret as u16;
    ui.c_move_to_row(row);
    ui.op(CursorAction::ContentStyle);
    ui.c_set_prefix_mode(false);
    ui.op(CursorAction::ResetColor);
    ui.c_move_to_columu(0);
    let blank: Vec<u8> = vec![32u8];
    assert(blank@ =~= seq![32u8]);
    ui.c_write(&blank);
    ui.c_set_prefix_mode(true);
    ui.c_clear_current_line();
    ui.c_move_to_row(y);
    ui.c_move_to_columu(linelen as u16);
    ui.c_highlight(Some(clear_y));
    ui.set_edited();
}

} // verus!
