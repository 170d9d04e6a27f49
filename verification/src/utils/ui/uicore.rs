//! The state of the editor's screen: the buffer being edited, the cursor, the screen's size,
//! and the terminal commands issued and not yet carried out.
use crate::utils::buffer::{
    bits_have,
    entered,
    is_locked_bits,
    merged,
    models,
    shown_from,
    EditBuffer,
    LineBuffer,
    LineModel,
    LineState,
    FLAGED_BITS,
    LOCKED_BITS,
    NEWLINE,
};
use crate::utils::cursor::{
    prints,
    col_fits,
    col_of,
    min_u16,
    moved_to,
    nextline_ok,
    put_back,
    lemma_line_prefix_keeps,
    same_but_place,
    sp_clear_current_line,
    sp_line_prefix,
    sp_move_down,
    sp_move_left,
    sp_move_right,
    sp_move_to,
    sp_move_to_columu,
    sp_move_to_nextline,
    sp_move_to_row,
    sp_move_up,
    sp_restore_pos,
    sp_set_prefix_mode,
    sp_store_pos,
    sp_write,
    usable,
    write_ok,
    CursorAction,
    CursorCrtl,
    CursorModel,
};
use crate::utils::ui::mode::mode::ModeType;
use crate::utils::ui::AppInfo;
use crate::utils::ui::InfoLevel;
use vstd::prelude::*;
use vstd::utf8::encode_utf8;

verus! {

/// The size of a screen or of a part of it.
#[derive(Debug, Clone, Copy)]
pub struct WinSize {
    pub cols: u16,
    pub rows: u16,
}

/// Rows the command line takes at the bottom of the screen.
pub const UI_CMD_HEIGHT: u16 = 1;

/// Rows above the text.
pub const UI_HEAD_OFFSET: u16 = 0;

/// The rows of a screen of size `size` that show text.
pub open spec fn text_rows(size: WinSize) -> int {
    size.rows - UI_CMD_HEIGHT - UI_HEAD_OFFSET
}

/// What the screen's state is.
pub struct UiModel {
    /// The buffer's lines.
    pub lines: Seq<LineModel>,
    /// The index of the line at the top of the screen.
    pub offset: usize,
    /// The buffer's flagged lines, by identity.
    pub flagged: Map<usize, usize>,
    /// The buffer's locked lines, by identity.
    pub locked: Map<usize, usize>,
    /// The identity the buffer's next new line gets.
    pub next_id: usize,
    pub cursor: CursorModel,
    pub size: WinSize,
    /// Whether the text was changed.
    pub edited: bool,
    /// The terminal commands not yet carried out, oldest first.
    pub ops: Seq<CursorAction>,
}

/// The editor's screen.
#[derive(Debug)]
pub struct UiCore {
    pub buffer: EditBuffer,
    pub cursor: CursorCrtl,
    pub size: WinSize,
    pub edited: bool,
    pub ops: Vec<CursorAction>,
}

impl View for UiCore {
    type V = UiModel;

    open spec fn view(&self) -> UiModel {
        UiModel {
            lines: self.buffer.lines(),
            offset: self.buffer.spec_offset(),
            flagged: self.buffer.flag_map(),
            locked: self.buffer.locked_map(),
            next_id: self.buffer.spec_next_id(),
            cursor: self.cursor.view(),
            size: self.size,
            edited: self.edited,
            ops: self.ops@,
        }
    }
}

/// A screen the editor can work with: at least three columns (and fewer than the most a
/// `u16` counts), two rows (one for text, one for
/// the command line), a row to spare below the last, a one-column prefix, a line in the
/// buffer, and line indices below the screen's top line that fit in a `usize`.
pub open spec fn ui_ok(m: UiModel) -> bool {
    &&& 3 <= m.size.cols < u16::MAX
    &&& m.size.rows >= 2
    &&& m.size.rows < u16::MAX
    &&& m.cursor.width == CursorCrtl::PREFIX_COL
    &&& m.lines.len() >= 1
    &&& m.offset + u16::MAX < usize::MAX
}

/// The length of row `y` of the text area as the buffer reports it: cut to 16 bits, and 0 when
/// no line is there.
pub open spec fn line_size(m: UiModel, y: int) -> u16 {
    let i = m.offset + y;
    if 0 <= i < m.lines.len() {
        m.lines[i].data.len() as u16
    } else {
        0
    }
}

/// The screen's state after a cursor move `s` that issues one command.
pub open spec fn m_step(m: UiModel, s: (CursorModel, CursorAction)) -> UiModel {
    UiModel { cursor: s.0, ops: m.ops.push(s.1), ..m }
}

/// The screen's state after a cursor move `s` that issues several commands.
pub open spec fn m_steps(m: UiModel, s: (CursorModel, Seq<CursorAction>)) -> UiModel {
    UiModel { cursor: s.0, ops: m.ops + s.1, ..m }
}

/// The screen's state after a cursor move `s` that may also scroll the buffer.
pub open spec fn m_scrolls(m: UiModel, s: (CursorModel, Seq<CursorAction>, usize)) -> UiModel {
    UiModel { cursor: s.0, ops: m.ops + s.1, offset: s.2, ..m }
}

/// The screen's state after command `a` is issued.
pub open spec fn m_op(m: UiModel, a: CursorAction) -> UiModel {
    UiModel { ops: m.ops.push(a), ..m }
}

/// The screen's state after the buffer is shown from line `offset` on, or from its last line.
pub open spec fn m_offset(m: UiModel, offset: usize) -> UiModel {
    UiModel { offset: shown_from(m.lines.len(), offset), ..m }
}

/// The screen's state with the buffer's lines `lines`.
pub open spec fn m_lines(m: UiModel, lines: Seq<LineModel>) -> UiModel {
    UiModel { lines: lines, ..m }
}

/// The screen's state after the byte at column `x` of row `y` of the text area is removed
/// (nothing when no line is there).
pub open spec fn m_remove_char(m: UiModel, x: int, y: int) -> UiModel {
    let i = m.offset + y;
    if i < m.lines.len() {
        m_lines(m, m.lines.update(i, LineModel { data: m.lines[i].data.remove(x), ..m.lines[i] }))
    } else {
        m
    }
}

/// The screen's state after `n` bytes from column `x` of row `y` of the text area are
/// removed (nothing when no line is there).
pub open spec fn m_remove_str(m: UiModel, x: int, y: int, n: int) -> UiModel {
    let i = m.offset + y;
    let d = m.lines[i].data;
    if i < m.lines.len() {
        m_lines(m, m.lines.update(i, LineModel { data: d.subrange(0, x) + d.subrange(x + n, d.len() as int), ..m.lines[i] }))
    } else {
        m
    }
}

/// The screen's state after line `y` of the buffer (counted from the buffer's first line) is
/// deleted: kept when it is empty or locked.
pub open spec fn m_delete_line(m: UiModel, y: int) -> UiModel {
    if m.lines[y].data.len() == 0 || is_locked_bits(m.lines[y].flags) {
        m
    } else {
        m_lines(m, m.lines.remove(y))
    }
}

/// Deleting line `y` of the buffer (counted from its first line) up to column `x`: refused,
/// with `None`, when the line holds fewer than two bytes; otherwise answers `Some(x - 1)`.
pub open spec fn m_until_beg(m: UiModel, x: int, y: int) -> (Option<usize>, UiModel) {
    let d = m.lines[y].data;
    if d.len() < 2 {
        (None, m)
    } else {
        (Some((x - 1) as usize), m_lines(m, m.lines.update(y, LineModel { data: d.subrange(x, d.len() as int), ..m.lines[y] })))
    }
}

/// Deleting line `y` of the buffer (counted from its first line) from column `x` to its
/// newline: refused, with `None`, when the line holds fewer than two bytes; otherwise answers
/// `Some(x)`.
pub open spec fn m_until_endl(m: UiModel, x: int, y: int) -> (Option<usize>, UiModel) {
    let d = m.lines[y].data;
    if d.len() < 2 {
        (None, m)
    } else {
        (
            Some(x as usize),
            m_lines(m, m.lines.update(y, LineModel { data: d.subrange(0, x) + d.subrange(d.len() - 1, d.len() as int), ..m.lines[y] })),
        )
    }
}

/// Joining row `y` of the text area to the line above, as `merge_line` does: whether it was
/// done, the length the line above keeps, and the new state. A join refused because either
/// line is locked tells the user so.
pub open spec fn m_merge(m: UiModel, y: int) -> (bool, usize, UiModel) {
    let i = m.offset + y;
    let ls = m.lines;
    if i == 0 {
        (false, 0, m)
    } else if is_locked_bits(ls[i - 1].flags) || is_locked_bits(ls[i].flags) {
        (false, 0, m_op(m, CursorAction::RowLocked))
    } else {
        (true, (ls[i - 1].data.len() - 1) as usize, m_lines(m, merged(ls, i)))
    }
}

/// What joining row `y` of the text area to the line above needs.
pub open spec fn merge_ok(m: UiModel, y: int) -> bool {
    let i = m.offset + y;
    &&& i <= usize::MAX
    &&& i != 0 ==> {
        &&& i < m.lines.len()
        &&& !is_locked_bits(m.lines[i - 1].flags) && !is_locked_bits(m.lines[i].flags)
            ==> m.lines[i - 1].data.len() >= 1
    }
}

/// The screen's state after `ch` is inserted at column `x` of row `y` of the text area; into
/// an empty buffer, a line holding just `ch` is added.
pub open spec fn m_insert_char(m: UiModel, ch: u8, x: int, y: int) -> UiModel {
    let i = m.offset + y;
    if m.lines.len() > 0 {
        m_lines(m, m.lines.update(i, LineModel { data: m.lines[i].data.insert(x, ch), ..m.lines[i] }))
    } else {
        UiModel {
            lines: seq![LineModel { id: m.next_id, data: seq![ch], flags: 0 }],
            next_id: m.next_id.wrapping_add(1),
            ..m
        }
    }
}

/// What inserting at column `x` of row `y` of the text area needs: a line there reaching to
/// the column, unless the buffer is empty.
pub open spec fn insert_char_ok(m: UiModel, x: int, y: int) -> bool {
    &&& m.offset + y <= usize::MAX
    &&& m.lines.len() > 0 ==> m.offset + y < m.lines.len() && x <= m.lines[m.offset + y].data.len()
}

/// The screen's state after row `y` of the text area is split at column `x`, as Enter does.
pub open spec fn m_enter(m: UiModel, x: int, y: int) -> UiModel {
    UiModel {
        lines: entered(m.lines, m.offset + y, x, m.next_id),
        next_id: m.next_id.wrapping_add(1),
        ..m
    }
}

/// What splitting row `y` of the text area at column `x` needs: a line there reaching past the
/// column.
pub open spec fn enter_ok(m: UiModel, x: int, y: int) -> bool {
    m.offset + y < m.lines.len() && 0 <= x < m.lines[m.offset + y].data.len()
}

/// The screen's state after the flags `bits` are added to line `i` of the buffer.
pub open spec fn m_flags_added(m: UiModel, i: int, bits: u32) -> UiModel {
    if 0 <= i < m.lines.len() {
        let l = m.lines[i];
        UiModel {
            lines: m.lines.update(i, LineModel { flags: l.flags | bits, ..l }),
            flagged: if bits_have(bits, FLAGED_BITS) { m.flagged.insert(l.id, i as usize) } else { m.flagged },
            locked: if bits_have(bits, LOCKED_BITS) { m.locked.insert(l.id, i as usize) } else { m.locked },
            ..m
        }
    } else {
        m
    }
}

/// The screen's state after the flags `bits` are taken off line `i` of the buffer.
pub open spec fn m_flags_removed(m: UiModel, i: int, bits: u32) -> UiModel {
    if 0 <= i < m.lines.len() {
        let l = m.lines[i];
        UiModel {
            lines: m.lines.update(i, LineModel { flags: l.flags & !bits, ..l }),
            flagged: if bits_have(bits, FLAGED_BITS) { m.flagged.remove(l.id) } else { m.flagged },
            locked: if bits_have(bits, LOCKED_BITS) { m.locked.remove(l.id) } else { m.locked },
            ..m
        }
    } else {
        m
    }
}

/// The number of lines a redraw of `count` lines from row `y` of the text area draws: no
/// further than the text area, and no further than the buffer.
pub open spec fn render_count(m: UiModel, y: u16, count: usize) -> int {
    let rows = text_rows(m.size);
    let c: int = if y + (count as u16) > rows { rows - y } else { count as int };
    let avail = m.lines.len() - (m.offset + y);
    if c < avail { c } else { avail }
}

/// What a redraw of `count` lines from row `y` of the text area needs.
pub open spec fn render_ok(m: UiModel, y: u16, count: usize) -> bool {
    &&& y + (count as u16) <= u16::MAX
    &&& y + (count as u16) > text_rows(m.size) ==> y <= text_rows(m.size)
    &&& m.offset + y <= m.lines.len()
    &&& col_of(m.cursor) + m.cursor.width <= u16::MAX
}

/// The flags of the lines a redraw of `count` lines from row `y` draws, as far as they lie on
/// the text area.
pub open spec fn rendered_flags(m: UiModel, y: u16, count: usize) -> Seq<LineState> {
    let n = render_count(m, y, count);
    let k = if n <= text_rows(m.size) - y { n } else { text_rows(m.size) - y };
    Seq::new(k as nat, |i: int| LineState { bits: m.lines[m.offset + y + i].flags })
}

/// A redraw of `count` lines from row `y` of the text area: the terminal draws them, their
/// markers are drawn in the prefix column (see `sp_line_prefix`, without line numbers), the
/// cursor comes back, in prefix mode, to the column and row it reported, and the line under it
/// is highlighted.
pub open spec fn m_render(m: UiModel, y: u16, count: usize) -> UiModel {
    let c = CursorModel { prefix: true, ..m.cursor };
    let p = sp_line_prefix(
        CursorModel { prefix: false, ..m.cursor },
        rendered_flags(m, y, count),
        y,
        0,
        0,
        false,
        m.size,
    );
    UiModel {
        cursor: moved_to(c, col_of(m.cursor), m.cursor.y, m.size),
        ops: m.ops + seq![CursorAction::Render(y, render_count(m, y, count) as usize)] + p.1
            + seq![CursorAction::Highlight(None)],
        ..m
    }
}

/// The number of rows `scroll_up` scrolls for `count` asked: fewer near the end of the buffer.
pub open spec fn scroll_up_count(m: UiModel, count: u16) -> u16 {
    let rows = text_rows(m.size);
    if m.offset + rows + count >= m.lines.len() {
        ((m.lines.len() as u16) - (m.offset as u16) - rows) as u16
    } else {
        count
    }
}

/// What `scroll_up` needs: the screen full of text, and room for the rows it scrolls.
pub open spec fn scroll_up_ok(m: UiModel, count: u16) -> bool {
    let rows = text_rows(m.size);
    let n = scroll_up_count(m, count);
    let m1 = m_offset(m, (m.offset + n) as usize);
    let r = (rows - n) as u16;
    &&& ui_ok(m)
    &&& m.offset + rows + count <= usize::MAX
    &&& m.offset + rows + count >= m.lines.len() ==> (m.lines.len() as u16) >= (m.offset as u16) + rows
    &&& m.offset + n <= usize::MAX
    &&& n <= rows
    &&& render_ok(
        m_op(m_op(m_step(m1, sp_move_to_row(m1.cursor, r, m.size)), CursorAction::ScrollUp(n)), CursorAction::ClearUnderCursor),
        sp_move_to_row(m1.cursor, r, m.size).0.y,
        n as usize,
    )
    &&& col_of(m.cursor) + m.cursor.width <= u16::MAX
    &&& min_u16(m.size.rows - 1, m.cursor.y as int) >= n
}

/// Scrolling the text up by `count` rows (fewer near the end of the buffer): the next lines
/// are drawn at the bottom, the cursor comes back to its column and row, and the line it
/// stood on before the scroll is redrawn plainly.
pub open spec fn m_scroll_up(m: UiModel, count: u16) -> UiModel {
    let rows = text_rows(m.size);
    let n = scroll_up_count(m, count);
    let m1 = m_offset(m, (m.offset + n) as usize);
    let m2 = m_step(m1, sp_move_to_row(m1.cursor, (rows - n) as u16, m.size));
    let m3 = m_op(m_op(m2, CursorAction::ScrollUp(n)), CursorAction::ClearUnderCursor);
    let m4 = m_render(m3, m3.cursor.y, n as usize);
    let m5 = m_step(m4, sp_move_to(m4.cursor, col_of(m.cursor), m.cursor.y, m.size));
    m_step(m5, (put_back(m5.cursor, m.size), CursorAction::Highlight(Some((m5.cursor.y - n) as u16))))
}

/// The number of rows `scroll_down` scrolls for `count` asked: no further than the first line.
pub open spec fn scroll_down_count(m: UiModel, count: u16) -> u16 {
    if m.offset < count {
        m.offset as u16
    } else {
        count
    }
}

/// What `scroll_down` needs: a row to scroll, and room for it.
pub open spec fn scroll_down_ok(m: UiModel, count: u16) -> bool {
    let n = scroll_down_count(m, count);
    let m1 = m_offset(m, (m.offset - n) as usize);
    let m2 = m_op(m1, CursorAction::ScrollDown(n));
    let m3 = m_op(m_step(m2, sp_move_to_row(m2.cursor, (n - 1) as u16, m.size)), CursorAction::ClearUpCursor);
    &&& ui_ok(m)
    &&& n >= 1
    &&& render_ok(m3, 0, n as usize)
    &&& col_of(m.cursor) + m.cursor.width <= u16::MAX
    &&& m.cursor.y + n <= u16::MAX
}

/// Scrolling the text down by `count` rows (no further than the first line): the previous
/// lines are drawn at the top, the cursor comes back to its column and row, and the line it
/// stood on before the scroll is redrawn plainly.
pub open spec fn m_scroll_down(m: UiModel, count: u16) -> UiModel {
    let n = scroll_down_count(m, count);
    let m1 = m_offset(m, (m.offset - n) as usize);
    let m2 = m_op(m1, CursorAction::ScrollDown(n));
    let m3 = m_op(m_step(m2, sp_move_to_row(m2.cursor, (n - 1) as u16, m.size)), CursorAction::ClearUpCursor);
    let m4 = m_render(m3, 0, n as usize);
    let m5 = m_step(m4, sp_move_to(m4.cursor, col_of(m.cursor), m.cursor.y, m.size));
    m_step(m5, (put_back(m5.cursor, m.size), CursorAction::Highlight(Some((m5.cursor.y + n) as u16))))
}

/// Putting the cursor back just after it was put back, in prefix mode, changes nothing.
pub proof fn lemma_put_back_after_move(c: CursorModel, size: WinSize)
    requires
        usable(size),
    ensures
        ({
            let c1 = moved_to(CursorModel { prefix: true, ..c }, col_of(c), c.y, size);
            put_back(c1, size) == c1
        }),
{
}

/// The flags of the first `k` lines of `v`.
fn line_flags(v: &Vec<LineBuffer>, k: usize) -> (r: Vec<LineState>)
    requires
        k <= v.len(),
    ensures
        r@ == Seq::new(k as nat, |j: int| LineState { bits: v@[j].flags.bits }),
{
    let mut flags: Vec<LineState> = Vec::new();
    let mut i: usize = 0;
    while i < k
        invariant
            i <= k <= v.len(),
            flags@ =~= Seq::new(i as nat, |j: int| LineState { bits: v@[j].flags.bits }),
        decreases k - i,
    {
        flags.push(v[i].flags);
        i = i + 1;
    }
    flags
}

/// The bytes of `d` without its newlines.
pub open spec fn without_newlines(d: Seq<u8>) -> Seq<u8>
    decreases d.len(),
{
    if d.len() == 0 {
        d
    } else if d.last() == NEWLINE {
        without_newlines(d.drop_last())
    } else {
        without_newlines(d.drop_last()).push(d.last())
    }
}

/// What row `row` of the text area shows of its line: the bytes without newlines, no more than
/// the `width` columns of the text area; nothing when no line is there.
pub open spec fn shown_text(m: UiModel, row: int, width: nat) -> Seq<u8> {
    let i = m.offset + row;
    let t = if 0 <= i < m.lines.len() {
        without_newlines(m.lines[i].data)
    } else {
        Seq::empty()
    };
    if t.len() > width {
        t.take(width as int)
    } else {
        t
    }
}

/// The columns of the text area right of the one-column prefix.
pub open spec fn text_width(m: UiModel) -> nat {
    if m.size.cols > CursorCrtl::PREFIX_COL {
        (m.size.cols - CursorCrtl::PREFIX_COL) as nat
    } else {
        0
    }
}

/// Drawing the text of row `row`: a move right of the prefix, the row cleared from there, and
/// the bytes it shows (see `shown_text`).
pub open spec fn row_actions(m: UiModel, row: u16) -> Seq<CursorAction> {
    seq![CursorAction::MoveTo(CursorCrtl::PREFIX_COL, row), CursorAction::ClearUntilNewLine]
        + prints(shown_text(m, row as int, text_width(m)))
}

/// Drawing the text of the `k` rows from row `y` on, one after the other.
pub open spec fn rows_actions(m: UiModel, y: u16, k: nat) -> Seq<CursorAction>
    decreases k,
{
    if k == 0 {
        Seq::empty()
    } else {
        rows_actions(m, y, (k - 1) as nat) + row_actions(m, (y + k - 1) as u16)
    }
}

/// What the terminal does for `Render(y, count)`: it draws the text of the `count` rows from
/// row `y` on and puts the cursor back where it stood.
pub open spec fn render_actions(m: UiModel, y: u16, count: usize) -> Seq<CursorAction> {
    seq![CursorAction::SavePosition] + rows_actions(m, y, count as nat) + seq![
        CursorAction::RestorePosition,
    ]
}

/// What the terminal does for `Highlight(plain)`: it draws row `plain` as it is, when given,
/// then the cursor's row again in the colors of the highlighted line, and puts the cursor back
/// where it stood.
pub open spec fn highlight_actions(m: UiModel, plain: Option<u16>) -> Seq<CursorAction> {
    let first = match plain {
        Some(row) => row_actions(m, row),
        None => Seq::empty(),
    };
    seq![CursorAction::SavePosition] + first + seq![CursorAction::HighlightStyle] + row_actions(
        m,
        m.cursor.y,
    ) + seq![CursorAction::ResetColor, CursorAction::RestorePosition]
}

/// The bytes of `d` without its newlines, no more than `width` of them.
fn shown_bytes(d: &Vec<u8>, width: usize) -> (r: Vec<u8>)
    ensures
        r@ == if without_newlines(d@).len() > width {
            without_newlines(d@).take(width as int)
        } else {
            without_newlines(d@)
        },
{
    let mut t: Vec<u8> = Vec::new();
    let mut i: usize = 0;
    while i < d.len()
        invariant
            i <= d.len(),
            t@ == without_newlines(d@.take(i as int)),
        decreases d.len() - i,
    {
        assert(d@.take(i + 1).drop_last() =~= d@.take(i as int));
        if d[i] != NEWLINE {
            t.push(d[i]);
        }
        i = i + 1;
    }
    assert(d@.take(d.len() as int) =~= d@);
    if t.len() > width {
        t.truncate(width);
        assert(t@ =~= without_newlines(d@).take(width as int));
    }
    t
}

impl UiCore {
    /// Appends to `r` what drawing the text of row `row` takes (see `row_actions`).
    fn push_row(&self, r: &mut Vec<CursorAction>, row: u16)
        requires
            self@.offset + row <= usize::MAX,
        ensures
            final(r)@ == old(r)@ + row_actions(self@, row),
    {
        let line = self.buffer.get_line(row);
        let width: usize = if self.size.cols > CursorCrtl::PREFIX_COL {
            (self.size.cols - CursorCrtl::PREFIX_COL) as usize
        } else {
            0
        };
        let text = shown_bytes(&line.data, width);
        let ghost before = old(r)@;
        r.push(CursorAction::MoveTo(CursorCrtl::PREFIX_COL, row));
        r.push(CursorAction::ClearUntilNewLine);
        let ghost start = r@;
        let mut j: usize = 0;
        while j < text.len()
            invariant
                j <= text.len(),
                r@ == start + prints(text@.take(j as int)),
            decreases text.len() - j,
        {
            r.push(CursorAction::Print(text[j]));
            j = j + 1;
            assert(r@ =~= start + prints(text@.take(j as int)));
        }
        assert(text@.take(text.len() as int) =~= text@);
        assert(r@ =~= before + row_actions(self@, row));
    }

    /// What the terminal does for `Render(y, count)` (see `render_actions`): the text of each
    /// row as the buffer holds it now.
    pub fn render_actions(&self, y: u16, count: usize) -> (r: Vec<CursorAction>)
        requires
            y + count <= u16::MAX,
            self@.offset + u16::MAX <= usize::MAX,
        ensures
            r@ == render_actions(self@, y, count),
    {
        let mut r: Vec<CursorAction> = Vec::new();
        r.push(CursorAction::SavePosition);
        let mut k: usize = 0;
        while k < count
            invariant
                k <= count,
                y + count <= u16::MAX,
                self@.offset + u16::MAX <= usize::MAX,
                r@ == seq![CursorAction::SavePosition] + rows_actions(self@, y, k as nat),
            decreases count - k,
        {
            self.push_row(&mut r, y + k as u16);
            k = k + 1;
        }
        r.push(CursorAction::RestorePosition);
        r
    }

    /// What the terminal does for `Highlight(plain)` (see `highlight_actions`).
    pub fn highlight_actions(&self, plain: Option<u16>) -> (r: Vec<CursorAction>)
        requires
            self@.offset + u16::MAX <= usize::MAX,
        ensures
            r@ == highlight_actions(self@, plain),
    {
        let mut r: Vec<CursorAction> = Vec::new();
        r.push(CursorAction::SavePosition);
        match plain {
            Some(row) => self.push_row(&mut r, row),
            None => {},
        }
        r.push(CursorAction::HighlightStyle);
        self.push_row(&mut r, self.cursor.y());
        r.push(CursorAction::ResetColor);
        r.push(CursorAction::RestorePosition);
        r
    }

    /// A screen of size `size` showing `buffer` with `cursor`; nothing edited yet.
    pub fn new(buf: EditBuffer, cursor: CursorCrtl, size: WinSize) -> (r: UiCore)
        ensures
            r@.lines == buf.lines(),
            r@.offset == buf.spec_offset(),
            r@.flagged == buf.flag_map(),
            r@.locked == buf.locked_map(),
            r@.next_id == buf.spec_next_id(),
            r@.cursor == cursor.view(),
            r@.size == size,
            !r@.edited,
            r@.ops == Seq::<CursorAction>::empty(),
    {
        UiCore { buffer: buf, cursor, size, edited: false, ops: Vec::new() }
    }

    /// Whether the text was changed.
    pub fn edited(&self) -> (r: bool)
        ensures
            r == self@.edited,
    {
        self.edited
    }

    /// Records that the text was changed.
    pub fn set_edited(&mut self)
        ensures
            final(self)@ == (UiModel { edited: true, ..old(self)@ }),
    {
        self.edited = true;
    }

    /// Hands over the terminal commands not yet carried out, oldest first.
    pub fn take_ops(&mut self) -> (r: Vec<CursorAction>)
        ensures
            r@ == old(self)@.ops,
            final(self)@ == (UiModel { ops: Seq::empty(), ..old(self)@ }),
    {
        let mut r: Vec<CursorAction> = Vec::new();
        std::mem::swap(&mut r, &mut self.ops);
        r
    }

    /// Whether the screen is one the editor can work with.
    pub fn is_ok(&self) -> (r: bool)
        ensures
            r == ui_ok(self@),
    {
        self.size.cols >= 3 && self.size.cols < u16::MAX && self.size.rows >= 2 && self.size.rows < u16::MAX
            && self.cursor.width() == CursorCrtl::PREFIX_COL && self.buffer.line_count() >= 1
            && self.buffer.offset() < usize::MAX - 65535
    }

    /// The length of row `y` of the text area, cut to 16 bits; 0 when no line is there.
    pub fn linesize(&self, y: u16) -> (r: u16)
        requires
            self@.offset + y <= usize::MAX,
        ensures
            r == line_size(self@, y as int),
    {
        self.buffer.get_linesize(y)
    }

    /// The rows of the screen that show text.
    pub fn content_rows(&self) -> (r: u16)
        requires
            self@.size.rows >= 1,
        ensures
            r == text_rows(self@.size),
    {
        self.size.rows - UI_CMD_HEIGHT - UI_HEAD_OFFSET
    }

    pub(crate) fn op(&mut self, a: CursorAction)
        ensures
            final(self)@ == m_op(old(self)@, a),
    {
        self.ops.push(a);
    }

    pub(crate) fn c_move_to(&mut self, x: u16, y: u16)
        requires
            usable(old(self)@.size),
            col_fits(old(self)@.cursor, x),
        ensures
            final(self)@ == m_step(old(self)@, sp_move_to(old(self)@.cursor, x, y, old(self)@.size)),
    {
        let a = self.cursor.move_to(x, y, self.size);
        self.ops.push(a);
    }

    pub(crate) fn c_move_to_columu(&mut self, col: u16)
        requires
            usable(old(self)@.size),
            col_fits(old(self)@.cursor, col),
        ensures
            final(self)@ == m_step(old(self)@, sp_move_to_columu(old(self)@.cursor, col, old(self)@.size)),
    {
        let a = self.cursor.move_to_columu(col, self.size);
        self.ops.push(a);
    }

    pub(crate) fn c_move_to_row(&mut self, row: u16)
        requires
            usable(old(self)@.size),
        ensures
            final(self)@ == m_step(old(self)@, sp_move_to_row(old(self)@.cursor, row, old(self)@.size)),
    {
        let a = self.cursor.move_to_row(row, self.size);
        self.ops.push(a);
    }

    pub(crate) fn c_move_up(&mut self, count: u16)
        requires
            old(self)@.cursor.y >= count,
        ensures
            final(self)@ == m_step(old(self)@, sp_move_up(old(self)@.cursor, count)),
    {
        let a = self.cursor.move_up(count);
        self.ops.push(a);
    }

    pub(crate) fn c_move_down(&mut self, count: u16)
        requires
            old(self)@.cursor.y + count <= u16::MAX,
        ensures
            final(self)@ == m_step(old(self)@, sp_move_down(old(self)@.cursor, count)),
    {
        let a = self.cursor.move_down(count);
        self.ops.push(a);
    }

    pub(crate) fn c_move_left(&mut self, count: u16)
        requires
            usable(old(self)@.size),
            old(self)@.cursor.width >= 1,
            old(self)@.cursor.x as int + old(self)@.cursor.width <= u16::MAX,
        ensures
            final(self)@ == m_steps(old(self)@, sp_move_left(old(self)@.cursor, count, old(self)@.size)),
    {
        let mut a = self.cursor.move_left(count, self.size);
        self.ops.append(&mut a);
    }

    pub(crate) fn c_move_right(&mut self, count: u16)
        requires
            ({
                let m = old(self)@;
                let i = m.offset + m.cursor.y;
                &&& usable(m.size)
                &&& i <= usize::MAX
                &&& i < m.lines.len()
                &&& m.lines[i].data.len() as u16 >= 1
                &&& m.cursor.prefix ==> m.size.cols > m.cursor.width
                &&& m.cursor.prefix ==> m.lines[i].data.len() as u16 - 1 + m.cursor.width <= u16::MAX
                &&& m.cursor.x as int + count <= u16::MAX
            }),
        ensures
            ({
                let m = old(self)@;
                final(self)@ == m_steps(
                    m,
                    sp_move_right(
                        m.cursor,
                        count,
                        m.lines[m.offset + m.cursor.y].data.len() as u16,
                        m.size,
                    ),
                )
            }),
    {
        let mut a = self.cursor.move_right(count, &self.buffer, self.size);
        self.ops.append(&mut a);
    }

    pub(crate) fn c_set_prefix_mode(&mut self, on: bool)
        requires
            usable(old(self)@.size),
            old(self)@.cursor.width as int * 2 <= u16::MAX,
        ensures
            final(self)@ == m_steps(old(self)@, sp_set_prefix_mode(old(self)@.cursor, on, old(self)@.size)),
    {
        let mut a = self.cursor.set_prefix_mode(on, self.size);
        self.ops.append(&mut a);
    }

    pub(crate) fn c_clear_current_line(&mut self)
        requires
            usable(old(self)@.size),
        ensures
            final(self)@ == m_steps(old(self)@, sp_clear_current_line(old(self)@.cursor, old(self)@.size)),
    {
        let mut a = self.cursor.clear_current_line(self.size);
        self.ops.append(&mut a);
    }

    pub(crate) fn c_move_to_nextline(&mut self, lines: u16)
        requires
            nextline_ok(old(self)@.cursor, lines, old(self)@.lines.len(), old(self)@.size),
        ensures
            final(self)@ == m_scrolls(
                old(self)@,
                sp_move_to_nextline(
                    old(self)@.cursor,
                    lines,
                    old(self)@.offset,
                    old(self)@.lines.len(),
                    old(self)@.size,
                ),
            ),
    {
        let mut a = self.cursor.move_to_nextline(lines, &mut self.buffer, self.size);
        self.ops.append(&mut a);
    }

    pub(crate) fn c_write(&mut self, text: &[u8])
        requires
            write_ok(old(self)@.cursor, old(self)@.lines.len(), old(self)@.size),
        ensures
            final(self)@ == m_scrolls(
                old(self)@,
                sp_write(
                    (old(self)@.cursor, Seq::empty(), old(self)@.offset),
                    text@,
                    old(self)@.lines.len(),
                    old(self)@.size,
                ),
            ),
            write_ok(final(self)@.cursor, final(self)@.lines.len(), final(self)@.size),
            final(self)@.cursor.width == old(self)@.cursor.width,
            final(self)@.cursor.prefix == old(self)@.cursor.prefix,
    {
        let mut a = self.cursor.write(text, &mut self.buffer, self.size);
        self.ops.append(&mut a);
    }

    pub(crate) fn c_highlight(&mut self, last_line: Option<u16>)
        requires
            usable(old(self)@.size),
            col_fits(old(self)@.cursor, col_of(old(self)@.cursor)),
        ensures
            final(self)@ == m_step(
                old(self)@,
                (put_back(old(self)@.cursor, old(self)@.size), CursorAction::Highlight(last_line)),
            ),
    {
        let a = self.cursor.highlight(last_line, self.size);
        self.ops.push(a);
    }

    pub(crate) fn c_store_pos(&mut self)
        requires
            !old(self)@.cursor.stored,
        ensures
            final(self)@ == (UiModel { cursor: sp_store_pos(old(self)@.cursor), ..old(self)@ }),
    {
        self.cursor.store_pos();
    }

    pub(crate) fn c_restore_pos(&mut self)
        requires
            old(self)@.cursor.stored,
        ensures
            final(self)@ == m_step(old(self)@, sp_restore_pos(old(self)@.cursor)),
    {
        let a = self.cursor.restore_pos();
        self.ops.push(a);
    }

    /// Redraws `count` lines from row `y` of the text area (no further than the text area and
    /// the buffer) and answers how many were drawn; the cursor comes back to its column and
    /// row.
    #[verifier::rlimit(30)]
    pub fn render_content(&mut self, y: u16, count: usize) -> (r: usize)
        requires
            usable(old(self)@.size),
            old(self)@.size.rows >= 1,
            old(self)@.cursor.width as int * 2 <= u16::MAX,
            render_ok(old(self)@, y, count),
        ensures
            r == render_count(old(self)@, y, count),
            final(self)@ == m_render(old(self)@, y, count),
    {
        let y = y + UI_HEAD_OFFSET;
        let rows = self.content_rows();
        let mut count = count;
        if y + count as u16 > rows {
            count = (rows - y) as usize;
        }
        let content = self.buffer.get_content(y as usize, count);
        let v = match content {
            Some(v) => v,
            None => Vec::new(),
        };
        let n = v.len();
        assert(models(v@).len() == n);
        let pos = self.cursor.store_tmp_pos();
        let _ = self.cursor.set_prefix_mode(false, self.size);
        let ghost c0 = self.cursor.view();
        assert(c0 == CursorModel { prefix: false, ..old(self)@.cursor });
        self.ops.push(CursorAction::Render(y, n));
        let ghost ops1 = self.ops@;
        let k: usize = if n <= (rows - y) as usize { n } else { (rows - y) as usize };
        let flags = line_flags(&v, k);
        assert forall|j: int| 0 <= j < k implies #[trigger] flags@[j] == rendered_flags(old(self)@, y, count)[j] by {
            assert(models(v@)[j] == v@[j]@);
        }
        assert(flags@ =~= rendered_flags(old(self)@, y, count));
        let ghost p = sp_line_prefix(c0, flags@, y, 0, 0, false, old(self)@.size);
        let mut marks = self.cursor.update_line_prefix(&flags, y, 0, 0, false, &mut self.buffer, self.size);
        self.ops.append(&mut marks);
        assert(self.ops@ == ops1 + p.1);
        proof {
            lemma_line_prefix_keeps(c0, flags@, y, 0, 0, self.size);
        }
        let _ = self.cursor.set_prefix_mode(true, self.size);
        let ghost cb = self.cursor.view();
        assert(cb == CursorModel { x: cb.x, y: cb.y, prefix: true, ..old(self)@.cursor });
        let _ = self.cursor.restore_tmp_pos(pos, self.size);
        let a = self.cursor.highlight(None, self.size);
        self.ops.push(a);
        proof {
            lemma_put_back_after_move(old(self)@.cursor, old(self)@.size);
        }
        assert(n == render_count(old(self)@, y, count));
        assert(self@.cursor == m_render(old(self)@, y, count).cursor);
        assert(self.ops@ =~= m_render(old(self)@, y, count).ops);
        assert(self@.lines == old(self)@.lines);
        n
    }

    /// Scrolls the text up by `count` rows, fewer near the end of the buffer: the next lines
    /// are drawn at the bottom and the cursor comes back to its column and row.
    pub fn scroll_up(&mut self, count: u16)
        requires
            scroll_up_ok(old(self)@, count),
        ensures
            final(self)@ == m_scroll_up(old(self)@, count),
    {
        let rows = self.content_rows();
        let pos = self.cursor.store_tmp_pos();
        let offset = self.buffer.offset();
        let linecount = self.buffer.line_count();
        let mut count = count;
        if offset + rows as usize + count as usize >= linecount {
            count = linecount as u16 - offset as u16 - rows;
        }
        self.buffer.set_offset(offset + count as usize);
        self.c_move_to_row(rows - count);
        self.op(CursorAction::ScrollUp(count));
        self.op(CursorAction::ClearUnderCursor);
        let y = self.cursor.y();
        self.render_content(y, count as usize);
        let a = self.cursor.restore_tmp_pos(pos, self.size);
        self.ops.push(a);
        let y2 = self.cursor.y();
        self.c_highlight(Some(y2 - count));
    }

    /// Scrolls the text down by `count` rows, no further than the first line: the previous
    /// lines are drawn at the top and the cursor comes back to its column and row.
    pub fn scroll_down(&mut self, count: u16)
        requires
            scroll_down_ok(old(self)@, count),
        ensures
            final(self)@ == m_scroll_down(old(self)@, count),
    {
        let pos = self.cursor.store_tmp_pos();
        let offset = self.buffer.offset();
        let mut count = count;
        if offset < count as usize {
            count = offset as u16;
        }
        self.buffer.set_offset(offset - count as usize);
        self.op(CursorAction::ScrollDown(count));
        self.c_move_to_row(count - 1);
        self.op(CursorAction::ClearUpCursor);
        self.render_content(0, count as usize);
        let a = self.cursor.restore_tmp_pos(pos, self.size);
        self.ops.push(a);
        let y2 = self.cursor.y();
        self.c_highlight(Some(y2 + count));
    }
}

/// The byte of the digit '0'.
pub const DIGIT_ZERO: u8 = 48;

/// `n` written in decimal, without leading zeros, as bytes.
pub open spec fn decimal_bytes(n: nat) -> Seq<u8>
    decreases n,
{
    if n < 10 {
        seq![(DIGIT_ZERO + n) as u8]
    } else {
        decimal_bytes(n / 10).push((DIGIT_ZERO + n % 10) as u8)
    }
}

/// Appends `n` in decimal to `v`.
fn push_decimal_bytes(v: &mut Vec<u8>, n: u16)
    ensures
        final(v)@ == old(v)@ + decimal_bytes(n as nat),
    decreases n,
{
    if n >= 10 {
        push_decimal_bytes(v, n / 10);
    }
    v.push(DIGIT_ZERO + (n % 10) as u8);
    assert(final(v)@ =~= old(v)@ + decimal_bytes(n as nat));
}

/// The name of a mode, as the status bar shows it.
pub open spec fn mode_name(mode: ModeType) -> Seq<u8> {
    match mode {
        ModeType::Command => seq!['C' as u8, 'o' as u8, 'm' as u8, 'm' as u8, 'a' as u8, 'n' as u8, 'd' as u8],
        ModeType::LastLine => seq!['L' as u8, 'a' as u8, 's' as u8, 't' as u8, 'L' as u8, 'i' as u8, 'n' as u8, 'e' as u8],
        ModeType::Insert => seq!['I' as u8, 'n' as u8, 's' as u8, 'e' as u8, 'r' as u8, 't' as u8],
        ModeType::Normal => seq!['N' as u8, 'o' as u8, 'r' as u8, 'm' as u8, 'a' as u8, 'l' as u8],
    }
}

fn mode_name_bytes(mode: ModeType) -> (r: Vec<u8>)
    ensures
        r@ == mode_name(mode),
{
    let r = match mode {
        ModeType::Command => vec!['C' as u8, 'o' as u8, 'm' as u8, 'm' as u8, 'a' as u8, 'n' as u8, 'd' as u8],
        ModeType::LastLine => vec!['L' as u8, 'a' as u8, 's' as u8, 't' as u8, 'L' as u8, 'i' as u8, 'n' as u8, 'e' as u8],
        ModeType::Insert => vec!['I' as u8, 'n' as u8, 's' as u8, 'e' as u8, 'r' as u8, 't' as u8],
        ModeType::Normal => vec!['N' as u8, 'o' as u8, 'r' as u8, 'm' as u8, 'a' as u8, 'l' as u8],
    };
    assert(r@ =~= mode_name(mode));
    r
}

/// Where the status bar says the cursor is: "row:" and row `y` (counted from 1), then "col:"
/// and column `x`.
pub open spec fn index_info(x: u16, y: u16) -> Seq<u8> {
    seq!['r' as u8, 'o' as u8, 'w' as u8, ':' as u8] + decimal_bytes(y as nat) + seq![
        ' ' as u8,
        'c' as u8,
        'o' as u8,
        'l' as u8,
        ':' as u8,
    ] + decimal_bytes(x as nat)
}

/// The screen's state once `text` is written from column `x`, row `y`.
pub open spec fn m_write_at(m: UiModel, text: Seq<u8>, x: u16, y: u16) -> UiModel {
    let m1 = m_step(m, sp_move_to(m.cursor, x, y, m.size));
    m_scrolls(m1, sp_write((m1.cursor, Seq::empty(), m1.offset), text, m1.lines.len(), m1.size))
}

/// The status bar drawn up to the mode's name: prefix mode off, the command line's colors, the
/// bottom row cleared, and the name written at its start.
pub open spec fn m_bar_head(m: UiModel, mode: ModeType) -> UiModel {
    let cmd_y = (m.size.rows - 1) as u16;
    let m1 = m_op(m_steps(m, sp_set_prefix_mode(m.cursor, false, m.size)), CursorAction::CommandStyle);
    let m2 = m_step(m1, sp_move_to_row(m1.cursor, cmd_y, m.size));
    let m3 = m_steps(m2, sp_clear_current_line(m2.cursor, m.size));
    m_write_at(m3, mode_name(mode), 0, cmd_y)
}

/// The place the status bar shows for the screen `m`, once it is drawn up to `m5`: the
/// cursor's column, and its row counted from 1 from the top of the buffer (a 16-bit sum with the
/// offset cut to 16 bits).
pub open spec fn bar_index(m: UiModel, m5: UiModel) -> Seq<u8> {
    index_info(col_of(m.cursor), (m.cursor.y + 1 + (m5.offset as u16)) as u16)
}

/// The status bar on the bottom row, unless the command line is open there: the mode's name at
/// the left (see `m_bar_head`), the cursor's place at the right end, prefix mode back on, the
/// message `info` written from a third of the width on in the colors of `level`, the cursor
/// back at its place, and the default colors.
pub open spec fn m_state_bar(m: UiModel, mode: ModeType, level: InfoLevel, info: Seq<u8>) -> UiModel {
    if mode == ModeType::LastLine {
        m
    } else {
        let sx = col_of(m.cursor);
        let sy = m.cursor.y;
        let cmd_y = (m.size.rows - 1) as u16;
        let m5 = m_bar_head(m, mode);
        let idx = bar_index(m, m5);
        let m6 = m_write_at(m5, idx, (m.size.cols - (idx.len() as u16)) as u16, cmd_y);
        let m7 = m_steps(m6, sp_set_prefix_mode(m6.cursor, true, m.size));
        let m8 = m_op(m_step(m7, sp_move_to(m7.cursor, sx, sy, m.size)), CursorAction::InfoStyle(level));
        let m9 = m_write_at(m8, info, m.size.cols / 3, cmd_y);
        m_op(m_step(m9, sp_move_to(m9.cursor, sx, sy, m.size)), CursorAction::ResetColor)
    }
}

/// What drawing the status bar needs: a screen the editor works with, a cursor column that can
/// be moved back to in prefix mode, a row counted from 1 that fits in 16 bits, and room for the
/// place at the right end.
pub open spec fn state_bar_ok(m: UiModel, mode: ModeType) -> bool {
    let m5 = m_bar_head(m, mode);
    let idx = bar_index(m, m5);
    mode != ModeType::LastLine ==> {
        &&& ui_ok(m)
        &&& col_of(m.cursor) + m.cursor.width <= u16::MAX
        &&& m.cursor.y + 1 + (m5.offset as u16) <= u16::MAX
        &&& idx.len() <= m.size.cols
    }
}

impl UiCore {
    /// Writes `text` from column `x`, row `y`.
    fn write_at(&mut self, text: &[u8], x: u16, y: u16)
        requires
            usable(old(self)@.size),
            col_fits(old(self)@.cursor, x),
            write_ok(sp_move_to(old(self)@.cursor, x, y, old(self)@.size).0, old(self)@.lines.len(), old(self)@.size),
        ensures
            final(self)@ == m_write_at(old(self)@, text@, x, y),
            final(self)@.cursor.width == old(self)@.cursor.width,
            final(self)@.cursor.prefix == old(self)@.cursor.prefix,
            final(self)@.size == old(self)@.size,
            final(self)@.lines == old(self)@.lines,
    {
        self.c_move_to(x, y);
        self.c_write(text);
    }

    /// Draws the status bar on the bottom row (see `m_state_bar`), with the message of `info`,
    /// which is then cleared; nothing while the command line is open.
    pub fn update_bottom_state_bar(&mut self, mode: ModeType, info: &mut AppInfo)
        requires
            state_bar_ok(old(self)@, mode),
        ensures
            final(self)@ == m_state_bar(old(self)@, mode, old(info).level, encode_utf8(old(info).info@)),
            mode == ModeType::LastLine ==> final(info).level == old(info).level && final(info).info@ == old(info).info@,
            mode != ModeType::LastLine ==> final(info).level == InfoLevel::Info && final(info).info@ == Seq::<char>::empty(),
    {
        match mode {
            ModeType::LastLine => {
                return;
            },
            _ => {},
        }
        let ghost m = self@;
        let store_x = self.cursor.x();
        let store_y = self.cursor.y();
        self.c_set_prefix_mode(false);
        self.op(CursorAction::CommandStyle);
        let cmd_y = self.size.rows - 1;
        self.c_move_to_row(cmd_y);
        self.c_clear_current_line();
        let name = mode_name_bytes(mode);
        self.write_at(&name, 0, cmd_y);
        let ghost m5 = self@;
        assert(m5 == m_bar_head(m, mode));
        let buf_y = store_y + 1 + self.buffer.offset() as u16;
        let mut idx: Vec<u8> = vec!['r' as u8, 'o' as u8, 'w' as u8, ':' as u8];
        push_decimal_bytes(&mut idx, buf_y);
        idx.push(' ' as u8);
        idx.push('c' as u8);
        idx.push('o' as u8);
        idx.push('l' as u8);
        idx.push(':' as u8);
        push_decimal_bytes(&mut idx, store_x);
        assert(idx@ =~= bar_index(m, m5));
        let len = idx.len() as u16;
        self.write_at(&idx, self.size.cols - len, cmd_y);
        let ghost m6 = self@;
        assert(m6 == m_write_at(m5, bar_index(m, m5), (m.size.cols - (bar_index(m, m5).len() as u16)) as u16, cmd_y));
        self.c_set_prefix_mode(true);
        self.c_move_to(store_x, store_y);
        self.op(CursorAction::InfoStyle(info.level));
        let ghost m8 = self@;
        let text = info.info.as_str().as_bytes();
        assert(text@ == encode_utf8(old(info).info@));
        self.write_at(text, self.size.cols / 3, cmd_y);
        let ghost m9 = self@;
        assert(m9 == m_write_at(m8, encode_utf8(old(info).info@), m.size.cols / 3, cmd_y));
        info.reset();
        self.c_move_to(store_x, store_y);
        self.op(CursorAction::ResetColor);
    }
}

} // verus!
