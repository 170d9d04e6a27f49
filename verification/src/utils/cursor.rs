//! Where the cursor stands on the screen, and what the terminal must be told when it moves.
//! The text area of each row starts after a prefix column (the line's markers, and line
//! numbers when they are shown); in prefix mode the columns the cursor reports and is moved
//! to are counted from the end of that prefix.
//!
//! Each operation is described by a transition: the cursor's new state and the commands the
//! terminal must carry out, in order.
use crate::utils::buffer::{bits_have, shown_from, EditBuffer, LineState, FLAGED_BITS, LOCKED_BITS, NEWLINE};
use crate::utils::ui::uicore::{decimal_bytes, text_rows, WinSize, UI_CMD_HEIGHT, UI_HEAD_OFFSET};
use crate::utils::ui::InfoLevel;
use vstd::prelude::*;

verus! {

/// A command for the terminal.
#[derive(Debug, Clone, Copy, PartialEq, Eq)]
pub enum CursorAction {
    MoveTo(u16, u16),
    MoveToNextLine(u16),
    MoveToPreviousLine(u16),
    MoveToColumn(u16),
    MoveToRow(u16),
    MoveUp(u16),
    MoveDown(u16),
    MoveRight(u16),
    /// Scroll the screen's content up by that many rows.
    ScrollUp(u16),
    /// Scroll the screen's content down by that many rows.
    ScrollDown(u16),
    /// Clear the row from the cursor to its end.
    ClearUntilNewLine,
    /// Clear the whole row.
    ClearCurrentLine,
    /// Clear everything below the cursor.
    ClearUnderCursor,
    /// Clear everything above the cursor.
    ClearUpCursor,
    /// Print one byte at the cursor.
    Print(u8),
    /// Draw `count` lines of the buffer from row `y` of the text area on, with their
    /// prefixes, and put the cursor back.
    Render(u16, usize),
    /// Redraw the line under the cursor highlighted, and row `y` plainly when given, and put
    /// the cursor back.
    Highlight(Option<u16>),
    /// Use the colors of the text.
    ContentStyle,
    /// Use the default colors.
    ResetColor,
    /// Tell the user that the line under the cursor is locked.
    RowLocked,
    /// Use the colors of the command line.
    CommandStyle,
    /// Use the colors of the line-number column.
    LineNumberStyle,
    /// Use the colors of the highlighted line.
    HighlightStyle,
    /// Remember where the cursor stands on the terminal.
    SavePosition,
    /// Go back to where the cursor stood when it was last remembered.
    RestorePosition,
    /// Use the background of a line's marker.
    MarkerStyle(MarkerColor),
    /// Use the colors of a message of that level.
    InfoStyle(InfoLevel),
}

/// The background of a line's marker in the prefix column.
#[derive(Debug, Clone, Copy, PartialEq, Eq)]
pub enum MarkerColor {
    /// No marker color.
    Plain,
    /// The color of a flagged line (cyan).
    Flagged,
    /// The color of a locked line (dark red).
    Locked,
}

/// The marker color of a line with flag bits `bits`: a locked line's color wins over a flagged
/// line's, as the locked color is set after the flagged one.
pub open spec fn marker_color_of(bits: u32) -> MarkerColor {
    if bits_have(bits, LOCKED_BITS) {
        MarkerColor::Locked
    } else if bits_have(bits, FLAGED_BITS) {
        MarkerColor::Flagged
    } else {
        MarkerColor::Plain
    }
}

/// The marker color of a line with flags `flags` (see `marker_color_of`).
pub fn marker_color(flags: LineState) -> (r: MarkerColor)
    ensures
        r == marker_color_of(flags.bits),
{
    let mut r = MarkerColor::Plain;
    if flags.contains(LineState::flaged()) {
        r = MarkerColor::Flagged;
    }
    if flags.contains(LineState::locked()) {
        r = MarkerColor::Locked;
    }
    r
}

/// The commands that print the bytes `t`.
pub open spec fn prints(t: Seq<u8>) -> Seq<CursorAction> {
    Seq::new(t.len(), |i: int| CursorAction::Print(t[i]))
}

/// The label of line number `n` in a prefix `len` columns wide: a blank, then `n` in decimal,
/// cut or filled with blanks to `len` bytes.
pub open spec fn prefix_label(n: nat, len: nat) -> Seq<u8> {
    let t = seq![32u8] + decimal_bytes(n);
    if t.len() >= len {
        t.take(len as int)
    } else {
        t + Seq::new((len - t.len()) as nat, |i: int| 32u8)
    }
}

/// The markers of lines with flags `flags`, drawn from row `start` on (prefix mode off): for
/// each line, the line-number colors, a move to the start of its row, the marker's color, a
/// `~`, and the default colors.
pub open spec fn sp_markers(c: CursorModel, flags: Seq<LineState>, start: u16, size: WinSize) -> (
    CursorModel,
    Seq<CursorAction>,
)
    decreases flags.len(),
{
    if flags.len() == 0 {
        (c, Seq::empty())
    } else {
        let prev = sp_markers(c, flags.drop_last(), start, size);
        let s = sp_move_to(prev.0, 0, (start + flags.len() - 1) as u16, size);
        (
            CursorModel { x: (s.0.x + 1) as u16, ..s.0 },
            prev.1 + seq![
                CursorAction::LineNumberStyle,
                s.1,
                CursorAction::MarkerStyle(marker_color_of(flags.last().bits)),
                CursorAction::Print(126u8),
                CursorAction::ResetColor,
            ],
        )
    }
}

/// The line-number labels of the first `k` rows (prefix mode off): for each row, a move to the
/// column after the marker, and the label of line `first + row`, `len` columns wide.
pub open spec fn sp_labels(c: CursorModel, k: nat, len: nat, first: nat, size: WinSize) -> (
    CursorModel,
    Seq<CursorAction>,
)
    decreases k,
{
    if k == 0 {
        (c, Seq::empty())
    } else {
        let prev = sp_labels(c, (k - 1) as nat, len, first, size);
        let s = sp_move_to(prev.0, CursorCrtl::PREFIX_COL, (k - 1) as u16, size);
        (
            CursorModel { x: (s.0.x + len) as u16, ..s.0 },
            prev.1.push(s.1) + prints(prefix_label((first + k - 1) as nat, len)),
        )
    }
}

/// The prefix column redrawn: prefix mode goes off; the markers of the lines with flags `flags`
/// are drawn from row `start` on (see `sp_markers`); when line numbers are on, the prefix takes
/// `number_len + 2` columns more than the marker, and each row of the text area gets the label
/// of its line number, counted from `first_number` (see `sp_labels`), in the line-number
/// colors; then the cursor goes back to its column and row, and prefix mode comes back on.
pub open spec fn sp_line_prefix(
    c: CursorModel,
    flags: Seq<LineState>,
    start: u16,
    number_len: usize,
    first_number: usize,
    numbers_on: bool,
    size: WinSize,
) -> (CursorModel, Seq<CursorAction>) {
    let s0 = sp_set_prefix_mode(c, false, size);
    let x = col_of(s0.0);
    let y = s0.0.y;
    let s1 = sp_markers(s0.0, flags, start, size);
    let s2 = if numbers_on {
        let cw = CursorModel { width: (number_len + 2 + CursorCrtl::PREFIX_COL) as u16, ..s1.0 };
        let l = sp_labels(cw, text_rows(size) as nat, (number_len + 2) as nat, first_number as nat, size);
        (l.0, seq![CursorAction::LineNumberStyle] + l.1 + seq![CursorAction::ResetColor])
    } else {
        (s1.0, Seq::<CursorAction>::empty())
    };
    let s3 = sp_move_to(s2.0, x, y, size);
    let s4 = sp_set_prefix_mode(s3.0, true, size);
    (s4.0, s0.1 + s1.1 + s2.1 + seq![s3.1] + s4.1)
}

/// Two states of the cursor with the same prefix width and the same stored position.
pub open spec fn same_but_place(a: CursorModel, b: CursorModel) -> bool {
    &&& a.width == b.width
    &&& a.stored == b.stored
    &&& a.stored_x == b.stored_x
    &&& a.stored_y == b.stored_y
}

/// Drawing the markers moves the cursor and keeps its prefix width, its mode and what it
/// stored.
pub proof fn lemma_markers_keep(c: CursorModel, flags: Seq<LineState>, start: u16, size: WinSize)
    ensures
        same_but_place(sp_markers(c, flags, start, size).0, c),
        sp_markers(c, flags, start, size).0.prefix == c.prefix,
    decreases flags.len(),
{
    if flags.len() > 0 {
        lemma_markers_keep(c, flags.drop_last(), start, size);
    }
}

/// Redrawing the prefix column without line numbers keeps the prefix width and what the
/// cursor stored, and leaves prefix mode on.
pub proof fn lemma_line_prefix_keeps(
    c: CursorModel,
    flags: Seq<LineState>,
    start: u16,
    number_len: usize,
    first_number: usize,
    size: WinSize,
)
    ensures
        same_but_place(sp_line_prefix(c, flags, start, number_len, first_number, false, size).0, c),
        sp_line_prefix(c, flags, start, number_len, first_number, false, size).0.prefix,
{
    let s0 = sp_set_prefix_mode(c, false, size);
    lemma_markers_keep(s0.0, flags, start, size);
}

/// Appends `n` in decimal to `v`.
fn push_decimal(v: &mut Vec<u8>, n: usize)
    ensures
        final(v)@ == old(v)@ + decimal_bytes(n as nat),
    decreases n,
{
    if n >= 10 {
        push_decimal(v, n / 10);
    }
    v.push(48u8 + (n % 10) as u8);
    assert(final(v)@ =~= old(v)@ + decimal_bytes(n as nat));
}

/// The label of line number `n` in a prefix `len` columns wide (see `prefix_label`).
fn line_label(n: usize, len: usize) -> (r: Vec<u8>)
    ensures
        r@ == prefix_label(n as nat, len as nat),
{
    let mut t: Vec<u8> = vec![32u8];
    push_decimal(&mut t, n);
    let ghost t0 = t@;
    assert(t0 =~= seq![32u8] + decimal_bytes(n as nat));
    if t.len() >= len {
        t.truncate(len);
        assert(t@ =~= t0.take(len as int));
    } else {
        while t.len() < len
            invariant
                t0.len() <= t.len() <= len,
                t@.subrange(0, t0.len() as int) == t0,
                forall|i: int| t0.len() <= i < t.len() ==> t@[i] == 32u8,
            decreases len - t.len(),
        {
            t.push(32u8);
        }
        assert(t@ =~= t0 + Seq::new((len - t0.len()) as nat, |i: int| 32u8));
    }
    t
}

/// The state of the cursor.
#[derive(Debug)]
pub struct CursorCrtl {
    x: u16,
    y: u16,
    stored_x: u16,
    stored_y: u16,
    line_prefix_width: u16,
    store_flag: bool,
    prefix_mode: bool,
}

/// What the cursor's state is.
pub struct CursorModel {
    /// The screen column.
    pub x: u16,
    /// The screen row.
    pub y: u16,
    pub stored_x: u16,
    pub stored_y: u16,
    /// The width of the prefix column.
    pub width: u16,
    /// Whether a position is stored.
    pub stored: bool,
    /// Whether columns are counted from the end of the prefix.
    pub prefix: bool,
}

/// The smaller of two numbers.
pub open spec fn min_u16(a: int, b: int) -> u16 {
    (if a < b { a } else { b }) as u16
}

/// The column the cursor reports: counted from the end of the prefix in prefix mode.
pub open spec fn col_of(c: CursorModel) -> u16 {
    if c.prefix {
        if c.x < c.width {
            0
        } else {
            (c.x - c.width) as u16
        }
    } else {
        c.x
    }
}

/// The screen column of column `col` of the text area.
pub open spec fn screen_col(c: CursorModel, col: u16) -> int {
    if c.prefix {
        col + c.width
    } else {
        col as int
    }
}

/// The columns of a row that text may take: the screen's columns, less the prefix in prefix
/// mode.
pub open spec fn text_cols(c: CursorModel, size: WinSize) -> int {
    if c.prefix {
        size.cols - c.width
    } else {
        size.cols as int
    }
}

/// The cursor after it is moved to column `col` of the text area, kept on the screen.
pub open spec fn moved_to_col(c: CursorModel, col: u16, size: WinSize) -> CursorModel {
    CursorModel { x: min_u16(size.cols - 1, screen_col(c, col)), ..c }
}

/// The cursor after it is moved to column `x`, row `y` of the text area, kept on the screen.
pub open spec fn moved_to(c: CursorModel, x: u16, y: u16, size: WinSize) -> CursorModel {
    CursorModel {
        x: min_u16(size.cols - 1, screen_col(c, x)),
        y: min_u16(size.rows - 1, y as int),
        ..c
    }
}

/// Moving to column `col` of the text area fits in a screen column.
pub open spec fn col_fits(c: CursorModel, col: u16) -> bool {
    screen_col(c, col) <= u16::MAX
}

/// A screen with at least one row and one column.
pub open spec fn usable(size: WinSize) -> bool {
    size.cols >= 1 && size.rows >= 1
}

/// Moving to column `x`, row `y` of the text area.
pub open spec fn sp_move_to(c: CursorModel, x: u16, y: u16, size: WinSize) -> (
    CursorModel,
    CursorAction,
) {
    (moved_to(c, x, y, size), CursorAction::MoveTo(screen_col(c, x) as u16, y))
}

/// Moving to column `col` of the text area.
pub open spec fn sp_move_to_columu(c: CursorModel, col: u16, size: WinSize) -> (
    CursorModel,
    CursorAction,
) {
    (moved_to_col(c, col, size), CursorAction::MoveToColumn(screen_col(c, col) as u16))
}

/// Moving to row `row`.
pub open spec fn sp_move_to_row(c: CursorModel, row: u16, size: WinSize) -> (
    CursorModel,
    CursorAction,
) {
    (CursorModel { y: min_u16(size.rows - 1, row as int), ..c }, CursorAction::MoveToRow(row))
}

/// Moving `count` rows up.
pub open spec fn sp_move_up(c: CursorModel, count: u16) -> (CursorModel, CursorAction) {
    (CursorModel { y: (c.y - count) as u16, ..c }, CursorAction::MoveUp(count))
}

/// Moving `count` rows down.
pub open spec fn sp_move_down(c: CursorModel, count: u16) -> (CursorModel, CursorAction) {
    (CursorModel { y: (c.y + count) as u16, ..c }, CursorAction::MoveDown(count))
}

/// Turning prefix mode on or off; turned on with the cursor inside the prefix, the cursor
/// moves to the first column of the text area.
pub open spec fn sp_set_prefix_mode(c: CursorModel, on: bool, size: WinSize) -> (
    CursorModel,
    Seq<CursorAction>,
) {
    let c1 = CursorModel { prefix: on, ..c };
    if on && c.x < c.width {
        let s = sp_move_to_columu(CursorModel { x: c1.width, ..c1 }, 0, size);
        (s.0, seq![s.1])
    } else {
        (c1, Seq::empty())
    }
}

/// Moving `count` columns left: the column of the text area drops by `count`, stopping at the
/// first column, and never into the prefix.
pub open spec fn sp_move_left(c: CursorModel, count: u16, size: WinSize) -> (
    CursorModel,
    Seq<CursorAction>,
) {
    let s = if c.x < count || (c.prefix && c.x - count < c.width) {
        sp_move_to_columu(c, 0, size)
    } else {
        sp_move_to_columu(c, (col_of(c) - count) as u16, size)
    };
    if c.x == 0 || (c.x >= count && c.prefix && c.x == c.width - 1) {
        (c, Seq::empty())
    } else {
        (s.0, seq![s.1])
    }
}

/// Moving `count` columns right on a line of `n` bytes (its newline counted): not past the
/// last byte before the newline, and not at all from the last column of the text area.
pub open spec fn sp_move_right(c: CursorModel, count: u16, n: u16, size: WinSize) -> (
    CursorModel,
    Seq<CursorAction>,
) {
    let last = if c.prefix { n - 1 + c.width } else { n - 1 };
    if c.x == text_cols(c, size) - 1 {
        (c, Seq::empty())
    } else if c.x + count > last {
        (CursorModel { x: last as u16, ..c }, seq![CursorAction::MoveToColumn(last as u16)])
    } else {
        (CursorModel { x: (c.x + count) as u16, ..c }, seq![CursorAction::MoveRight(count)])
    }
}

/// Moving `lines` rows down to the start of the text area, in a buffer of `nlines` lines shown
/// from line `offset`: the cursor's state, the commands, and the line then shown at the top.
/// When the move leaves the screen, the content scrolls by at most `lines` rows (no further
/// than the first line of the buffer), the top line moves up by as much, and the cursor comes
/// back to its place before it moves.
pub open spec fn sp_move_to_nextline(
    c: CursorModel,
    lines: u16,
    offset: usize,
    nlines: nat,
    size: WinSize,
) -> (CursorModel, Seq<CursorAction>, usize) {
    let scroll = c.y + lines >= size.rows;
    let n: u16 = if scroll && offset < lines { offset as u16 } else { lines };
    let c1 = if scroll { moved_to(c, col_of(c), c.y, size) } else { c };
    let c2 = if c.prefix {
        moved_to_col(CursorModel { x: c.width, ..c1 }, 0, size)
    } else {
        CursorModel { x: 0, ..c1 }
    };
    let head = if scroll {
        seq![CursorAction::ScrollUp(n), CursorAction::MoveTo(screen_col(c, col_of(c)) as u16, c.y)]
    } else {
        Seq::<CursorAction>::empty()
    };
    let tail = if c.prefix {
        seq![CursorAction::MoveToColumn(c.width)]
    } else {
        Seq::<CursorAction>::empty()
    };
    (
        CursorModel { y: (c1.y + n) as u16, ..c2 },
        head + seq![CursorAction::MoveToNextLine(n)] + tail,
        if scroll { shown_from(nlines, (offset - n) as usize) } else { offset },
    )
}

/// What `sp_move_to_nextline` needs: no row past the largest, and a line to show when the
/// screen scrolls.
pub open spec fn nextline_ok(c: CursorModel, lines: u16, nlines: nat, size: WinSize) -> bool {
    &&& usable(size)
    &&& c.y + lines <= u16::MAX
    &&& c.width as int * 2 <= u16::MAX
    &&& c.y + lines >= size.rows ==> nlines >= 1
}

/// Moving `lines` rows up to the start of the text area, in a buffer of `nlines` lines shown
/// from line `offset`. When the move leaves the screen, the content scrolls by at most `lines`
/// rows (no further than the end of the buffer), the top line moves down by as much, and the
/// cursor comes back to its place before it moves.
pub open spec fn sp_move_to_previous_line(
    c: CursorModel,
    lines: u16,
    offset: usize,
    nlines: nat,
    size: WinSize,
) -> (CursorModel, Seq<CursorAction>, usize) {
    let scroll = c.y < lines;
    let n: u16 = if scroll && nlines < offset + lines { (nlines - offset) as u16 } else { lines };
    let c1 = if scroll { moved_to(c, col_of(c), c.y, size) } else { c };
    let c2 = if c.prefix {
        moved_to_col(CursorModel { x: c.width, ..c1 }, 0, size)
    } else {
        CursorModel { x: 0, ..c1 }
    };
    let head = if scroll {
        seq![CursorAction::ScrollUp(n), CursorAction::MoveTo(screen_col(c, col_of(c)) as u16, c.y)]
    } else {
        Seq::<CursorAction>::empty()
    };
    let tail = if c.prefix {
        seq![CursorAction::MoveToColumn(c.width)]
    } else {
        Seq::<CursorAction>::empty()
    };
    (
        CursorModel { y: (c1.y - n) as u16, ..c2 },
        head + seq![CursorAction::MoveToPreviousLine(n)] + tail,
        if scroll { shown_from(nlines, (offset + n) as usize) } else { offset },
    )
}

/// Storing the cursor's position.
pub open spec fn sp_store_pos(c: CursorModel) -> CursorModel {
    CursorModel { stored_x: c.x, stored_y: c.y, stored: true, ..c }
}

/// Moving back to the stored position, which is then no longer stored.
pub open spec fn sp_restore_pos(c: CursorModel) -> (CursorModel, CursorAction) {
    (
        CursorModel { x: c.stored_x, y: c.stored_y, stored: false, ..c },
        CursorAction::MoveTo(c.stored_x, c.stored_y),
    )
}

/// Clearing the row under the cursor: in prefix mode only the text area, keeping the cursor's
/// column.
pub open spec fn sp_clear_current_line(c: CursorModel, size: WinSize) -> (
    CursorModel,
    Seq<CursorAction>,
) {
    if c.prefix {
        let s1 = sp_move_to_columu(c, 0, size);
        let s2 = sp_move_to_columu(s1.0, col_of(c), size);
        (s2.0, seq![s1.1, CursorAction::ClearUntilNewLine, s2.1])
    } else {
        (c, seq![CursorAction::ClearCurrentLine])
    }
}

/// Putting the cursor back at the column of the text area and the row it reports, as a
/// redraw does once it is done.
pub open spec fn put_back(c: CursorModel, size: WinSize) -> CursorModel {
    moved_to(c, col_of(c), c.y, size)
}

/// Writing `text` from state `st` (the cursor, the commands so far, the line shown at the top
/// of a buffer of `nlines` lines): newlines are dropped, and each other byte is printed,
/// after a move to the next line when the text area's row is full.
pub open spec fn sp_write(
    st: (CursorModel, Seq<CursorAction>, usize),
    text: Seq<u8>,
    nlines: nat,
    size: WinSize,
) -> (CursorModel, Seq<CursorAction>, usize)
    decreases text.len(),
{
    if text.len() == 0 {
        st
    } else {
        let b = text[0];
        let c = st.0;
        let next = if b == NEWLINE {
            st
        } else if c.x >= text_cols(c, size) {
            let s = sp_move_to_nextline(c, 1, st.2, nlines, size);
            (CursorModel { x: (s.0.x + 1) as u16, ..s.0 }, st.1 + s.1 + seq![CursorAction::Print(b)], s.2)
        } else {
            (CursorModel { x: (c.x + 1) as u16, ..c }, st.1 + seq![CursorAction::Print(b)], st.2)
        };
        sp_write(next, text.drop_first(), nlines, size)
    }
}

/// What writing needs: the cursor no further right than the end of the text area, rows to
/// spare below, a text area at least as wide as the prefix, and a line to show when the screen
/// scrolls.
pub open spec fn write_ok(c: CursorModel, nlines: nat, size: WinSize) -> bool {
    &&& usable(size)
    &&& size.rows < u16::MAX
    &&& c.y <= size.rows
    &&& c.x <= text_cols(c, size)
    &&& c.width as int * 2 < size.cols
    &&& nlines >= 1
}

impl CursorCrtl {
    pub const PREFIX_COL: u16 = 1;

    pub closed spec fn view(&self) -> CursorModel {
        CursorModel {
            x: self.x,
            y: self.y,
            stored_x: self.stored_x,
            stored_y: self.stored_y,
            width: self.line_prefix_width,
            stored: self.store_flag,
            prefix: self.prefix_mode,
        }
    }

    /// A cursor at the top left, in prefix mode, with a prefix of one column.
    pub fn new() -> (r: CursorCrtl)
        ensures
            r.view() == (CursorModel {
                x: 0,
                y: 0,
                stored_x: 0,
                stored_y: 0,
                width: 1,
                stored: false,
                prefix: true,
            }),
    {
        CursorCrtl {
            x: 0,
            y: 0,
            stored_x: 0,
            stored_y: 0,
            line_prefix_width: Self::PREFIX_COL,
            store_flag: false,
            prefix_mode: true,
        }
    }

    /// The column of the cursor, counted from the end of the prefix in prefix mode.
    pub fn x(&self) -> (r: u16)
        ensures
            r == col_of(self.view()),
    {
        if self.prefix_mode {
            if self.x < self.line_prefix_width {
                return 0;
            }
            self.x - self.line_prefix_width
        } else {
            self.x
        }
    }

    /// The width of the prefix column.
    pub fn width(&self) -> (r: u16)
        ensures
            r == self.view().width,
    {
        self.line_prefix_width
    }

    /// The row of the cursor.
    pub fn y(&self) -> (r: u16)
        ensures
            r == self.view().y,
    {
        self.y
    }

    /// The row that commands act on: the stored row while a position is stored.
    pub fn cmd_y(&self) -> (r: u16)
        ensures
            r == if self.view().stored {
                self.view().stored_y
            } else {
                self.view().y
            },
    {
        if self.store_flag {
            self.stored_y
        } else {
            self.y
        }
    }

    /// Turns prefix mode on or off; turned on with the cursor inside the prefix, the cursor
    /// moves to the first column of the text area.
    pub fn set_prefix_mode(&mut self, on: bool, size: WinSize) -> (r: Vec<CursorAction>)
        requires
            size.cols >= 1,
        ensures
            (final(self).view(), r@) == sp_set_prefix_mode(old(self).view(), on, size),
    {
        self.prefix_mode = on;
        let mut r: Vec<CursorAction> = Vec::new();
        if on && self.x < self.line_prefix_width {
            self.x = self.line_prefix_width;
            let a = self.move_to_columu(0, size);
            r.push(a);
            assert(r@ =~= seq![a]);
        } else {
            assert(r@ =~= Seq::<CursorAction>::empty());
        }
        r
    }

    /// Moves to column `x`, row `y` of the text area; the cursor stays on the screen.
    pub fn move_to(&mut self, x: u16, y: u16, size: WinSize) -> (r: CursorAction)
        requires
            usable(size),
            col_fits(old(self).view(), x),
        ensures
            (final(self).view(), r) == sp_move_to(old(self).view(), x, y, size),
    {
        let mut x = x;
        if self.prefix_mode {
            x = x + self.line_prefix_width;
        }
        let cols = size.cols - 1;
        let rows = size.rows - 1;
        self.x = if cols < x { cols } else { x };
        self.y = if rows < y { rows } else { y };
        CursorAction::MoveTo(x, y)
    }

    /// Moves `lines` rows down, to the start of the text area. When that leaves the screen,
    /// the content scrolls by at most `lines` rows (no further than the first line of the
    /// buffer), the top line of the screen moves up by as much, and the cursor comes back to
    /// its place before it moves.
    pub fn move_to_nextline(&mut self, lines: u16, buf: &mut EditBuffer, size: WinSize) -> (r: Vec<
        CursorAction,
    >)
        requires
            nextline_ok(old(self).view(), lines, old(buf).lines().len(), size),
        ensures
            ({
                let s = sp_move_to_nextline(
                    old(self).view(),
                    lines,
                    old(buf).spec_offset(),
                    old(buf).lines().len(),
                    size,
                );
                &&& final(self).view() == s.0
                &&& r@ == s.1
                &&& final(buf).spec_offset() == s.2
            }),
            final(buf).lines() == old(buf).lines(),
            final(buf).flag_map() == old(buf).flag_map(),
            final(buf).locked_map() == old(buf).locked_map(),
            final(buf).spec_next_id() == old(buf).spec_next_id(),
    {
        let mut r: Vec<CursorAction> = Vec::new();
        let mut n = lines;
        if self.y + lines >= size.rows {
            let pos = self.store_tmp_pos();
            let offset = buf.offset();
            if offset < lines as usize {
                n = offset as u16;
            }
            buf.set_offset(offset - n as usize);
            r.push(CursorAction::ScrollUp(n));
            let a = self.restore_tmp_pos(pos, size);
            r.push(a);
        }
        r.push(CursorAction::MoveToNextLine(n));
        if self.prefix_mode {
            self.x = self.line_prefix_width;
            let a = self.move_to_columu(0, size);
            r.push(a);
        } else {
            self.x = 0;
        }
        self.y = self.y + n;
        proof {
            let c = old(self).view();
            let scroll = c.y + lines >= size.rows;
            let ghost head = if scroll {
                seq![
                    CursorAction::ScrollUp(n),
                    CursorAction::MoveTo(screen_col(c, col_of(c)) as u16, c.y),
                ]
            } else {
                Seq::<CursorAction>::empty()
            };
            let ghost tail = if c.prefix {
                seq![CursorAction::MoveToColumn(c.width)]
            } else {
                Seq::<CursorAction>::empty()
            };
            assert(r@ =~= head + seq![CursorAction::MoveToNextLine(n)] + tail);
        }
        r
    }

    /// Moves `lines` rows up, to the start of the text area. When that leaves the screen,
    /// the content scrolls by at most `lines` rows (no further than the end of the buffer),
    /// the top line of the screen moves down by as much, and the cursor comes back to its
    /// place before it moves. The cursor must then have `lines` rows above it.
    pub fn move_to_previous_line(&mut self, lines: u16, buf: &mut EditBuffer, size: WinSize) -> (r:
        Vec<CursorAction>)
        requires
            usable(size),
            old(self).view().width as int * 2 <= u16::MAX,
            ({
                let c = old(self).view();
                let o = old(buf).spec_offset();
                let lc = old(buf).lines().len();
                let scroll = c.y < lines;
                let n: int = if scroll && lc < o + lines { lc - o } else { lines as int };
                let y1: int = if scroll { min_u16(size.rows - 1, c.y as int) as int } else { c.y as int };
                &&& scroll ==> lc >= 1 && o <= lc && o + lines <= usize::MAX
                &&& y1 >= n
            }),
        ensures
            ({
                let s = sp_move_to_previous_line(
                    old(self).view(),
                    lines,
                    old(buf).spec_offset(),
                    old(buf).lines().len(),
                    size,
                );
                &&& final(self).view() == s.0
                &&& r@ == s.1
                &&& final(buf).spec_offset() == s.2
            }),
            final(buf).lines() == old(buf).lines(),
            final(buf).flag_map() == old(buf).flag_map(),
            final(buf).locked_map() == old(buf).locked_map(),
            final(buf).spec_next_id() == old(buf).spec_next_id(),
    {
        let mut r: Vec<CursorAction> = Vec::new();
        let mut n = lines;
        if self.y < lines {
            let pos = self.store_tmp_pos();
            let offset = buf.offset();
            let line_count = buf.line_count();
            if line_count < offset + lines as usize {
                n = (line_count - offset) as u16;
            }
            buf.set_offset(offset + n as usize);
            r.push(CursorAction::ScrollUp(n));
            let a = self.restore_tmp_pos(pos, size);
            r.push(a);
        }
        r.push(CursorAction::MoveToPreviousLine(n));
        self.y = self.y - n;
        if self.prefix_mode {
            self.x = self.line_prefix_width;
            let a = self.move_to_columu(0, size);
            r.push(a);
        } else {
            self.x = 0;
        }
        proof {
            let c = old(self).view();
            let scroll = c.y < lines;
            let ghost head = if scroll {
                seq![
                    CursorAction::ScrollUp(n),
                    CursorAction::MoveTo(screen_col(c, col_of(c)) as u16, c.y),
                ]
            } else {
                Seq::<CursorAction>::empty()
            };
            let ghost tail = if c.prefix {
                seq![CursorAction::MoveToColumn(c.width)]
            } else {
                Seq::<CursorAction>::empty()
            };
            assert(r@ =~= head + seq![CursorAction::MoveToPreviousLine(n)] + tail);
        }
        r
    }

    /// Moves to column `col` of the text area; the cursor stays on the screen.
    pub fn move_to_columu(&mut self, col: u16, size: WinSize) -> (r: CursorAction)
        requires
            size.cols >= 1,
            col_fits(old(self).view(), col),
        ensures
            (final(self).view(), r) == sp_move_to_columu(old(self).view(), col, size),
    {
        let mut col = col;
        if self.prefix_mode {
            col = col + self.line_prefix_width;
        }
        let cols = size.cols - 1;
        self.x = if cols < col { cols } else { col };
        CursorAction::MoveToColumn(col)
    }

    /// Moves to row `row`; the cursor stays on the screen.
    pub fn move_to_row(&mut self, row: u16, size: WinSize) -> (r: CursorAction)
        requires
            usable(size),
        ensures
            (final(self).view(), r) == sp_move_to_row(old(self).view(), row, size),
    {
        let rows = size.rows - 1;
        self.y = if rows < row { rows } else { row };
        CursorAction::MoveToRow(row)
    }

    /// Moves `count` rows up.
    pub fn move_up(&mut self, count: u16) -> (r: CursorAction)
        requires
            old(self).view().y >= count,
        ensures
            (final(self).view(), r) == sp_move_up(old(self).view(), count),
    {
        self.y = self.y - count;
        CursorAction::MoveUp(count)
    }

    /// Moves `count` rows down.
    pub fn move_down(&mut self, count: u16) -> (r: CursorAction)
        requires
            old(self).view().y + count <= u16::MAX,
        ensures
            (final(self).view(), r) == sp_move_down(old(self).view(), count),
    {
        self.y = self.y + count;
        CursorAction::MoveDown(count)
    }

    /// Moves `count` columns left: the column of the text area drops by `count`, stopping at
    /// the first column, and the row stays.
    pub fn move_left(&mut self, count: u16, size: WinSize) -> (r: Vec<CursorAction>)
        requires
            usable(size),
            old(self).view().width >= 1,
            old(self).view().x as int + old(self).view().width <= u16::MAX,
        ensures
            (final(self).view(), r@) == sp_move_left(old(self).view(), count, size),
    {
        let mut r: Vec<CursorAction> = Vec::new();
        let x = self.x;
        if x == 0 {
            assert(r@ =~= Seq::<CursorAction>::empty());
            return r;
        }
        if x < count {
            let a = self.move_to_columu(0, size);
            r.push(a);
            assert(r@ =~= seq![a]);
            return r;
        }
        if self.prefix_mode && x == self.line_prefix_width - 1 {
            assert(r@ =~= Seq::<CursorAction>::empty());
            return r;
        }
        if self.prefix_mode && x - count < self.line_prefix_width {
            let a = self.move_to_columu(0, size);
            r.push(a);
            assert(r@ =~= seq![a]);
            return r;
        }
        let col = if self.prefix_mode {
            x - self.line_prefix_width - count
        } else {
            x - count
        };
        let a = self.move_to_columu(col, size);
        r.push(a);
        assert(r@ =~= seq![a]);
        r
    }

    /// Moves `count` columns right: not past the last byte before the newline of the line
    /// under the cursor, and not at all from the last column of the text area.
    pub fn move_right(&mut self, count: u16, buf: &EditBuffer, size: WinSize) -> (r: Vec<CursorAction>)
        requires
            usable(size),
            buf.spec_offset() + old(self).view().y <= usize::MAX,
            buf.spec_offset() + old(self).view().y < buf.lines().len(),
            buf.lines()[buf.spec_offset() + old(self).view().y].data.len() as u16 >= 1,
            old(self).view().prefix ==> size.cols > old(self).view().width,
            old(self).view().prefix ==> buf.lines()[buf.spec_offset() + old(self).view().y].data.len() as u16
                - 1 + old(self).view().width <= u16::MAX,
            old(self).view().x as int + count <= u16::MAX,
        ensures
            (final(self).view(), r@) == sp_move_right(
                old(self).view(),
                count,
                buf.lines()[buf.spec_offset() + old(self).view().y].data.len() as u16,
                size,
            ),
    {
        let mut r: Vec<CursorAction> = Vec::new();
        let mut linesize = buf.get_linesize(self.y) - 1;
        let mut cols = size.cols;
        if self.prefix_mode {
            cols = cols - self.line_prefix_width;
            linesize = linesize + self.line_prefix_width;
        }
        if self.x == cols - 1 {
            assert(r@ =~= Seq::<CursorAction>::empty());
            return r;
        }
        if self.x + count > linesize {
            r.push(CursorAction::MoveToColumn(linesize));
            self.x = linesize;
            assert(r@ =~= seq![CursorAction::MoveToColumn(linesize)]);
        } else {
            r.push(CursorAction::MoveRight(count));
            self.x = self.x + count;
            assert(r@ =~= seq![CursorAction::MoveRight(count)]);
        }
        r
    }

    /// Writes `text` at the cursor: newlines are dropped, and the rest is printed, continuing
    /// on the next line when a row of the text area is full.
    pub fn write(&mut self, text: &[u8], buf: &mut EditBuffer, size: WinSize) -> (r: Vec<
        CursorAction,
    >)
        requires
            write_ok(old(self).view(), old(buf).lines().len(), size),
        ensures
            ({
                let s = sp_write(
                    (old(self).view(), Seq::empty(), old(buf).spec_offset()),
                    text@,
                    old(buf).lines().len(),
                    size,
                );
                &&& final(self).view() == s.0
                &&& r@ == s.1
                &&& final(buf).spec_offset() == s.2
            }),
            write_ok(final(self).view(), final(buf).lines().len(), size),
            final(self).view().width == old(self).view().width,
            final(self).view().prefix == old(self).view().prefix,
            final(buf).lines() == old(buf).lines(),
            final(buf).flag_map() == old(buf).flag_map(),
            final(buf).locked_map() == old(buf).locked_map(),
            final(buf).spec_next_id() == old(buf).spec_next_id(),
    {
        let mut r: Vec<CursorAction> = Vec::new();
        let n = text.len();
        let mut i: usize = 0;
        assert(text@.subrange(0, n as int) =~= text@);
        assert(r@ =~= Seq::<CursorAction>::empty());
        while i < n
            invariant
                n == text@.len(),
                i <= n,
                write_ok(self.view(), buf.lines().len(), size),
                self.view().width == old(self).view().width,
                self.view().prefix == old(self).view().prefix,
                buf.lines() == old(buf).lines(),
                buf.flag_map() == old(buf).flag_map(),
                buf.locked_map() == old(buf).locked_map(),
                buf.spec_next_id() == old(buf).spec_next_id(),
                sp_write(
                    (old(self).view(), Seq::empty(), old(buf).spec_offset()),
                    text@,
                    old(buf).lines().len(),
                    size,
                ) == sp_write(
                    (self.view(), r@, buf.spec_offset()),
                    text@.subrange(i as int, n as int),
                    buf.lines().len(),
                    size,
                ),
            decreases n - i,
        {
            let b = text[i];
            let ghost st = (self.view(), r@, buf.spec_offset());
            let ghost rest = text@.subrange(i as int, n as int);
            let ghost nl = buf.lines().len();
            assert(rest.drop_first() =~= text@.subrange(i + 1, n as int));
            assert(rest[0] == b);
            if b != NEWLINE {
                let mut cols = size.cols;
                if self.prefix_mode {
                    cols = cols - self.line_prefix_width;
                }
                if self.x >= cols {
                    let ghost s = sp_move_to_nextline(st.0, 1, st.2, nl, size);
                    let mut a = self.move_to_nextline(1, buf, size);
                    r.append(&mut a);
                    r.push(CursorAction::Print(b));
                    self.x = self.x + 1;
                    assert(r@ =~= st.1 + s.1 + seq![CursorAction::Print(b)]);
                } else {
                    r.push(CursorAction::Print(b));
                    self.x = self.x + 1;
                    assert(r@ =~= st.1 + seq![CursorAction::Print(b)]);
                }
            }
            i = i + 1;
        }
        assert(text@.subrange(n as int, n as int) =~= Seq::<u8>::empty());
        r
    }

    /// Writes `text` from column `x`, row `y` of the text area; when `store` is set, the cursor
    /// then comes back to where it was.
    pub fn write_with_pos(
        &mut self,
        text: &[u8],
        x: u16,
        y: u16,
        store: bool,
        buf: &mut EditBuffer,
        size: WinSize,
    ) -> (r: Vec<CursorAction>)
        requires
            usable(size),
            col_fits(old(self).view(), x),
            write_ok(moved_to(old(self).view(), x, y, size), old(buf).lines().len(), size),
            store ==> col_fits(old(self).view(), col_of(old(self).view())),
        ensures
            ({
                let c = old(self).view();
                let s1 = sp_move_to(c, x, y, size);
                let s2 = sp_write(
                    (s1.0, seq![s1.1], old(buf).spec_offset()),
                    text@,
                    old(buf).lines().len(),
                    size,
                );
                let s3 = sp_move_to(s2.0, col_of(c), c.y, size);
                &&& final(buf).spec_offset() == s2.2
                &&& if store {
                    final(self).view() == s3.0 && r@ == s2.1.push(s3.1)
                } else {
                    final(self).view() == s2.0 && r@ == s2.1
                }
            }),
            final(buf).lines() == old(buf).lines(),
            final(buf).flag_map() == old(buf).flag_map(),
            final(buf).locked_map() == old(buf).locked_map(),
            final(buf).spec_next_id() == old(buf).spec_next_id(),
    {
        let pos = self.store_tmp_pos();
        let mut r: Vec<CursorAction> = Vec::new();
        let a = self.move_to(x, y, size);
        r.push(a);
        let ghost c1 = self.view();
        let ghost o1 = buf.spec_offset();
        let mut w = self.write(text, buf, size);
        proof {
            lemma_write_prefix((c1, seq![a], o1), text@, old(buf).lines().len(), size);
            assert(r@ =~= seq![a]);
        }
        r.append(&mut w);
        if store {
            let b = self.restore_tmp_pos(pos, size);
            r.push(b);
        }
        r
    }

    /// Stores the cursor's position; no position may be stored already.
    pub fn store_pos(&mut self)
        requires
            !old(self).view().stored,
        ensures
            final(self).view() == sp_store_pos(old(self).view()),
    {
        self.stored_x = self.x;
        self.stored_y = self.y;
        self.store_flag = true;
    }

    /// Moves back to the stored position, which is then no longer stored; a position must be
    /// stored.
    pub fn restore_pos(&mut self) -> (r: CursorAction)
        requires
            old(self).view().stored,
        ensures
            (final(self).view(), r) == sp_restore_pos(old(self).view()),
    {
        self.x = self.stored_x;
        self.y = self.stored_y;
        self.store_flag = false;
        CursorAction::MoveTo(self.stored_x, self.stored_y)
    }

    /// The position to come back to: the column of the text area and the row.
    pub fn store_tmp_pos(&self) -> (r: (u16, u16))
        ensures
            r == (col_of(self.view()), self.view().y),
    {
        (self.x(), self.y)
    }

    /// Comes back to a position taken with `store_tmp_pos`.
    pub fn restore_tmp_pos(&mut self, pos: (u16, u16), size: WinSize) -> (r: CursorAction)
        requires
            usable(size),
            col_fits(old(self).view(), pos.0),
        ensures
            (final(self).view(), r) == sp_move_to(old(self).view(), pos.0, pos.1, size),
    {
        self.move_to(pos.0, pos.1, size)
    }

    /// Redraws the prefix column (see `sp_line_prefix`): the markers of the lines with flags
    /// `flags` from row `start` on, and, with `numbers_on`, the line numbers from
    /// `first_number` in a column `number_len + 2` wide, which the prefix then takes besides
    /// the marker. The text is not written to, so `buf` stays as it is.
    pub fn update_line_prefix(
        &mut self,
        flags: &Vec<LineState>,
        start: u16,
        number_len: usize,
        first_number: usize,
        numbers_on: bool,
        buf: &mut EditBuffer,
        size: WinSize,
    ) -> (r: Vec<CursorAction>)
        requires
            usable(size),
            start + flags.len() <= size.rows,
            numbers_on ==> number_len + 3 < size.cols,
            numbers_on ==> first_number + text_rows(size) <= usize::MAX,
        ensures
            (final(self).view(), r@) == sp_line_prefix(
                old(self).view(),
                flags@,
                start,
                number_len,
                first_number,
                numbers_on,
                size,
            ),
            *final(buf) == *old(buf),
    {
        let mut r = self.set_prefix_mode(false, size);
        let x = self.x();
        let y = self.y();
        let ghost c1 = self.view();
        let ghost a1 = r@;
        let n = flags.len();
        let mut i: usize = 0;
        assert(flags@.take(0) =~= Seq::<LineState>::empty());
        while i < n
            invariant
                i <= n,
                n == flags@.len(),
                usable(size),
                start + n <= size.rows,
                !self.view().prefix,
                self.view() == sp_markers(c1, flags@.take(i as int), start, size).0,
                r@ == a1 + sp_markers(c1, flags@.take(i as int), start, size).1,
            decreases n - i,
        {
            let ghost prev = sp_markers(c1, flags@.take(i as int), start, size);
            assert(flags@.take(i + 1).drop_last() =~= flags@.take(i as int));
            r.push(CursorAction::LineNumberStyle);
            let a = self.move_to(0, start + i as u16, size);
            r.push(a);
            let color = marker_color(flags[i]);
            r.push(CursorAction::MarkerStyle(color));
            r.push(CursorAction::Print(126u8));
            self.x = self.x + 1;
            r.push(CursorAction::ResetColor);
            i = i + 1;
            assert(r@ =~= a1 + sp_markers(c1, flags@.take(i as int), start, size).1);
        }
        assert(flags@.take(n as int) =~= flags@);
        let ghost c2 = self.view();
        let ghost a2 = r@;
        if numbers_on {
            let len = number_len + 2;
            self.line_prefix_width = (len as u16) + Self::PREFIX_COL;
            r.push(CursorAction::LineNumberStyle);
            let ghost cw = self.view();
            let ghost a3 = r@;
            let rows = size.rows - UI_CMD_HEIGHT - UI_HEAD_OFFSET;
            let mut row: u16 = 0;
            while row < rows
                invariant
                    row <= rows,
                    rows == text_rows(size),
                    usable(size),
                    len + 1 < size.cols,
                    first_number + rows <= usize::MAX,
                    !self.view().prefix,
                    self.view() == sp_labels(cw, row as nat, len as nat, first_number as nat, size).0,
                    r@ == a3 + sp_labels(cw, row as nat, len as nat, first_number as nat, size).1,
                decreases rows - row,
            {
                let a = self.move_to(Self::PREFIX_COL, row, size);
                r.push(a);
                let label = line_label(first_number + row as usize, len);
                let ghost before = r@;
                let m = label.len();
                let mut j: usize = 0;
                while j < m
                    invariant
                        j <= m,
                        m == label@.len(),
                        r@ == before + prints(label@.take(j as int)),
                    decreases m - j,
                {
                    r.push(CursorAction::Print(label[j]));
                    j = j + 1;
                    assert(r@ =~= before + prints(label@.take(j as int)));
                }
                assert(label@.take(m as int) =~= label@);
                self.x = self.x + len as u16;
                row = row + 1;
                assert(r@ =~= a3 + sp_labels(cw, row as nat, len as nat, first_number as nat, size).1);
            }
            r.push(CursorAction::ResetColor);
        }
        let a = self.move_to(x, y, size);
        r.push(a);
        let mut b = self.set_prefix_mode(true, size);
        r.append(&mut b);
        r
    }

    /// Clears the row under the cursor: in prefix mode only the text area, keeping the
    /// cursor's column.
    pub fn clear_current_line(&mut self, size: WinSize) -> (r: Vec<CursorAction>)
        requires
            usable(size),
        ensures
            (final(self).view(), r@) == sp_clear_current_line(old(self).view(), size),
    {
        let mut r: Vec<CursorAction> = Vec::new();
        if self.prefix_mode {
            let tmp = self.x();
            let a = self.move_to_columu(0, size);
            r.push(a);
            r.push(CursorAction::ClearUntilNewLine);
            let b = self.move_to_columu(tmp, size);
            r.push(b);
            assert(r@ =~= seq![a, CursorAction::ClearUntilNewLine, b]);
        } else {
            r.push(CursorAction::ClearCurrentLine);
            assert(r@ =~= seq![CursorAction::ClearCurrentLine]);
        }
        r
    }

    /// Asks for the line under the cursor to be highlighted, and row `last_line` to be redrawn
    /// plainly when given, with the command `Highlight(last_line)`; what that draws is
    /// `UiCore::highlight_actions`. The cursor is then put back at the column and row it
    /// reports.
    pub fn highlight(&mut self, last_line: Option<u16>, size: WinSize) -> (r: CursorAction)
        requires
            usable(size),
            col_fits(old(self).view(), col_of(old(self).view())),
        ensures
            final(self).view() == put_back(old(self).view(), size),
            r == CursorAction::Highlight(last_line),
    {
        let pos = self.store_tmp_pos();
        self.restore_tmp_pos(pos, size);
        CursorAction::Highlight(last_line)
    }
}

/// Writing `text` after some commands gives the same state as writing it from scratch, with
/// those commands in front.
pub proof fn lemma_write_prefix(
    st: (CursorModel, Seq<CursorAction>, usize),
    text: Seq<u8>,
    nlines: nat,
    size: WinSize,
)
    ensures
        ({
            let a = sp_write(st, text, nlines, size);
            let b = sp_write((st.0, Seq::empty(), st.2), text, nlines, size);
            a.0 == b.0 && a.2 == b.2 && a.1 == st.1 + b.1
        }),
    decreases text.len(),
{
    if text.len() > 0 {
        let b = text[0];
        let c = st.0;
        let rest = text.drop_first();
        if b == NEWLINE {
            lemma_write_prefix(st, rest, nlines, size);
        } else if c.x >= text_cols(c, size) {
            let s = sp_move_to_nextline(c, 1, st.2, nlines, size);
            let c2 = CursorModel { x: (s.0.x + 1) as u16, ..s.0 };
            let n1 = (c2, st.1 + s.1 + seq![CursorAction::Print(b)], s.2);
            let n2 = (c2, Seq::<CursorAction>::empty() + s.1 + seq![CursorAction::Print(b)], s.2);
            lemma_write_prefix(n1, rest, nlines, size);
            lemma_write_prefix(n2, rest, nlines, size);
            let base = sp_write((c2, Seq::<CursorAction>::empty(), s.2), rest, nlines, size);
            assert(n1.1 + base.1 =~= st.1 + (n2.1 + base.1));
        } else {
            let c2 = CursorModel { x: (c.x + 1) as u16, ..c };
            let n1 = (c2, st.1 + seq![CursorAction::Print(b)], st.2);
            let n2 = (c2, Seq::<CursorAction>::empty() + seq![CursorAction::Print(b)], st.2);
            lemma_write_prefix(n1, rest, nlines, size);
            lemma_write_prefix(n2, rest, nlines, size);
            let base = sp_write((c2, Seq::<CursorAction>::empty(), st.2), rest, nlines, size);
            assert(n1.1 + base.1 =~= st.1 + (n2.1 + base.1));
        }
    }
}

/// Storing the position and restoring it brings the cursor back where it was, with no
/// position stored.
pub proof fn law_restore_undoes_store(c: CursorModel)
    requires
        !c.stored,
    ensures
        ({
            let back = sp_restore_pos(sp_store_pos(c)).0;
            &&& back.x == c.x
            &&& back.y == c.y
            &&& back.stored == c.stored
            &&& back.prefix == c.prefix
            &&& back.width == c.width
        }),
{
}

/// A move of the cursor, as the moving methods of `CursorCrtl` make it; the line moves carry
/// the line shown at the top and the number of lines of the buffer.
pub enum CursorMove {
    To(u16, u16),
    Column(u16),
    Row(u16),
    Up(u16),
    Down(u16),
    Left(u16),
    Right(u16, u16),
    NextLine(u16, usize, usize),
    PreviousLine(u16, usize, usize),
    Prefix(bool),
}

/// The cursor after the move `mv`.
pub open spec fn after_move(c: CursorModel, mv: CursorMove, size: WinSize) -> CursorModel {
    match mv {
        CursorMove::To(x, y) => sp_move_to(c, x, y, size).0,
        CursorMove::Column(col) => sp_move_to_columu(c, col, size).0,
        CursorMove::Row(row) => sp_move_to_row(c, row, size).0,
        CursorMove::Up(n) => sp_move_up(c, n).0,
        CursorMove::Down(n) => sp_move_down(c, n).0,
        CursorMove::Left(n) => sp_move_left(c, n, size).0,
        CursorMove::Right(count, n) => sp_move_right(c, count, n, size).0,
        CursorMove::NextLine(lines, offset, nlines) => sp_move_to_nextline(
            c,
            lines,
            offset,
            nlines as nat,
            size,
        ).0,
        CursorMove::PreviousLine(lines, offset, nlines) => sp_move_to_previous_line(
            c,
            lines,
            offset,
            nlines as nat,
            size,
        ).0,
        CursorMove::Prefix(on) => sp_set_prefix_mode(c, on, size).0,
    }
}

/// The cursor after the moves `ms`, in order.
pub open spec fn after_moves(c: CursorModel, ms: Seq<CursorMove>, size: WinSize) -> CursorModel
    decreases ms.len(),
{
    if ms.len() == 0 {
        c
    } else {
        after_move(after_moves(c, ms.drop_last(), size), ms.last(), size)
    }
}

/// Storing the position, moving the cursor about in any way, and restoring the position
/// brings the cursor back to the column and row it had when it was stored, with no position
/// stored any more, and tells the terminal to move there.
pub proof fn law_restore_after_moves(c: CursorModel, ms: Seq<CursorMove>, size: WinSize)
    requires
        !c.stored,
    ensures
        ({
            let moved = after_moves(sp_store_pos(c), ms, size);
            sp_restore_pos(moved) == (
                CursorModel { x: c.x, y: c.y, stored: false, ..moved },
                CursorAction::MoveTo(c.x, c.y),
            )
        }),
    decreases ms.len(),
{
    if ms.len() > 0 {
        law_restore_after_moves(c, ms.drop_last(), size);
    }
}

/// Moving `count` columns left takes the column of the text area down by `count`, to no less
/// than the first column, in prefix mode as well as without it, and keeps the row.
pub proof fn law_move_left_steps_back(c: CursorModel, count: u16, size: WinSize)
    requires
        usable(size),
        c.width >= 1,
        c.x < size.cols,
        c.prefix ==> c.width < size.cols,
    ensures
        col_of(sp_move_left(c, count, size).0) == if col_of(c) >= count {
            col_of(c) - count
        } else {
            0
        },
        sp_move_left(c, count, size).0.y == c.y,
{
}

/// Moving to a column of the text area and reading the column back gives that column, when
/// it lies on the screen.
pub proof fn law_move_to_col_reads_back(c: CursorModel, col: u16, size: WinSize)
    requires
        usable(size),
        screen_col(c, col) <= size.cols - 1,
    ensures
        col_of(sp_move_to_columu(c, col, size).0) == col,
{
}

} // verus!
