//! The state machine of Normal mode: keys build up a command (a command letter, a count, what
//! it acts on) until it is complete and runs.
use crate::utils::buffer::{
    goto_offset,
    is_locked_bits,
    goto_ok,
    goto_target,
    next_word_begin,
    next_word_end,
    prev_word_begin,
    LineModel,
    NEWLINE,
};
use crate::utils::cursor::{
    col_fits,
    col_of,
    screen_col,
    sp_move_to,
    sp_move_to_columu,
    sp_store_pos,
    usable,
    CursorAction,
};
use crate::utils::ui::event::{
    down,
    down_ok,
    left,
    left_ok,
    m_down,
    m_highlight,
    m_left,
    m_up,
    up,
    up_ok,
    WarpUiCallBackType,
};
use crate::utils::ui::mode::mode::{
    delete_char_ok,
    lemma_up_down_keep_text,
    same_text,
    m_delete_char,
    m_next_word,
    next_word_col,
    next_word_ok,
    screen_line,
    Command,
    ModeType,
};
use crate::utils::ui::uicore::{
    insert_char_ok,
    line_size,
    m_delete_line,
    m_insert_char,
    m_op,
    m_remove_str,
    m_render,
    m_step,
    render_ok,
    text_rows,
    ui_ok,
    UiCore,
    UiModel,
};
use vstd::prelude::*;

verus! {

/// What a command acts on.
#[derive(Debug, Clone, Copy, PartialEq, Eq)]
pub enum BufOpArg {
    /// The text inside quotes or brackets, and the quotes or brackets.
    Around,
    /// The text inside quotes or brackets.
    Inside,
    /// A whole line.
    Line,
    /// A word.
    Word,
    /// The end of a word.
    WordEnd,
    /// The start of a word.
    WordBegin,
    /// A block.
    Block,
}

/// A command of Normal mode as far as it has been typed.
#[derive(Debug)]
pub struct NormalState {
    /// The letter that starts the command.
    pub cmdchar: Option<char>,
    /// How many times to run the command.
    pub count: Option<usize>,
    /// Whether a '0' now belongs to the count.
    pub count0: bool,
    pub start_pos: Option<(u16, u16)>,
    pub end_pos: Option<(u16, u16)>,
    /// The bytes typed for the command.
    pub cmdbuf: Vec<u8>,
    pub buf_op_arg: Option<BufOpArg>,
}

/// What a command of Normal mode typed so far is.
pub struct NormalModel {
    pub cmdchar: Option<char>,
    pub count: Option<usize>,
    pub count0: bool,
    pub start_pos: Option<(u16, u16)>,
    pub end_pos: Option<(u16, u16)>,
    pub cmdbuf: Seq<u8>,
    pub buf_op_arg: Option<BufOpArg>,
}

impl View for NormalState {
    type V = NormalModel;

    open spec fn view(&self) -> NormalModel {
        NormalModel {
            cmdchar: self.cmdchar,
            count: self.count,
            count0: self.count0,
            start_pos: self.start_pos,
            end_pos: self.end_pos,
            cmdbuf: self.cmdbuf@,
            buf_op_arg: self.buf_op_arg,
        }
    }
}

/// Nothing typed.
pub open spec fn reset_model() -> NormalModel {
    NormalModel {
        cmdchar: None,
        count: None,
        count0: false,
        start_pos: None,
        end_pos: None,
        cmdbuf: Seq::empty(),
        buf_op_arg: None,
    }
}

/// Normal mode.
#[derive(Debug)]
pub struct Normal;

impl Normal {
    pub fn new() -> (r: Normal) {
        Normal
    }

    /// The mode this is.
    pub fn mode_type(&self) -> (r: ModeType)
        ensures
            r == ModeType::Normal,
    {
        ModeType::Normal
    }
}

/// A vertical move of Normal mode to line `target` of the buffer: the text area shows it (see
/// `goto_offset`), the cursor goes to its row, no further right than its last byte, the lines
/// are highlighted anew with row `old_y` redrawn plainly, and the text area is redrawn when it
/// scrolled.
pub open spec fn m_vertical(m: UiModel, target: int, old_y: u16) -> UiModel {
    let rows = text_rows(m.size) as u16;
    let lc = m.lines.len();
    let off = goto_offset(lc, target, rows);
    let new_y = (goto_target(lc, target) - off) as u16;
    let m1 = UiModel { offset: off as usize, ..m };
    let ls = line_size(m1, new_y as int);
    let x = col_of(m1.cursor);
    let new_x = if ls < x { (ls - 1) as u16 } else { x };
    let m2 = m_step(m1, sp_move_to(m1.cursor, new_x, new_y, m.size));
    let m3 = m_highlight(m2, Some(old_y));
    if off != m.offset {
        m_render(m3, 0, rows as usize)
    } else {
        m3
    }
}

/// What a vertical move to line `target` needs.
pub open spec fn vertical_ok(m: UiModel, target: int) -> bool {
    let rows = text_rows(m.size) as u16;
    let lc = m.lines.len();
    let off = goto_offset(lc, target, rows);
    let new_y = (goto_target(lc, target) - off) as u16;
    let m1 = UiModel { offset: off as usize, ..m };
    let ls = line_size(m1, new_y as int);
    let x = col_of(m1.cursor);
    let new_x = if ls < x { (ls - 1) as u16 } else { x };
    let m3 = m_highlight(m_step(m1, sp_move_to(m1.cursor, new_x, new_y, m.size)), Some(m.cursor.y));
    &&& ui_ok(m)
    &&& 0 <= target <= usize::MAX
    &&& goto_ok(lc, target, rows)
    &&& ls < x ==> ls >= 1
    &&& off != m.offset ==> render_ok(m3, 0, rows as usize)
}

/// The cursor's line, counted from the buffer's first line, as a 16-bit sum.
pub open spec fn abs_row(m: UiModel) -> int {
    m.cursor.y + (m.offset as u16)
}

/// `h` with a count: left by the count (one without a count), no further than the first column.
pub open spec fn m_exec_h(m: UiModel, count: Option<usize>) -> UiModel {
    let x = col_of(m.cursor) as int;
    let n: int = match count {
        Some(c) => if c < x { c as int } else { x },
        None => if x == 0 { 0 } else { 1 },
    };
    m_step(m, sp_move_to_columu(m.cursor, (x - n) as u16, m.size))
}

/// The line `j` with a count moves to: down by the count (one without a count), no further
/// than the last line.
pub open spec fn j_target(m: UiModel, count: Option<usize>) -> int {
    let abs = abs_row(m);
    abs + match count {
        Some(c) => if c < m.lines.len() - abs - 1 { c as int } else { m.lines.len() - abs - 1 },
        None => 1,
    }
}

/// The line `k` with a count moves to: up by the count (one without a count), no further than
/// the first line.
pub open spec fn k_target(m: UiModel, count: Option<usize>) -> int {
    let abs = abs_row(m);
    abs - match count {
        Some(c) => if c < m.cursor.y + m.offset { c as int } else { m.cursor.y + m.offset },
        None => if abs == 0 { 0 } else { 1 },
    }
}

/// `l` with a count: right by the count (one without a count), no further than the last byte
/// before the line's newline.
pub open spec fn m_exec_l(m: UiModel, count: Option<usize>) -> UiModel {
    let x = col_of(m.cursor) as int;
    let ls = line_size(m, m.cursor.y as int) as int;
    let n: int = match count {
        Some(c) => if c < ls - x - 1 { c as int } else { ls - x - 1 },
        None => if x == ls - 1 { 0 } else { 1 },
    };
    m_step(m, sp_move_to_columu(m.cursor, (x + n) as u16, m.size))
}

/// The first column from `x` on where the line `d` holds `b`.
pub open spec fn find_from(d: Seq<u8>, x: int, b: u8) -> Option<int>
    decreases d.len() - x,
{
    if x < 0 || x >= d.len() {
        None
    } else if d[x] == b {
        Some(x)
    } else {
        find_from(d, x + 1, b)
    }
}

/// The last column before `x` where the line `d` holds `b`.
pub open spec fn find_before(d: Seq<u8>, x: int, b: u8) -> Option<int>
    decreases x,
{
    if x <= 0 {
        None
    } else if d[x - 1] == b {
        Some(x - 1)
    } else {
        find_before(d, x - 1, b)
    }
}

/// Deleting the line under the cursor (kept when empty or locked) after its row and the rows
/// below are cleared; the rows from the cursor's on are redrawn, the cursor moves up when that
/// line was the last, and a buffer left with one line gets a newline typed at its start.
pub open spec fn m_remove_line(m: UiModel) -> UiModel {
    let y = m.cursor.y;
    let lc = m.lines.len();
    let cnt: int = if lc - y > 1 { lc - y } else { 1 };
    let m0 = m_op(m_op(m, CursorAction::ClearCurrentLine), CursorAction::ClearUnderCursor);
    let m1 = m_delete_line(m0, m.offset + y);
    let m2 = m_render(m1, y, cnt as usize);
    let m3 = if m.offset + y == lc - 1 { m_up(m2) } else { m2 };
    if lc == 1 {
        let m4 = m_step(m3, sp_move_to_columu(m3.cursor, 0, m.size));
        m_render(m_insert_char(m4, NEWLINE, 0, 0), 0, 1)
    } else {
        m3
    }
}

/// What deleting the line under the cursor needs.
pub open spec fn remove_line_ok(m: UiModel) -> bool {
    let y = m.cursor.y;
    let lc = m.lines.len();
    let cnt: int = if lc - y > 1 { lc - y } else { 1 };
    let m0 = m_op(m_op(m, CursorAction::ClearCurrentLine), CursorAction::ClearUnderCursor);
    let m1 = m_delete_line(m0, m.offset + y);
    let m2 = m_render(m1, y, cnt as usize);
    let m3 = if m.offset + y == lc - 1 { m_up(m2) } else { m2 };
    let m4 = m_step(m3, sp_move_to_columu(m3.cursor, 0, m.size));
    &&& ui_ok(m)
    &&& y <= lc
    &&& m.offset + y < lc
    &&& render_ok(m1, y, cnt as usize)
    &&& m.offset + y == lc - 1 ==> up_ok(m2)
    &&& lc == 1 ==> insert_char_ok(m4, 0, 0) && render_ok(m_insert_char(m4, NEWLINE, 0, 0), 0, 1)
}

/// Deleting the line under the cursor `k` times.
pub open spec fn m_remove_lines(m: UiModel, k: nat) -> UiModel
    decreases k,
{
    if k == 0 {
        m
    } else {
        m_remove_lines(m_remove_line(m), (k - 1) as nat)
    }
}

/// What deleting the line under the cursor `k` times needs.
pub open spec fn remove_lines_ok(m: UiModel, k: nat) -> bool
    decreases k,
{
    k == 0 || (remove_line_ok(m) && remove_lines_ok(m_remove_line(m), (k - 1) as nat))
}

/// How many lines `n` line deletions delete: no more than there are from the cursor's row to
/// the buffer's length cut to 16 bits.
pub open spec fn lines_to_delete(m: UiModel, n: u16) -> nat {
    let avail = (m.lines.len() as u16) - m.cursor.y;
    (if n < avail { n as int } else { avail }) as nat
}

/// Deleting a word: the bytes from the cursor to the next word on the line; when no word
/// follows on the line, the cursor moves left, the line at the buffer's index equal to the
/// cursor's row is deleted, and the cursor moves down. The row is redrawn.
pub open spec fn m_remove_word(m: UiModel) -> UiModel {
    let y = m.cursor.y;
    let x = col_of(m.cursor) as int;
    let next = next_word_col(m);
    let m1 = if next < line_size(m, y as int) {
        m_remove_str(m, x, y as int, next - x)
    } else {
        m_down(m_delete_line(m_left(m), y as int))
    };
    m_render(m1, y, 1)
}

/// What deleting a word needs.
pub open spec fn remove_word_ok(m: UiModel) -> bool {
    let y = m.cursor.y as int;
    let x = col_of(m.cursor) as int;
    let i = m.offset + y;
    let next = next_word_col(m);
    let m1 = if next < line_size(m, y) {
        m_remove_str(m, x, y, next - x)
    } else {
        m_down(m_delete_line(m_left(m), y))
    };
    &&& ui_ok(m)
    &&& i < m.lines.len()
    &&& next < line_size(m, y) ==> x <= next <= m.lines[i].data.len()
    &&& !(next < line_size(m, y)) ==> {
        &&& left_ok(m)
        &&& y < m.lines.len()
        &&& down_ok(m_delete_line(m_left(m), y))
    }
    &&& render_ok(m1, y as u16, 1)
}

/// Deleting a word `k` times.
pub open spec fn m_remove_words(m: UiModel, k: nat) -> UiModel
    decreases k,
{
    if k == 0 {
        m
    } else {
        m_remove_words(m_remove_word(m), (k - 1) as nat)
    }
}

/// What deleting a word `k` times needs.
pub open spec fn remove_words_ok(m: UiModel, k: nat) -> bool
    decreases k,
{
    k == 0 || (remove_word_ok(m) && remove_words_ok(m_remove_word(m), (k - 1) as nat))
}

/// Moving to the start of the next word `k` times.
pub open spec fn m_next_words(m: UiModel, k: nat) -> UiModel
    decreases k,
{
    if k == 0 {
        m
    } else {
        m_next_words(m_next_word(m), (k - 1) as nat)
    }
}

/// What moving to the start of the next word `k` times needs.
pub open spec fn next_words_ok(m: UiModel, k: nat) -> bool
    decreases k,
{
    k == 0 || (next_word_ok(m) && next_words_ok(m_next_word(m), (k - 1) as nat))
}

/// A jump to line `line` keeping the column where the line is long enough: the text area shows
/// the line (see `goto_offset`), the cursor goes to its row and to its old column, or to the
/// line's length when shorter, the text area is redrawn, and the lines are highlighted anew.
pub open spec fn m_move_to_line(m: UiModel, line: u16) -> UiModel {
    let rows = text_rows(m.size) as u16;
    let lc = m.lines.len();
    let off = goto_offset(lc, line as int, rows);
    let new_y = (goto_target(lc, line as int) - off) as u16;
    let m1 = UiModel { offset: off as usize, ..m };
    let ls = line_size(m1, new_y as int);
    let x = col_of(m.cursor);
    let new_x = if x < ls { x } else { ls };
    let m2 = m_step(m1, sp_move_to(m1.cursor, new_x, new_y, m.size));
    m_highlight(m_render(m2, 0, rows as usize), Some(m.cursor.y))
}

/// What a jump to line `line` keeping the column needs.
pub open spec fn move_to_line_ok(m: UiModel, line: u16) -> bool {
    let rows = text_rows(m.size) as u16;
    let lc = m.lines.len();
    let off = goto_offset(lc, line as int, rows);
    let new_y = (goto_target(lc, line as int) - off) as u16;
    let m1 = UiModel { offset: off as usize, ..m };
    let ls = line_size(m1, new_y as int);
    let x = col_of(m.cursor);
    let new_x = if x < ls { x } else { ls };
    let m2 = m_step(m1, sp_move_to(m1.cursor, new_x, new_y, m.size));
    &&& ui_ok(m)
    &&& goto_ok(lc, line as int, rows)
    &&& col_of(m1.cursor) + m1.cursor.width <= u16::MAX
    &&& ls + m1.cursor.width <= u16::MAX
    &&& render_ok(m2, 0, rows as usize)
}

/// Starting command `c` when none has started.
pub open spec fn started(s: NormalModel, c: char) -> NormalModel {
    if s.cmdchar is None {
        NormalModel { cmdchar: Some(c), ..s }
    } else {
        s
    }
}

/// Whether `k` is a digit from '1' to '9'.
pub open spec fn is_nonzero_digit(k: u8) -> bool {
    ('1' as u8) <= k <= ('9' as u8)
}

/// The state of Normal mode after the key `data` is typed in it, before the command runs: the
/// bytes are recorded, and a single key updates the command (see the `on_*_clicked`
/// functions).
pub open spec fn n_key(s: NormalModel, data: Seq<u8>, m: UiModel) -> NormalModel {
    let s0 = NormalModel { cmdbuf: s.cmdbuf + data, ..s };
    if data.len() != 1 {
        s0
    } else {
        let k = data[0];
        if k == ('h' as u8) {
            started(s0, 'h')
        } else if k == ('j' as u8) {
            NormalModel { cmdchar: Some('j'), ..s0 }
        } else if k == ('k' as u8) {
            started(s0, 'k')
        } else if k == ('l' as u8) {
            started(s0, 'l')
        } else if k == ('i' as u8) {
            if s0.cmdchar is None { NormalModel { cmdchar: Some('i'), ..s0 } } else { NormalModel { buf_op_arg: Some(BufOpArg::Inside), ..s0 } }
        } else if k == ('d' as u8) {
            match s0.cmdchar {
                None => NormalModel { cmdchar: Some('d'), ..s0 },
                Some(c) => if c == 'd' { NormalModel { buf_op_arg: Some(BufOpArg::Line), ..s0 } } else { reset_model() },
            }
        } else if is_nonzero_digit(k) {
            NormalModel {
                count: Some(match s0.count { Some(c) => (c * 10 + (k - ZERO)) as usize, None => (k - ZERO) as usize }),
                count0: true,
                ..s0
            }
        } else if k == ZERO {
            let s1 = if !s0.count0 && s0.cmdchar is None { NormalModel { cmdchar: Some('0'), count0: true, ..s0 } } else { s0 };
            NormalModel { count: match s0.count { Some(c) => Some((c * 10) as usize), None => None }, ..s1 }
        } else if k == ('w' as u8) {
            if s0.cmdchar is None { NormalModel { cmdchar: Some('w'), ..s0 } } else { NormalModel { buf_op_arg: Some(BufOpArg::Word), ..s0 } }
        } else if k == ('g' as u8) {
            if s0.cmdchar is None {
                NormalModel { cmdchar: Some('g'), ..s0 }
            } else {
                let last = line_size(m, 0) - 1;
                NormalModel { end_pos: Some(((if col_of(m.cursor) < last { col_of(m.cursor) as int } else { last }) as u16, 0u16)), ..s0 }
            }
        } else if k == ('G' as u8) {
            started(s0, 'G')
        } else if k == ('e' as u8) {
            e_clicked(s0, m)
        } else if k == ('b' as u8) {
            b_clicked(s0, m)
        } else if k == ('$' as u8) {
            started(s0, '$')
        } else if k == ('f' as u8) {
            started(s0, 'f')
        } else if k == ('F' as u8) {
            started(s0, 'F')
        } else if k == ('x' as u8) {
            started(s0, 'x')
        } else if k == ('y' as u8) {
            match s0.cmdchar {
                None => NormalModel { cmdchar: Some('y'), ..s0 },
                Some(c) => if c == 'y' { NormalModel { buf_op_arg: Some(BufOpArg::Line), ..s0 } } else { s0 },
            }
        } else if k == ('p' as u8) {
            started(s0, 'p')
        } else {
            s0
        }
    }
}

/// What typing the key `data` in Normal mode needs before the command runs: a count that fits,
/// and a first line with a byte for a second `g`.
pub open spec fn n_key_ok(s: NormalModel, data: Seq<u8>, m: UiModel) -> bool {
    data.len() == 1 ==> {
        let k = data[0];
        &&& is_nonzero_digit(k) ==> (s.count matches Some(c) ==> c * 10 + (k - ZERO) <= usize::MAX)
        &&& k == ZERO ==> (s.count matches Some(c) ==> c * 10 <= usize::MAX)
        &&& k == ('g' as u8) && s.cmdchar is Some ==> ui_ok(m) && line_size(m, 0) >= 1
        &&& k == ('e' as u8) ==> e_walk_ok(m, times(s), (col_of(m.cursor), m.cursor.y))
        &&& k == ('b' as u8) ==> b_ok(s, m)
    }
}

/// The count of a command, cut to 16 bits, or one.
pub open spec fn count16(s: NormalModel) -> u16 {
    match s.count {
        Some(c) => c as u16,
        None => 1,
    }
}

/// The length of line `abs_y` of the buffer, cut to 16 bits; 0 when there is no such line.
pub open spec fn abs_line_size(m: UiModel, abs_y: int) -> int {
    if 0 <= abs_y < m.lines.len() {
        m.lines[abs_y].data.len() as u16 as int
    } else {
        0
    }
}

/// Where the end of a word is, seen from column `x` of line `abs_y` of the buffer: the end of
/// the word there, no further than the line's last byte; from the line's last two columns (or
/// past them), the end of the first word of the next line, or on the last line its last byte.
/// The screen's rows are found by taking the offset of the screen, cut to 16 bits, from a line
/// of the buffer.
pub open spec fn m_nextw_ending(m: UiModel, x: u16, abs_y: u16) -> (u16, u16) {
    let ls = abs_line_size(m, abs_y as int);
    let off = m.offset as u16;
    if x + 2 >= ls {
        if abs_y < (m.lines.len() as u16) - 1 {
            let d = m.lines[m.offset + ((abs_y + 1 - off) as u16)].data;
            (next_word_end(d.take(d.len() as u16 as int), 0) as u16, (abs_y + 1) as u16)
        } else {
            ((if ls > 0 { ls - 1 } else { 0 }) as u16, abs_y)
        }
    } else {
        let d = m.lines[m.offset + ((abs_y - off) as u16)].data;
        let e = next_word_end(d.take(d.len() as u16 as int), x as int) as u16;
        ((if e < ls - 1 { e as int } else { ls - 1 }) as u16, abs_y)
    }
}

/// What finding the end or the start of a word from column `x` of line `abs_y` needs: a line
/// in the buffer (counted in 16 bits), and the screen row of the line searched, which is in
/// the buffer.
pub open spec fn nextw_ending_ok(m: UiModel, x: u16, abs_y: u16) -> bool {
    let ls = abs_line_size(m, abs_y as int);
    let off = m.offset as u16;
    if x + 2 >= ls {
        &&& (m.lines.len() as u16) >= 1
        &&& abs_y < (m.lines.len() as u16) - 1 ==> {
            &&& abs_y + 1 >= off
            &&& m.offset + ((abs_y + 1 - off) as u16) < m.lines.len()
        }
    } else {
        &&& abs_y >= off
        &&& m.offset + ((abs_y - off) as u16) < m.lines.len()
    }
}

/// Where the next word starts, seen from place `p` (a column and a line of the buffer): the
/// start of the next word on the line, no further than its last byte; from the line's last two
/// columns (or past them), the start of the first word of the next line, or on the last line
/// its last byte. Rows of the screen are found as in `m_nextw_ending`.
pub open spec fn m_next_word_at(m: UiModel, p: (u16, u16)) -> (u16, u16) {
    let ls = abs_line_size(m, p.1 as int);
    let off = m.offset as u16;
    if p.0 + 2 >= ls {
        if p.1 < (m.lines.len() as u16) - 1 {
            let d = m.lines[m.offset + ((p.1 + 1 - off) as u16)].data;
            (next_word_begin(d.take(d.len() as u16 as int), 0) as u16, (p.1 + 1) as u16)
        } else {
            ((if ls > 0 { ls - 1 } else { 0 }) as u16, p.1)
        }
    } else {
        let d = m.lines[m.offset + ((p.1 - off) as u16)].data;
        let e = next_word_begin(d.take(d.len() as u16 as int), p.0 as int) as u16;
        ((if e < ls - 1 { e as int } else { ls - 1 }) as u16, p.1)
    }
}

/// Finding the end of a word `k` times, from place `p`.
pub open spec fn e_walk(m: UiModel, k: nat, p: (u16, u16)) -> (u16, u16)
    decreases k,
{
    if k == 0 {
        p
    } else {
        e_walk(m, (k - 1) as nat, m_nextw_ending(m, p.0, p.1))
    }
}

/// What finding the end of a word `k` times from place `p` needs.
pub open spec fn e_walk_ok(m: UiModel, k: nat, p: (u16, u16)) -> bool
    decreases k,
{
    k == 0 || (nextw_ending_ok(m, p.0, p.1) && e_walk_ok(m, (k - 1) as nat, m_nextw_ending(m, p.0, p.1)))
}

/// The column where the word starts that `b` moves back to on line `d` from column `x`:
/// column 0 when that word starts the line.
pub open spec fn prev_begin_or_start(d: Seq<u8>, x: int) -> usize {
    match prev_word_begin(d, x) {
        Some(i) => i as usize,
        None => 0usize,
    }
}

/// Where the word starts that `b` moves back to from column `x` of line `abs_y` of the
/// buffer: on the line, the start of the word before (see `prev_begin_or_start`); from the
/// start of a line, the same searched from the last byte of the line above; the start of the
/// first line stays where it is.
pub open spec fn m_prevw_begin(m: UiModel, x: u16, abs_y: u16) -> (u16, u16) {
    if x == 0 {
        if abs_y == 0 {
            (0u16, 0u16)
        } else {
            let last_y = (abs_y - 1) as u16;
            let e = (abs_line_size(m, last_y as int) - 1) as u16;
            (prev_begin_or_start(m.lines[last_y as int].data, e as int) as u16, last_y)
        }
    } else {
        (prev_begin_or_start(m.lines[abs_y as int].data, x as int) as u16, abs_y)
    }
}

/// What finding where `b` moves back to needs: the line searched is in the buffer, and the
/// column searched from lies on it.
pub open spec fn prevw_begin_ok(m: UiModel, x: u16, abs_y: u16) -> bool {
    if x == 0 {
        abs_y != 0 ==> abs_y - 1 < m.lines.len() && abs_line_size(m, abs_y - 1) >= 1
    } else {
        abs_y < m.lines.len() && x < m.lines[abs_y as int].data.len()
    }
}

/// Finding where `b` moves back to `k` times from place `p` (a column and a line of the
/// buffer).
pub open spec fn b_walk(m: UiModel, k: nat, p: (u16, u16)) -> (u16, u16)
    decreases k,
{
    if k == 0 {
        p
    } else {
        b_walk(m, (k - 1) as nat, m_prevw_begin(m, p.0, p.1))
    }
}

/// What finding where `b` moves back to `k` times from place `p` needs.
pub open spec fn b_walk_ok(m: UiModel, k: nat, p: (u16, u16)) -> bool
    decreases k,
{
    k == 0 || (prevw_begin_ok(m, p.0, p.1) && b_walk_ok(m, (k - 1) as nat, m_prevw_begin(m, p.0, p.1)))
}

/// The place `b` starts from: the cursor's column and its line of the buffer.
pub open spec fn b_start(m: UiModel) -> (u16, u16) {
    (col_of(m.cursor), (m.cursor.y + (m.offset as u16)) as u16)
}

/// What typing `b` needs: the cursor's line counted in 16 bits, and each search on the way.
pub open spec fn b_ok(s: NormalModel, m: UiModel) -> bool {
    &&& m.cursor.y + (m.offset as u16) <= u16::MAX
    &&& b_walk_ok(m, times(s), b_start(m))
}

/// `b` typed: starts the command when none has started, else the command acts back to the
/// start of a word; either way the place is recorded where the word starts, found the count's
/// times from the cursor (see `m_prevw_begin`).
pub open spec fn b_clicked(s: NormalModel, m: UiModel) -> NormalModel {
    let s1 = if s.cmdchar is None {
        NormalModel { cmdchar: Some('b'), ..s }
    } else {
        NormalModel { buf_op_arg: Some(BufOpArg::WordBegin), ..s }
    };
    NormalModel { end_pos: Some(b_walk(m, times(s), b_start(m))), ..s1 }
}

/// How many times a command runs: its count, or once.
pub open spec fn times(s: NormalModel) -> nat {
    match s.count {
        Some(c) => c as nat,
        None => 1,
    }
}

/// `e` typed: starts the command when none has started, else the command acts up to the end
/// of a word; either way the place is recorded where the end of a word is, found the count's
/// times from the cursor's column and row (the row taken as a line of the buffer).
pub open spec fn e_clicked(s: NormalModel, m: UiModel) -> NormalModel {
    let s1 = if s.cmdchar is None {
        NormalModel { cmdchar: Some('e'), ..s }
    } else {
        NormalModel { buf_op_arg: Some(BufOpArg::WordEnd), ..s }
    };
    NormalModel { end_pos: Some(e_walk(m, times(s), (col_of(m.cursor), m.cursor.y))), ..s1 }
}

/// `e` once the place is recorded: to its line (see `m_move_to_line`), then to its column.
pub open spec fn m_exec_e(m: UiModel, p: (u16, u16)) -> UiModel {
    let m1 = m_move_to_line(m, p.1);
    m_step(m1, sp_move_to_columu(m1.cursor, p.0, m.size))
}

/// What `e` needs once the place is recorded.
pub open spec fn exec_e_ok(m: UiModel, p: (u16, u16)) -> bool {
    &&& move_to_line_ok(m, p.1)
    &&& col_fits(m_move_to_line(m, p.1).cursor, p.0)
}

/// Running the command typed so far: the answer, the screen's state, and whether what was
/// typed is then forgotten (otherwise it is kept). See the `exec_*_cmd` functions; `y` and
/// `p` do nothing.
#[verifier::opaque]
pub open spec fn m_handle(s: NormalModel, m: UiModel) -> (WarpUiCallBackType, UiModel, bool) {
    let nothing = WarpUiCallBackType::Nothing;
    match s.cmdchar {
        None => (nothing, m, false),
        Some(c) => if c == 'h' {
            (nothing, m_exec_h(m, s.count), true)
        } else if c == 'j' {
            (nothing, m_vertical(m, j_target(m, s.count), m.cursor.y), true)
        } else if c == 'k' {
            (nothing, m_vertical(m, k_target(m, s.count), m.cursor.y), true)
        } else if c == 'l' {
            (nothing, m_exec_l(m, s.count), true)
        } else if c == 'i' {
            (WarpUiCallBackType::ChangMode(ModeType::Insert), m, true)
        } else if c == '0' {
            (nothing, m_step(m, sp_move_to_columu(m.cursor, 0, m.size)), true)
        } else if c == 'd' {
            if s.buf_op_arg == Some(BufOpArg::Line) {
                (nothing, m_remove_lines(m, lines_to_delete(m, count16(s))), true)
            } else if s.buf_op_arg == Some(BufOpArg::Word) {
                (nothing, m_remove_words(m, count16(s) as nat), true)
            } else {
                (nothing, m, false)
            }
        } else if c == 'w' {
            (nothing, m_next_words(m, match s.count { Some(c) => c as nat, None => 1 }), true)
        } else if c == 'g' {
            match s.end_pos {
                Some(p) => (nothing, m_gg(m, p), true),
                None => (nothing, m, false),
            }
        } else if c == 'e' || c == 'b' {
            match s.end_pos {
                Some(p) => (nothing, m_exec_e(m, p), true),
                None => (nothing, m, false),
            }
        } else if c == 'G' {
            (nothing, m_move_to_line(m, (match s.count { Some(c) => c - 1, None => m.lines.len() - 1 }) as u16), true)
        } else if c == '$' {
            (nothing, m_step(m, sp_move_to_columu(m.cursor, (line_size(m, m.cursor.y as int) - 1) as u16, m.size)), true)
        } else if c == 'f' || c == 'F' {
            let d = screen_line(m, m.cursor.y as int).data;
            let x = col_of(m.cursor) as int;
            let found = if c == 'f' { find_from(d, x, s.cmdbuf.last()) } else { find_before(d, x, s.cmdbuf.last()) };
            if s.cmdbuf.len() < 2 {
                (nothing, m, false)
            } else {
                match found {
                    Some(j) => (nothing, m_step(m, sp_move_to_columu(m.cursor, j as u16, m.size)), true),
                    None => (nothing, m, false),
                }
            }
        } else if c == 'x' {
            (nothing, m_delete_char(m), false)
        } else {
            (nothing, m, false)
        },
    }
}

/// `gg` once both are typed: to the recorded place `p`, with the text area shown around it and
/// redrawn from its row, and the lines highlighted anew.
pub open spec fn m_gg(m: UiModel, p: (u16, u16)) -> UiModel {
    let rows = text_rows(m.size) as u16;
    let off = goto_offset(m.lines.len(), p.1 as int, rows);
    let new_y = (goto_target(m.lines.len(), p.1 as int) - off) as u16;
    let m1 = UiModel { offset: off as usize, ..m };
    let m2 = m_step(m1, sp_move_to(m1.cursor, p.0, new_y, m.size));
    m_highlight(m_render(m2, new_y, rows as usize), Some(m.cursor.y))
}

/// What `gg` needs.
pub open spec fn gg_ok(m: UiModel, p: (u16, u16)) -> bool {
    let rows = text_rows(m.size) as u16;
    let off = goto_offset(m.lines.len(), p.1 as int, rows);
    let new_y = (goto_target(m.lines.len(), p.1 as int) - off) as u16;
    let m1 = UiModel { offset: off as usize, ..m };
    let m2 = m_step(m1, sp_move_to(m1.cursor, p.0, new_y, m.size));
    &&& ui_ok(m)
    &&& goto_ok(m.lines.len(), p.1 as int, rows)
    &&& p.0 + m.cursor.width <= u16::MAX
    &&& render_ok(m2, new_y, rows as usize)
}

/// What running the command typed so far needs.
#[verifier::opaque]
pub open spec fn handle_ok(s: NormalModel, m: UiModel) -> bool {
    match s.cmdchar {
        None => true,
        Some(c) => if c == 'h' || c == '0' {
            ui_ok(m)
        } else if c == 'j' {
            &&& ui_ok(m)
            &&& abs_row(m) <= u16::MAX
            &&& s.count is Some ==> abs_row(m) + 1 <= m.lines.len()
            &&& vertical_ok(m, j_target(m, s.count))
        } else if c == 'k' {
            &&& ui_ok(m)
            &&& abs_row(m) <= u16::MAX
            &&& k_target(m, s.count) >= 0
            &&& vertical_ok(m, k_target(m, s.count))
        } else if c == 'l' {
            ui_ok(m) && line_size(m, m.cursor.y as int) >= col_of(m.cursor) + 1
        } else if c == 'd' {
            &&& s.buf_op_arg == Some(BufOpArg::Line) ==> {
                &&& m.cursor.y <= (m.lines.len() as u16)
                &&& remove_lines_ok(m, lines_to_delete(m, count16(s)))
            }
            &&& s.buf_op_arg == Some(BufOpArg::Word) ==> remove_words_ok(m, count16(s) as nat)
        } else if c == 'w' {
            next_words_ok(m, match s.count { Some(c) => c as nat, None => 1 })
        } else if c == 'g' {
            s.end_pos matches Some(p) ==> gg_ok(m, p)
        } else if c == 'e' || c == 'b' {
            s.end_pos matches Some(p) ==> exec_e_ok(m, p)
        } else if c == 'G' {
            &&& s.count matches Some(c) ==> c >= 1
            &&& m.lines.len() >= 1
            &&& move_to_line_ok(m, (match s.count { Some(c) => c - 1, None => m.lines.len() - 1 }) as u16)
        } else if c == '$' {
            ui_ok(m) && line_size(m, m.cursor.y as int) >= 1
        } else if c == 'f' {
            let d = screen_line(m, m.cursor.y as int).data;
            let x = col_of(m.cursor) as int;
            &&& ui_ok(m)
            &&& s.cmdbuf.len() >= 2 ==> {
                &&& x <= d.len()
                &&& find_from(d, x, s.cmdbuf.last()) matches Some(j) ==> j + m.cursor.width <= u16::MAX
            }
        } else if c == 'F' {
            &&& ui_ok(m)
            &&& s.cmdbuf.len() >= 2 ==> col_of(m.cursor) <= screen_line(m, m.cursor.y as int).data.len()
        } else if c == 'x' {
            delete_char_ok(m)
        } else {
            true
        },
    }
}

/// The byte of the digit '0'.
pub const ZERO: u8 = 48;

impl NormalState {
    /// The state with nothing typed.
    pub open spec fn is_reset(&self) -> bool {
        self@ == reset_model()
    }

    /// A state with nothing typed.
    pub fn new() -> (r: NormalState)
        ensures
            r.is_reset(),
    {
        let r = NormalState {
            cmdchar: None,
            count: None,
            count0: false,
            start_pos: None,
            end_pos: None,
            cmdbuf: Vec::new(),
            buf_op_arg: None,
        };
        assert(r.cmdbuf@ =~= Seq::<u8>::empty());
        r
    }

    /// Forgets everything typed.
    pub fn reset(&mut self)
        ensures
            final(self).is_reset(),
    {
        self.cmdchar = None;
        self.count = None;
        self.count0 = false;
        self.start_pos = None;
        self.end_pos = None;
        self.cmdbuf.clear();
        self.buf_op_arg = None;
        assert(self.cmdbuf@ =~= Seq::<u8>::empty());
    }

    /// Records the typed bytes `data`.
    pub fn record_input(&mut self, data: &[u8])
        ensures
            final(self)@ == (NormalModel { cmdbuf: old(self)@.cmdbuf + data@, ..old(self)@ }),
    {
        let n = data.len();
        let ghost b0 = self.cmdbuf@;
        for i in 0..n
            invariant
                n == data@.len(),
                self.cmdbuf@ == b0 + data@.take(i as int),
                self.cmdchar == old(self).cmdchar,
                self.count == old(self).count,
                self.count0 == old(self).count0,
                self.start_pos == old(self).start_pos,
                self.end_pos == old(self).end_pos,
                self.buf_op_arg == old(self).buf_op_arg,
        {
            self.cmdbuf.push(data[i]);
            assert(self.cmdbuf@ =~= b0 + data@.take(i + 1));
        }
        assert(data@.take(n as int) =~= data@);
    }

    /// Sets the command letter `c` when no command has started.
    fn start_command(&mut self, c: char)
        ensures
            final(self)@ == started(old(self)@, c),
    {
        if self.cmdchar.is_none() {
            self.cmdchar = Some(c);
        }
    }

    /// 'h': move left, when no command has started.
    pub fn on_h_clicked(&mut self)
        ensures
            final(self)@ == started(old(self)@, 'h'),
    {
        self.start_command('h');
    }

    /// 'j': move down; it becomes the command whatever was typed before.
    pub fn on_j_clicked(&mut self)
        ensures
            final(self)@ == (NormalModel { cmdchar: Some('j'), ..old(self)@ }),
    {
        self.cmdchar = Some('j');
    }

    /// 'k': move up, when no command has started.
    pub fn on_k_clicked(&mut self)
        ensures
            final(self)@ == started(old(self)@, 'k'),
    {
        self.start_command('k');
    }

    /// 'l': move right, when no command has started.
    pub fn on_l_clicked(&mut self)
        ensures
            final(self)@ == started(old(self)@, 'l'),
    {
        self.start_command('l');
    }

    /// 'i': insert, when no command has started; otherwise the command acts inside quotes or
    /// brackets.
    pub fn on_i_clicked(&mut self)
        ensures
            final(self)@ == if old(self)@.cmdchar is None {
                NormalModel { cmdchar: Some('i'), ..old(self)@ }
            } else {
                NormalModel { buf_op_arg: Some(BufOpArg::Inside), ..old(self)@ }
            },
    {
        if self.cmdchar.is_none() {
            self.cmdchar = Some('i');
        } else {
            self.buf_op_arg = Some(BufOpArg::Inside);
        }
    }

    /// A digit from '1' to '9' (the first byte of `data`): the first digit starts the count,
    /// each further digit is appended to it; from now on '0' belongs to the count too.
    pub fn on_nonzero_clicked(&mut self, data: &[u8])
        requires
            data@.len() >= 1,
            data@[0] >= ZERO,
            old(self).count matches Some(c) ==> c * 10 + (data@[0] - ZERO) <= usize::MAX,
        ensures
            final(self)@ == nonzero_clicked(old(self)@, data@[0]),
    {
        let d = (data[0] - ZERO) as usize;
        match self.count {
            None => {
                self.count = Some(d);
            },
            Some(c) => {
                self.count = Some(c * 10 + d);
            },
        }
        self.count0 = true;
    }

    /// '0': the command that moves to the start of the line, when no command and no count has
    /// started; a count that has started is multiplied by ten.
    pub fn on_zero_clicked(&mut self)
        requires
            old(self).count matches Some(c) ==> c * 10 <= usize::MAX,
        ensures
            final(self)@ == zero_clicked(old(self)@),
    {
        if !self.count0 && self.cmdchar.is_none() {
            self.cmdchar = Some('0');
            self.count0 = true;
        }
        match self.count {
            Some(c) => {
                self.count = Some(c * 10);
            },
            None => {},
        }
    }

    /// 'd': starts a delete; a second 'd' deletes whole lines; after any other command letter
    /// everything typed is forgotten.
    pub fn on_d_clicked(&mut self)
        ensures
            final(self)@ == match old(self)@.cmdchar {
                None => NormalModel { cmdchar: Some('d'), ..old(self)@ },
                Some(c) => if c == 'd' {
                    NormalModel { buf_op_arg: Some(BufOpArg::Line), ..old(self)@ }
                } else {
                    reset_model()
                },
            },
    {
        match self.cmdchar {
            None => {
                self.cmdchar = Some('d');
            },
            Some('d') => {
                self.buf_op_arg = Some(BufOpArg::Line);
            },
            _ => {
                self.reset();
            },
        }
    }

    /// 'w': move by words when no command has started; otherwise the command acts on a word.
    pub fn on_w_clicked(&mut self)
        ensures
            final(self)@ == if old(self)@.cmdchar is None {
                NormalModel { cmdchar: Some('w'), ..old(self)@ }
            } else {
                NormalModel { buf_op_arg: Some(BufOpArg::Word), ..old(self)@ }
            },
    {
        if self.cmdchar.is_none() {
            self.cmdchar = Some('w');
        } else {
            self.buf_op_arg = Some(BufOpArg::Word);
        }
    }

    /// 'e': see `e_clicked`.
    pub fn on_e_clicked(&mut self, ui: &UiCore)
        requires
            e_walk_ok(ui@, times(old(self)@), (col_of(ui@.cursor), ui@.cursor.y)),
        ensures
            final(self)@ == e_clicked(old(self)@, ui@),
    {
        if self.cmdchar.is_none() {
            self.cmdchar = Some('e');
        } else {
            self.buf_op_arg = Some(BufOpArg::WordEnd);
        }
        let count: usize = match self.count {
            Some(c) => c,
            None => 1,
        };
        let mut pos: (u16, u16) = (ui.cursor.x(), ui.cursor.y());
        let ghost p0 = pos;
        let mut k: usize = 0;
        while k < count
            invariant
                k <= count,
                e_walk(ui@, count as nat, p0) == e_walk(ui@, (count - k) as nat, pos),
                e_walk_ok(ui@, (count - k) as nat, pos),
            decreases count - k,
        {
            pos = locate_nextw_ending(ui, pos.0, pos.1);
            k = k + 1;
        }
        self.end_pos = Some(pos);
    }

    /// 'b': see `b_clicked`.
    pub fn on_b_clicked(&mut self, ui: &UiCore)
        requires
            b_ok(old(self)@, ui@),
        ensures
            final(self)@ == b_clicked(old(self)@, ui@),
    {
        if self.cmdchar.is_none() {
            self.cmdchar = Some('b');
        } else {
            self.buf_op_arg = Some(BufOpArg::WordBegin);
        }
        let count: usize = match self.count {
            Some(c) => c,
            None => 1,
        };
        let mut pos: (u16, u16) = (ui.cursor.x(), ui.cursor.y() + ui.buffer.offset() as u16);
        let ghost p0 = pos;
        let mut k: usize = 0;
        while k < count
            invariant
                k <= count,
                b_walk(ui@, count as nat, p0) == b_walk(ui@, (count - k) as nat, pos),
                b_walk_ok(ui@, (count - k) as nat, pos),
            decreases count - k,
        {
            pos = locate_prevw_begin(ui, pos.0, pos.1);
            k = k + 1;
        }
        self.end_pos = Some(pos);
    }

    /// '$': move to the end of the line, when no command has started.
    pub fn on_dollar_clicked(&mut self)
        ensures
            final(self)@ == started(old(self)@, '$'),
    {
        self.start_command('$');
    }

    /// 'f': find a byte forward on the line, when no command has started.
    pub fn on_f_clicked(&mut self)
        ensures
            final(self)@ == started(old(self)@, 'f'),
    {
        self.start_command('f');
    }

    /// 'F': find a byte backward on the line, when no command has started.
    #[allow(non_snake_case)]
    pub fn on_F_clicked(&mut self)
        ensures
            final(self)@ == started(old(self)@, 'F'),
    {
        self.start_command('F');
    }

    /// 'x': delete the byte under the cursor, when no command has started.
    pub fn on_x_clicked(&mut self)
        ensures
            final(self)@ == started(old(self)@, 'x'),
    {
        self.start_command('x');
    }

    /// 'y': starts a copy; a second 'y' copies whole lines; after any other command letter
    /// nothing changes.
    pub fn on_y_clicked(&mut self)
        ensures
            final(self)@ == match old(self)@.cmdchar {
                None => NormalModel { cmdchar: Some('y'), ..old(self)@ },
                Some(c) => if c == 'y' {
                    NormalModel { buf_op_arg: Some(BufOpArg::Line), ..old(self)@ }
                } else {
                    old(self)@
                },
            },
    {
        match self.cmdchar {
            Some('y') => {
                self.buf_op_arg = Some(BufOpArg::Line);
            },
            None => {
                self.cmdchar = Some('y');
            },
            _ => {},
        }
    }

    /// 'p': paste, when no command has started.
    pub fn on_p_clicked(&mut self)
        ensures
            final(self)@ == started(old(self)@, 'p'),
    {
        self.start_command('p');
    }
}

/// Deletes the line under the cursor (see `m_remove_line`).
pub fn remove_line(ui: &mut UiCore)
    requires
        remove_line_ok(old(ui)@),
    ensures
        final(ui)@ == m_remove_line(old(ui)@),
{
    ui.op(CursorAction::ClearCurrentLine);
    ui.op(CursorAction::ClearUnderCursor);
    let y = ui.cursor.y() as usize;
    let old_line_count = ui.buffer.line_count();
    let old_offset = ui.buffer.offset();
    let count = old_line_count - y;
    ui.buffer.delete_line(y + old_offset);
    ui.render_content(y as u16, if count > 1 { count } else { 1 });
    if y + old_offset == old_line_count - 1 {
        up(ui);
    }
    if old_line_count == 1 {
        ui.c_move_to_columu(0);
        ui.buffer.insert_char(NEWLINE, 0, 0);
        ui.render_content(0, 1);
    }
}

/// Deletes up to `n` lines from the cursor's on (see `lines_to_delete`).
pub fn remove_n_line(ui: &mut UiCore, n: u16)
    requires
        old(ui)@.cursor.y <= (old(ui)@.lines.len() as u16),
        remove_lines_ok(old(ui)@, lines_to_delete(old(ui)@, n)),
    ensures
        final(ui)@ == m_remove_lines(old(ui)@, lines_to_delete(old(ui)@, n)),
{
    let linecount = ui.buffer.line_count() as u16;
    let y = ui.cursor.y();
    let avail = linecount - y;
    let to_delete = if n < avail { n } else { avail };
    let ghost m0 = ui@;
    let mut k: u16 = 0;
    while k < to_delete
        invariant
            k <= to_delete,
            to_delete == lines_to_delete(m0, n),
            m_remove_lines(m0, to_delete as nat) == m_remove_lines(ui@, (to_delete - k) as nat),
            remove_lines_ok(ui@, (to_delete - k) as nat),
        decreases to_delete - k,
    {
        remove_line(ui);
        k = k + 1;
    }
}

/// Deletes a word (see `m_remove_word`).
#[verifier::rlimit(40)]
pub fn remove_word(ui: &mut UiCore)
    requires
        remove_word_ok(old(ui)@),
    ensures
        final(ui)@ == m_remove_word(old(ui)@),
{
    let x = ui.cursor.x();
    let y = ui.cursor.y();
    let next_word_pos = ui.buffer.search_nextw_begin(x, y);
    let linesize = ui.linesize(y);
    if next_word_pos < linesize as usize {
        ui.buffer.remove_str(x, y, next_word_pos - x as usize);
    } else {
        left(ui);
        ui.buffer.delete_line(y as usize);
        down(ui);
    }
    ui.render_content(y, 1);
}

/// Where the end of a word is from column `x` of line `abs_y` of the buffer (see
/// `m_nextw_ending`).
pub fn locate_nextw_ending(ui: &UiCore, x: u16, abs_y: u16) -> (r: (u16, u16))
    requires
        nextw_ending_ok(ui@, x, abs_y),
    ensures
        r == m_nextw_ending(ui@, x, abs_y),
{
    let linesize = ui.buffer.get_linesize_abs(abs_y) as usize;
    if x as usize + 2 >= linesize {
        if abs_y < ui.buffer.line_count() as u16 - 1 {
            let offset = ui.buffer.offset() as u16;
            let next_end_pos = ui.buffer.search_nextw_end(0, abs_y + 1 - offset) as u16;
            return (next_end_pos, abs_y + 1);
        } else {
            let x = if linesize > 0 { linesize - 1 } else { 0 };
            return (x as u16, abs_y);
        }
    }
    let offset = ui.buffer.offset() as u16;
    let next_end_pos = ui.buffer.search_nextw_end(x, abs_y - offset) as u16;
    let last = linesize as u16 - 1;
    (if next_end_pos < last { next_end_pos } else { last }, abs_y)
}

/// Where the word starts that `b` moves back to from column `x` of line `abs_y` of the buffer
/// (see `m_prevw_begin`).
pub fn locate_prevw_begin(ui: &UiCore, x: u16, abs_y: u16) -> (r: (u16, u16))
    requires
        prevw_begin_ok(ui@, x, abs_y),
    ensures
        r == m_prevw_begin(ui@, x, abs_y),
{
    if x == 0 {
        if abs_y == 0 {
            return (0, 0);
        }
        let last_y = abs_y - 1;
        let end_of_prev_line = ui.buffer.get_linesize_abs(last_y) - 1;
        let prev_word_pos = ui.buffer.search_prevw_begin_abs(end_of_prev_line, last_y);
        return (prev_word_pos as u16, last_y);
    }
    let prev_word_pos = ui.buffer.search_prevw_begin_abs(x, abs_y);
    (prev_word_pos as u16, abs_y)
}

/// Where the next word starts from place `abs_pos` (see `m_next_word_at`).
pub fn locate_next_word(ui: &UiCore, abs_pos: (u16, u16)) -> (r: (u16, u16))
    requires
        nextw_ending_ok(ui@, abs_pos.0, abs_pos.1),
    ensures
        r == m_next_word_at(ui@, abs_pos),
{
    let linesize = ui.buffer.get_linesize_abs(abs_pos.1) as usize;
    if abs_pos.0 as usize + 2 >= linesize {
        if abs_pos.1 < ui.buffer.line_count() as u16 - 1 {
            let offset = ui.buffer.offset() as u16;
            let next_pos = ui.buffer.search_nextw_begin(0, abs_pos.1 + 1 - offset) as u16;
            return (next_pos, abs_pos.1 + 1);
        } else {
            let x = if linesize > 0 { linesize - 1 } else { 0 };
            return (x as u16, abs_pos.1);
        }
    }
    let offset = ui.buffer.offset() as u16;
    let next_pos = ui.buffer.search_nextw_begin(abs_pos.0, abs_pos.1 - offset) as u16;
    let last = linesize as u16 - 1;
    (if next_pos < last { next_pos } else { last }, abs_pos.1)
}

/// Jumps to line `line`, keeping the column where the line is long enough (see
/// `m_move_to_line`).
pub fn move_to_line(ui: &mut UiCore, line: u16)
    requires
        move_to_line_ok(old(ui)@, line),
    ensures
        final(ui)@ == m_move_to_line(old(ui)@, line),
{
    let x = ui.cursor.x();
    let y = ui.cursor.y();
    let rows = ui.content_rows();
    let new_y = ui.buffer.goto_line(line as usize, rows);
    let ls = ui.linesize(new_y);
    let new_x = if x < ls { x } else { ls };
    ui.c_move_to(new_x, new_y);
    ui.render_content(0, rows as usize);
    ui.c_highlight(Some(y));
}

fn vertical(ui: &mut UiCore, target: usize, old_y: u16)
    requires
        vertical_ok(old(ui)@, target as int),
        old_y == old(ui)@.cursor.y,
    ensures
        final(ui)@ == m_vertical(old(ui)@, target as int, old_y),
{
    let rows = ui.content_rows();
    let old_offset = ui.buffer.offset();
    let new_y = ui.buffer.goto_line(target, rows);
    let new_linesize = ui.linesize(new_y);
    let x = ui.cursor.x();
    let new_x = if new_linesize < x { new_linesize - 1 } else { x };
    ui.c_move_to(new_x, new_y);
    ui.c_highlight(Some(old_y));
    if ui.buffer.offset() != old_offset {
        ui.render_content(0, rows as usize);
    }
}

impl NormalState {
    /// `0`: to the first column; everything typed is forgotten.
    pub fn exec_0_cmd(&mut self, ui: &mut UiCore) -> (r: WarpUiCallBackType)
        requires
            ui_ok(old(ui)@),
        ensures
            r == WarpUiCallBackType::Nothing,
            final(ui)@ == m_step(old(ui)@, sp_move_to_columu(old(ui)@.cursor, 0, old(ui)@.size)),
            final(self).is_reset(),
    {
        ui.c_move_to_columu(0);
        self.reset();
        WarpUiCallBackType::Nothing
    }

    /// `h`: left by the count (see `m_exec_h`); everything typed is forgotten.
    pub fn exec_h_cmd(&mut self, ui: &mut UiCore) -> (r: WarpUiCallBackType)
        requires
            ui_ok(old(ui)@),
        ensures
            r == WarpUiCallBackType::Nothing,
            final(ui)@ == m_exec_h(old(ui)@, old(self).count),
            final(self).is_reset(),
    {
        let old_x = ui.cursor.x();
        let exec_count: usize = match self.count {
            Some(count) => if count < old_x as usize { count } else { old_x as usize },
            None => if old_x == 0 { 0 } else { 1 },
        };
        let new_x = old_x - exec_count as u16;
        ui.c_move_to_columu(new_x);
        self.reset();
        WarpUiCallBackType::Nothing
    }

    /// `j`: down by the count (see `j_target` and `m_vertical`); everything typed is forgotten.
    pub fn exec_j_cmd(&mut self, ui: &mut UiCore) -> (r: WarpUiCallBackType)
        requires
            ui_ok(old(ui)@),
            abs_row(old(ui)@) <= u16::MAX,
            old(self).count is Some ==> abs_row(old(ui)@) + 1 <= old(ui)@.lines.len(),
            vertical_ok(old(ui)@, j_target(old(ui)@, old(self).count)),
        ensures
            r == WarpUiCallBackType::Nothing,
            final(ui)@ == m_vertical(old(ui)@, j_target(old(ui)@, old(self).count), old(ui)@.cursor.y),
            final(self).is_reset(),
    {
        let old_y = ui.cursor.y();
        let old_abs_y = old_y + ui.buffer.offset() as u16;
        let exec_count: usize = match self.count {
            Some(count) => {
                let rest = ui.buffer.line_count() - old_abs_y as usize - 1;
                if count < rest { count } else { rest }
            },
            None => 1,
        };
        vertical(ui, old_abs_y as usize + exec_count, old_y);
        self.reset();
        WarpUiCallBackType::Nothing
    }

    /// `k`: up by the count (see `k_target` and `m_vertical`); everything typed is forgotten.
    pub fn exec_k_cmd(&mut self, ui: &mut UiCore) -> (r: WarpUiCallBackType)
        requires
            ui_ok(old(ui)@),
            abs_row(old(ui)@) <= u16::MAX,
            k_target(old(ui)@, old(self).count) >= 0,
            vertical_ok(old(ui)@, k_target(old(ui)@, old(self).count)),
        ensures
            r == WarpUiCallBackType::Nothing,
            final(ui)@ == m_vertical(old(ui)@, k_target(old(ui)@, old(self).count), old(ui)@.cursor.y),
            final(self).is_reset(),
    {
        let old_y = ui.cursor.y();
        let old_abs_y = old_y + ui.buffer.offset() as u16;
        let exec_count: usize = match self.count {
            Some(count) => {
                let most = old_y as usize + ui.buffer.offset();
                if count < most { count } else { most }
            },
            None => if old_abs_y == 0 { 0 } else { 1 },
        };
        vertical(ui, old_abs_y as usize - exec_count, old_y);
        self.reset();
        WarpUiCallBackType::Nothing
    }

    /// `l`: right by the count (see `m_exec_l`); everything typed is forgotten.
    pub fn exec_l_cmd(&mut self, ui: &mut UiCore) -> (r: WarpUiCallBackType)
        requires
            ui_ok(old(ui)@),
            line_size(old(ui)@, old(ui)@.cursor.y as int) >= col_of(old(ui)@.cursor) + 1,
        ensures
            r == WarpUiCallBackType::Nothing,
            final(ui)@ == m_exec_l(old(ui)@, old(self).count),
            final(self).is_reset(),
    {
        let old_x = ui.cursor.x();
        let linesize = ui.linesize(ui.cursor.y()) as usize;
        let max_count = linesize - old_x as usize - 1;
        let exec_count: usize = match self.count {
            Some(count) => if count < max_count { count } else { max_count },
            None => if old_x == linesize as u16 - 1 { 0 } else { 1 },
        };
        let new_x = old_x + exec_count as u16;
        ui.c_move_to_columu(new_x);
        self.reset();
        WarpUiCallBackType::Nothing
    }

    /// `i`: typing starts; everything typed is forgotten.
    pub fn exec_i_cmd(&mut self) -> (r: WarpUiCallBackType)
        ensures
            r == WarpUiCallBackType::ChangMode(ModeType::Insert),
            final(self).is_reset(),
    {
        self.exit(WarpUiCallBackType::ChangMode(ModeType::Insert))
    }

    /// `$`: to the line's last column; everything typed is forgotten.
    pub fn exec_dollar_cmd(&mut self, ui: &mut UiCore) -> (r: WarpUiCallBackType)
        requires
            ui_ok(old(ui)@),
            line_size(old(ui)@, old(ui)@.cursor.y as int) >= 1,
        ensures
            r == WarpUiCallBackType::Nothing,
            final(ui)@ == m_step(old(ui)@, sp_move_to_columu(old(ui)@.cursor, (line_size(old(ui)@, old(ui)@.cursor.y as int) - 1) as u16, old(ui)@.size)),
            final(self).is_reset(),
    {
        let line_end = ui.linesize(ui.cursor.y()) - 1;
        ui.c_move_to_columu(line_end);
        self.reset();
        WarpUiCallBackType::Nothing
    }

    /// `e` once the place is recorded (see `m_exec_e`); everything typed is then forgotten.
    /// Nothing before.
    pub fn exec_e_cmd(&mut self, ui: &mut UiCore) -> (r: WarpUiCallBackType)
        requires
            old(self).end_pos matches Some(p) ==> exec_e_ok(old(ui)@, p),
        ensures
            r == WarpUiCallBackType::Nothing,
            match old(self).end_pos {
                Some(p) => final(ui)@ == m_exec_e(old(ui)@, p) && final(self).is_reset(),
                None => final(ui)@ == old(ui)@ && *final(self) == *old(self),
            },
    {
        match self.end_pos {
            None => WarpUiCallBackType::Nothing,
            Some(p) => {
                move_to_line(ui, p.1);
                ui.c_move_to_columu(p.0);
                self.reset();
                WarpUiCallBackType::Nothing
            },
        }
    }

    /// `b` once the place is recorded: to its line, then to its column, as `e` does (see
    /// `m_exec_e`); everything typed is then forgotten. Nothing before.
    pub fn exec_b_cmd(&mut self, ui: &mut UiCore) -> (r: WarpUiCallBackType)
        requires
            old(self).end_pos matches Some(p) ==> exec_e_ok(old(ui)@, p),
        ensures
            r == WarpUiCallBackType::Nothing,
            match old(self).end_pos {
                Some(p) => final(ui)@ == m_exec_e(old(ui)@, p) && final(self).is_reset(),
                None => final(ui)@ == old(ui)@ && *final(self) == *old(self),
            },
    {
        match self.end_pos {
            None => WarpUiCallBackType::Nothing,
            Some(p) => {
                move_to_line(ui, p.1);
                ui.c_move_to_columu(p.0);
                self.reset();
                WarpUiCallBackType::Nothing
            },
        }
    }

    /// `x`: deletes the byte under the cursor (see `m_delete_char`); what was typed is kept.
    pub fn exec_x_cmd(&mut self, ui: &mut UiCore) -> (r: WarpUiCallBackType)
        requires
            delete_char_ok(old(ui)@),
        ensures
            r == WarpUiCallBackType::Nothing,
            final(ui)@ == m_delete_char(old(ui)@),
            *final(self) == *old(self),
    {
        let y = ui.cursor.y();
        let x = ui.cursor.x();
        if x < ui.linesize(y) - 1 {
            ui.buffer.remove_char(x, y);
            ui.render_content(y, 1);
        }
        WarpUiCallBackType::Nothing
    }

    /// `f` followed by a byte: to the first column from the cursor's on holding that byte (the
    /// last byte typed); nothing, keeping what was typed, before a byte follows or when none
    /// is found. Once found, everything typed is forgotten.
    pub fn exec_f_cmd(&mut self, ui: &mut UiCore) -> (r: WarpUiCallBackType)
        requires
            ui_ok(old(ui)@),
            ({
                let d = screen_line(old(ui)@, old(ui)@.cursor.y as int).data;
                let x = col_of(old(ui)@.cursor) as int;
                old(self).cmdbuf@.len() >= 2 ==> {
                    &&& x <= d.len()
                    &&& find_from(d, x, old(self).cmdbuf@.last()) matches Some(j) ==> j + old(ui)@.cursor.width <= u16::MAX
                }
            }),
        ensures
            r == WarpUiCallBackType::Nothing,
            ({
                let d = screen_line(old(ui)@, old(ui)@.cursor.y as int).data;
                let x = col_of(old(ui)@.cursor) as int;
                if old(self).cmdbuf@.len() < 2 {
                    final(ui)@ == old(ui)@ && *final(self) == *old(self)
                } else {
                    match find_from(d, x, old(self).cmdbuf@.last()) {
                        Some(j) => final(ui)@ == m_step(old(ui)@, sp_move_to_columu(old(ui)@.cursor, j as u16, old(ui)@.size)) && final(self).is_reset(),
                        None => final(ui)@ == old(ui)@ && *final(self) == *old(self),
                    }
                }
            }),
    {
        if self.cmdbuf.len() < 2 {
            return WarpUiCallBackType::Nothing;
        }
        let to_find = self.cmdbuf[self.cmdbuf.len() - 1];
        let old_x = ui.cursor.x();
        let old_y = ui.cursor.y();
        let line = ui.buffer.get_line(old_y).data;
        let ghost d = line@;
        let n = line.len();
        let mut j = old_x as usize;
        while j < n && line[j] != to_find
            invariant
                old_x <= j <= n,
                n == d.len(),
                d == line@,
                find_from(d, old_x as int, to_find) == find_from(d, j as int, to_find),
            decreases n - j,
        {
            j = j + 1;
        }
        if j >= n {
            return WarpUiCallBackType::Nothing;
        }
        ui.c_move_to_columu(old_x + (j - old_x as usize) as u16);
        self.reset();
        WarpUiCallBackType::Nothing
    }

    /// `F` followed by a byte: to the last column before the cursor's holding that byte (the
    /// last byte typed); nothing, keeping what was typed, before a byte follows or when none
    /// is found. Once found, everything typed is forgotten.
    #[allow(non_snake_case)]
    pub fn exec_F_cmd(&mut self, ui: &mut UiCore) -> (r: WarpUiCallBackType)
        requires
            ui_ok(old(ui)@),
            old(self).cmdbuf@.len() >= 2 ==> col_of(old(ui)@.cursor) <= screen_line(old(ui)@, old(ui)@.cursor.y as int).data.len(),
        ensures
            r == WarpUiCallBackType::Nothing,
            ({
                let d = screen_line(old(ui)@, old(ui)@.cursor.y as int).data;
                let x = col_of(old(ui)@.cursor) as int;
                if old(self).cmdbuf@.len() < 2 {
                    final(ui)@ == old(ui)@ && *final(self) == *old(self)
                } else {
                    match find_before(d, x, old(self).cmdbuf@.last()) {
                        Some(j) => final(ui)@ == m_step(old(ui)@, sp_move_to_columu(old(ui)@.cursor, j as u16, old(ui)@.size)) && final(self).is_reset(),
                        None => final(ui)@ == old(ui)@ && *final(self) == *old(self),
                    }
                }
            }),
    {
        if self.cmdbuf.len() < 2 {
            return WarpUiCallBackType::Nothing;
        }
        let to_find = self.cmdbuf[self.cmdbuf.len() - 1];
        let old_x = ui.cursor.x();
        let old_y = ui.cursor.y();
        let line = ui.buffer.get_line(old_y).data;
        let ghost d = line@;
        let mut j = old_x as usize;
        while j > 0 && line[j - 1] != to_find
            invariant
                j <= old_x <= d.len(),
                d == line@,
                find_before(d, old_x as int, to_find) == find_before(d, j as int, to_find),
            decreases j,
        {
            j = j - 1;
        }
        if j == 0 {
            return WarpUiCallBackType::Nothing;
        }
        ui.c_move_to_columu((j - 1) as u16);
        self.reset();
        WarpUiCallBackType::Nothing
    }

    /// `dd` or `dw` with a count (cut to 16 bits): deletes that many lines (see
    /// `lines_to_delete`) or words, then forgets everything typed; with no line or word
    /// chosen, nothing happens and what was typed is kept.
    pub fn exec_d_cmd(&mut self, ui: &mut UiCore) -> (r: WarpUiCallBackType)
        requires
            ({
                let n: u16 = match old(self).count { Some(c) => c as u16, None => 1 };
                &&& old(self).buf_op_arg == Some(BufOpArg::Line) ==> {
                    &&& old(ui)@.cursor.y <= (old(ui)@.lines.len() as u16)
                    &&& remove_lines_ok(old(ui)@, lines_to_delete(old(ui)@, n))
                }
                &&& old(self).buf_op_arg == Some(BufOpArg::Word) ==> remove_words_ok(old(ui)@, n as nat)
            }),
        ensures
            r == WarpUiCallBackType::Nothing,
            ({
                let n: u16 = match old(self).count { Some(c) => c as u16, None => 1 };
                if old(self).buf_op_arg == Some(BufOpArg::Line) {
                    final(ui)@ == m_remove_lines(old(ui)@, lines_to_delete(old(ui)@, n)) && final(self).is_reset()
                } else if old(self).buf_op_arg == Some(BufOpArg::Word) {
                    final(ui)@ == m_remove_words(old(ui)@, n as nat) && final(self).is_reset()
                } else {
                    final(ui)@ == old(ui)@ && *final(self) == *old(self)
                }
            }),
    {
        let count: u16 = match self.count {
            Some(count) => count as u16,
            None => 1,
        };
        match self.buf_op_arg {
            Some(BufOpArg::Line) => {
                remove_n_line(ui, count);
                self.reset();
            },
            Some(BufOpArg::Word) => {
                let ghost m0 = ui@;
                let mut k: u16 = 0;
                while k < count
                    invariant
                        k <= count,
                        m_remove_words(m0, count as nat) == m_remove_words(ui@, (count - k) as nat),
                        remove_words_ok(ui@, (count - k) as nat),
                    decreases count - k,
                {
                    remove_word(ui);
                    k = k + 1;
                }
                self.reset();
            },
            _ => {},
        }
        WarpUiCallBackType::Nothing
    }

    /// `w` with a count: to the start of the next word that many times (once without a
    /// count); everything typed is forgotten.
    pub fn exec_w_cmd(&mut self, ui: &mut UiCore) -> (r: WarpUiCallBackType)
        requires
            next_words_ok(old(ui)@, match old(self).count { Some(c) => c as nat, None => 1 }),
        ensures
            r == WarpUiCallBackType::Nothing,
            final(ui)@ == m_next_words(old(ui)@, match old(self).count { Some(c) => c as nat, None => 1 }),
            final(self).is_reset(),
    {
        let count: usize = match self.count {
            Some(count) => count,
            None => 1,
        };
        let ghost m0 = ui@;
        let mut k: usize = 0;
        let cmd = Command;
        while k < count
            invariant
                k <= count,
                m_next_words(m0, count as nat) == m_next_words(ui@, (count - k) as nat),
                next_words_ok(ui@, (count - k) as nat),
            decreases count - k,
        {
            cmd.jump_to_next_word(ui);
            k = k + 1;
        }
        self.reset();
        WarpUiCallBackType::Nothing
    }

    /// `gg`: records where the second `g` goes (the first line, at the cursor's column or the
    /// line's last, whichever is less); a first `g` only starts the command.
    pub fn on_g_clicked(&mut self, ui: &UiCore)
        requires
            old(self).cmdchar is Some ==> ui_ok(ui@) && line_size(ui@, 0) >= 1,
        ensures
            final(self)@ == if old(self)@.cmdchar is None {
                NormalModel { cmdchar: Some('g'), ..old(self)@ }
            } else {
                let last = line_size(ui@, 0) - 1;
                NormalModel {
                    end_pos: Some(((if col_of(ui@.cursor) < last { col_of(ui@.cursor) as int } else { last }) as u16, 0u16)),
                    ..old(self)@
                }
            },
    {
        if self.cmdchar.is_none() {
            self.cmdchar = Some('g');
        } else {
            let first_line_size = ui.linesize(0);
            let x = ui.cursor.x();
            let last = first_line_size - 1;
            self.end_pos = Some((if x < last { x } else { last }, 0));
        }
    }

    /// `gg` once both are typed: to the recorded place, with the text area shown around it and
    /// redrawn from its row, and the lines highlighted anew; everything typed is forgotten.
    /// Nothing before the second `g`.
    pub fn exec_g_cmd(&mut self, ui: &mut UiCore) -> (r: WarpUiCallBackType)
        requires
            old(self).end_pos matches Some(p) ==> {
                let m = old(ui)@;
                let rows = text_rows(m.size) as u16;
                let off = goto_offset(m.lines.len(), p.1 as int, rows);
                let new_y = (goto_target(m.lines.len(), p.1 as int) - off) as u16;
                let m1 = UiModel { offset: off as usize, ..m };
                let m2 = m_step(m1, sp_move_to(m1.cursor, p.0, new_y, m.size));
                &&& ui_ok(m)
                &&& goto_ok(m.lines.len(), p.1 as int, rows)
                &&& p.0 + m.cursor.width <= u16::MAX
                &&& render_ok(m2, new_y, rows as usize)
            },
        ensures
            r == WarpUiCallBackType::Nothing,
            match old(self).end_pos {
                Some(p) => {
                    let m = old(ui)@;
                    let rows = text_rows(m.size) as u16;
                    let off = goto_offset(m.lines.len(), p.1 as int, rows);
                    let new_y = (goto_target(m.lines.len(), p.1 as int) - off) as u16;
                    let m1 = UiModel { offset: off as usize, ..m };
                    let m2 = m_step(m1, sp_move_to(m1.cursor, p.0, new_y, m.size));
                    &&& final(ui)@ == m_highlight(m_render(m2, new_y, rows as usize), Some(m.cursor.y))
                    &&& final(self).is_reset()
                },
                None => final(ui)@ == old(ui)@ && *final(self) == *old(self),
            },
    {
        match self.end_pos {
            None => WarpUiCallBackType::Nothing,
            Some(p) => {
                let old_y = ui.cursor.y();
                let rows = ui.content_rows();
                let y = ui.buffer.goto_line(p.1 as usize, rows);
                ui.c_move_to(p.0, y);
                ui.render_content(y, rows as usize);
                ui.c_highlight(Some(old_y));
                self.reset();
                WarpUiCallBackType::Nothing
            },
        }
    }

    /// `G`, when no command has started.
    #[allow(non_snake_case)]
    pub fn on_G_clicked(&mut self)
        ensures
            final(self)@ == started(old(self)@, 'G'),
    {
        self.start_command('G');
    }

    /// `G` with a count: to that line (counted from 1), or to the last line without a count,
    /// keeping the column where the line is long enough (see `m_move_to_line`); everything
    /// typed is forgotten.
    #[allow(non_snake_case)]
    pub fn exec_G_cmd(&mut self, ui: &mut UiCore) -> (r: WarpUiCallBackType)
        requires
            old(self).count matches Some(c) ==> c >= 1,
            old(ui)@.lines.len() >= 1,
            move_to_line_ok(old(ui)@, (match old(self).count { Some(c) => c - 1, None => old(ui)@.lines.len() - 1 }) as u16),
        ensures
            r == WarpUiCallBackType::Nothing,
            final(ui)@ == m_move_to_line(old(ui)@, (match old(self).count { Some(c) => c - 1, None => old(ui)@.lines.len() - 1 }) as u16),
            final(self).is_reset(),
    {
        let lineidx: usize = match self.count {
            Some(count) => count - 1,
            None => ui.buffer.line_count() - 1,
        };
        move_to_line(ui, lineidx as u16);
        self.reset();
        WarpUiCallBackType::Nothing
    }

    /// Forgets everything typed and answers `callback`.
    pub fn exit(&mut self, callback: WarpUiCallBackType) -> (r: WarpUiCallBackType)
        ensures
            r == callback,
            final(self).is_reset(),
    {
        self.reset();
        callback
    }
}

impl NormalState {
    /// Runs the command typed so far (see `m_handle`).
    pub fn handle(&mut self, ui: &mut UiCore) -> (r: WarpUiCallBackType)
        requires
            handle_ok(old(self)@, old(ui)@),
        ensures
            ({
                let h = m_handle(old(self)@, old(ui)@);
                &&& r == h.0
                &&& final(ui)@ == h.1
                &&& final(self)@ == if h.2 { reset_model() } else { old(self)@ }
            }),
    {
        proof {
            reveal(m_handle);
            reveal(handle_ok);
        }
        let c = match self.cmdchar {
            None => return WarpUiCallBackType::Nothing,
            Some(c) => c,
        };
        if c == 'h' {
            self.exec_h_cmd(ui)
        } else if c == 'j' {
            self.exec_j_cmd(ui)
        } else if c == 'k' {
            self.exec_k_cmd(ui)
        } else if c == 'l' {
            self.exec_l_cmd(ui)
        } else if c == 'i' {
            self.exec_i_cmd()
        } else if c == '0' {
            self.exec_0_cmd(ui)
        } else if c == 'd' {
            self.exec_d_cmd(ui)
        } else if c == 'w' {
            self.exec_w_cmd(ui)
        } else if c == 'g' {
            self.exec_g_cmd(ui)
        } else if c == 'e' {
            self.exec_e_cmd(ui)
        } else if c == 'b' {
            self.exec_b_cmd(ui)
        } else if c == 'G' {
            self.exec_G_cmd(ui)
        } else if c == '$' {
            self.exec_dollar_cmd(ui)
        } else if c == 'f' {
            self.exec_f_cmd(ui)
        } else if c == 'F' {
            self.exec_F_cmd(ui)
        } else if c == 'x' {
            self.exec_x_cmd(ui)
        } else {
            WarpUiCallBackType::Nothing
        }
    }
}

impl Normal {
    /// Updates the command typed so far with the key `data` (see `n_key`).
    fn key(&self, ui: &UiCore, state: &mut NormalState, data: &[u8])
        requires
            n_key_ok(old(state)@, data@, ui@),
        ensures
            final(state)@ == n_key(old(state)@, data@, ui@),
    {
        state.record_input(data);
        if data.len() == 1 {
            let k = data[0];
            if k == ('h' as u8) {
                state.on_h_clicked();
            } else if k == ('j' as u8) {
                state.on_j_clicked();
            } else if k == ('k' as u8) {
                state.on_k_clicked();
            } else if k == ('l' as u8) {
                state.on_l_clicked();
            } else if k == ('i' as u8) {
                state.on_i_clicked();
            } else if k == ('d' as u8) {
                state.on_d_clicked();
            } else if ('1' as u8) <= k && k <= ('9' as u8) {
                state.on_nonzero_clicked(data);
            } else if k == ZERO {
                state.on_zero_clicked();
            } else if k == ('w' as u8) {
                state.on_w_clicked();
            } else if k == ('g' as u8) {
                state.on_g_clicked(ui);
            } else if k == ('G' as u8) {
                state.on_G_clicked();
            } else if k == ('e' as u8) {
                state.on_e_clicked(ui);
            } else if k == ('b' as u8) {
                state.on_b_clicked(ui);
            } else if k == ('$' as u8) {
                state.on_dollar_clicked();
            } else if k == ('f' as u8) {
                state.on_f_clicked();
            } else if k == ('F' as u8) {
                state.on_F_clicked();
            } else if k == ('x' as u8) {
                state.on_x_clicked();
            } else if k == ('y' as u8) {
                state.on_y_clicked();
            } else if k == ('p' as u8) {
                state.on_p_clicked();
            }
        }
    }

    /// A key `data` typed in Normal mode, with `state` the command typed so far: the key
    /// updates the command (see `n_key`); `:` with no command started stores the cursor's
    /// position and opens the command line; otherwise the command runs (see `m_handle`).
    pub fn input_data(&self, ui: &mut UiCore, state: &mut NormalState, data: &[u8]) -> (r: WarpUiCallBackType)
        requires
            normal_input_ok(old(state)@, old(ui)@, data@),
        ensures
            (r, final(ui)@, final(state)@) == normal_input(old(state)@, old(ui)@, data@),
    {
        if data.len() == 1 && data[0] == (':' as u8) {
            assert(data@ =~= seq![(':' as u8)]);
            state.record_input(data);
            if state.cmdchar.is_none() {
                ui.c_store_pos();
                return WarpUiCallBackType::ChangMode(ModeType::LastLine);
            }
        } else {
            assert(data@ != seq![(':' as u8)]);
            self.key(ui, state, data);
        }
        state.handle(ui)
    }
}

/// A key `data` typed in Normal mode, with `s` the command typed so far: the answer, the
/// screen, and the command then typed. The key updates the command (see `n_key`); `:` with no
/// command started stores the cursor's position and opens the command line; otherwise the
/// command runs (see `m_handle`), and what was typed is forgotten when it says so.
pub open spec fn normal_input(s: NormalModel, m: UiModel, data: Seq<u8>) -> (WarpUiCallBackType, UiModel, NormalModel) {
    let s1 = n_key(s, data, m);
    if data == seq![(':' as u8)] && s1.cmdchar is None {
        (WarpUiCallBackType::ChangMode(ModeType::LastLine), UiModel { cursor: sp_store_pos(m.cursor), ..m }, s1)
    } else {
        let h = m_handle(s1, m);
        (h.0, h.1, if h.2 { reset_model() } else { s1 })
    }
}

/// What a key typed in Normal mode needs: what the key needs before the command runs, and
/// then either no position stored yet for `:`, or what the command needs.
pub open spec fn normal_input_ok(s: NormalModel, m: UiModel, data: Seq<u8>) -> bool {
    let s1 = n_key(s, data, m);
    &&& n_key_ok(s, data, m)
    &&& if data == seq![(':' as u8)] && s1.cmdchar is None {
        !m.cursor.stored
    } else {
        handle_ok(s1, m)
    }
}

/// The state after a digit from '1' to '9' is typed: it starts the count or is appended to it.
pub open spec fn nonzero_clicked(s: NormalModel, d: u8) -> NormalModel {
    NormalModel {
        count: Some(
            match s.count {
                Some(c) => (c * 10 + (d - ZERO)) as usize,
                None => (d - ZERO) as usize,
            },
        ),
        count0: true,
        ..s
    }
}

/// The state after '0' is typed: the command '0' when nothing has started, and a count that
/// has started multiplied by ten.
pub open spec fn zero_clicked(s: NormalModel) -> NormalModel {
    let s1 = if !s.count0 && s.cmdchar is None {
        NormalModel { cmdchar: Some('0'), count0: true, ..s }
    } else {
        s
    };
    NormalModel { count: match s.count { Some(c) => Some((c * 10) as usize), None => None }, ..s1 }
}

/// The state after the digits `ds` are typed one by one from `s`, each by `on_zero_clicked`
/// or `on_nonzero_clicked`.
pub open spec fn typed_digits(s: NormalModel, ds: Seq<u8>) -> NormalModel
    decreases ds.len(),
{
    if ds.len() == 0 {
        s
    } else {
        let t = typed_digits(s, ds.drop_last());
        if ds.last() == ZERO {
            zero_clicked(t)
        } else {
            nonzero_clicked(t, ds.last())
        }
    }
}

/// The count a sequence of digits makes: each digit appends to the number before it.
pub open spec fn count_of(digits: Seq<u8>) -> int
    decreases digits.len(),
{
    if digits.len() == 0 {
        0
    } else {
        count_of(digits.drop_last()) * 10 + (digits.last() - ZERO)
    }
}

/// Typing a count digit by digit gives the decimal number the digits spell: after the first
/// digit `d` the count is `d`, and each next digit `e` turns a count `c` into `c * 10 + e`, so
/// after digits `ds` (the first not '0') the count is `count_of(ds)`.
pub proof fn law_count_is_decimal(ds: Seq<u8>, e: u8)
    requires
        ds.len() >= 1,
        e >= ZERO,
    ensures
        count_of(ds.push(e)) == count_of(ds) * 10 + (e - ZERO),
        count_of(seq![e]) == e - ZERO,
{
    assert(ds.push(e).drop_last() =~= ds);
    assert(seq![e].drop_last() =~= Seq::<u8>::empty());
    assert(count_of(Seq::<u8>::empty()) == 0);
    assert(seq![e].last() == e);
}

/// Typing a number digit by digit from a state with nothing typed gives it as the count,
/// whatever number of digits it has, and starts no command: a '0' inside the number belongs
/// to it.
pub proof fn law_typed_count(ds: Seq<u8>)
    requires
        ds.len() >= 1,
        ZERO < ds[0],
        forall|i: int| 0 <= i < ds.len() ==> ZERO <= #[trigger] ds[i] <= ZERO + 9,
        count_of(ds) <= usize::MAX,
    ensures
        typed_digits(reset_model(), ds).count == Some(count_of(ds) as usize),
        typed_digits(reset_model(), ds).cmdchar is None,
    decreases ds.len(),
{
    let t = typed_digits(reset_model(), ds.drop_last());
    assert(count_of(ds) == count_of(ds.drop_last()) * 10 + (ds.last() - ZERO));
    if ds.len() == 1 {
        assert(ds.drop_last().len() == 0);
        assert(t == reset_model());
        assert(count_of(ds.drop_last()) == 0);
    } else {
        let p = ds.drop_last();
        assert(p[0] == ds[0]);
        assert forall|i: int| 0 <= i < p.len() implies ZERO <= #[trigger] p[i] <= ZERO + 9 by {
            assert(p[i] == ds[i]);
        }
        lemma_count_of_nonneg(p);
        law_typed_count(p);
    }
}

/// A sequence of digits counts to no less than zero.
proof fn lemma_count_of_nonneg(ds: Seq<u8>)
    requires
        forall|i: int| 0 <= i < ds.len() ==> ZERO <= #[trigger] ds[i],
    ensures
        count_of(ds) >= 0,
    decreases ds.len(),
{
    if ds.len() > 0 {
        let p = ds.drop_last();
        assert forall|i: int| 0 <= i < p.len() implies ZERO <= #[trigger] p[i] by {
            assert(p[i] == ds[i]);
        }
        lemma_count_of_nonneg(p);
        assert(ds.last() == ds[ds.len() - 1]);
    }
}

/// A vertical move to line `target` lands on it, or on the last line when `target` lies past
/// the end: the line shown at the top of the screen and the cursor's row add up to it.
pub proof fn lemma_vertical_lands(m: UiModel, target: int, old_y: u16)
    requires
        vertical_ok(m, target),
    ensures
        m_vertical(m, target, old_y).offset + m_vertical(m, target, old_y).cursor.y == if target
            < m.lines.len() {
            target
        } else {
            m.lines.len() - 1
        },
{
    let rows = text_rows(m.size) as u16;
    let len = m.lines.len();
    let off = goto_offset(len, target, rows);
    let t = goto_target(len, target);
    assert(0 <= off <= t);
    assert(t - off < rows);
}

/// `k` with a count `c` (one without a count) moves up `c` lines, or to the first line when
/// fewer than `c` lie above: the cursor's line drops by `min(c, line)`.
pub proof fn law_k_moves_up_by_count(m: UiModel, count: Option<usize>)
    requires
        vertical_ok(m, k_target(m, count)),
        abs_row(m) == m.offset + m.cursor.y,
        m.offset + m.cursor.y < m.lines.len(),
    ensures
        ({
            let a = m.offset + m.cursor.y;
            let c: int = match count {
                Some(c) => c as int,
                None => 1,
            };
            let r = m_vertical(m, k_target(m, count), m.cursor.y);
            r.offset + r.cursor.y == if c <= a { a - c } else { 0 }
        }),
{
    lemma_vertical_lands(m, k_target(m, count), m.cursor.y);
}

/// `j` with a count `c` (one without a count) moves down `c` lines, or to the last line when
/// fewer than `c` lie below.
pub proof fn law_j_moves_down_by_count(m: UiModel, count: Option<usize>)
    requires
        vertical_ok(m, j_target(m, count)),
        abs_row(m) == m.offset + m.cursor.y,
        m.offset + m.cursor.y < m.lines.len(),
    ensures
        ({
            let a = m.offset + m.cursor.y;
            let c: int = match count {
                Some(c) => c as int,
                None => 1,
            };
            let r = m_vertical(m, j_target(m, count), m.cursor.y);
            r.offset + r.cursor.y == if a + c <= m.lines.len() - 1 { a + c } else { m.lines.len() - 1 }
        }),
{
    lemma_vertical_lands(m, j_target(m, count), m.cursor.y);
}

/// `h` with a count `c` (one without a count) moves `c` columns left, or to the first column
/// when fewer than `c` lie before the cursor; the row stays.
pub proof fn law_h_moves_left_by_count(m: UiModel, count: Option<usize>)
    requires
        usable(m.size),
        screen_col(m.cursor, col_of(m.cursor)) <= m.size.cols - 1,
    ensures
        ({
            let x = col_of(m.cursor) as int;
            let c: int = match count {
                Some(c) => c as int,
                None => 1,
            };
            let r = m_exec_h(m, count);
            &&& col_of(r.cursor) == if c <= x { x - c } else { 0 }
            &&& r.cursor.y == m.cursor.y
        }),
{
}

/// `l` with a count `c` (one without a count) moves `c` columns right, or to the last byte
/// before the newline when fewer than `c` lie after the cursor; the row stays.
pub proof fn law_l_moves_right_by_count(m: UiModel, count: Option<usize>)
    requires
        usable(m.size),
        1 <= line_size(m, m.cursor.y as int),
        col_of(m.cursor) <= line_size(m, m.cursor.y as int) - 1,
        screen_col(m.cursor, (line_size(m, m.cursor.y as int) - 1) as u16) <= m.size.cols - 1,
    ensures
        ({
            let x = col_of(m.cursor) as int;
            let last = line_size(m, m.cursor.y as int) - 1;
            let c: int = match count {
                Some(c) => c as int,
                None => 1,
            };
            let r = m_exec_l(m, count);
            &&& col_of(r.cursor) == if x + c <= last { x + c } else { last }
            &&& r.cursor.y == m.cursor.y
        }),
{
}

/// `f` finds the first column from `x` on that holds `b`, and `F` the last column before `x`
/// that holds it: the column found holds `b` and no column between `x` and it does; when
/// none is found, no column on that side holds `b`.
pub proof fn law_find_is_nearest(d: Seq<u8>, x: int, b: u8)
    requires
        0 <= x <= d.len(),
    ensures
        match find_from(d, x, b) {
            Some(j) => x <= j < d.len() && d[j] == b && forall|i: int| x <= i < j ==> d[i] != b,
            None => forall|i: int| x <= i < d.len() ==> d[i] != b,
        },
        match find_before(d, x, b) {
            Some(j) => 0 <= j < x && d[j] == b && forall|i: int| j < i < x ==> d[i] != b,
            None => forall|i: int| 0 <= i < x ==> d[i] != b,
        },
    decreases d.len() - x,
{
    lemma_find_before(d, x, b);
    if x < d.len() {
        law_find_is_nearest(d, x + 1, b);
    }
}

proof fn lemma_find_before(d: Seq<u8>, x: int, b: u8)
    requires
        0 <= x <= d.len(),
    ensures
        match find_before(d, x, b) {
            Some(j) => 0 <= j < x && d[j] == b && forall|i: int| j < i < x ==> d[i] != b,
            None => forall|i: int| 0 <= i < x ==> d[i] != b,
        },
    decreases x,
{
    if x > 0 {
        lemma_find_before(d, x - 1, b);
    }
}

/// `dd` of Normal mode keeps a locked line: the text stays as it was when the line under the
/// cursor is locked and is not the only line.
pub proof fn law_remove_line_keeps_locked_line(m: UiModel)
    requires
        m.offset + m.cursor.y < m.lines.len(),
        m.lines.len() > 1,
        is_locked_bits(m.lines[m.offset + m.cursor.y].flags),
    ensures
        same_text(m_remove_line(m), m),
{
    let y = m.cursor.y;
    let lc = m.lines.len();
    let cnt: int = if lc - y > 1 { lc - y } else { 1 };
    let m0 = m_op(m_op(m, CursorAction::ClearCurrentLine), CursorAction::ClearUnderCursor);
    let m2 = m_render(m_delete_line(m0, m.offset + y), y, cnt as usize);
    lemma_up_down_keep_text(m2);
}

} // verus!
