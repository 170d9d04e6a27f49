//! Drawing the parts of a screen row that come before its text.
use crate::view::colors::Colors;
use crate::view::render::line_number_string_iter::{label, LineNumberStringIter, PADDING_SIZE};
use crate::view::render::render_buffer::{placed, Cell, CellModel, Position, RenderBuffer, RenderModel};
use crate::view::style::CharStyle;
use vstd::prelude::*;

verus! {

/// The style of a row's line number: bold on the cursor's line.
pub open spec fn number_style(on_cursor_line: bool) -> CharStyle {
    if on_cursor_line {
        CharStyle::Bold
    } else {
        CharStyle::Default
    }
}

/// The screen once row `line` gets its line-number cells, with `numbers` the labels' state
/// before: at column 0 the label of the next line number in the focused colors, and at the
/// column just past the label's width a blank gap cell, focused on the cursor's line.
pub open spec fn with_line_number(
    m: RenderModel,
    numbers: (usize, usize),
    line: usize,
    on_cursor_line: bool,
) -> RenderModel {
    let style = number_style(on_cursor_line);
    let width = (numbers.1 + PADDING_SIZE) as usize;
    let number = CellModel {
        content: label((numbers.0 + 1) as nat, numbers.1 as nat),
        colors: Colors::Focused,
        style,
    };
    let m1 = RenderModel { cells: placed(m, Position { line, offset: 0 }, number), ..m };
    let gap = CellModel {
        content: seq![' '],
        colors: if on_cursor_line { Colors::Focused } else { Colors::Default },
        style,
    };
    RenderModel { cells: placed(m1, Position { line, offset: width }, gap), ..m1 }
}

/// Draws the line number of screen row `line` when the row is visible: the label of the next
/// line number, then the gap cell after it (see `with_line_number`), and answers the column
/// where the row's text starts, one past the gap. A row that is not visible gets nothing, and
/// the column `offset` stays.
pub fn render_line_number(
    buffer: &mut RenderBuffer,
    numbers: &mut LineNumberStringIter,
    line: usize,
    on_cursor_line: bool,
    visible: bool,
    offset: usize,
) -> (r: usize)
    requires
        old(buffer).wf(),
        old(numbers)@.0 < usize::MAX,
        old(numbers)@.1 <= 20,
    ensures
        final(buffer).wf(),
        visible ==> {
            &&& final(numbers)@ == ((old(numbers)@.0 + 1) as usize, old(numbers)@.1)
            &&& final(buffer)@ == with_line_number(old(buffer)@, old(numbers)@, line, on_cursor_line)
            &&& r == old(numbers)@.1 + PADDING_SIZE + 1
        },
        !visible ==> {
            &&& final(numbers)@ == old(numbers)@
            &&& final(buffer)@ == old(buffer)@
            &&& r == offset
        },
{
    if !visible {
        return offset;
    }
    let ghost m = buffer@;
    let ghost it = numbers@;
    let text = match numbers.next() {
        Some(s) => s,
        None => String::new(),
    };
    let style = if on_cursor_line {
        CharStyle::Bold
    } else {
        CharStyle::Default
    };
    let number = Cell { content: text, colors: Colors::Focused, style };
    assert(number@ == (CellModel { content: label((it.0 + 1) as nat, it.1 as nat), colors: Colors::Focused, style: number_style(on_cursor_line) }));
    buffer.set_cell(Position { line, offset: 0 }, number);
    let width = numbers.width();
    let gap_color = if on_cursor_line {
        Colors::Focused
    } else {
        Colors::Default
    };
    let gap = Cell { content: String::from_str(" "), colors: gap_color, style };
    proof {
        reveal_strlit(" ");
    }
    assert(gap@.content =~= seq![' ']);
    assert(width == it.1 + PADDING_SIZE);
    buffer.set_cell(Position { line, offset: width }, gap);
    width + 1
}

} // verus!
