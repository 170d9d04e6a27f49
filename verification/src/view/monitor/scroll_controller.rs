//! Scrolling: which line of a buffer is shown at the top of the screen.
use vstd::prelude::*;

verus! {

/// The rows of the screen that show the buffer: all but the two rows kept for the status and
/// command lines.
pub open spec fn content_rows(height: usize) -> int {
    height - 2
}

/// The top line after the screen scrolls just enough for line `line` to be shown: up to it
/// when it lies above, down until it is the last one shown when it lies below, and not at all
/// when it is already shown, with `rows` rows of content.
pub open spec fn scrolled_into(offset: int, line: int, rows: int) -> int {
    if offset > line {
        line
    } else if offset + rows - 1 < line {
        line - rows + 1
    } else {
        offset
    }
}

/// The top line that puts line `line` in the middle of a screen of `height` rows, or the first
/// line when `line` lies in the upper half.
pub open spec fn centered(line: int, height: int) -> int {
    if line > height / 2 {
        line - height / 2
    } else {
        0
    }
}

/// Scrolling of one buffer: the index of the line shown at the top of the screen.
pub struct ScrollController {
    line_offset: usize,
}

impl View for ScrollController {
    type V = usize;

    closed spec fn view(&self) -> usize {
        self.line_offset
    }
}

impl ScrollController {
    /// A buffer shown from line `init_line_index`.
    pub fn new(init_line_index: usize) -> (r: ScrollController)
        ensures
            r@ == init_line_index,
    {
        ScrollController { line_offset: init_line_index }
    }

    /// Scrolls just enough for the cursor's line `cursor_line` to be shown on a screen of
    /// `height` rows, two of which show no content. The screen has at least two rows; with
    /// exactly two, the buffer must not be shown from its first line, nor the cursor stand on
    /// the largest line index.
    pub fn scroll_into_monitor(&mut self, cursor_line: usize, height: usize)
        requires
            height >= 3 || (height == 2 && old(self)@ >= 1),
            old(self)@ + height <= usize::MAX,
            height == 2 ==> cursor_line < usize::MAX,
        ensures
            final(self)@ == scrolled_into(old(self)@ as int, cursor_line as int, content_rows(height)),
    {
        let terminal_height = height - 2;
        if self.line_offset > cursor_line {
            self.line_offset = cursor_line;
        } else if self.line_offset + terminal_height - 1 < cursor_line {
            self.line_offset = cursor_line - terminal_height + 1;
        }
    }

    /// Scrolls so that the cursor's line `cursor_line` is in the middle of a screen of
    /// `height` rows.
    pub fn scroll_to_center(&mut self, cursor_line: usize, height: usize)
        ensures
            final(self)@ == centered(cursor_line as int, height as int),
    {
        self.line_offset = cursor_line.saturating_sub(height / 2);
    }

    /// Scrolls up by `line_count` lines, not past the first line.
    pub fn scroll_up(&mut self, line_count: usize)
        ensures
            final(self)@ == if old(self)@ > line_count {
                (old(self)@ - line_count) as usize
            } else {
                0
            },
    {
        self.line_offset = self.line_offset.saturating_sub(line_count);
    }

    /// Scrolls down by `line_count` lines, up to the largest index there is.
    pub fn scroll_down(&mut self, line_count: usize)
        ensures
            final(self)@ == if old(self)@ + line_count <= usize::MAX {
                (old(self)@ + line_count) as usize
            } else {
                usize::MAX
            },
    {
        self.line_offset = self.line_offset.saturating_add(line_count);
    }

    /// The index of the line shown at the top of the screen.
    pub fn line_offset(&mut self) -> (r: usize)
        ensures
            r == old(self)@,
            final(self)@ == old(self)@,
    {
        self.line_offset
    }
}

/// After scrolling into view on a screen with content rows, the cursor's line is among the
/// lines shown: at or below the top line and above the line past the last one shown.
pub proof fn law_scroll_into_monitor_shows_cursor(offset: int, line: int, rows: int)
    requires
        rows >= 1,
    ensures
        scrolled_into(offset, line, rows) <= line < scrolled_into(offset, line, rows) + rows,
{
}

/// Scrolling into view does not move a screen that already shows the cursor's line.
pub proof fn law_scroll_into_monitor_keeps_shown(offset: int, line: int, rows: int)
    requires
        offset <= line < offset + rows,
    ensures
        scrolled_into(offset, line, rows) == offset,
{
}

/// Centering shows the cursor's line: it lies at or below the top line, and no more than half
/// a screen below it.
pub proof fn law_centered_shows_cursor(line: int, height: int)
    requires
        line >= 0,
        height >= 0,
    ensures
        0 <= centered(line, height) <= line,
        line - centered(line, height) <= height / 2,
{
}

} // verus!
