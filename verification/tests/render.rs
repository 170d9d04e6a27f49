use held::view::colors::Colors;
use held::view::render::render_buffer::{CachedRenderBuffer, Cell, Position, RenderBuffer};
use held::view::render::line_number_string_iter::LineNumberStringIter;
use held::view::render::renderer::render_line_number;
use held::view::style::CharStyle;

fn cell(s: &str) -> Cell {
    Cell { content: s.to_string(), colors: Colors::Default, style: CharStyle::Default }
}

fn drawn(buf: &mut RenderBuffer) -> Vec<(Position, String)> {
    let mut it = buf.iter();
    let mut out = Vec::new();
    while let Some((p, c)) = it.next(buf) {
        out.push((p, c.content));
    }
    out
}

fn pos(line: usize, offset: usize) -> Position {
    Position { line, offset }
}

#[test]
fn a_new_cache_holds_nothing_drawn() {
    let c = CachedRenderBuffer::new(3, 2);
    assert_eq!(c.cells.len(), 6);
    assert!(c.cells.iter().all(|x| x.content.is_empty()));
}

#[test]
fn comparing_twice_finds_the_cell_drawn() {
    let mut c = CachedRenderBuffer::new(2, 1);
    let a = cell("a");
    assert!(!c.compare_and_update(&a, 1));
    assert!(c.compare_and_update(&a, 1));
    assert_eq!(c.cells[1].content, "a");
    assert!(!c.compare_and_update(&a, 5));
    let bold = Cell { style: CharStyle::Bold, ..cell("a") };
    assert!(!c.compare_and_update(&bold, 1));
}

#[test]
fn the_first_walk_draws_every_cell_and_the_second_none() {
    let mut buf = RenderBuffer::new(3, 2, CachedRenderBuffer::new(3, 2));
    buf.set_cell(pos(1, 2), cell("x"));
    let first = drawn(&mut buf);
    assert_eq!(first.len(), 6);
    assert_eq!(first[0], (pos(0, 0), " ".to_string()));
    assert_eq!(first[5], (pos(1, 2), "x".to_string()));
    assert!(drawn(&mut buf).is_empty());
}

#[test]
fn only_changed_cells_are_drawn_again() {
    let mut buf = RenderBuffer::new(3, 2, CachedRenderBuffer::new(3, 2));
    drawn(&mut buf);
    buf.set_cell(pos(0, 1), cell("y"));
    buf.set_cell(pos(5, 5), cell("z"));
    assert_eq!(drawn(&mut buf), vec![(pos(0, 1), "y".to_string())]);
    buf.clear();
    assert_eq!(drawn(&mut buf), vec![(pos(0, 1), " ".to_string())]);
}

#[test]
fn a_cell_of_two_clusters_covers_the_next_cell() {
    let mut buf = RenderBuffer::new(3, 1, CachedRenderBuffer::new(3, 1));
    buf.set_cell(pos(0, 0), cell("ab"));
    let d = drawn(&mut buf);
    assert_eq!(d, vec![(pos(0, 0), "ab".to_string()), (pos(0, 2), " ".to_string())]);
}

#[test]
fn a_line_number_and_its_gap_are_drawn_before_the_text() {
    let mut buf = RenderBuffer::new(8, 2, CachedRenderBuffer::new(8, 2));
    let mut numbers = LineNumberStringIter::new(12, 0);
    assert_eq!(render_line_number(&mut buf, &mut numbers, 1, true, true, 0), 5);
    let cells = drawn(&mut buf);
    assert!(cells.contains(&(pos(1, 0), "  1 ".to_string())));
    assert!(cells.contains(&(pos(1, 4), " ".to_string())));
    assert_eq!(render_line_number(&mut buf, &mut numbers, 0, false, false, 3), 3);
    assert_eq!(numbers.next(), Some("  2 ".to_string()));
}

#[test]
fn the_cursor_line_number_is_bold() {
    let mut buf = RenderBuffer::new(8, 1, CachedRenderBuffer::new(8, 1));
    let mut numbers = LineNumberStringIter::new(5, 4);
    render_line_number(&mut buf, &mut numbers, 0, true, true, 0);
    let mut it = buf.iter();
    let mut styles = Vec::new();
    while let Some((p, c)) = it.next(&mut buf) {
        styles.push((p, c.style, c.colors));
    }
    assert!(styles.contains(&(pos(0, 0), CharStyle::Bold, Colors::Focused)));
    assert!(styles.contains(&(pos(0, 3), CharStyle::Bold, Colors::Focused)));
    let mut plain = RenderBuffer::new(8, 1, CachedRenderBuffer::new(8, 1));
    render_line_number(&mut plain, &mut numbers, 0, false, true, 0);
    let mut it = plain.iter();
    let mut styles = Vec::new();
    while let Some((p, c)) = it.next(&mut plain) {
        styles.push((p, c.style, c.colors));
    }
    assert!(styles.contains(&(pos(0, 0), CharStyle::Default, Colors::Focused)));
    assert!(styles.contains(&(pos(0, 3), CharStyle::Default, Colors::Default)));
}
