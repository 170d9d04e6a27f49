//! The screen as a grid of cells, beside the cells that were last drawn, so that only the cells
//! that changed are drawn again.
use crate::view::colors::Colors;
use crate::view::style::CharStyle;
use unicode_segmentation::UnicodeSegmentation;
use vstd::prelude::*;

verus! {

/// The number of extended grapheme clusters of a text.
pub uninterp spec fn grapheme_count(s: Seq<char>) -> nat;

/// `UnicodeSegmentation::graphemes` (extended clusters) on `s`, counted: `grapheme_count` of
/// the text. Each cluster it yields is a non-empty slice between two boundaries, which lie
/// between characters, so there are no more clusters than characters.
#[verifier::external_body]
fn graphemes_count(s: &str) -> (r: usize)
    ensures
        r == grapheme_count(s@),
        r <= s@.len(),
{
    s.graphemes(true).count()
}

/// A place on the screen: a row and a column.
#[derive(Debug, Clone, Copy, PartialEq, Eq)]
pub struct Position {
    pub line: usize,
    pub offset: usize,
}

/// A cell of the screen: its text and how it is drawn.
#[derive(Debug, Clone, PartialEq)]
pub struct Cell {
    pub content: String,
    pub colors: Colors,
    pub style: CharStyle,
}

/// A cell as it was last drawn.
#[derive(Debug, Clone)]
pub struct CachedCell {
    pub content: String,
    pub colors: Colors,
    pub style: CharStyle,
}

/// What a cell is: its text and how it is drawn.
pub struct CellModel {
    pub content: Seq<char>,
    pub colors: Colors,
    pub style: CharStyle,
}

impl View for Cell {
    type V = CellModel;

    open spec fn view(&self) -> CellModel {
        CellModel { content: self.content@, colors: self.colors, style: self.style }
    }
}

impl View for CachedCell {
    type V = CellModel;

    open spec fn view(&self) -> CellModel {
        CellModel { content: self.content@, colors: self.colors, style: self.style }
    }
}

/// A blank cell: a space, drawn plainly.
pub open spec fn blank() -> CellModel {
    CellModel { content: seq![' '], colors: Colors::Default, style: CharStyle::Default }
}

/// A cell never drawn: no text, drawn plainly.
pub open spec fn undrawn() -> CellModel {
    CellModel { content: Seq::empty(), colors: Colors::Default, style: CharStyle::Default }
}

pub open spec fn cell_models(v: Seq<Cell>) -> Seq<CellModel> {
    v.map_values(|c: Cell| c@)
}

pub open spec fn cached_models(v: Seq<CachedCell>) -> Seq<CellModel> {
    v.map_values(|c: CachedCell| c@)
}

impl Default for Cell {
    fn default() -> (r: Cell)
        ensures
            r@ == blank(),
    {
        let content = " ".to_owned();
        proof {
            reveal_strlit(" ");
        }
        assert(content@ =~= seq![' ']);
        Cell { content, colors: Colors::Default, style: CharStyle::Default }
    }
}

impl Default for CachedCell {
    fn default() -> (r: CachedCell)
        ensures
            r@ == undrawn(),
    {
        CachedCell { content: String::new(), colors: Colors::Default, style: CharStyle::Default }
    }
}

impl Cell {
    /// A copy of this cell.
    pub fn copy(&self) -> (r: Cell)
        ensures
            r@ == self@,
    {
        Cell { content: self.content.clone(), colors: self.colors, style: self.style }
    }
}

/// Comparing cell `c` with what was last drawn at index `i` of `cache`: whether they are the
/// same, and the cache then holding `c` there. An index past the cache compares unequal and
/// leaves it as it was.
pub open spec fn compared(cache: Seq<CellModel>, c: CellModel, i: int) -> (bool, Seq<CellModel>) {
    if 0 <= i < cache.len() {
        (cache[i] == c, cache.update(i, c))
    } else {
        (false, cache)
    }
}

/// The cells drawn last on a screen.
#[derive(Debug)]
pub struct CachedRenderBuffer {
    pub cells: Vec<CachedCell>,
}

impl CachedRenderBuffer {
    /// A screen of `width` columns and `height` rows where nothing was drawn yet.
    pub fn new(width: usize, height: usize) -> (r: CachedRenderBuffer)
        requires
            width * height <= usize::MAX,
        ensures
            cached_models(r.cells@) == Seq::new((width * height) as nat, |i: int| undrawn()),
    {
        let n = width * height;
        let mut cells: Vec<CachedCell> = Vec::new();
        while cells.len() < n
            invariant
                cells.len() <= n,
                forall|i: int| 0 <= i < cells.len() ==> #[trigger] cells@[i]@ == undrawn(),
            decreases n - cells.len(),
        {
            cells.push(CachedCell::default());
        }
        assert(cached_models(cells@) =~= Seq::new(n as nat, |i: int| undrawn()));
        CachedRenderBuffer { cells }
    }

    /// Whether cell `cell` is what was drawn last at index `index`; the cache then holds it
    /// there (see `compared`).
    pub fn compare_and_update(&mut self, cell: &Cell, index: usize) -> (r: bool)
        ensures
            (r, cached_models(final(self).cells@)) == compared(cached_models(old(self).cells@), cell@, index as int),
    {
        if index < self.cells.len() {
            let cell_content = cell.content.clone();
            let cache = &self.cells[index];
            let equal = cache.colors == cell.colors && cache.style == cell.style && cache.content
                == cell_content;
            let ghost old_cells = cached_models(self.cells@);
            if !equal {
                self.cells.set(index, CachedCell { content: cell_content, colors: cell.colors, style: cell.style });
                assert(cached_models(self.cells@) =~= old_cells.update(index as int, cell@));
            } else {
                assert(old_cells[index as int] == cell@);
                assert(cached_models(self.cells@) =~= old_cells.update(index as int, cell@));
            }
            equal
        } else {
            false
        }
    }
}

/// The cells a screen is drawing, beside the cells drawn last.
#[derive(Debug)]
pub struct RenderBuffer {
    width: usize,
    height: usize,
    cells: Vec<Cell>,
    /// The cells drawn last.
    pub cached: CachedRenderBuffer,
}

/// What a screen being drawn is: its size, its cells row by row, and the cells drawn last.
pub struct RenderModel {
    pub width: usize,
    pub height: usize,
    pub cells: Seq<CellModel>,
    pub cache: Seq<CellModel>,
}

impl View for RenderBuffer {
    type V = RenderModel;

    closed spec fn view(&self) -> RenderModel {
        RenderModel {
            width: self.width,
            height: self.height,
            cells: cell_models(self.cells@),
            cache: cached_models(self.cached.cells@),
        }
    }
}

/// A screen with one cell for each of its columns on each of its rows.
pub open spec fn render_wf(m: RenderModel) -> bool {
    m.cells.len() == m.width * m.height
}

/// `n` blank cells.
pub open spec fn blanks(n: nat) -> Seq<CellModel> {
    Seq::new(n, |i: int| blank())
}

/// The cells of `m` once cell `c` is put at place `p`: nothing changes for a place off the
/// screen.
pub open spec fn placed(m: RenderModel, p: Position, c: CellModel) -> Seq<CellModel> {
    if p.line >= m.height || p.offset >= m.width {
        m.cells
    } else {
        m.cells.update(p.line * m.width + p.offset, c)
    }
}

/// A place on a screen lies at an index within its cells.
proof fn lemma_cell_index(line: int, offset: int, w: int, h: int)
    by (nonlinear_arith)
    requires
        0 <= line < h,
        0 <= offset < w,
    ensures
        0 <= line * w + offset < w * h,
{
}

/// `n` blank cells.
fn blank_cells(n: usize) -> (r: Vec<Cell>)
    ensures
        cell_models(r@) == blanks(n as nat),
{
    let mut cells: Vec<Cell> = Vec::new();
    while cells.len() < n
        invariant
            cells.len() <= n,
            forall|i: int| 0 <= i < cells.len() ==> #[trigger] cells@[i]@ == blank(),
        decreases n - cells.len(),
    {
        cells.push(Cell::default());
    }
    assert(cell_models(cells@) =~= blanks(n as nat));
    cells
}

impl RenderBuffer {
    pub open spec fn wf(&self) -> bool {
        render_wf(self@)
    }

    /// A blank screen of `width` columns and `height` rows, with `cached` the cells drawn last.
    pub fn new(width: usize, height: usize, cached: CachedRenderBuffer) -> (r: RenderBuffer)
        requires
            width * height <= usize::MAX,
        ensures
            r.wf(),
            r@ == (RenderModel {
                width,
                height,
                cells: blanks((width * height) as nat),
                cache: cached_models(cached.cells@),
            }),
    {
        RenderBuffer { width, height, cells: blank_cells(width * height), cached }
    }

    /// Puts `cell` at place `position` (see `placed`).
    pub fn set_cell(&mut self, position: Position, cell: Cell)
        requires
            old(self).wf(),
        ensures
            final(self).wf(),
            final(self)@ == (RenderModel { cells: placed(old(self)@, position, cell@), ..old(self)@ }),
    {
        if position.line >= self.height || position.offset >= self.width {
            return;
        }
        let n = self.cells.len();
        proof {
            assert(self@.cells.len() == n);
            lemma_cell_index(position.line as int, position.offset as int, self.width as int, self.height as int);
        }
        let index = position.line * self.width + position.offset;
        if index < self.cells.len() {
            let ghost old_cells = cell_models(self.cells@);
            self.cells.set(index, cell);
            assert(cell_models(self.cells@) =~= old_cells.update(index as int, cell@));
        }
    }

    /// Blanks every cell.
    pub fn clear(&mut self)
        requires
            old(self).wf(),
        ensures
            final(self).wf(),
            final(self)@ == (RenderModel { cells: blanks((old(self)@.width * old(self)@.height) as nat), ..old(self)@ }),
    {
        let n = self.cells.len();
        proof {
            assert(self@.cells.len() == n);
        }
        self.cells = blank_cells(self.width * self.height);
    }

    /// A walk over the cells from the first.
    pub fn iter(&self) -> (r: RenderBufferIter)
        ensures
            r@ == (0usize, self@.width),
    {
        RenderBufferIter::new(self)
    }
}

/// How far the walk over cells `cells` steps from index `i`: one cell for each grapheme cluster
/// of the cell's text (one for no text), and no further than the end.
pub open spec fn next_index(cells: Seq<CellModel>, i: int) -> int {
    let g = grapheme_count(cells[i].content);
    let s: int = if g >= 1 { g as int } else { 1 };
    if s >= cells.len() - i {
        cells.len() as int
    } else {
        i + s
    }
}

/// The walk over cells `cells` from index `i`, comparing each cell it reaches with what was
/// drawn last (see `compared`): the first cell that differs, if any, the cells drawn last once
/// the compared cells are recorded, and where the walk goes on from.
pub open spec fn scan(cells: Seq<CellModel>, cache: Seq<CellModel>, i: int) -> (Option<int>, Seq<CellModel>, int)
    decreases cells.len() - i,
{
    if i < 0 || i >= cells.len() {
        (None, cache, i)
    } else {
        let (eq, cache2) = compared(cache, cells[i], i);
        let ni = next_index(cells, i);
        if !eq {
            (Some(i), cache2, ni)
        } else {
            scan(cells, cache2, ni)
        }
    }
}

/// A walk over the cells of a screen that stops at the cells that changed since they were last
/// drawn.
pub struct RenderBufferIter {
    index: usize,
    width: usize,
}

impl View for RenderBufferIter {
    type V = (usize, usize);

    /// The index the walk goes on from, and the width of the screen.
    closed spec fn view(&self) -> (usize, usize) {
        (self.index, self.width)
    }
}

impl RenderBufferIter {
    /// A walk over the cells of `render_buffer` from the first.
    pub fn new(render_buffer: &RenderBuffer) -> (r: RenderBufferIter)
        ensures
            r@ == (0usize, render_buffer@.width),
    {
        RenderBufferIter { index: 0, width: render_buffer.width }
    }

    /// The next cell of `buf` that differs from what was drawn last there, with its place
    /// (row and column); the cells passed on the way are recorded as drawn (see `scan`).
    pub fn next(&mut self, buf: &mut RenderBuffer) -> (r: Option<(Position, Cell)>)
        requires
            old(buf).wf(),
            old(self)@.1 == old(buf)@.width,
        ensures
            final(buf).wf(),
            ({
                let w = old(buf)@.width;
                let (found, cache, ni) = scan(old(buf)@.cells, old(buf)@.cache, old(self)@.0 as int);
                &&& final(self)@ == (ni as usize, w)
                &&& final(buf)@ == (RenderModel { cache, ..old(buf)@ })
                &&& match found {
                    Some(i) => r matches Some((p, c)) && p == (Position { line: (i / (w as int)) as usize, offset: (i % (w as int)) as usize })
                        && c@ == old(buf)@.cells[i],
                    None => r is None,
                }
            }),
    {
        let n = buf.cells.len();
        let w = self.width;
        let ghost cells = buf@.cells;
        let ghost goal = scan(cells, buf@.cache, self.index as int);
        if self.index >= n {
            return None;
        }
        while self.index < n
            invariant
                buf.wf(),
                buf@.cells == cells,
                buf@.width == w,
                buf@.height == old(buf)@.height,
                n == cells.len(),
                self.width == w,
                self.index <= n,
                scan(cells, buf@.cache, self.index as int) == goal,
                cells == old(buf)@.cells,
                w == old(buf)@.width,
                goal == scan(old(buf)@.cells, old(buf)@.cache, old(self)@.0 as int),
            decreases n - self.index,
        {
            let index = self.index;
            proof {
                assert(w * buf@.height == n);
                if w == 0 {
                    assert(w * buf@.height == 0) by (nonlinear_arith)
                        requires w == 0;
                }
            }
            let position = Position { line: index / w, offset: index % w };
            let g = graphemes_count(buf.cells[index].content.as_str());
            let step: usize = if g == 0 { 1 } else { g };
            self.index = if step >= n - index { n } else { index + step };
            let ghost cache0 = buf@.cache;
            let equal = buf.cached.compare_and_update(&buf.cells[index], index);
            proof {
                assert(buf.cells@[index as int]@ == cells[index as int]);
                assert(self.index == next_index(cells, index as int));
                assert((equal, buf@.cache) == compared(cache0, cells[index as int], index as int));
            }
            if !equal {
                let c = buf.cells[index].copy();
                assert(scan(cells, cache0, index as int) == (Some(index as int), buf@.cache, self.index as int));
                return Some((position, c));
            }
        }
        None
    }
}

/// Walking over cells `cells` from index `i` to the end: the indexes of the cells that differ
/// from what was drawn last, in order, and the cells drawn last once all are recorded.
pub open spec fn pass(cells: Seq<CellModel>, cache: Seq<CellModel>, i: int) -> (Seq<int>, Seq<CellModel>)
    decreases cells.len() - i,
{
    if i < 0 || i >= cells.len() {
        (Seq::empty(), cache)
    } else {
        let (eq, cache2) = compared(cache, cells[i], i);
        let rest = pass(cells, cache2, next_index(cells, i));
        (if eq { rest.0 } else { seq![i] + rest.0 }, rest.1)
    }
}

/// Whether the walk over cells `cells` from index `i` reaches index `k`.
pub open spec fn visits(cells: Seq<CellModel>, i: int, k: int) -> bool
    decreases cells.len() - i,
{
    if i < 0 || i >= cells.len() {
        false
    } else {
        k == i || visits(cells, next_index(cells, i), k)
    }
}

/// Each call of `next` gives the next cell of the walk to the end: the first index `pass`
/// finds, and where the rest of the pass goes on from; with none left, the pass ends there.
pub proof fn law_next_walks_the_pass(cells: Seq<CellModel>, cache: Seq<CellModel>, i: int)
    ensures
        ({
            let (found, c2, ni) = scan(cells, cache, i);
            match found {
                Some(j) => pass(cells, cache, i) == (seq![j] + pass(cells, c2, ni).0, pass(cells, c2, ni).1),
                None => pass(cells, cache, i) == (Seq::<int>::empty(), c2),
            }
        }),
    decreases cells.len() - i,
{
    if 0 <= i < cells.len() {
        let (eq, cache2) = compared(cache, cells[i], i);
        if eq {
            law_next_walks_the_pass(cells, cache2, next_index(cells, i));
        }
    }
}

/// The record after a pass from `i`: the cells the walk reaches, and what was recorded
/// elsewhere.
proof fn lemma_pass_records(cells: Seq<CellModel>, cache: Seq<CellModel>, i: int)
    requires
        cache.len() >= cells.len(),
        i >= 0,
    ensures
        pass(cells, cache, i).1.len() == cache.len(),
        forall|k: int| 0 <= k < cache.len() ==> #[trigger] pass(cells, cache, i).1[k] == if visits(cells, i, k) {
            cells[k]
        } else {
            cache[k]
        },
    decreases cells.len() - i,
{
    if i < cells.len() {
        let (eq, cache2) = compared(cache, cells[i], i);
        let ni = next_index(cells, i);
        lemma_pass_records(cells, cache2, ni);
        assert forall|k: int| 0 <= k < cache.len() implies #[trigger] pass(cells, cache, i).1[k] == if visits(cells, i, k) {
            cells[k]
        } else {
            cache[k]
        } by {
            assert(visits(cells, i, k) == (k == i || visits(cells, ni, k)));
        }
    }
}

/// A pass over cells that are all recorded as drawn finds nothing and changes nothing.
proof fn lemma_pass_clean(cells: Seq<CellModel>, cache: Seq<CellModel>, i: int)
    requires
        cache.len() >= cells.len(),
        forall|k: int| #[trigger] visits(cells, i, k) ==> cache[k] == cells[k],
    ensures
        pass(cells, cache, i) == (Seq::<int>::empty(), cache),
    decreases cells.len() - i,
{
    if 0 <= i < cells.len() {
        let ni = next_index(cells, i);
        assert(visits(cells, i, i));
        let (eq, cache2) = compared(cache, cells[i], i);
        assert(cache2 =~= cache);
        assert forall|k: int| #[trigger] visits(cells, ni, k) implies cache[k] == cells[k] by {
            assert(visits(cells, i, k));
        }
        lemma_pass_clean(cells, cache, ni);
    }
}

/// Cells are drawn once: after a pass over all the cells of a screen has recorded them as
/// drawn, a second pass over the same cells finds none to draw and leaves the record as it
/// was, when the record has a place for every cell.
pub proof fn law_second_pass_draws_nothing(cells: Seq<CellModel>, cache: Seq<CellModel>)
    requires
        cache.len() >= cells.len(),
    ensures
        pass(cells, pass(cells, cache, 0).1, 0) == (Seq::<int>::empty(), pass(cells, cache, 0).1),
{
    let c1 = pass(cells, cache, 0).1;
    lemma_pass_records(cells, cache, 0);
    assert forall|k: int| #[trigger] visits(cells, 0, k) implies c1[k] == cells[k] by {
        lemma_visits_in_range(cells, 0, k);
    }
    lemma_pass_clean(cells, c1, 0);
}

/// The walk reaches only indexes of the cells, from where it starts on.
proof fn lemma_visits_in_range(cells: Seq<CellModel>, i: int, k: int)
    requires
        visits(cells, i, k),
    ensures
        i <= k < cells.len(),
    decreases cells.len() - i,
{
    if k != i {
        lemma_visits_in_range(cells, next_index(cells, i), k);
    }
}

/// Comparing a cell a second time at the same place finds it drawn, when the record has that
/// place.
pub proof fn law_compare_twice(cache: Seq<CellModel>, c: CellModel, i: int)
    requires
        0 <= i < cache.len(),
    ensures
        compared(compared(cache, c, i).1, c, i).0,
{
}

} // verus!
