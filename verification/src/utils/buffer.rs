use std::collections::HashMap;
use vstd::prelude::*;

verus! {

broadcast use vstd::std_specs::hash::group_hash_axioms;

/// Bit of a line flagged by the user.
pub const FLAGED_BITS: u32 = 2;

/// Bit of a line that is locked against edits.
pub const LOCKED_BITS: u32 = 4;

/// The byte that ends a line.
pub const NEWLINE: u8 = 10;

/// Whether a set of line bits holds every bit of `other`.
pub open spec fn bits_have(bits: u32, other: u32) -> bool {
    bits & other == other
}

/// Whether a set of line bits marks the line as locked.
pub open spec fn is_locked_bits(bits: u32) -> bool {
    bits_have(bits, LOCKED_BITS)
}

/// The set of markers a line can carry, kept as a bit set.
#[derive(Debug, Default, Clone, Copy)]
pub struct LineState {
    pub bits: u32,
}

impl LineState {
    /// The line is flagged by the user.
    pub fn flaged() -> (r: LineState)
        ensures
            r.bits == FLAGED_BITS,
    {
        LineState { bits: FLAGED_BITS }
    }

    /// The line is locked and must not change.
    pub fn locked() -> (r: LineState)
        ensures
            r.bits == LOCKED_BITS,
    {
        LineState { bits: LOCKED_BITS }
    }

    pub fn empty() -> (r: LineState)
        ensures
            r.bits == 0,
    {
        LineState { bits: 0 }
    }

    pub fn bits(&self) -> (r: u32)
        ensures
            r == self.bits,
    {
        self.bits
    }

    pub fn contains(&self, other: LineState) -> (r: bool)
        ensures
            r == bits_have(self.bits, other.bits),
    {
        self.bits & other.bits == other.bits
    }

    pub fn insert(&mut self, other: LineState)
        ensures
            final(self).bits == old(self).bits | other.bits,
    {
        self.bits = self.bits | other.bits;
    }

    pub fn remove(&mut self, other: LineState)
        ensures
            final(self).bits == old(self).bits & !other.bits,
    {
        self.bits = self.bits & !other.bits;
    }
}

/// What a line is, seen from the outside: its identity, its bytes and its markers.
pub struct LineModel {
    pub id: usize,
    pub data: Seq<u8>,
    pub flags: u32,
}

/// One line of text, with the bytes that end it.
#[derive(Debug, Default)]
pub struct LineBuffer {
    pub id: usize,
    pub data: Vec<u8>,
    pub flags: LineState,
}

impl View for LineBuffer {
    type V = LineModel;

    open spec fn view(&self) -> LineModel {
        LineModel { id: self.id, data: self.data@, flags: self.flags.bits }
    }
}

/// A space or a tab: what separates words.
pub open spec fn is_blank(c: u8) -> bool {
    c == 32 || c == 9
}

/// The first index at or after `i` that holds a blank, or `i` when `i` is past the end,
/// or the length of `s` when no blank follows.
pub open spec fn skip_nonblank(s: Seq<u8>, i: int) -> int
    decreases s.len() - i,
{
    if i < 0 || i >= s.len() || is_blank(s[i]) {
        i
    } else {
        skip_nonblank(s, i + 1)
    }
}

/// The first index at or after `i` that holds no blank, or `i` when `i` is past the end,
/// or the length of `s` when only blanks follow.
pub open spec fn skip_blank(s: Seq<u8>, i: int) -> int
    decreases s.len() - i,
{
    if i < 0 || i >= s.len() || !is_blank(s[i]) {
        i
    } else {
        skip_blank(s, i + 1)
    }
}

/// The last index at or before `i` that holds a blank, or -1 when there is none.
pub open spec fn skipback_nonblank(s: Seq<u8>, i: int) -> int
    decreases i + 1,
{
    if i < 0 {
        -1
    } else if is_blank(s[i]) {
        i
    } else {
        skipback_nonblank(s, i - 1)
    }
}

/// The last index at or before `i` that holds no blank, or -1 when there is none.
pub open spec fn skipback_blank(s: Seq<u8>, i: int) -> int
    decreases i + 1,
{
    if i < 0 {
        -1
    } else if !is_blank(s[i]) {
        i
    } else {
        skipback_blank(s, i - 1)
    }
}

/// Where the next word begins, from column `x` of the line `s`: past the rest of the word at
/// `x` and past the blanks after it; the line's length when no word follows on the line (the
/// last byte, the newline that ends a line, starts no word).
pub open spec fn next_word_begin(s: Seq<u8>, x: int) -> int {
    let p = skip_blank(s, skip_nonblank(s, x));
    if p >= s.len() - 1 {
        s.len() as int
    } else {
        p
    }
}

/// Where the word ends that the cursor at column `x` of the line `s` moves to: the end of the
/// word at or after `x`, or, when `x` stands on a word of one letter, the end of the word after
/// it; the line's length when that word runs to the end of the line.
pub open spec fn next_word_end(s: Seq<u8>, x: int) -> int {
    let p = skip_blank(s, x);
    let q = skip_nonblank(s, p);
    if q >= s.len() {
        q
    } else if q == x + 1 {
        let q2 = skip_nonblank(s, skip_blank(s, q));
        if q2 >= s.len() {
            q2
        } else {
            q2 - 1
        }
    } else {
        q - 1
    }
}

/// Where the word begins that the cursor at column `x` of the line `s` moves back to: the start
/// of the word at or before `x`, or, when `x` stands at the start of a word, the start of the
/// word before it; `None` when that word starts the line.
pub open spec fn prev_word_begin(s: Seq<u8>, x: int) -> Option<int> {
    let p = skipback_blank(s, x);
    let b = skipback_nonblank(s, p);
    if p < 0 || b < 0 {
        None
    } else if b + 1 == x {
        let b2 = skipback_nonblank(s, skipback_blank(s, b));
        if b2 < 0 {
            None
        } else {
            Some(b2 + 1)
        }
    } else {
        Some(b + 1)
    }
}

proof fn lemma_skip_bounds(s: Seq<u8>, i: int)
    requires
        0 <= i,
    ensures
        i <= skip_blank(s, i),
        i <= skip_nonblank(s, i),
        i <= s.len() ==> skip_blank(s, i) <= s.len() && skip_nonblank(s, i) <= s.len(),
        skip_blank(s, i) < s.len() ==> !is_blank(s[skip_blank(s, i)]),
        i < s.len() && !is_blank(s[i]) ==> skip_nonblank(s, i) > i,
    decreases s.len() - i,
{
    if i < s.len() {
        lemma_skip_bounds(s, i + 1);
    }
}

/// The next word begins at or after the column searched from, and within the line when the
/// search starts within it.
pub proof fn lemma_next_word_begin_bounds(s: Seq<u8>, x: int)
    requires
        0 <= x,
    ensures
        x <= s.len() ==> x <= next_word_begin(s, x) <= s.len(),
{
    lemma_skip_bounds(s, x);
    lemma_skip_bounds(s, skip_nonblank(s, x));
}

proof fn lemma_skipback_bounds(s: Seq<u8>, i: int)
    requires
        -1 <= i,
    ensures
        -1 <= skipback_blank(s, i) <= i,
        -1 <= skipback_nonblank(s, i) <= i,
    decreases i + 1,
{
    if i >= 0 {
        lemma_skipback_bounds(s, i - 1);
    }
}

fn blank_byte(c: u8) -> (r: bool)
    ensures
        r == is_blank(c),
{
    c == 32 || c == 9
}

/// `skip_nonblank` on the first `n` bytes of `v`.
fn skip_nonblank_in(v: &Vec<u8>, n: usize, i: usize) -> (r: usize)
    requires
        n <= v.len(),
    ensures
        r == skip_nonblank(v@.take(n as int), i as int),
{
    let ghost s = v@.take(n as int);
    let mut j = i;
    while j < n && !blank_byte(v[j])
        invariant
            n <= v.len(),
            s == v@.take(n as int),
            i <= j,
            skip_nonblank(s, i as int) == skip_nonblank(s, j as int),
        decreases n - j,
    {
        j = j + 1;
    }
    j
}

/// `skip_blank` on the first `n` bytes of `v`.
fn skip_blank_in(v: &Vec<u8>, n: usize, i: usize) -> (r: usize)
    requires
        n <= v.len(),
    ensures
        r == skip_blank(v@.take(n as int), i as int),
{
    let ghost s = v@.take(n as int);
    let mut j = i;
    while j < n && blank_byte(v[j])
        invariant
            n <= v.len(),
            s == v@.take(n as int),
            i <= j,
            skip_blank(s, i as int) == skip_blank(s, j as int),
        decreases n - j,
    {
        j = j + 1;
    }
    j
}

/// `skipback_nonblank` on `v`.
fn skipback_nonblank_in(v: &Vec<u8>, i: i64) -> (r: i64)
    requires
        -1 <= i < v.len(),
    ensures
        r == skipback_nonblank(v@, i as int),
{
    let mut j = i;
    while j >= 0 && !blank_byte(v[j as usize])
        invariant
            -1 <= j <= i < v.len(),
            skipback_nonblank(v@, i as int) == skipback_nonblank(v@, j as int),
        decreases j + 1,
    {
        j = j - 1;
    }
    if j < 0 {
        -1
    } else {
        j
    }
}

/// `skipback_blank` on `v`.
fn skipback_blank_in(v: &Vec<u8>, i: i64) -> (r: i64)
    requires
        -1 <= i < v.len(),
    ensures
        r == skipback_blank(v@, i as int),
{
    let mut j = i;
    while j >= 0 && blank_byte(v[j as usize])
        invariant
            -1 <= j <= i < v.len(),
            skipback_blank(v@, i as int) == skipback_blank(v@, j as int),
        decreases j + 1,
    {
        j = j - 1;
    }
    if j < 0 {
        -1
    } else {
        j
    }
}

/// The lines after line `i` is joined to the line above it, which loses its last byte.
pub open spec fn merged(ls: Seq<LineModel>, i: int) -> Seq<LineModel> {
    ls.subrange(0, i - 1) + seq![
        LineModel { data: ls[i - 1].data.drop_last() + ls[i].data, ..ls[i - 1] },
    ] + ls.subrange(i + 1, ls.len() as int)
}

/// The lines after line `i` is split at column `x`; the new line gets the identity `id`.
pub open spec fn entered(ls: Seq<LineModel>, i: int, x: int, id: usize) -> Seq<LineModel> {
    let d = ls[i].data;
    ls.subrange(0, i) + seq![
        LineModel { data: d.subrange(0, x).push(NEWLINE), ..ls[i] },
        LineModel { id: id, data: d.subrange(x, d.len() as int), flags: 0 },
    ] + ls.subrange(i + 1, ls.len() as int)
}

/// The locked lines among `s`, in order.
pub open spec fn locked_among(s: Seq<LineModel>) -> Seq<LineModel> {
    s.filter(|l: LineModel| is_locked_bits(l.flags))
}

proof fn lemma_locked_among_push(s: Seq<LineModel>, x: LineModel)
    ensures
        locked_among(s.push(x)) == if is_locked_bits(x.flags) {
            locked_among(s).push(x)
        } else {
            locked_among(s)
        },
{
    reveal(Seq::filter);
    assert(s.push(x).drop_last() =~= s);
}

/// The models of a sequence of lines.
pub open spec fn models(v: Seq<LineBuffer>) -> Seq<LineModel> {
    v.map_values(|l: LineBuffer| l@)
}

/// The bytes `v[a..b]`, copied.
pub fn copy_range(v: &Vec<u8>, a: usize, b: usize) -> (r: Vec<u8>)
    requires
        a <= b <= v.len(),
    ensures
        r@ == v@.subrange(a as int, b as int),
{
    let mut r: Vec<u8> = Vec::new();
    let mut i = a;
    while i < b
        invariant
            a <= i <= b <= v.len(),
            r@ == v@.subrange(a as int, i as int),
        decreases b - i,
    {
        r.push(v[i]);
        i = i + 1;
        assert(r@ =~= v@.subrange(a as int, i as int));
    }
    r
}

/// The bytes of each line of a sequence of lines.
pub open spec fn texts(lines: Seq<LineModel>) -> Seq<Seq<u8>> {
    lines.map_values(|l: LineModel| l.data)
}

/// All lines written one after the other.
pub open spec fn joined(lines: Seq<Seq<u8>>) -> Seq<u8>
    decreases lines.len(),
{
    if lines.len() == 0 {
        Seq::empty()
    } else {
        lines[0] + joined(lines.drop_first())
    }
}

/// The index of the first newline at or after `i`, or the length of `s` when there is none.
pub open spec fn first_newline(s: Seq<u8>, i: int) -> int
    decreases s.len() - i,
{
    if i < 0 || i >= s.len() {
        s.len() as int
    } else if s[i] == NEWLINE {
        i
    } else {
        first_newline(s, i + 1)
    }
}

pub proof fn lemma_first_newline(s: Seq<u8>, i: int)
    requires
        0 <= i <= s.len(),
    ensures
        i <= first_newline(s, i) <= s.len(),
        first_newline(s, i) < s.len() ==> s[first_newline(s, i)] == NEWLINE,
        forall|k: int| i <= k < first_newline(s, i) ==> s[k] != NEWLINE,
    decreases s.len() - i,
{
    if i < s.len() && s[i] != NEWLINE {
        lemma_first_newline(s, i + 1);
    }
}

/// The pieces of `s` from index `i` on, each running up to and including a newline;
/// the last piece runs to the end of `s`.
pub open spec fn split_from(s: Seq<u8>, i: int) -> Seq<Seq<u8>>
    decreases s.len() - i,
{
    if i < 0 || i >= s.len() {
        Seq::empty()
    } else {
        let e = first_newline(s, i);
        proof {
            lemma_first_newline(s, i);
        }
        if e < s.len() {
            seq![s.subrange(i, e + 1)] + split_from(s, e + 1)
        } else {
            seq![s.subrange(i, s.len() as int)]
        }
    }
}

/// The text with a newline added at its end when it does not already end with one.
pub open spec fn normalized(b: Seq<u8>) -> Seq<u8> {
    if b.len() == 0 || b.last() != NEWLINE {
        b.push(NEWLINE)
    } else {
        b
    }
}

/// The lines of a file's bytes, as an edit buffer holds them.
pub open spec fn split_lines(b: Seq<u8>) -> Seq<Seq<u8>> {
    split_from(normalized(b), 0)
}

/// A line ends with a newline and holds no other one.
pub open spec fn is_full_line(l: Seq<u8>) -> bool {
    &&& l.len() > 0
    &&& l.last() == NEWLINE
    &&& forall|k: int| 0 <= k < l.len() - 1 ==> l[k] != NEWLINE
}

proof fn lemma_first_newline_same(s: Seq<u8>, i: int, j: int)
    requires
        0 <= i <= j <= s.len(),
        forall|k: int| i <= k < j ==> s[k] != NEWLINE,
    ensures
        first_newline(s, i) == first_newline(s, j),
    decreases j - i,
{
    if i < j {
        lemma_first_newline_same(s, i + 1, j);
    }
}

proof fn lemma_split_step(s: Seq<u8>, start: int, i: int)
    requires
        0 <= start <= i < s.len(),
        forall|k: int| start <= k < i ==> s[k] != NEWLINE,
        s[i] == NEWLINE,
    ensures
        split_from(s, start) == seq![s.subrange(start, i + 1)] + split_from(s, i + 1),
{
    lemma_first_newline_same(s, start, i);
}

proof fn lemma_joined_prepend(a: Seq<u8>, rest: Seq<Seq<u8>>)
    ensures
        joined(seq![a] + rest) == a + joined(rest),
{
    assert((seq![a] + rest).drop_first() =~= rest);
}

/// Splitting from `i` and writing the pieces back gives the text from `i` on; when the text
/// ends with a newline, each piece is a full line.
pub proof fn lemma_split_from(s: Seq<u8>, i: int)
    requires
        0 <= i <= s.len(),
    ensures
        joined(split_from(s, i)) == s.subrange(i, s.len() as int),
        s.len() > 0 && s.last() == NEWLINE ==> forall|j: int|
            0 <= j < split_from(s, i).len() ==> is_full_line(#[trigger] split_from(s, i)[j]),
    decreases s.len() - i,
{
    if i < s.len() {
        lemma_first_newline(s, i);
        let e = first_newline(s, i);
        if e < s.len() {
            lemma_split_from(s, e + 1);
            lemma_joined_prepend(s.subrange(i, e + 1), split_from(s, e + 1));
            assert(s.subrange(i, e + 1) + s.subrange(e + 1, s.len() as int) =~= s.subrange(
                i,
                s.len() as int,
            ));
            let p = split_from(s, i);
            assert forall|j: int| 0 <= j < p.len() && s.len() > 0 && s.last() == NEWLINE implies is_full_line(
                #[trigger] p[j],
            ) by {
                if j > 0 {
                    assert(p[j] == split_from(s, e + 1)[j - 1]);
                }
            }
        } else {
            lemma_joined_prepend(s.subrange(i, s.len() as int), Seq::empty());
            assert(s.subrange(i, s.len() as int) + Seq::<u8>::empty() =~= s.subrange(
                i,
                s.len() as int,
            ));
            if s.len() > 0 && s.last() == NEWLINE {
                assert(s[s.len() - 1] == NEWLINE);
                assert(false);
            }
        }
    } else {
        assert(s.subrange(i, s.len() as int) =~= Seq::<u8>::empty());
    }
}

/// Writing the lines of a file's bytes back one after the other gives the bytes, with a
/// newline added at the end when they lacked one; and every line is a full line.
pub proof fn law_split_lines_roundtrip(b: Seq<u8>)
    ensures
        joined(split_lines(b)) == normalized(b),
        forall|j: int| 0 <= j < split_lines(b).len() ==> is_full_line(#[trigger] split_lines(b)[j]),
        b.len() > 0 && b.last() == NEWLINE ==> joined(split_lines(b)) == b,
{
    let s = normalized(b);
    lemma_split_from(s, 0);
    assert(s.subrange(0, s.len() as int) =~= s);
}

impl LineBuffer {
    /// A line holding `data`, with no markers. Its identity is given when a buffer takes it.
    pub fn new(data: Vec<u8>) -> (r: LineBuffer)
        ensures
            r@.data == data@,
            r@.flags == 0,
            r@.id == 0,
    {
        LineBuffer { id: 0, data, flags: LineState { bits: 0 } }
    }

    pub fn id(&self) -> (r: usize)
        ensures
            r == self@.id,
    {
        self.id
    }

    pub fn remove(&mut self, idx: usize)
        requires
            idx < old(self).data.len(),
        ensures
            final(self)@ == (LineModel { data: old(self)@.data.remove(idx as int), ..old(self)@ }),
    {
        self.data.remove(idx);
    }

    pub fn size(&self) -> (r: usize)
        ensures
            r == self.data.len(),
    {
        self.data.len()
    }

    pub fn extend(&mut self, other: LineBuffer)
        ensures
            final(self)@ == (LineModel { data: old(self)@.data + other@.data, ..old(self)@ }),
    {
        let mut other = other;
        self.data.append(&mut other.data);
    }

    pub fn insert(&mut self, idx: usize, data: u8)
        requires
            idx <= old(self).data.len(),
        ensures
            final(self)@ == (LineModel { data: old(self)@.data.insert(idx as int, data), ..old(self)@ }),
    {
        self.data.insert(idx, data);
    }

    /// An exact copy of this line, identity included.
    pub fn duplicate(&self) -> (r: LineBuffer)
        ensures
            r@ == self@,
    {
        let mut data: Vec<u8> = Vec::new();
        let n = self.data.len();
        for i in 0..n
            invariant
                n == self.data.len(),
                data@ == self.data@.take(i as int),
        {
            data.push(self.data[i]);
        }
        assert(data@ =~= self.data@);
        LineBuffer { id: self.id, data, flags: self.flags }
    }
}


/// The line shown at the top of the screen when line `offset` is asked for, in a buffer of
/// `len` lines: that line, or the last one when there are fewer.
pub open spec fn shown_from(len: nat, offset: usize) -> usize {
    if offset < len {
        offset
    } else {
        (len - 1) as usize
    }
}

/// The line a jump to line `idx` lands on in a buffer of `len` lines: that line, or the last.
pub open spec fn goto_target(len: nat, idx: int) -> int {
    if idx < len {
        idx
    } else {
        len - 1
    }
}

/// The line shown at the top of a text area of `rows` rows after a jump to line `idx`: the one
/// that puts the target in the middle row, or the first line when the target lies in the upper
/// half, or the one that shows the last line on the last row when the buffer ends before the
/// text area does.
pub open spec fn goto_offset(len: nat, idx: int, rows: u16) -> int {
    let t = goto_target(len, idx);
    let half = rows / 2;
    if t < half {
        0
    } else if t - half + rows > len {
        len - rows
    } else {
        t - half
    }
}

/// What a jump needs: a line to land on, and, when the end of the buffer is in view, a buffer
/// at least as long as the text area.
pub open spec fn goto_ok(len: nat, idx: int, rows: u16) -> bool {
    let t = goto_target(len, idx);
    &&& len >= 1
    &&& t >= rows / 2 && t - rows / 2 + rows > len ==> len >= rows
}

/// The text being edited, as a sequence of lines, and the line shown at the top of the screen.
#[derive(Debug, Default)]
pub struct EditBuffer {
    buf: Vec<LineBuffer>,
    // the index in `buf` of the first line on the screen
    offset: usize,
    // flagged lines: line identity -> line index
    flag_lines: HashMap<usize, usize>,
    // locked lines: line identity -> line index
    locked_lines: HashMap<usize, usize>,
    // the identity the next new line gets
    next_id: usize,
}

/// Where the word begins that the cursor at column `x` of `line` moves back to (see
/// `prev_word_begin`).
fn prev_word_begin_in(line: &Vec<u8>, x: u16) -> (r: Option<usize>)
    requires
        x < line@.len(),
    ensures
        r == match prev_word_begin(line@, x as int) {
            Some(i) => Some(i as usize),
            None => None::<usize>,
        },
{
    let ghost s = line@;
    let x = x as i64;
    let p = skipback_blank_in(line, x);
    proof {
        lemma_skipback_bounds(s, x as int);
    }
    if p < 0 {
        return None;
    }
    let b = skipback_nonblank_in(line, p);
    proof {
        lemma_skipback_bounds(s, p as int);
    }
    if b < 0 {
        return None;
    }
    if b + 1 == x {
        let p2 = skipback_blank_in(line, b);
        proof {
            lemma_skipback_bounds(s, b as int);
        }
        let b2 = skipback_nonblank_in(line, p2);
        proof {
            lemma_skipback_bounds(s, p2 as int);
        }
        if b2 < 0 {
            None
        } else {
            Some((b2 + 1) as usize)
        }
    } else {
        Some((b + 1) as usize)
    }
}


impl EditBuffer {
    /// The lines of the buffer.
    pub closed spec fn lines(&self) -> Seq<LineModel> {
        models(self.buf@)
    }

    /// The index of the first line on the screen.
    pub closed spec fn spec_offset(&self) -> usize {
        self.offset
    }

    /// The flagged lines, by identity.
    pub closed spec fn flag_map(&self) -> Map<usize, usize> {
        self.flag_lines@
    }

    /// The locked lines, by identity.
    pub closed spec fn locked_map(&self) -> Map<usize, usize> {
        self.locked_lines@
    }

    /// The identity the next new line gets.
    pub closed spec fn spec_next_id(&self) -> usize {
        self.next_id
    }

    /// A buffer holding the lines of `buf`: each line ends with a newline, and a newline is
    /// added at the end when `buf` lacks one. Lines get the identities 0, 1, 2, ...
    pub fn new(buf: Vec<u8>) -> (r: EditBuffer)
        ensures
            texts(r.lines()) == split_lines(buf@),
            forall|j: int| 0 <= j < r.lines().len() ==> (#[trigger] r.lines()[j]).flags == 0
                && r.lines()[j].id == j,
            r.spec_offset() == 0,
            r.flag_map() == Map::<usize, usize>::empty(),
            r.locked_map() == Map::<usize, usize>::empty(),
            r.spec_next_id() == r.lines().len(),
    {
        let mut s = buf;
        if s.len() == 0 || s[s.len() - 1] != NEWLINE {
            s.push(NEWLINE);
        }
        let ghost t = s@;
        assert(t == normalized(buf@));
        let n = s.len();
        let mut lines: Vec<LineBuffer> = Vec::new();
        let mut cur: Vec<u8> = Vec::new();
        let mut next_id: usize = 0;
        let mut i: usize = 0;
        let ghost mut start: int = 0;
        while i < n
            invariant
                n == s.len(),
                s@ == t,
                t.len() > 0 && t.last() == NEWLINE,
                0 <= start <= i <= n,
                cur@ == t.subrange(start, i as int),
                forall|k: int| start <= k < i ==> t[k] != NEWLINE,
                texts(lines@.map_values(|l: LineBuffer| l@)) + split_from(t, start) == split_from(
                    t,
                    0,
                ),
                forall|j: int| 0 <= j < lines.len() ==> (#[trigger] lines@[j]).flags.bits == 0
                    && lines@[j].id == j,
                next_id == lines.len(),
                lines.len() <= i,
            decreases n - i,
        {
            let c = s[i];
            cur.push(c);
            if c == NEWLINE {
                proof {
                    lemma_split_step(t, start, i as int);
                }
                let ghost old_lines = lines@;
                assert(cur@ =~= t.subrange(start, i + 1));
                let line = LineBuffer { id: next_id, data: cur, flags: LineState { bits: 0 } };
                lines.push(line);
                assert(texts(lines@.map_values(|l: LineBuffer| l@)) =~= texts(
                    old_lines.map_values(|l: LineBuffer| l@),
                ) + seq![t.subrange(start, i + 1)]);
                assert(texts(lines@.map_values(|l: LineBuffer| l@)) + split_from(t, i + 1) =~= texts(
                    old_lines.map_values(|l: LineBuffer| l@),
                ) + split_from(t, start));
                next_id = next_id + 1;
                cur = Vec::new();
                proof {
                    start = i + 1;
                }
            }
            i = i + 1;
        }
        proof {
            if start < n {
                assert(t[n - 1] == NEWLINE);
                assert(false);
            }
            assert(split_from(t, start) =~= Seq::<Seq<u8>>::empty());
            assert(texts(lines@.map_values(|l: LineBuffer| l@)) + split_from(t, start) =~= texts(
                lines@.map_values(|l: LineBuffer| l@),
            ));
        }
        EditBuffer {
            buf: lines,
            offset: 0,
            flag_lines: HashMap::new(),
            locked_lines: HashMap::new(),
            next_id,
        }
    }

    /// Shows line `offset` at the top of the screen, or the last line when there are fewer.
    pub fn set_offset(&mut self, offset: usize)
        requires
            old(self).lines().len() >= 1,
        ensures
            final(self).spec_offset() == shown_from(old(self).lines().len(), offset),
            final(self).lines() == old(self).lines(),
            final(self).flag_map() == old(self).flag_map(),
            final(self).locked_map() == old(self).locked_map(),
            final(self).spec_next_id() == old(self).spec_next_id(),
    {
        let last = self.buf.len() - 1;
        self.offset = if offset < last { offset } else { last };
    }

    pub fn offset(&self) -> (r: usize)
        ensures
            r == self.spec_offset(),
    {
        self.offset
    }

    pub fn line_count(&self) -> (r: usize)
        ensures
            r == self.lines().len(),
    {
        self.buf.len()
    }

    /// Copies of the lines `lines[a..b]`.
    fn copy_lines(&self, a: usize, b: usize) -> (r: Vec<LineBuffer>)
        requires
            a <= b <= self.lines().len(),
        ensures
            models(r@) == self.lines().subrange(a as int, b as int),
    {
        let mut r: Vec<LineBuffer> = Vec::new();
        let mut i = a;
        while i < b
            invariant
                a <= i <= b <= self.buf.len(),
                models(r@) == models(self.buf@).subrange(a as int, i as int),
            decreases b - i,
        {
            let l = self.buf[i].duplicate();
            let ghost old_r = r@;
            r.push(l);
            assert(models(r@) =~= models(old_r).push(self.buf@[i as int]@));
            i = i + 1;
            assert(models(r@) =~= models(self.buf@).subrange(a as int, i as int));
        }
        r
    }

    /// Copies of up to `line_count` lines, starting `start_y` lines below the top of the screen.
    pub fn get_content(&self, start_y: usize, line_count: usize) -> (r: Option<Vec<LineBuffer>>)
        requires
            self.spec_offset() + start_y <= self.lines().len(),
        ensures
            ({
                let s = self.spec_offset() + start_y;
                let n = if line_count < self.lines().len() - s {
                    line_count as int
                } else {
                    self.lines().len() - s
                };
                r matches Some(v) && models(v@) == self.lines().subrange(s, s + n)
            }),
    {
        assert(self.lines().len() == self.buf.len());
        let start = start_y + self.offset;
        let rest = self.buf.len() - start;
        let count = if line_count < rest { line_count } else { rest };
        let end = start + count;
        Some(self.copy_lines(start, end))
    }

    /// The length of line `line` of the screen, cut to 16 bits; 0 when there is no such line.
    pub fn get_linesize(&self, line: u16) -> (r: u16)
        requires
            self.spec_offset() + line <= usize::MAX,
        ensures
            ({
                let i = self.spec_offset() + line;
                r == if i < self.lines().len() {
                    self.lines()[i].data.len() as u16
                } else {
                    0u16
                }
            }),
    {
        let i = self.offset + line as usize;
        if i < self.buf.len() {
            self.buf[i].data.len() as u16
        } else {
            0
        }
    }

    /// The length of line `line` of the buffer, cut to 16 bits; 0 when there is no such line.
    pub fn get_linesize_abs(&self, line: u16) -> (r: u16)
        ensures
            r == if line < self.lines().len() {
                self.lines()[line as int].data.len() as u16
            } else {
                0u16
            },
    {
        let i = line as usize;
        if i < self.buf.len() {
            self.buf[i].data.len() as u16
        } else {
            0
        }
    }

    /// Removes the byte at column `x` of line `y` of the screen; nothing when there is no such line.
    pub fn remove_char(&mut self, x: u16, y: u16)
        requires
            old(self).spec_offset() + y <= usize::MAX,
            old(self).spec_offset() + y < old(self).lines().len() ==> x < old(self).lines()[old(
                self,
            ).spec_offset() + y].data.len(),
        ensures
            ({
                let i = old(self).spec_offset() + y;
                final(self).lines() == if i < old(self).lines().len() {
                    old(self).lines().update(
                        i,
                        LineModel { data: old(self).lines()[i].data.remove(x as int), ..old(self).lines()[i] },
                    )
                } else {
                    old(self).lines()
                }
            }),
            final(self).spec_offset() == old(self).spec_offset(),
            final(self).flag_map() == old(self).flag_map(),
            final(self).locked_map() == old(self).locked_map(),
            final(self).spec_next_id() == old(self).spec_next_id(),
    {
        let i = self.offset + y as usize;
        if i >= self.buf.len() {
            return ;
        }
        let mut line = self.buf.remove(i);
        line.remove(x as usize);
        self.buf.insert(i, line);
        assert(models(self.buf@) =~= old(self).lines().update(
            i as int,
            LineModel { data: old(self).lines()[i as int].data.remove(x as int), ..old(self).lines()[i as int] },
        ));
    }

    /// Removes `n` bytes from column `x` of line `y` of the screen; nothing when there is no such line.
    pub fn remove_str(&mut self, x: u16, y: u16, n: usize)
        requires
            old(self).spec_offset() + y <= usize::MAX,
            old(self).spec_offset() + y < old(self).lines().len() ==> x + n <= old(self).lines()[old(
                self,
            ).spec_offset() + y].data.len(),
        ensures
            ({
                let i = old(self).spec_offset() + y;
                let d = old(self).lines()[i].data;
                final(self).lines() == if i < old(self).lines().len() {
                    old(self).lines().update(
                        i,
                        LineModel { data: d.subrange(0, x as int) + d.subrange(x + n, d.len() as int), ..old(self).lines()[i] },
                    )
                } else {
                    old(self).lines()
                }
            }),
            final(self).spec_offset() == old(self).spec_offset(),
            final(self).flag_map() == old(self).flag_map(),
            final(self).locked_map() == old(self).locked_map(),
            final(self).spec_next_id() == old(self).spec_next_id(),
    {
        let i = self.offset + y as usize;
        if i >= self.buf.len() {
            return ;
        }
        let mut line = self.buf.remove(i);
        let x = x as usize;
        let len = line.data.len();
        let mut data = copy_range(&line.data, 0, x);
        let mut tail = copy_range(&line.data, x + n, len);
        data.append(&mut tail);
        line.data = data;
        self.buf.insert(i, line);
        assert(models(self.buf@) =~= old(self).lines().update(
            i as int,
            LineModel {
                data: old(self).lines()[i as int].data.subrange(0, x as int) + old(self).lines()[i as int].data.subrange(
                    x + n,
                    len as int,
                ),
                ..old(self).lines()[i as int]
            },
        ));
    }

    /// A copy of line `line` of the screen; an empty line when there is no such line.
    pub fn get_line(&self, line: u16) -> (r: LineBuffer)
        requires
            self.spec_offset() + line <= usize::MAX,
        ensures
            ({
                let i = self.spec_offset() + line;
                r@ == if i < self.lines().len() {
                    self.lines()[i]
                } else {
                    LineModel { id: 0, data: Seq::empty(), flags: 0 }
                }
            }),
    {
        let i = self.offset + line as usize;
        if i < self.buf.len() {
            self.buf[i].duplicate()
        } else {
            LineBuffer { id: 0, data: Vec::new(), flags: LineState { bits: 0 } }
        }
    }

    /// Joins line `line` of the screen to the line above it, dropping the last byte of the line
    /// above. Refused, with `(false, 0)`, on the first line of the text and when either line is
    /// locked; otherwise answers `(true, n)` where `n` is the length the line above keeps.
    pub fn merge_line(&mut self, line: u16) -> (r: (bool, usize))
        requires
            old(self).spec_offset() + line <= usize::MAX,
            ({
                let i = old(self).spec_offset() + line;
                i != 0 ==> {
                    &&& i < old(self).lines().len()
                    &&& !is_locked_bits(old(self).lines()[i - 1].flags) && !is_locked_bits(
                        old(self).lines()[i].flags,
                    ) ==> old(self).lines()[i - 1].data.len() >= 1
                }
            }),
        ensures
            ({
                let i = old(self).spec_offset() + line;
                let ls = old(self).lines();
                if i == 0 || is_locked_bits(ls[i - 1].flags) || is_locked_bits(ls[i].flags) {
                    r == (false, 0usize) && final(self).lines() == ls
                } else {
                    &&& r == (true, (ls[i - 1].data.len() - 1) as usize)
                    &&& final(self).lines() == merged(ls, i)
                }
            }),
            final(self).spec_offset() == old(self).spec_offset(),
            final(self).flag_map() == old(self).flag_map(),
            final(self).locked_map() == old(self).locked_map(),
            final(self).spec_next_id() == old(self).spec_next_id(),
    {
        let i = self.offset + line as usize;
        if i == 0 {
            return (false, 0);
        }
        let locked = LineState { bits: LOCKED_BITS };
        if self.buf[i - 1].flags.contains(locked) || self.buf[i].flags.contains(locked) {
            return (false, 0);
        }
        let ghost ls = self.lines();
        let cur = self.buf.remove(i);
        let mut prev = self.buf.remove(i - 1);
        let p_len = prev.size();
        prev.remove(p_len - 1);
        prev.extend(cur);
        self.buf.insert(i - 1, prev);
        assert(models(self.buf@) =~= ls.subrange(0, i - 1) + seq![
            LineModel { data: ls[i - 1].data.drop_last() + ls[i as int].data, ..ls[i - 1] },
        ] + ls.subrange(i + 1, ls.len() as int));
        (true, p_len - 1)
    }

    /// Inserts `ch` at column `x` of line `y` of the screen; into an empty buffer, adds a line
    /// holding just `ch`.
    pub fn insert_char(&mut self, ch: u8, x: u16, y: u16)
        requires
            old(self).spec_offset() + y <= usize::MAX,
            old(self).lines().len() > 0 ==> {
                &&& old(self).spec_offset() + y < old(self).lines().len()
                &&& x <= old(self).lines()[old(self).spec_offset() + y].data.len()
            },
        ensures
            ({
                let i = old(self).spec_offset() + y;
                let ls = old(self).lines();
                if ls.len() > 0 {
                    &&& final(self).lines() == ls.update(
                        i,
                        LineModel { data: ls[i].data.insert(x as int, ch), ..ls[i] },
                    )
                    &&& final(self).spec_next_id() == old(self).spec_next_id()
                } else {
                    &&& final(self).lines() == seq![
                        LineModel { id: old(self).spec_next_id(), data: seq![ch], flags: 0 },
                    ]
                    &&& final(self).spec_next_id() == old(self).spec_next_id().wrapping_add(1)
                }
            }),
            final(self).spec_offset() == old(self).spec_offset(),
            final(self).flag_map() == old(self).flag_map(),
            final(self).locked_map() == old(self).locked_map(),
    {
        if self.buf.len() > 0 {
            let i = self.offset + y as usize;
            let mut l = self.buf.remove(i);
            l.insert(x as usize, ch);
            self.buf.insert(i, l);
            assert(models(self.buf@) =~= old(self).lines().update(
                i as int,
                LineModel { data: old(self).lines()[i as int].data.insert(x as int, ch), ..old(self).lines()[i as int] },
            ));
        } else {
            let l = self.new_line(vec![ch]);
            assert(l@.data =~= seq![ch]);
            assert(self.buf@.len() == 0);
            self.buf.push(l);
            assert(self.buf@ =~= seq![l]);
            assert(models(self.buf@) =~= seq![
                LineModel { id: old(self).spec_next_id(), data: seq![ch], flags: 0 },
            ]);
        }
    }

    /// A line holding `data` with the next free identity.
    fn new_line(&mut self, data: Vec<u8>) -> (r: LineBuffer)
        ensures
            r@ == (LineModel { id: old(self).next_id, data: data@, flags: 0 }),
            final(self).next_id == old(self).next_id.wrapping_add(1),
            final(self).buf == old(self).buf,
            final(self).offset == old(self).offset,
            final(self).flag_lines == old(self).flag_lines,
            final(self).locked_lines == old(self).locked_lines,
    {
        let id = self.next_id;
        self.next_id = self.next_id.wrapping_add(1);
        LineBuffer { id, data, flags: LineState { bits: 0 } }
    }

    /// Copies of all lines.
    pub fn all_buffer(&self) -> (r: Vec<LineBuffer>)
        ensures
            models(r@) == self.lines(),
    {
        let r = self.copy_lines(0, self.buf.len());
        assert(self.lines().subrange(0, self.lines().len() as int) =~= self.lines());
        r
    }

    /// Splits line `y` of the screen at column `x`, as the Enter key does: the line keeps the
    /// bytes before `x` followed by a newline, and a new line with the bytes from `x` on
    /// follows it.
    pub fn input_enter(&mut self, x: u16, y: u16)
        requires
            old(self).spec_offset() + y < old(self).lines().len(),
            x < old(self).lines()[old(self).spec_offset() + y].data.len(),
        ensures
            ({
                let i = old(self).spec_offset() + y;
                final(self).lines() == entered(old(self).lines(), i, x as int, old(self).spec_next_id())
            }),
            final(self).spec_next_id() == old(self).spec_next_id().wrapping_add(1),
            final(self).spec_offset() == old(self).spec_offset(),
            final(self).flag_map() == old(self).flag_map(),
            final(self).locked_map() == old(self).locked_map(),
    {
        assert(self.lines().len() == self.buf.len());
        let i = self.offset + y as usize;
        let ghost ls = self.lines();
        let mut l = self.buf.remove(i);
        let x = x as usize;
        let len = l.data.len();
        let rest = copy_range(&l.data, x, len);
        l.data.truncate(x);
        l.data.push(NEWLINE);
        let n = self.new_line(rest);
        self.buf.insert(i, l);
        self.buf.insert(i + 1, n);
        assert(models(self.buf@) =~= ls.subrange(0, i as int) + seq![
            LineModel { data: ls[i as int].data.subrange(0, x as int).push(NEWLINE), ..ls[i as int] },
            LineModel {
                id: old(self).spec_next_id(),
                data: ls[i as int].data.subrange(x as int, len as int),
                flags: 0,
            },
        ] + ls.subrange(i + 1, ls.len() as int));
    }

    /// Adds the markers `flags` to line `line_index` of the text, and records the line among
    /// the flagged or locked lines when `flags` says so; nothing when there is no such line.
    pub fn add_line_flags(&mut self, line_index: usize, flags: LineState)
        ensures
            ({
                let ls = old(self).lines();
                if line_index < ls.len() {
                    let l = ls[line_index as int];
                    &&& final(self).lines() == ls.update(
                        line_index as int,
                        LineModel { flags: l.flags | flags.bits, ..l },
                    )
                    &&& final(self).flag_map() == if bits_have(flags.bits, FLAGED_BITS) {
                        old(self).flag_map().insert(l.id, line_index)
                    } else {
                        old(self).flag_map()
                    }
                    &&& final(self).locked_map() == if bits_have(flags.bits, LOCKED_BITS) {
                        old(self).locked_map().insert(l.id, line_index)
                    } else {
                        old(self).locked_map()
                    }
                } else {
                    &&& final(self).lines() == ls
                    &&& final(self).flag_map() == old(self).flag_map()
                    &&& final(self).locked_map() == old(self).locked_map()
                }
            }),
            final(self).spec_offset() == old(self).spec_offset(),
            final(self).spec_next_id() == old(self).spec_next_id(),
    {
        if line_index >= self.buf.len() {
            return ;
        }
        let mut l = self.buf.remove(line_index);
        l.flags.insert(flags);
        let id = l.id;
        self.buf.insert(line_index, l);
        assert(models(self.buf@) =~= old(self).lines().update(
            line_index as int,
            LineModel { flags: old(self).lines()[line_index as int].flags | flags.bits, ..old(self).lines()[line_index as int] },
        ));
        if flags.contains(LineState { bits: FLAGED_BITS }) {
            self.flag_lines.insert(id, line_index);
        }
        if flags.contains(LineState { bits: LOCKED_BITS }) {
            self.locked_lines.insert(id, line_index);
        }
    }

    /// Takes the markers `flags` off line `line_index` of the text, and drops the line from the
    /// flagged or locked lines when `flags` says so; nothing when there is no such line.
    pub fn remove_line_flags(&mut self, line_index: usize, flags: LineState)
        ensures
            ({
                let ls = old(self).lines();
                if line_index < ls.len() {
                    let l = ls[line_index as int];
                    &&& final(self).lines() == ls.update(
                        line_index as int,
                        LineModel { flags: l.flags & !flags.bits, ..l },
                    )
                    &&& final(self).flag_map() == if bits_have(flags.bits, FLAGED_BITS) {
                        old(self).flag_map().remove(l.id)
                    } else {
                        old(self).flag_map()
                    }
                    &&& final(self).locked_map() == if bits_have(flags.bits, LOCKED_BITS) {
                        old(self).locked_map().remove(l.id)
                    } else {
                        old(self).locked_map()
                    }
                } else {
                    &&& final(self).lines() == ls
                    &&& final(self).flag_map() == old(self).flag_map()
                    &&& final(self).locked_map() == old(self).locked_map()
                }
            }),
            final(self).spec_offset() == old(self).spec_offset(),
            final(self).spec_next_id() == old(self).spec_next_id(),
    {
        if line_index >= self.buf.len() {
            return ;
        }
        let mut l = self.buf.remove(line_index);
        l.flags.remove(flags);
        let id = l.id;
        self.buf.insert(line_index, l);
        assert(models(self.buf@) =~= old(self).lines().update(
            line_index as int,
            LineModel { flags: old(self).lines()[line_index as int].flags & !flags.bits, ..old(self).lines()[line_index as int] },
        ));
        if flags.contains(LineState { bits: FLAGED_BITS }) {
            self.flag_lines.remove(&id);
        }
        if flags.contains(LineState { bits: LOCKED_BITS }) {
            self.locked_lines.remove(&id);
        }
    }

    /// The markers of line `line` of the screen; none when there is no such line.
    pub fn line_flags(&self, line: u16) -> (r: LineState)
        requires
            self.spec_offset() + line <= usize::MAX,
        ensures
            ({
                let i = self.spec_offset() + line;
                r.bits == if i < self.lines().len() {
                    self.lines()[i].flags
                } else {
                    0u32
                }
            }),
    {
        self.get_line(line).flags
    }

    /// Brings line `line_idx` of the text (the last line when there are fewer) onto a screen of
    /// `win_rows` rows, in its middle where the text allows, and answers the row it lands on.
    pub fn goto_line(&mut self, line_idx: usize, win_rows: u16) -> (r: u16)
        requires
            goto_ok(old(self).lines().len(), line_idx as int, win_rows),
        ensures
            final(self).spec_offset() == goto_offset(old(self).lines().len(), line_idx as int, win_rows),
            r == goto_target(old(self).lines().len(), line_idx as int) - goto_offset(
                old(self).lines().len(),
                line_idx as int,
                win_rows,
            ),
            final(self).lines() == old(self).lines(),
            final(self).flag_map() == old(self).flag_map(),
            final(self).locked_map() == old(self).locked_map(),
            final(self).spec_next_id() == old(self).spec_next_id(),
    {
        let max_line = self.buf.len();
        let mut line_idx = line_idx;
        if line_idx > max_line - 1 {
            line_idx = max_line - 1;
        }
        let win_rows = win_rows as usize;
        let mut y = win_rows / 2;
        if line_idx < y {
            self.set_offset(0);
            return line_idx as u16;
        }
        let mut offset = line_idx - y;
        if win_rows > max_line || offset > max_line - win_rows {
            let adapt_offset = max_line - win_rows;
            y = y + (offset - adapt_offset);
            offset = adapt_offset;
        }
        self.set_offset(offset);
        y as u16
    }

    /// Deletes the lines `start..=end` of the text, except the locked ones, and answers how many
    /// it deleted.
    pub fn delete_lines(&mut self, start: usize, end: usize) -> (r: usize)
        requires
            start >= old(self).lines().len() || end < old(self).lines().len(),
        ensures
            ({
                let ls = old(self).lines();
                if start >= ls.len() || end < start {
                    r == 0 && final(self).lines() == ls
                } else {
                    let range = ls.subrange(start as int, end + 1);
                    &&& final(self).lines() == ls.subrange(0, start as int) + locked_among(range)
                        + ls.subrange(end + 1, ls.len() as int)
                    &&& r == range.len() - locked_among(range).len()
                }
            }),
            final(self).spec_offset() == old(self).spec_offset(),
            final(self).flag_map() == old(self).flag_map(),
            final(self).locked_map() == old(self).locked_map(),
            final(self).spec_next_id() == old(self).spec_next_id(),
    {
        let max = self.buf.len();
        if start >= max {
            return 0;
        }
        let end = if end < max { end } else { max };
        if end < start {
            return 0;
        }
        let ghost ls = self.lines();
        let mut index = start;
        let mut count: usize = 0;
        let mut j = start;
        while j <= end
            invariant
                start < max,
                end < max,
                max == ls.len(),
                start <= j <= end + 1,
                models(self.buf@) == ls.subrange(0, start as int) + locked_among(
                    ls.subrange(start as int, j as int),
                ) + ls.subrange(j as int, ls.len() as int),
                index == start + locked_among(ls.subrange(start as int, j as int)).len(),
                count == (j - start) - locked_among(ls.subrange(start as int, j as int)).len(),
                self.offset == old(self).offset,
                self.flag_lines == old(self).flag_lines,
                self.locked_lines == old(self).locked_lines,
                self.next_id == old(self).next_id,
            decreases end + 1 - j,
        {
            let ghost kept = locked_among(ls.subrange(start as int, j as int));
            proof {
                assert(ls.subrange(start as int, j + 1) =~= ls.subrange(start as int, j as int).push(
                    ls[j as int],
                ));
                lemma_locked_among_push(ls.subrange(start as int, j as int), ls[j as int]);
                ls.subrange(start as int, j as int).lemma_filter_len(
                    |l: LineModel| is_locked_bits(l.flags),
                );
                assert(self.buf@.len() == models(self.buf@).len());
                assert(models(self.buf@)[index as int] == ls[j as int]);
            }
            if self.buf[index].flags.contains(LineState { bits: LOCKED_BITS }) {
                index = index + 1;
                assert(models(self.buf@) =~= ls.subrange(0, start as int) + kept.push(ls[j as int])
                    + ls.subrange(j + 1, ls.len() as int));
            } else {
                let ghost pre = models(self.buf@);
                self.buf.remove(index);
                assert(models(self.buf@) =~= pre.remove(index as int));
                count = count + 1;
                assert(models(self.buf@) =~= ls.subrange(0, start as int) + kept + ls.subrange(
                    j + 1,
                    ls.len() as int,
                ));
            }
            j = j + 1;
        }
        count
    }

    /// Deletes line `y` of the text unless it is empty or locked.
    pub fn delete_line(&mut self, y: usize)
        requires
            y < old(self).lines().len(),
        ensures
            ({
                let ls = old(self).lines();
                final(self).lines() == if ls[y as int].data.len() == 0 || is_locked_bits(
                    ls[y as int].flags,
                ) {
                    ls
                } else {
                    ls.remove(y as int)
                }
            }),
            final(self).spec_offset() == old(self).spec_offset(),
            final(self).flag_map() == old(self).flag_map(),
            final(self).locked_map() == old(self).locked_map(),
            final(self).spec_next_id() == old(self).spec_next_id(),
    {
        if self.buf[y].data.len() == 0 {
            return ;
        }
        if !self.buf[y].flags.contains(LineState { bits: LOCKED_BITS }) {
            self.buf.remove(y);
            assert(models(self.buf@) =~= old(self).lines().remove(y as int));
        }
    }

    /// Deletes the bytes before column `x` of line `y` of the text and answers `x - 1`; nothing,
    /// and `None`, when the line holds fewer than two bytes.
    pub fn delete_until_line_beg(&mut self, x: usize, y: usize) -> (r: Option<usize>)
        requires
            y < old(self).lines().len(),
            old(self).lines()[y as int].data.len() >= 2 ==> 1 <= x <= old(self).lines()[y as int].data.len(),
        ensures
            ({
                let ls = old(self).lines();
                let d = ls[y as int].data;
                if d.len() < 2 {
                    r == None::<usize> && final(self).lines() == ls
                } else {
                    &&& r == Some((x - 1) as usize)
                    &&& final(self).lines() == ls.update(
                        y as int,
                        LineModel { data: d.subrange(x as int, d.len() as int), ..ls[y as int] },
                    )
                }
            }),
            final(self).spec_offset() == old(self).spec_offset(),
            final(self).flag_map() == old(self).flag_map(),
            final(self).locked_map() == old(self).locked_map(),
            final(self).spec_next_id() == old(self).spec_next_id(),
    {
        if self.buf[y].data.len() < 2 {
            return None;
        }
        let mut l = self.buf.remove(y);
        let len = l.data.len();
        l.data = copy_range(&l.data, x, len);
        self.buf.insert(y, l);
        assert(models(self.buf@) =~= old(self).lines().update(
            y as int,
            LineModel { data: old(self).lines()[y as int].data.subrange(x as int, len as int), ..old(self).lines()[y as int] },
        ));
        Some(x - 1)
    }

    /// Deletes the bytes from column `x` of line `y` of the text up to, not including, its last
    /// byte, and answers `x`; nothing, and `None`, when the line holds fewer than two bytes.
    pub fn delete_until_endl(&mut self, x: usize, y: usize) -> (r: Option<usize>)
        requires
            y < old(self).lines().len(),
            old(self).lines()[y as int].data.len() >= 2 ==> x <= old(self).lines()[y as int].data.len() - 1,
        ensures
            ({
                let ls = old(self).lines();
                let d = ls[y as int].data;
                if d.len() < 2 {
                    r == None::<usize> && final(self).lines() == ls
                } else {
                    &&& r == Some(x)
                    &&& final(self).lines() == ls.update(
                        y as int,
                        LineModel { data: d.subrange(0, x as int) + d.subrange(d.len() - 1, d.len() as int), ..ls[y as int] },
                    )
                }
            }),
            final(self).spec_offset() == old(self).spec_offset(),
            final(self).flag_map() == old(self).flag_map(),
            final(self).locked_map() == old(self).locked_map(),
            final(self).spec_next_id() == old(self).spec_next_id(),
    {
        let len = self.buf[y].data.len();
        if len < 2 {
            return None;
        }
        let mut l = self.buf.remove(y);
        let mut head = copy_range(&l.data, 0, x);
        let mut tail = copy_range(&l.data, len - 1, len);
        head.append(&mut tail);
        l.data = head;
        self.buf.insert(y, l);
        assert(models(self.buf@) =~= old(self).lines().update(
            y as int,
            LineModel {
                data: old(self).lines()[y as int].data.subrange(0, x as int) + old(self).lines()[y as int].data.subrange(
                    len - 1,
                    len as int,
                ),
                ..old(self).lines()[y as int]
            },
        ));
        Some(x)
    }

    /// Where the next word begins on line `y` of the screen, from column `x`; the line's length
    /// (cut to 16 bits, as `get_linesize` answers it) when no word follows on the line.
    pub fn search_nextw_begin(&self, x: u16, y: u16) -> (r: usize)
        requires
            self.spec_offset() + y < self.lines().len(),
        ensures
            ({
                let d = self.lines()[self.spec_offset() + y].data;
                r == next_word_begin(d.take(d.len() as u16 as int), x as int)
            }),
    {
        assert(self.lines().len() == self.buf.len());
        let linesize = self.get_linesize(y) as usize;
        let line = &self.buf[self.offset + y as usize];
        let b = skip_nonblank_in(&line.data, linesize, x as usize);
        let p = skip_blank_in(&line.data, linesize, b);
        if linesize == 0 || p >= linesize - 1 {
            linesize
        } else {
            p
        }
    }

    /// Where the word ends that the cursor at column `x` of line `y` of the screen moves to; the
    /// line's length (cut to 16 bits) when that word runs to the end of the line.
    pub fn search_nextw_end(&self, x: u16, y: u16) -> (r: usize)
        requires
            self.spec_offset() + y < self.lines().len(),
        ensures
            ({
                let d = self.lines()[self.spec_offset() + y].data;
                r == next_word_end(d.take(d.len() as u16 as int), x as int)
            }),
    {
        assert(self.lines().len() == self.buf.len());
        let linesize = self.get_linesize(y) as usize;
        let line = &self.buf[self.offset + y as usize];
        let ghost s = line.data@.take(linesize as int);
        let p = skip_blank_in(&line.data, linesize, x as usize);
        let q = skip_nonblank_in(&line.data, linesize, p);
        proof {
            lemma_skip_bounds(s, x as int);
            lemma_skip_bounds(s, p as int);
        }
        if q >= linesize {
            q
        } else if q == x as usize + 1 {
            let p2 = skip_blank_in(&line.data, linesize, q);
            let q2 = skip_nonblank_in(&line.data, linesize, p2);
            proof {
                lemma_skip_bounds(s, q as int);
                lemma_skip_bounds(s, p2 as int);
            }
            if q2 >= linesize {
                q2
            } else {
                q2 - 1
            }
        } else {
            q - 1
        }
    }

    /// Where the word begins that the cursor at column `x` of line `y` of the screen moves back
    /// to; `None` when that word starts the line.
    pub fn search_prevw_begin(&self, x: u16, y: u16) -> (r: Option<usize>)
        requires
            self.spec_offset() + y < self.lines().len(),
            x < self.lines()[self.spec_offset() + y].data.len(),
        ensures
            ({
                let d = self.lines()[self.spec_offset() + y].data;
                match prev_word_begin(d, x as int) {
                    Some(i) => r == Some(i as usize),
                    None => r == None::<usize>,
                }
            }),
    {
        assert(self.lines().len() == self.buf.len());
        prev_word_begin_in(&self.buf[self.offset + y as usize].data, x)
    }

    /// Where the word begins that the cursor at column `x` of line `line` of the buffer moves
    /// back to: column 0 when that word starts the line.
    pub fn search_prevw_begin_abs(&self, x: u16, line: u16) -> (r: usize)
        requires
            line < self.lines().len(),
            x < self.lines()[line as int].data.len(),
        ensures
            r == match prev_word_begin(self.lines()[line as int].data, x as int) {
                Some(i) => i as usize,
                None => 0usize,
            },
    {
        assert(self.lines().len() == self.buf.len());
        match prev_word_begin_in(&self.buf[line as usize].data, x) {
            Some(i) => i,
            None => 0,
        }
    }
}



/// Pressing Enter inside a line and then Backspace at the start of the new line gives back the
/// text as it was: splitting line `i` at a column `x` before its end and joining line `i + 1`
/// to line `i` again restores every line, with its identity and markers. Backspace is refused
/// on a locked line, so the line must not be locked.
pub proof fn law_merge_undoes_enter(ls: Seq<LineModel>, i: int, x: int, id: usize)
    requires
        0 <= i < ls.len(),
        0 <= x < ls[i].data.len(),
        !is_locked_bits(ls[i].flags),
    ensures
        !is_locked_bits(entered(ls, i, x, id)[i].flags),
        !is_locked_bits(entered(ls, i, x, id)[i + 1].flags),
        entered(ls, i, x, id)[i].data.len() >= 1,
        merged(entered(ls, i, x, id), i + 1) == ls,
{
    let e = entered(ls, i, x, id);
    assert(e[i + 1].flags == 0);
    assert(0u32 & LOCKED_BITS == 0) by (bit_vector);
    let d = ls[i].data;
    assert(d.subrange(0, x).push(NEWLINE).drop_last() + d.subrange(x, d.len() as int) =~= d);
    assert(e.subrange(0, i) =~= ls.subrange(0, i));
    assert(e.subrange(i + 2, e.len() as int) =~= ls.subrange(i + 1, ls.len() as int));
    assert(merged(e, i + 1) =~= ls);
}

/// Typing a byte and then deleting the byte at the same place gives back the line.
pub proof fn law_remove_undoes_insert(ls: Seq<LineModel>, i: int, x: int, ch: u8)
    requires
        0 <= i < ls.len(),
        0 <= x <= ls[i].data.len(),
    ensures
        ({
            let ins = ls.update(i, LineModel { data: ls[i].data.insert(x, ch), ..ls[i] });
            &&& x < ins[i].data.len()
            &&& ins.update(i, LineModel { data: ins[i].data.remove(x), ..ins[i] }) == ls
        }),
{
    let ins = ls.update(i, LineModel { data: ls[i].data.insert(x, ch), ..ls[i] });
    assert(ins[i].data.remove(x) =~= ls[i].data);
    assert(ins.update(i, LineModel { data: ins[i].data.remove(x), ..ins[i] }) =~= ls);
}

/// After markers are added a line has them; after they are taken off it has none of them.
pub proof fn law_flags_added_and_removed(bits: u32, flags: u32)
    ensures
        bits_have(bits | flags, flags),
        (bits & !flags) & flags == 0,
{
    assert((bits | flags) & flags == flags) by (bit_vector);
    assert((bits & !flags) & flags == 0) by (bit_vector);
}

/// Deleting a range of lines never deletes a locked line: every locked line of the range is
/// still there afterwards, no line that is not locked is, and the count of deleted lines and
/// kept lines makes up the range.
pub proof fn law_delete_lines_keeps_locked(range: Seq<LineModel>)
    ensures
        forall|j: int|
            0 <= j < range.len() && is_locked_bits(range[j].flags) ==> locked_among(range).contains(
                #[trigger] range[j],
            ),
        forall|j: int|
            0 <= j < locked_among(range).len() ==> is_locked_bits(#[trigger] locked_among(range)[j].flags),
        locked_among(range).len() <= range.len(),
{
    broadcast use vstd::seq_lib::group_filter_ensures;

    range.lemma_filter_len(|l: LineModel| is_locked_bits(l.flags));
    assert forall|j: int|
        0 <= j < range.len() && is_locked_bits(range[j].flags) implies locked_among(range).contains(
        #[trigger] range[j],
    ) by {
        range.lemma_filter_contains(|l: LineModel| is_locked_bits(l.flags), j);
    }
    assert forall|j: int|
        0 <= j < locked_among(range).len() implies is_locked_bits(#[trigger] locked_among(range)[j].flags) by {
        range.lemma_filter_pred(|l: LineModel| is_locked_bits(l.flags), j);
    }
}

/// The word motions stay on the line: the next word begins at or after the cursor and on a
/// byte that is no blank, and the word before the cursor begins before it, after a blank.
pub proof fn law_word_motions_stay_on_line(s: Seq<u8>, x: int)
    requires
        0 <= x < s.len(),
    ensures
        x <= next_word_begin(s, x) <= s.len(),
        next_word_begin(s, x) < s.len() ==> !is_blank(s[next_word_begin(s, x)]),
        prev_word_begin(s, x) matches Some(b) ==> 0 < b <= x && is_blank(s[b - 1]),
{
    lemma_skip_bounds(s, x);
    lemma_skip_bounds(s, skip_nonblank(s, x));
    lemma_skipback_bounds(s, x);
    let p = skipback_blank(s, x);
    lemma_skipback_nonblank_blank(s, p);
    lemma_skipback_bounds(s, p);
    let b = skipback_nonblank(s, p);
    if p >= 0 && b >= 0 && b + 1 == x {
        lemma_skipback_bounds(s, b);
        let p2 = skipback_blank(s, b);
        lemma_skipback_bounds(s, p2);
        lemma_skipback_nonblank_blank(s, p2);
    }
}

/// A word of line `s` starts at `j`: the byte there is neither a space nor a tab, and the byte
/// before it is one of them.
pub open spec fn word_starts_at(s: Seq<u8>, j: int) -> bool {
    &&& 0 < j < s.len()
    &&& s[j] != 32 && s[j] != 9
    &&& (s[j - 1] == 32 || s[j - 1] == 9)
}

/// Skipping the bytes of a word stops at the first space or tab, skipping blanks at the first
/// byte that is neither.
proof fn lemma_skip_facts(s: Seq<u8>, i: int)
    requires
        0 <= i <= s.len(),
    ensures
        i <= skip_nonblank(s, i) <= s.len(),
        forall|j: int| i <= j < skip_nonblank(s, i) ==> !is_blank(#[trigger] s[j]),
        skip_nonblank(s, i) < s.len() ==> is_blank(s[skip_nonblank(s, i)]),
        i <= skip_blank(s, i) <= s.len(),
        forall|j: int| i <= j < skip_blank(s, i) ==> is_blank(#[trigger] s[j]),
        skip_blank(s, i) < s.len() ==> !is_blank(s[skip_blank(s, i)]),
    decreases s.len() - i,
{
    if i < s.len() {
        lemma_skip_facts(s, i + 1);
    }
}

/// `w` goes to the start of the next word: spaces and tabs separate words, and the next word
/// starts at the first column after `x` where a byte that is neither follows one that is. The
/// newline that ends the line starts no word, so when no other word follows the answer is the
/// line's length.
pub proof fn law_next_word_begin_is_next_start(s: Seq<u8>, x: int)
    requires
        0 <= x < s.len(),
    ensures
        ({
            let r = next_word_begin(s, x);
            &&& r < s.len() - 1 || r == s.len()
            &&& r < s.len() - 1 ==> x < r && word_starts_at(s, r)
            &&& forall|j: int| x < j < r && j < s.len() - 1 ==> !#[trigger] word_starts_at(s, j)
        }),
{
    let a = skip_nonblank(s, x);
    lemma_skip_facts(s, x);
    lemma_skip_facts(s, a);
    let p = skip_blank(s, a);
    assert forall|j: int| x < j < next_word_begin(s, x) && j < s.len() - 1 implies !#[trigger] word_starts_at(s, j) by {
        if j < a {
            assert(!is_blank(s[j - 1]));
        } else if j == a {
            assert(is_blank(s[j]));
        } else {
            assert(j < p);
            assert(is_blank(s[j]));
        }
    }
    if p < s.len() - 1 {
        assert(p != a);
        assert(is_blank(s[p - 1]));
    }
}

/// A word of line `s` ends at `j`: the byte there is neither a space nor a tab, and the byte
/// after it is one of them.
pub open spec fn word_ends_at(s: Seq<u8>, j: int) -> bool {
    &&& 0 <= j && j + 1 < s.len()
    &&& s[j] != 32 && s[j] != 9
    &&& (s[j + 1] == 32 || s[j + 1] == 9)
}

/// Skipping back over the bytes of a word stops at the last space or tab, skipping back over
/// blanks at the last byte that is neither.
proof fn lemma_skipback_facts(s: Seq<u8>, i: int)
    requires
        -1 <= i < s.len(),
    ensures
        -1 <= skipback_blank(s, i) <= i,
        forall|j: int| skipback_blank(s, i) < j <= i ==> is_blank(#[trigger] s[j]),
        skipback_blank(s, i) >= 0 ==> !is_blank(s[skipback_blank(s, i)]),
        -1 <= skipback_nonblank(s, i) <= i,
        forall|j: int| skipback_nonblank(s, i) < j <= i ==> !is_blank(#[trigger] s[j]),
        skipback_nonblank(s, i) >= 0 ==> is_blank(s[skipback_nonblank(s, i)]),
    decreases i + 1,
{
    if i >= 0 {
        lemma_skipback_facts(s, i - 1);
    }
}

/// `b` goes back to the start of the word before the cursor: the nearest column before `x`
/// where a byte that is neither a space nor a tab follows one that is; `None` when there is no
/// such column (the word then starts the line, or only blanks lie before).
pub proof fn law_prev_word_begin_is_previous_start(s: Seq<u8>, x: int)
    requires
        0 <= x < s.len(),
    ensures
        match prev_word_begin(s, x) {
            Some(b) => 0 < b < x && word_starts_at(s, b) && forall|j: int|
                b < j < x ==> !#[trigger] word_starts_at(s, j),
            None => forall|j: int| 0 < j < x ==> !#[trigger] word_starts_at(s, j),
        },
{
    lemma_skipback_facts(s, x);
    let p = skipback_blank(s, x);
    lemma_skipback_facts(s, p);
    let b = skipback_nonblank(s, p);
    if p >= 0 && b >= 0 && b + 1 == x {
        lemma_skipback_facts(s, b);
        let p2 = skipback_blank(s, b);
        lemma_skipback_facts(s, p2);
        let b2 = skipback_nonblank(s, p2);
        assert forall|j: int| b2 + 1 < j < x implies !#[trigger] word_starts_at(s, j) by {
            if j <= p2 {
                assert(!is_blank(s[j - 1]));
            } else {
                assert(is_blank(s[j]));
            }
        }
        if b2 >= 0 {
            assert(p2 >= 0);
            assert(b2 < p2);
        }
    } else {
        assert forall|j: int| b + 1 < j < x implies !#[trigger] word_starts_at(s, j) by {
            if j <= p {
                assert(!is_blank(s[j - 1]));
            } else {
                assert(is_blank(s[j]));
            }
        }
        if p >= 0 && b >= 0 {
            assert(b < p);
        }
    }
}

/// `e` goes to the end of the next word: the nearest column after `x` where a byte that is
/// neither a space nor a tab is followed by one that is; the line's length when no word ends
/// so after `x` (the last word runs into the newline).
pub proof fn law_next_word_end_is_next_end(s: Seq<u8>, x: int)
    requires
        0 <= x < s.len(),
    ensures
        ({
            let r = next_word_end(s, x);
            &&& r == s.len() || (x < r && word_ends_at(s, r))
            &&& forall|j: int| x < j < r ==> !#[trigger] word_ends_at(s, j)
        }),
{
    lemma_skip_facts(s, x);
    let p = skip_blank(s, x);
    lemma_skip_facts(s, p);
    let q = skip_nonblank(s, p);
    if q < s.len() && q == x + 1 {
        lemma_skip_facts(s, q);
        let p2 = skip_blank(s, q);
        lemma_skip_facts(s, p2);
        let q2 = skip_nonblank(s, p2);
        assert forall|j: int| x < j < next_word_end(s, x) implies !#[trigger] word_ends_at(s, j) by {
            if j < p2 {
                assert(is_blank(s[j]));
            } else if j + 1 < s.len() {
                assert(j + 1 < q2);
                assert(!is_blank(s[j + 1]));
            }
        }
        if q2 < s.len() {
            assert(p2 < q2);
        }
    } else {
        assert forall|j: int| x < j < next_word_end(s, x) implies !#[trigger] word_ends_at(s, j) by {
            if j < p {
                assert(is_blank(s[j]));
            } else if j + 1 < s.len() {
                assert(j + 1 < q);
                assert(!is_blank(s[j + 1]));
            }
        }
        if q < s.len() {
            assert(p < q);
        }
    }
}

proof fn lemma_skipback_nonblank_blank(s: Seq<u8>, i: int)
    requires
        -1 <= i < s.len(),
    ensures
        skipback_nonblank(s, i) >= 0 ==> is_blank(s[skipback_nonblank(s, i)]),
        skipback_blank(s, i) >= 0 ==> !is_blank(s[skipback_blank(s, i)]),
        i >= 0 && !is_blank(s[i]) ==> skipback_nonblank(s, i) < i,
        i >= 0 && is_blank(s[i]) ==> skipback_blank(s, i) < i,
    decreases i + 1,
{
    if i >= 0 {
        lemma_skipback_nonblank_blank(s, i - 1);
        lemma_skipback_bounds(s, i - 1);
    }
}

} // verus!
