//! The line numbers shown in front of the lines of a buffer.
use vstd::prelude::*;

verus! {

/// The blank columns around a line number: one before it and one after it.
pub const PADDING_SIZE: usize = 2;

/// The character of decimal digit `d`.
pub open spec fn digit(d: nat) -> char {
    if d == 0 {
        '0'
    } else if d == 1 {
        '1'
    } else if d == 2 {
        '2'
    } else if d == 3 {
        '3'
    } else if d == 4 {
        '4'
    } else if d == 5 {
        '5'
    } else if d == 6 {
        '6'
    } else if d == 7 {
        '7'
    } else if d == 8 {
        '8'
    } else {
        '9'
    }
}

/// `n` written in decimal, without leading zeros.
pub open spec fn decimal(n: nat) -> Seq<char>
    decreases n,
{
    if n < 10 {
        seq![digit(n)]
    } else {
        decimal(n / 10).push(digit(n % 10))
    }
}

/// `k` spaces.
pub open spec fn spaces(k: int) -> Seq<char>
    decreases k,
{
    if k <= 0 {
        Seq::empty()
    } else {
        spaces(k - 1).push(' ')
    }
}

/// The label of line number `n` in a column `width` characters wide: `n` in decimal, pushed to
/// the right of the column, with one space before and one after.
pub open spec fn label(n: nat, width: nat) -> Seq<char> {
    seq![' '] + spaces(width - decimal(n).len()) + decimal(n) + seq![' ']
}

fn digit_str(d: usize) -> (r: &'static str)
    requires
        d < 10,
    ensures
        r@ == seq![digit(d as nat)],
{
    proof {
        reveal_strlit("0");
        reveal_strlit("1");
        reveal_strlit("2");
        reveal_strlit("3");
        reveal_strlit("4");
        reveal_strlit("5");
        reveal_strlit("6");
        reveal_strlit("7");
        reveal_strlit("8");
        reveal_strlit("9");
    }
    if d == 0 {
        "0"
    } else if d == 1 {
        "1"
    } else if d == 2 {
        "2"
    } else if d == 3 {
        "3"
    } else if d == 4 {
        "4"
    } else if d == 5 {
        "5"
    } else if d == 6 {
        "6"
    } else if d == 7 {
        "7"
    } else if d == 8 {
        "8"
    } else {
        "9"
    }
}

/// Appends `n` in decimal to `s`.
fn push_decimal(s: &mut String, n: usize)
    ensures
        final(s)@ == old(s)@ + decimal(n as nat),
    decreases n,
{
    if n >= 10 {
        push_decimal(s, n / 10);
    }
    s.append(digit_str(n % 10));
    assert(final(s)@ =~= old(s)@ + decimal(n as nat));
}

/// The number of decimal digits of `n`.
fn decimal_len(n: usize) -> (r: usize)
    ensures
        r == decimal(n as nat).len(),
        r <= 20,
    decreases n,
{
    proof {
        lemma_decimal_len_bound(n as nat);
    }
    if n < 10 {
        1
    } else {
        decimal_len(n / 10) + 1
    }
}

proof fn lemma_decimal_len_bound(n: nat)
    requires
        n <= usize::MAX,
    ensures
        decimal(n).len() <= 20,
        n < 10 ==> decimal(n).len() == 1,
{
    assert(pow10(20) == 100000000000000000000) by {
        reveal_with_fuel(pow10, 21);
    }
    lemma_decimal_len_below(n, 20);
}

/// Numbers below 10 to the power of `k` have at most `k` digits.
proof fn lemma_decimal_len_below(n: nat, k: nat)
    requires
        k >= 1,
        n < pow10(k),
    ensures
        decimal(n).len() <= k,
    decreases k,
{
    if n >= 10 {
        assert(n / 10 < pow10((k - 1) as nat)) by {
            if k == 1 {
                assert(pow10(1) == 10) by {
                    reveal_with_fuel(pow10, 2);
                }
            }
            assert(pow10(k) == 10 * pow10((k - 1) as nat));
        }
        if k == 1 {
            assert(pow10(1) == 10) by {
                reveal_with_fuel(pow10, 2);
            }
        } else {
            lemma_decimal_len_below(n / 10, (k - 1) as nat);
        }
    }
}

/// 10 to the power of `k`.
pub open spec fn pow10(k: nat) -> nat
    decreases k,
{
    if k == 0 {
        1
    } else {
        10 * pow10((k - 1) as nat)
    }
}

/// Numbers no larger than `m` have no more digits than `m`.
pub proof fn lemma_decimal_len_monotone(n: nat, m: nat)
    requires
        n <= m,
    ensures
        decimal(n).len() <= decimal(m).len(),
    decreases m,
{
    if n >= 10 {
        lemma_decimal_len_monotone(n / 10, m / 10);
    }
}

proof fn lemma_spaces_len(k: int)
    ensures
        spaces(k).len() == if k <= 0 { 0 } else { k },
        forall|i: int| 0 <= i < spaces(k).len() ==> spaces(k)[i] == ' ',
    decreases k,
{
    if k > 0 {
        lemma_spaces_len(k - 1);
    }
}

/// Produces the labels of the line numbers from one past a given line on, all in one column
/// as wide as the largest line number of the buffer.
pub struct LineNumberStringIter {
    current: usize,
    max_width: usize,
}

impl View for LineNumberStringIter {
    /// The last line number labelled so far, and the width of the numbers' column.
    type V = (usize, usize);

    closed spec fn view(&self) -> (usize, usize) {
        (self.current, self.max_width)
    }
}

impl LineNumberStringIter {
    /// Labels for a buffer of `line_count` lines, starting with line number `offset + 1`.
    pub fn new(line_count: usize, offset: usize) -> (r: LineNumberStringIter)
        ensures
            r@ == (offset, decimal(line_count as nat).len() as usize),
            r@.1 <= 20,
    {
        LineNumberStringIter { current: offset, max_width: decimal_len(line_count) }
    }

    /// The width of a label: the numbers' column and the blank column on each side.
    pub fn width(&self) -> (r: usize)
        requires
            self@.1 <= 20,
        ensures
            r == self@.1 + PADDING_SIZE,
    {
        self.max_width + PADDING_SIZE
    }

    /// The label of the next line number; there always is one.
    pub fn next(&mut self) -> (r: Option<String>)
        requires
            old(self)@.0 < usize::MAX,
        ensures
            final(self)@ == ((old(self)@.0 + 1) as usize, old(self)@.1),
            r matches Some(s) && s@ == label(final(self)@.0 as nat, old(self)@.1 as nat),
    {
        self.current = self.current + 1;
        let n = self.current;
        let len = decimal_len(n);
        let mut s = String::new();
        proof {
            reveal_strlit(" ");
        }
        s.append(" ");
        let ghost start = s@;
        if len < self.max_width {
            let pad = self.max_width - len;
            let mut i: usize = 0;
            while i < pad
                invariant
                    i <= pad,
                    s@ == start + spaces(i as int),
                decreases pad - i,
            {
                proof {
                    reveal_strlit(" ");
                }
                s.append(" ");
                assert(spaces(i + 1) == spaces(i as int).push(' '));
                i = i + 1;
                assert(s@ =~= start + spaces(i as int));
            }
        } else {
            assert(spaces(self.max_width - len) =~= Seq::<char>::empty());
        }
        push_decimal(&mut s, n);
        s.append(" ");
        assert(s@ =~= label(n as nat, self.max_width as nat));
        Some(s)
    }
}

/// The labels of all line numbers of a buffer, from 1 to its number of lines, have the same
/// length: the width of the numbers' column and the two blank columns.
pub proof fn law_labels_line_up(n: nat, line_count: nat)
    requires
        1 <= n <= line_count,
    ensures
        label(n, decimal(line_count).len()).len() == decimal(line_count).len() + PADDING_SIZE,
{
    lemma_decimal_len_monotone(n, line_count);
    lemma_spaces_len(decimal(line_count).len() - decimal(n).len());
}

} // verus!
