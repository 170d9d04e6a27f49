//! Finding the bracket or quote that pairs with another one.
use regex::Regex;
use vstd::prelude::*;
use vstd::string::StringSliceAdditionalSpecFns;

verus! {

/// An opening bracket.
pub open spec fn spec_is_left(c: char) -> bool {
    c == '(' || c == '[' || c == '{' || c == '<'
}

/// A closing bracket.
pub open spec fn spec_is_right(c: char) -> bool {
    c == ')' || c == ']' || c == '}' || c == '>'
}

/// A quote.
pub open spec fn spec_is_quote(c: char) -> bool {
    c == '\'' || c == '"' || c == '`'
}

/// A bracket or quote that has a partner.
pub open spec fn has_pair(c: char) -> bool {
    spec_is_left(c) || spec_is_right(c) || spec_is_quote(c)
}

/// The partner of a bracket or quote: the other bracket of the pair, or the quote itself.
pub open spec fn pair_of(c: char) -> char {
    if c == '(' {
        ')'
    } else if c == '[' {
        ']'
    } else if c == '{' {
        '}'
    } else if c == '<' {
        '>'
    } else if c == ')' {
        '('
    } else if c == ']' {
        '['
    } else if c == '}' {
        '{'
    } else if c == '>' {
        '<'
    } else {
        c
    }
}

pub fn is_left(pat: char) -> (r: bool)
    ensures
        r == spec_is_left(pat),
{
    pat == '(' || pat == '[' || pat == '{' || pat == '<'
}

pub fn is_right(pat: char) -> (r: bool)
    ensures
        r == spec_is_right(pat),
{
    pat == ')' || pat == ']' || pat == '}' || pat == '>'
}

pub fn is_quote(pat: char) -> (r: bool)
    ensures
        r == spec_is_quote(pat),
{
    pat == '\'' || pat == '"' || pat == '`'
}

/// The partner of a bracket or quote.
pub fn get_pair(pat: char) -> (r: char)
    requires
        has_pair(pat),
    ensures
        r == pair_of(pat),
{
    if pat == '(' {
        ')'
    } else if pat == '[' {
        ']'
    } else if pat == '{' {
        '}'
    } else if pat == '<' {
        '>'
    } else if pat == ')' {
        '('
    } else if pat == ']' {
        '['
    } else if pat == '}' {
        '{'
    } else if pat == '>' {
        '<'
    } else {
        pat
    }
}

/// Scanning `t` forward from `i` with `d` brackets open: the index of the closing bracket `r`
/// that closes the outermost one (a closing bracket with at most one open), `None` when the
/// text ends first. Each opening bracket `l` opens one more.
pub open spec fn match_right(t: Seq<char>, l: char, r: char, i: int, d: nat) -> Option<int>
    decreases t.len() - i,
{
    if i < 0 || i >= t.len() {
        None
    } else if t[i] == l {
        match_right(t, l, r, i + 1, d + 1)
    } else if t[i] == r {
        if d <= 1 {
            Some(i)
        } else {
            match_right(t, l, r, i + 1, (d - 1) as nat)
        }
    } else {
        match_right(t, l, r, i + 1, d)
    }
}

/// Scanning `t` backward from `i` with `d` brackets closed: the index of the opening bracket
/// `l` that opens the outermost one, `None` when the text begins first. Each closing bracket
/// `r` closes one more.
pub open spec fn match_left(t: Seq<char>, l: char, r: char, i: int, d: nat) -> Option<int>
    decreases i + 1,
{
    if i < 0 || i >= t.len() {
        None
    } else if t[i] == r {
        match_left(t, l, r, i - 1, d + 1)
    } else if t[i] == l {
        if d <= 1 {
            Some(i)
        } else {
            match_left(t, l, r, i - 1, (d - 1) as nat)
        }
    } else {
        match_left(t, l, r, i - 1, d)
    }
}

proof fn lemma_match_right_bounds(t: Seq<char>, l: char, r: char, i: int, d: nat)
    ensures
        match_right(t, l, r, i, d) matches Some(e) ==> i <= e < t.len(),
    decreases t.len() - i,
{
    if 0 <= i < t.len() {
        if t[i] == l {
            lemma_match_right_bounds(t, l, r, i + 1, d + 1);
        } else if t[i] == r {
            if d > 1 {
                lemma_match_right_bounds(t, l, r, i + 1, (d - 1) as nat);
            }
        } else {
            lemma_match_right_bounds(t, l, r, i + 1, d);
        }
    }
}

proof fn lemma_match_left_bounds(t: Seq<char>, l: char, r: char, i: int, d: nat)
    ensures
        match_left(t, l, r, i, d) matches Some(e) ==> 0 <= e <= i,
    decreases i + 1,
{
    if 0 <= i < t.len() {
        if t[i] == r {
            lemma_match_left_bounds(t, l, r, i - 1, d + 1);
        } else if t[i] == l {
            if d > 1 {
                lemma_match_left_bounds(t, l, r, i - 1, (d - 1) as nat);
            }
        } else {
            lemma_match_left_bounds(t, l, r, i - 1, d);
        }
    }
}

fn copy_chars(t: &Vec<char>, a: usize, b: usize) -> (r: Vec<char>)
    requires
        a <= b <= t.len(),
    ensures
        r@ == t@.subrange(a as int, b as int),
{
    let mut r: Vec<char> = Vec::new();
    let mut i = a;
    while i < b
        invariant
            a <= i <= b <= t.len(),
            r@ == t@.subrange(a as int, i as int),
        decreases b - i,
    {
        r.push(t[i]);
        i = i + 1;
        assert(r@ =~= t@.subrange(a as int, i as int));
    }
    r
}

/// The text from the opening bracket `left_pat` at `start` up to and including the bracket
/// that closes it; `None` when it is not closed.
pub fn find_matching_right(text: &Vec<char>, left_pat: char, start: usize) -> (r: Option<Vec<char>>)
    requires
        start <= text.len(),
        has_pair(left_pat),
    ensures
        match match_right(text@, left_pat, pair_of(left_pat), start as int, 0) {
            Some(e) => r matches Some(v) && v@ == text@.subrange(start as int, e + 1),
            None => r is None,
        },
{
    let right_pat = get_pair(left_pat);
    let n = text.len();
    let mut depth: usize = 0;
    let mut i = start;
    while i < n
        invariant
            n == text.len(),
            start <= i <= n,
            depth <= i,
            right_pat == pair_of(left_pat),
            match_right(text@, left_pat, right_pat, start as int, 0) == match_right(
                text@,
                left_pat,
                right_pat,
                i as int,
                depth as nat,
            ),
        decreases n - i,
    {
        let c = text[i];
        if c == left_pat {
            depth = depth + 1;
        } else if c == right_pat {
            if depth <= 1 {
                proof {
                    lemma_match_right_bounds(text@, left_pat, right_pat, i as int, depth as nat);
                }
                return Some(copy_chars(text, start, i + 1));
            }
            depth = depth - 1;
        }
        i = i + 1;
    }
    None
}

/// The index of the opening bracket that pairs with the closing bracket `right_pat` at `end`,
/// and the text from it up to, not including, `end`; `None` when there is none.
pub fn find_matching_left(text: &Vec<char>, right_pat: char, end: usize) -> (r: Option<(usize, Vec<char>)>)
    requires
        end < text.len(),
        has_pair(right_pat),
    ensures
        match match_left(text@, pair_of(right_pat), right_pat, end as int, 0) {
            Some(i) => r matches Some((j, v)) && j == i && v@ == text@.subrange(i, end as int),
            None => r is None,
        },
{
    let left_pat = get_pair(right_pat);
    let mut depth: usize = 0;
    let mut i: usize = end + 1;
    while i > 0
        invariant
            end < text.len(),
            i <= end + 1,
            depth + i <= end + 1,
            left_pat == pair_of(right_pat),
            match_left(text@, left_pat, right_pat, end as int, 0) == match_left(
                text@,
                left_pat,
                right_pat,
                i - 1,
                depth as nat,
            ),
        decreases i,
    {
        let idx = i - 1;
        let c = text[idx];
        if c == right_pat {
            depth = depth + 1;
        } else if c == left_pat {
            if depth <= 1 {
                return Some((idx, copy_chars(text, idx, end)));
            }
            depth = depth - 1;
        }
        i = idx;
    }
    None
}

/// A bracket closes where scanning back from it finds the one it closes: in a text where an
/// opening bracket at `s` is closed at `e`, the scan forward from `s` stops at a closing
/// bracket and the scan backward from `e` stops at an opening bracket.
pub proof fn law_matches_are_brackets(t: Seq<char>, l: char, s: int, e: int)
    requires
        spec_is_left(l),
        0 <= s < t.len(),
        t[s] == l,
    ensures
        match_right(t, l, pair_of(l), s, 0) matches Some(x) ==> t[x] == pair_of(l) && s < x < t.len(),
{
    lemma_match_right_end(t, l, pair_of(l), s + 1, 1);
}

proof fn lemma_match_right_end(t: Seq<char>, l: char, r: char, i: int, d: nat)
    requires
        0 <= i,
    ensures
        match_right(t, l, r, i, d) matches Some(x) ==> t[x] == r && i <= x < t.len(),
    decreases t.len() - i,
{
    if 0 <= i < t.len() {
        if t[i] == l {
            lemma_match_right_end(t, l, r, i + 1, d + 1);
        } else if t[i] == r {
            if d > 1 {
                lemma_match_right_end(t, l, r, i + 1, (d - 1) as nat);
            }
        } else {
            lemma_match_right_end(t, l, r, i + 1, d);
        }
    }
}

/// The name for what `regex::Regex::find_at` answers for the regex `pattern`, the text `text`
/// and the byte offset `start`: the byte range of the leftmost match that starts at or after
/// `start`, or `None`; also `None` when `pattern` is not a valid regex.
pub uninterp spec fn regex_find_at(pattern: Seq<char>, text: Seq<char>, start: usize) -> Option<
    (usize, usize),
>;

/// `regex::Regex::new(pattern)` and then `find_at(text, start)` on it, the match given as its
/// byte range (`None` also when the pattern does not compile): `regex_find_at` of the
/// arguments. The search runs over `start..text.len()`, so a match starts no earlier than
/// `start`, ends no earlier than it starts, and ends within the text; `find_at` panics past the
/// end of the text, which `start` may not be.
#[verifier::external_body]
fn find_at(pattern: &str, text: &str, start: usize) -> (r: Option<(usize, usize)>)
    requires
        start <= text.spec_bytes().len(),
    ensures
        r == regex_find_at(pattern@, text@, start),
        r matches Some((a, b)) ==> start <= a <= b <= text.spec_bytes().len(),
{
    match Regex::new(pattern) {
        Ok(re) => re.find_at(text, start).map(|m| (m.start(), m.end())),
        Err(_) => None,
    }
}

/// The regex that finds the bracket or quote `c` from a place on: an opening bracket itself,
/// a quote with the text up to the next one, a closing bracket itself.
pub open spec fn pattern_of(c: char) -> Seq<char> {
    if c == '(' {
        "(?s)\\(.*?"@
    } else if c == '[' {
        "(?s)\\[.*?"@
    } else if c == '{' {
        "(?s)\\{.*?"@
    } else if c == '<' {
        "(?s)<.*?"@
    } else if c == '\'' {
        "(?s)\\'(.*?)\\'"@
    } else if c == '"' {
        "(?s)\"(.*?)\""@
    } else if c == '`' {
        "(?s)`(.*?)`"@
    } else if c == ')' {
        "\\)"@
    } else if c == ']' {
        "\\]"@
    } else if c == '}' {
        "\\}"@
    } else {
        "\\>"@
    }
}

/// The regex that finds the bracket or quote `pat` (see `pattern_of`); `None` for any other
/// character.
pub fn pairing_pattern(pat: char) -> (r: Option<&'static str>)
    ensures
        match r {
            Some(p) => has_pair(pat) && p@ == pattern_of(pat),
            None => !has_pair(pat),
        },
{
    if pat == '(' {
        Some("(?s)\\(.*?")
    } else if pat == '[' {
        Some("(?s)\\[.*?")
    } else if pat == '{' {
        Some("(?s)\\{.*?")
    } else if pat == '<' {
        Some("(?s)<.*?")
    } else if pat == '\'' {
        Some("(?s)\\'(.*?)\\'")
    } else if pat == '"' {
        Some("(?s)\"(.*?)\"")
    } else if pat == '`' {
        Some("(?s)`(.*?)`")
    } else if pat == ')' {
        Some("\\)")
    } else if pat == ']' {
        Some("\\]")
    } else if pat == '}' {
        Some("\\}")
    } else if pat == '>' {
        Some("\\>")
    } else {
        None
    }
}

/// The bytes of a text read one character per byte, so that a byte index is a character
/// index; brackets and quotes are single bytes, and no other byte reads as one.
pub open spec fn byte_chars(t: Seq<u8>) -> Seq<char> {
    Seq::new(t.len(), |i: int| t[i] as char)
}

/// The pair of `pat` found in the text `t` from a match `found` of its regex: for a quote the
/// match itself; for an opening bracket the text from the match up to and including the
/// bracket that closes it; for a closing bracket the text from the bracket that it closes up to
/// and including it. The answer is a byte range of `t`, and the cursor goes to its start.
pub open spec fn pair_range(t: Seq<u8>, pat: char, found: Option<(usize, usize)>) -> Option<(usize, usize)> {
    match found {
        None => None,
        Some((a, b)) => if spec_is_quote(pat) {
            Some((a, b))
        } else if spec_is_left(pat) {
            match match_right(byte_chars(t), pat, pair_of(pat), a as int, 0) {
                Some(e) => Some((a, (e + 1) as usize)),
                None => None,
            }
        } else if spec_is_right(pat) {
            match match_left(byte_chars(t), pair_of(pat), pat, a as int, 0) {
                Some(i) => Some((i as usize, b)),
                None => None,
            }
        } else {
            None
        },
    }
}

/// The text `t` read one character per byte (see `byte_chars`).
fn to_byte_chars(t: &[u8]) -> (r: Vec<char>)
    ensures
        r@ == byte_chars(t@),
{
    let mut r: Vec<char> = Vec::new();
    let mut i: usize = 0;
    while i < t.len()
        invariant
            i <= t.len(),
            r@ == byte_chars(t@).take(i as int),
        decreases t.len() - i,
    {
        r.push(t[i] as char);
        i = i + 1;
        assert(r@ =~= byte_chars(t@).take(i as int));
    }
    assert(byte_chars(t@).take(t.len() as int) =~= byte_chars(t@));
    r
}

/// The pair of `pat` in the text `text` found from the match `found` of its regex (see
/// `pair_range`).
pub fn pair_from_match(text: &[u8], pat: char, found: Option<(usize, usize)>) -> (r: Option<(usize, usize)>)
    requires
        found matches Some((a, b)) ==> a <= b <= text@.len(),
    ensures
        r == pair_range(text@, pat, found),
{
    match found {
        None => None,
        Some((a, b)) => {
            if is_quote(pat) {
                Some((a, b))
            } else if is_left(pat) {
                let n = text.len();
                let chars = to_byte_chars(text);
                match find_matching_right(&chars, pat, a) {
                    Some(v) => {
                        proof {
                            lemma_match_right_bounds(chars@, pat, pair_of(pat), a as int, 0);
                        }
                        let ghost e = match_right(chars@, pat, pair_of(pat), a as int, 0).unwrap();
                        assert(v@.len() == e + 1 - a);
                        assert(chars@.len() == n);
                        assert(a + v.len() <= n);
                        Some((a, a + v.len()))
                    },
                    None => None,
                }
            } else if is_right(pat) {
                if a >= text.len() {
                    return None;
                }
                let chars = to_byte_chars(text);
                match find_matching_left(&chars, pat, a) {
                    Some((i, _)) => Some((i, b)),
                    None => None,
                }
            } else {
                None
            }
        },
    }
}

/// The bracket or quote pair that `pat` finds in `text` from byte `pos` on: the regex of `pat`
/// (see `pattern_of`) finds the first one, and the pair is completed from there (see
/// `pair_range`). `None` for a character that has no partner.
pub fn get_nested_pair(text: &str, pat: char, pos: usize) -> (r: Option<(usize, usize)>)
    requires
        pos <= text.spec_bytes().len(),
    ensures
        r == if has_pair(pat) {
            pair_range(text.spec_bytes(), pat, regex_find_at(pattern_of(pat), text@, pos))
        } else {
            None
        },
{
    let pattern = match pairing_pattern(pat) {
        Some(p) => p,
        None => return None,
    };
    let found = find_at(pattern, text, pos);
    pair_from_match(text.as_bytes(), pat, found)
}

} // verus!
