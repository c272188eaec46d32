//! Character-level helpers shared by the parsers.
use vstd::prelude::*;

verus! {

/// The view of an optional string.
pub open spec fn opt_view(o: Option<String>) -> Option<Seq<char>> {
    match o {
        Some(s) => Some(s@),
        None => None,
    }
}

/// The characters of `s`, in order.
pub(crate) fn chars_of(s: &str) -> (r: Vec<char>)
    ensures
        r@ == s@,
{
    let mut r: Vec<char> = Vec::new();
    for c in it: s.chars()
        invariant
            r@ == it.seq().take(it.index() as int),
            it.seq() == s@,
    {
        r.push(c);
    }
    r
}

/// Relies on std's `FromIterator<char>` for `String`: the string made of
/// `cs[start..end]`, in order.
#[verifier::external_body]
pub(crate) fn string_from_chars(cs: &Vec<char>, start: usize, end: usize) -> (r: String)
    requires
        start <= end <= cs@.len(),
    ensures
        r@ == cs@.subrange(start as int, end as int),
{
    cs[start..end].iter().collect()
}

/// The decimal digit for `d`.
pub open spec fn digit_char(d: nat) -> char {
    if d == 0 {
        '0'
    } else if d == 1 {
        '1'
    } else if d == 2 {
        '2'
    } else if d == 3 {
        '3'
    } else if d == 4 {
        '4'
    } else if d == 5 {
        '5'
    } else if d == 6 {
        '6'
    } else if d == 7 {
        '7'
    } else if d == 8 {
        '8'
    } else {
        '9'
    }
}

/// `n` written in decimal, without leading zeros.
pub open spec fn decimal(n: nat) -> Seq<char>
    decreases n,
{
    if n < 10 {
        seq![digit_char(n)]
    } else {
        decimal(n / 10).push(digit_char(n % 10))
    }
}

fn digit(d: u128) -> (c: char)
    requires
        d < 10,
    ensures
        c == digit_char(d as nat),
{
    if d == 0 {
        '0'
    } else if d == 1 {
        '1'
    } else if d == 2 {
        '2'
    } else if d == 3 {
        '3'
    } else if d == 4 {
        '4'
    } else if d == 5 {
        '5'
    } else if d == 6 {
        '6'
    } else if d == 7 {
        '7'
    } else if d == 8 {
        '8'
    } else {
        '9'
    }
}

fn decimal_chars(n: u128) -> (r: Vec<char>)
    ensures
        r@ == decimal(n as nat),
    decreases n,
{
    if n < 10 {
        let mut r: Vec<char> = Vec::new();
        r.push(digit(n));
        assert(r@ =~= decimal(n as nat));
        r
    } else {
        let mut r = decimal_chars(n / 10);
        r.push(digit(n % 10));
        r
    }
}

/// `n` written in decimal.
pub fn decimal_string(n: u128) -> (r: String)
    ensures
        r@ == decimal(n as nat),
{
    let cs = decimal_chars(n);
    let r = string_from_chars(&cs, 0, cs.len());
    assert(cs@.subrange(0, cs@.len() as int) =~= cs@);
    r
}

/// The position of the first line feed in `s` at or after `from`, or the
/// length of `s` when there is none.
pub open spec fn line_end(s: Seq<char>, from: int) -> int
    decreases s.len() - from,
{
    if from >= s.len() || s[from] == '\n' {
        from
    } else {
        line_end(s, from + 1)
    }
}

/// Where the text of the line that ends at `e` stops: a carriage return
/// right before the line feed is not part of the line.
pub open spec fn line_body_end(s: Seq<char>, from: int, e: int) -> int {
    if from < e < s.len() && s[e - 1] == '\r' {
        e - 1
    } else {
        e
    }
}

/// The lines of `s[from..]` as `str::lines` yields them: the text is split
/// at each line feed, a carriage return before a line feed is dropped, and
/// a last line needs no line feed (so a final empty piece is no line).
pub open spec fn lines_from(s: Seq<char>, from: int) -> Seq<Seq<char>>
    decreases s.len() - from,
{
    // `line_end` never lies before `from`; the last test only lets the
    // definition say so.
    let e = line_end(s, from);
    if from < 0 || from >= s.len() || e < from {
        seq![]
    } else {
        let line = s.subrange(from, line_body_end(s, from, e));
        if e >= s.len() {
            seq![line]
        } else {
            seq![line] + lines_from(s, e + 1)
        }
    }
}

/// The lines of `s`.
pub open spec fn lines(s: Seq<char>) -> Seq<Seq<char>> {
    lines_from(s, 0)
}

proof fn lemma_line_end_bounds(s: Seq<char>, from: int)
    requires
        0 <= from <= s.len(),
    ensures
        from <= line_end(s, from) <= s.len(),
        line_end(s, from) < s.len() ==> s[line_end(s, from)] == '\n',
    decreases s.len() - from,
{
    if from < s.len() && s[from] != '\n' {
        lemma_line_end_bounds(s, from + 1);
    }
}

/// The line that starts at `pos`: where its text stops, and where the next
/// line starts (past the line feed), which is the length of `cs` when this
/// is the last line.
pub(crate) fn line_at(cs: &Vec<char>, pos: usize) -> (r: (usize, usize))
    requires
        pos < cs@.len(),
    ensures
        pos <= r.0 <= cs@.len(),
        pos < r.1 <= cs@.len(),
        r.0 == line_body_end(cs@, pos as int, line_end(cs@, pos as int)),
        lines_from(cs@, pos as int) == seq![cs@.subrange(pos as int, r.0 as int)] + lines_from(
            cs@,
            r.1 as int,
        ),
{
    proof {
        lemma_line_end_bounds(cs@, pos as int);
    }
    let mut k: usize = pos;
    while k < cs.len() && cs[k] != '\n'
        invariant
            pos <= k <= cs@.len(),
            line_end(cs@, k as int) == line_end(cs@, pos as int),
        decreases cs@.len() - k,
    {
        k += 1;
    }
    let body_end = if pos < k && k < cs.len() && cs[k - 1] == '\r' {
        k - 1
    } else {
        k
    };
    let next = if k < cs.len() {
        k + 1
    } else {
        k
    };
    proof {
        let line = cs@.subrange(pos as int, body_end as int);
        if k >= cs@.len() {
            assert(lines_from(cs@, next as int) =~= seq![]);
            assert(seq![line] + lines_from(cs@, next as int) =~= seq![line]);
        }
    }
    (body_end, next)
}

/// Whether `cs[start..end]` begins with `prefix`.
pub(crate) fn has_prefix_at(cs: &Vec<char>, start: usize, end: usize, prefix: &Vec<char>) -> (r: bool)
    requires
        start <= end <= cs@.len(),
    ensures
        r == (prefix@.len() <= end - start && cs@.subrange(
            start as int,
            start + prefix@.len(),
        ) == prefix@),
{
    if prefix.len() > end - start {
        return false;
    }
    let mut i: usize = 0;
    while i < prefix.len()
        invariant
            i <= prefix@.len() <= end - start,
            end <= cs@.len(),
            forall|j: int| 0 <= j < i ==> cs@[start + j] == prefix@[j],
        decreases prefix@.len() - i,
    {
        if cs[start + i] != prefix[i] {
            assert(cs@.subrange(start as int, start + prefix@.len())[i as int] != prefix@[i as int]);
            return false;
        }
        i += 1;
    }
    assert(cs@.subrange(start as int, start + prefix@.len()) =~= prefix@);
    true
}

/// The position of the first `c` in `cs[start..end]`, or `end`.
pub(crate) fn find_char(cs: &Vec<char>, start: usize, end: usize, c: char) -> (r: usize)
    requires
        start <= end <= cs@.len(),
    ensures
        start <= r <= end,
        r < end ==> cs@[r as int] == c,
        forall|j: int| start <= j < r ==> cs@[j] != c,
{
    let mut k: usize = start;
    while k < end && cs[k] != c
        invariant
            start <= k <= end <= cs@.len(),
            forall|j: int| start <= j < k ==> cs@[j] != c,
        decreases end - k,
    {
        k += 1;
    }
    k
}

/// Whether `c` is white space in Unicode's sense, as `char::is_whitespace`
/// decides it.
pub open spec fn is_whitespace(c: char) -> bool {
    let u = c as u32;
    (0x9 <= u <= 0xd) || u == 0x20 || u == 0x85 || u == 0xa0 || u == 0x1680 || (0x2000 <= u
        <= 0x200a) || u == 0x2028 || u == 0x2029 || u == 0x202f || u == 0x205f || u == 0x3000
}

/// The characters that a trim removes.
#[derive(Clone, Copy, Debug, PartialEq, Eq, Structural)]
pub enum CharClass {
    Whitespace,
    Quote,
}

/// Whether `c` belongs to `class`.
pub open spec fn in_class(c: char, class: CharClass) -> bool {
    match class {
        CharClass::Whitespace => is_whitespace(c),
        CharClass::Quote => c == '"',
    }
}

fn is_in_class(c: char, class: CharClass) -> (r: bool)
    ensures
        r == in_class(c, class),
{
    match class {
        CharClass::Whitespace => {
            let u = c as u32;
            (0x9 <= u && u <= 0xd) || u == 0x20 || u == 0x85 || u == 0xa0 || u == 0x1680 || (0x2000
                <= u && u <= 0x200a) || u == 0x2028 || u == 0x2029 || u == 0x202f || u == 0x205f
                || u == 0x3000
        },
        CharClass::Quote => c == '"',
    }
}

/// `s` without its leading characters of `class`.
pub open spec fn trim_start(s: Seq<char>, class: CharClass) -> Seq<char>
    decreases s.len(),
{
    if s.len() > 0 && in_class(s[0], class) {
        trim_start(s.drop_first(), class)
    } else {
        s
    }
}

/// `s` without its trailing characters of `class`.
pub open spec fn trim_end(s: Seq<char>, class: CharClass) -> Seq<char>
    decreases s.len(),
{
    if s.len() > 0 && in_class(s.last(), class) {
        trim_end(s.drop_last(), class)
    } else {
        s
    }
}

/// `s` without the characters of `class` at either end.
pub open spec fn trim(s: Seq<char>, class: CharClass) -> Seq<char> {
    trim_end(trim_start(s, class), class)
}

/// The bounds of `cs[start..end]` trimmed of `class` at both ends.
pub(crate) fn trim_range(cs: &Vec<char>, start: usize, end: usize, class: CharClass) -> (r: (usize, usize))
    requires
        start <= end <= cs@.len(),
    ensures
        start <= r.0 <= r.1 <= end,
        cs@.subrange(r.0 as int, r.1 as int) == trim(cs@.subrange(start as int, end as int), class),
{
    let mut a: usize = start;
    while a < end && is_in_class(cs[a], class)
        invariant
            start <= a <= end <= cs@.len(),
            trim_start(cs@.subrange(start as int, end as int), class) == trim_start(
                cs@.subrange(a as int, end as int),
                class,
            ),
        decreases end - a,
    {
        assert(cs@.subrange(a as int, end as int).drop_first() =~= cs@.subrange(a + 1, end as int));
        a += 1;
    }
    let mut b: usize = end;
    while b > a && is_in_class(cs[b - 1], class)
        invariant
            start <= a <= b <= end <= cs@.len(),
            trim_end(cs@.subrange(a as int, end as int), class) == trim_end(
                cs@.subrange(a as int, b as int),
                class,
            ),
        decreases b - a,
    {
        assert(cs@.subrange(a as int, b as int).drop_last() =~= cs@.subrange(a as int, b - 1));
        b -= 1;
    }
    (a, b)
}

/// The position of the first white space in `s` at or after `from`, or
/// the length of `s` when there is none.
pub open spec fn word_end(s: Seq<char>, from: int) -> int
    decreases s.len() - from,
{
    if from >= s.len() || is_whitespace(s[from]) {
        from
    } else {
        word_end(s, from + 1)
    }
}

/// The words of `s[from..]` as `str::split_whitespace` yields them: the
/// maximal runs of characters that are not white space, in order.
pub open spec fn words_from(s: Seq<char>, from: int) -> Seq<Seq<char>>
    decreases s.len() - from,
{
    if from < 0 || from >= s.len() {
        seq![]
    } else if is_whitespace(s[from]) {
        words_from(s, from + 1)
    } else {
        // `word_end` lies past `from` and within `s` here; the guard only
        // lets the definition say so.
        let e = word_end(s, from);
        if from < e <= s.len() {
            seq![s.subrange(from, e)] + words_from(s, e)
        } else {
            seq![]
        }
    }
}

/// The words of `s`.
pub open spec fn words(s: Seq<char>) -> Seq<Seq<char>> {
    words_from(s, 0)
}

proof fn lemma_word_end_bounds(s: Seq<char>, from: int)
    requires
        0 <= from <= s.len(),
    ensures
        from <= word_end(s, from) <= s.len(),
    decreases s.len() - from,
{
    if from < s.len() && !is_whitespace(s[from]) {
        lemma_word_end_bounds(s, from + 1);
    }
}

/// The words of `s`, as strings.
pub fn split_words(s: &str) -> (r: Vec<String>)
    ensures
        r@.map_values(|w: String| w@) == words(s@),
{
    let cs = chars_of(s);
    let mut r: Vec<String> = Vec::new();
    let mut pos: usize = 0;
    while pos < cs.len()
        invariant
            pos <= cs@.len(),
            cs@ == s@,
            r@.map_values(|w: String| w@) + words_from(cs@, pos as int) == words(cs@),
        decreases cs@.len() - pos,
    {
        if is_in_class(cs[pos], CharClass::Whitespace) {
            pos += 1;
        } else {
            proof {
                lemma_word_end_bounds(cs@, pos as int);
            }
            let mut k: usize = pos;
            while k < cs.len() && !is_in_class(cs[k], CharClass::Whitespace)
                invariant
                    pos <= k <= cs@.len(),
                    word_end(cs@, k as int) == word_end(cs@, pos as int),
                decreases cs@.len() - k,
            {
                k += 1;
            }
            let ghost before = r@.map_values(|w: String| w@);
            let w = string_from_chars(&cs, pos, k);
            r.push(w);
            assert(r@.map_values(|w: String| w@) =~= before.push(cs@.subrange(pos as int, k as int)));
            assert(before.push(cs@.subrange(pos as int, k as int)) + words_from(cs@, k as int)
                =~= before + words_from(cs@, pos as int));
            pos = k;
        }
    }
    assert(words_from(cs@, pos as int) =~= seq![]);
    assert(r@.map_values(|w: String| w@) + seq![] =~= r@.map_values(|w: String| w@));
    r
}

} // verus!
