//! Mathematical model of the text operations: everything here speaks of
//! sequences of characters.

use vstd::prelude::*;

verus! {

/// Predicate on characters.
pub type CharPred = spec_fn(char) -> bool;

/// Sequence of texts, such as the segments of a split.
pub type Texts = Seq<Seq<char>>;

// ---------------------------------------------------------------------------
// Characters
// ---------------------------------------------------------------------------

/// The Unicode `White_Space` property.
pub open spec fn is_space(c: char) -> bool {
    let n = c as u32;
    ||| 9 <= n <= 13
    ||| n == 32
    ||| n == 0x85
    ||| n == 0xA0
    ||| n == 0x1680
    ||| 0x2000 <= n <= 0x200A
    ||| n == 0x2028
    ||| n == 0x2029
    ||| n == 0x202F
    ||| n == 0x205F
    ||| n == 0x3000
}

/// The predicate of [`is_space`].
pub open spec fn space() -> CharPred {
    |c: char| is_space(c)
}

/// The predicate of belonging to `set`.
pub open spec fn one_of(set: Seq<char>) -> CharPred {
    |c: char| set.contains(c)
}

/// The predicate of being `x`.
pub open spec fn just(x: char) -> CharPred {
    |c: char| c == x
}

/// An ASCII upper-case letter becomes the lower-case one; every other
/// character stays.
pub open spec fn ascii_lower(c: char) -> char {
    if 'A' <= c <= 'Z' {
        (c as u32 + 32) as char
    } else {
        c
    }
}

/// ASCII letters and digits.
pub open spec fn is_ascii_alphanumeric(c: char) -> bool {
    'a' <= c <= 'z' || 'A' <= c <= 'Z' || '0' <= c <= '9'
}

/// `s` with every character in ASCII lower case.
pub open spec fn lower(s: Seq<char>) -> Seq<char> {
    s.map_values(|c: char| ascii_lower(c))
}

/// `s` with every `from` replaced by `to`.
pub open spec fn replace_char(s: Seq<char>, from: char, to: char) -> Seq<char> {
    s.map_values(|c: char| if c == from { to } else { c })
}

// ---------------------------------------------------------------------------
// Trimming
// ---------------------------------------------------------------------------

/// `s` without its longest prefix of characters in `f`.
pub open spec fn trim_start_by(s: Seq<char>, f: CharPred) -> Seq<char>
    decreases s.len(),
{
    if s.len() > 0 && f(s[0]) {
        trim_start_by(s.drop_first(), f)
    } else {
        s
    }
}

/// `s` without its longest suffix of characters in `f`.
pub open spec fn trim_end_by(s: Seq<char>, f: CharPred) -> Seq<char>
    decreases s.len(),
{
    if s.len() > 0 && f(s.last()) {
        trim_end_by(s.drop_last(), f)
    } else {
        s
    }
}

/// `s` without leading and trailing characters in `f`.
pub open spec fn trim_by(s: Seq<char>, f: CharPred) -> Seq<char> {
    trim_end_by(trim_start_by(s, f), f)
}

/// `s` without leading white space.
pub open spec fn trim_start(s: Seq<char>) -> Seq<char> {
    trim_start_by(s, space())
}

/// `s` without leading and trailing white space.
pub open spec fn trim(s: Seq<char>) -> Seq<char> {
    trim_by(s, space())
}

/// White space only, or nothing at all.
pub open spec fn is_blank(s: Seq<char>) -> bool {
    trim(s).len() == 0
}

/// The first `n` characters of `s`, or all of it where it is shorter.
pub open spec fn prefix(s: Seq<char>, n: nat) -> Seq<char> {
    if s.len() <= n {
        s
    } else {
        s.take(n as int)
    }
}

// ---------------------------------------------------------------------------
// Searching
// ---------------------------------------------------------------------------

/// `p` stands in `s` at position `i`.
pub open spec fn occurs_at(s: Seq<char>, p: Seq<char>, i: int) -> bool {
    0 <= i && i + p.len() <= s.len() && s.subrange(i, i + p.len()) == p
}

/// `i` is the first position of `p` in `s`.
pub open spec fn first_at(s: Seq<char>, p: Seq<char>, i: int) -> bool {
    occurs_at(s, p, i) && forall|j: int| 0 <= j < i ==> !#[trigger] occurs_at(s, p, j)
}

/// `p` stands somewhere in `s`.
pub open spec fn contains(s: Seq<char>, p: Seq<char>) -> bool {
    exists|i: int| #[trigger] occurs_at(s, p, i)
}

/// The first position of `p` in `s`.
pub open spec fn find(s: Seq<char>, p: Seq<char>) -> Option<int> {
    if contains(s, p) {
        Some(choose|i: int| first_at(s, p, i))
    } else {
        None
    }
}

/// One of the texts in `needles` stands somewhere in `s`.
pub open spec fn contains_any(s: Seq<char>, needles: Seq<&str>) -> bool {
    exists|k: int| 0 <= k < needles.len() && contains(s, (#[trigger] needles[k])@)
}

/// `s` begins with `p`.
pub open spec fn starts_with(s: Seq<char>, p: Seq<char>) -> bool {
    p.len() <= s.len() && s.take(p.len() as int) == p
}

/// `s` ends with `p`.
pub open spec fn ends_with(s: Seq<char>, p: Seq<char>) -> bool {
    p.len() <= s.len() && s.skip(s.len() - p.len()) == p
}

/// `s` begins with one of the texts in `prefixes`.
pub open spec fn starts_with_any(s: Seq<char>, prefixes: Seq<&str>) -> bool {
    exists|k: int| 0 <= k < prefixes.len() && starts_with(s, (#[trigger] prefixes[k])@)
}

/// `s` is one of the texts in `values`.
pub open spec fn is_any(s: Seq<char>, values: Seq<&str>) -> bool {
    exists|k: int| 0 <= k < values.len() && s == (#[trigger] values[k])@
}

/// `c` stands at position `i` of `s`, and nowhere before.
pub open spec fn first_char_at(s: Seq<char>, c: char, i: int) -> bool {
    0 <= i < s.len() && s[i] == c && forall|j: int| 0 <= j < i ==> s[j] != c
}

/// The first position of `c` in `s`.
pub open spec fn find_char(s: Seq<char>, c: char) -> Option<int> {
    if s.contains(c) {
        Some(choose|i: int| first_char_at(s, c, i))
    } else {
        None
    }
}

/// The smallest first position in `s` of a text in `markers`, or `bound` where
/// none of them stands before it.
pub open spec fn earliest(s: Seq<char>, markers: Seq<&str>, bound: int) -> int
    decreases markers.len(),
{
    if markers.len() == 0 {
        bound
    } else {
        let before = earliest(s, markers.drop_last(), bound);
        match find(s, markers.last()@) {
            Some(i) => if i < before { i } else { before },
            None => before,
        }
    }
}

/// The first text of `needles`, in their order, that stands somewhere in `s`.
pub open spec fn first_needle(s: Seq<char>, needles: Seq<&str>) -> Option<int>
    decreases needles.len(),
{
    if needles.len() == 0 {
        None
    } else {
        match first_needle(s, needles.drop_last()) {
            Some(k) => Some(k),
            None => if contains(s, needles.last()@) {
                Some(needles.len() - 1)
            } else {
                None
            },
        }
    }
}

/// The first text that is not blank.
pub open spec fn first_present(parts: Texts) -> Option<Seq<char>>
    decreases parts.len(),
{
    if parts.len() == 0 {
        None
    } else if !is_blank(parts[0]) {
        Some(parts[0])
    } else {
        first_present(parts.drop_first())
    }
}

// ---------------------------------------------------------------------------
// Splitting and joining
// ---------------------------------------------------------------------------

/// The segments of `s` between the characters in `f`.
pub open spec fn split_by(s: Seq<char>, f: CharPred) -> Texts
    decreases s.len(),
{
    if s.len() == 0 {
        seq![Seq::<char>::empty()]
    } else {
        let before = split_by(s.drop_last(), f);
        if f(s.last()) {
            before.push(Seq::<char>::empty())
        } else {
            before.update(before.len() - 1, before.last().push(s.last()))
        }
    }
}

/// The segments of `s` between the occurrences of `p`, which are taken from
/// the left and do not overlap.
pub open spec fn split_at(s: Seq<char>, p: Seq<char>) -> Texts
    decreases s.len(),
{
    match find(s, p) {
        Some(i) => if p.len() > 0 && 0 <= i && i + p.len() <= s.len() {
            seq![s.take(i)] + split_at(s.skip(i + p.len()), p)
        } else {
            seq![s]
        },
        None => seq![s],
    }
}

/// `s` without one trailing carriage return.
pub open spec fn strip_return(s: Seq<char>) -> Seq<char> {
    if s.len() > 0 && s.last() == '\r' {
        s.drop_last()
    } else {
        s
    }
}

/// The lines of `s`: each ends with a line feed, with or without a carriage
/// return before it, which is not part of the line; the last needs none.
pub open spec fn lines(s: Seq<char>) -> Texts {
    let parts = split_by(s, just('\n'));
    let closed = parts.drop_last().map_values(|p: Seq<char>| strip_return(p));
    if parts.last().len() == 0 {
        closed
    } else {
        closed.push(parts.last())
    }
}

/// The texts that are not empty.
pub open spec fn non_empty(parts: Texts) -> Texts {
    parts.filter(|p: Seq<char>| p.len() > 0)
}

/// Each text trimmed.
pub open spec fn trimmed(parts: Texts) -> Texts {
    parts.map_values(|p: Seq<char>| trim(p))
}

/// The words of `s`: what stands between white space.
pub open spec fn words(s: Seq<char>) -> Texts {
    non_empty(split_by(s, space()))
}

/// The texts of `parts` with `sep` between each two.
pub open spec fn join(parts: Texts, sep: Seq<char>) -> Seq<char>
    decreases parts.len(),
{
    if parts.len() == 0 {
        Seq::<char>::empty()
    } else if parts.len() == 1 {
        parts[0]
    } else {
        join(parts.drop_last(), sep) + sep + parts.last()
    }
}

/// `lines` with one more where there is one.
pub open spec fn with_line(lines: Texts, line: Option<Seq<char>>) -> Texts {
    match line {
        Some(l) => lines.push(l),
        None => lines,
    }
}

/// The views of a sequence of strings.
pub open spec fn views(parts: Seq<String>) -> Texts {
    parts.map_values(|p: String| p@)
}

/// The view of a string that may be absent.
pub open spec fn opt(value: Option<String>) -> Option<Seq<char>> {
    match value {
        Some(v) => Some(v@),
        None => None,
    }
}

/// The view of a string slice that may be absent.
pub open spec fn opt_str(value: Option<&str>) -> Option<Seq<char>> {
    match value {
        Some(v) => Some(v@),
        None => None,
    }
}

/// The first of two values that is there.
pub open spec fn or_else<T>(first: Option<T>, second: Option<T>) -> Option<T> {
    match first {
        Some(v) => Some(v),
        None => second,
    }
}

/// The value, or `fallback` where it is absent.
pub open spec fn or_value<T>(value: Option<T>, fallback: T) -> T {
    match value {
        Some(v) => v,
        None => fallback,
    }
}

/// The trimmed text, where anything is left of it.
pub open spec fn present(value: Option<Seq<char>>) -> Option<Seq<char>> {
    match value {
        Some(v) => if trim(v).len() == 0 { None } else { Some(trim(v)) },
        None => None,
    }
}

// ---------------------------------------------------------------------------
// Numbers
// ---------------------------------------------------------------------------

/// The decimal digit of a number below ten.
pub open spec fn digit(n: nat) -> char {
    (48 + n) as char
}

/// `n` in decimal notation.
pub open spec fn decimal(n: nat) -> Seq<char>
    decreases n,
{
    if n < 10 {
        seq![digit(n)]
    } else {
        decimal(n / 10).push(digit(n % 10))
    }
}

/// `n` in decimal notation, with a minus sign where it is negative.
pub open spec fn signed_decimal(n: int) -> Seq<char> {
    if n < 0 {
        seq!['-'] + decimal((-n) as nat)
    } else {
        decimal(n as nat)
    }
}

} // verus!
