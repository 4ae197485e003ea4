//! Executable text operations over slices of characters.

use crate::text;
use crate::text_lemmas;
use vstd::prelude::*;
use vstd::slice::slice_subrange;

verus! {

/// `String::push` appends one character to the end of the string.
pub assume_specification[ String::push ](s: &mut String, c: char)
    ensures
        final(s)@ == old(s)@.push(c),
;

/// A class of characters to trim or split by.
pub enum CharClass<'a> {
    /// White space.
    Space,
    /// The listed characters.
    OneOf(&'a [char]),
    /// A single character.
    Just(char),
}

impl<'a> CharClass<'a> {
    /// The predicate that the class stands for.
    pub open spec fn pred(self) -> text::CharPred {
        match self {
            CharClass::Space => text::space(),
            CharClass::OneOf(set) => text::one_of(set@),
            CharClass::Just(c) => text::just(c),
        }
    }

    /// Whether `c` belongs to the class.
    pub fn has(&self, c: char) -> (r: bool)
        ensures
            r == (self.pred())(c),
    {
        match self {
            CharClass::Space => is_space(c),
            CharClass::OneOf(set) => has_char(set, c),
            CharClass::Just(x) => c == *x,
        }
    }
}

/// The characters of a string slice, in order.
pub fn chars_of(value: &str) -> (r: Vec<char>)
    ensures
        r@ == value@,
{
    let mut out: Vec<char> = Vec::new();
    for c in it: value.chars()
        invariant
            out@ == it.seq().take(it.index() as int),
            it.seq() == value@,
    {
        out.push(c);
    }
    out
}

/// The string that holds exactly the given characters.
pub fn text_of(chars: &[char]) -> (r: String)
    ensures
        r@ == chars@,
{
    let mut out = String::new();
    let mut i: usize = 0;
    while i < chars.len()
        invariant
            i <= chars@.len(),
            out@ == chars@.take(i as int),
        decreases chars@.len() - i,
    {
        out.push(chars[i]);
        i += 1;
    }
    out
}

/// A copy of the characters.
pub fn copy_chars(chars: &[char]) -> (r: Vec<char>)
    ensures
        r@ == chars@,
{
    let mut out: Vec<char> = Vec::new();
    let mut i: usize = 0;
    while i < chars.len()
        invariant
            i <= chars@.len(),
            out@ == chars@.take(i as int),
        decreases chars@.len() - i,
    {
        out.push(chars[i]);
        i += 1;
    }
    out
}

/// Appends the characters of `more` to `out`.
pub fn extend(out: &mut Vec<char>, more: &[char])
    ensures
        final(out)@ == old(out)@ + more@,
{
    let ghost before = out@;
    let mut i: usize = 0;
    while i < more.len()
        invariant
            i <= more@.len(),
            out@ == before + more@.take(i as int),
        decreases more@.len() - i,
    {
        out.push(more[i]);
        i += 1;
    }
    assert(more@.take(i as int) =~= more@);
}

/// Whether the two slices hold the same characters.
pub fn same(a: &[char], b: &[char]) -> (r: bool)
    ensures
        r == (a@ == b@),
{
    if a.len() != b.len() {
        return false;
    }
    let mut i: usize = 0;
    while i < a.len()
        invariant
            i <= a@.len(),
            a@.len() == b@.len(),
            forall|j: int| 0 <= j < i ==> a@[j] == b@[j],
        decreases a@.len() - i,
    {
        if a[i] != b[i] {
            return false;
        }
        i += 1;
    }
    assert(a@ =~= b@);
    true
}

/// Whether the two strings hold the same characters.
pub fn same_text(a: &str, b: &str) -> (r: bool)
    ensures
        r == (a@ == b@),
{
    same(chars_of(a).as_slice(), chars_of(b).as_slice())
}

/// Whether `s` is one of `values`.
pub fn is_any(s: &str, values: &[&str]) -> (r: bool)
    ensures
        r == text::is_any(s@, values@),
{
    let chars = chars_of(s);
    let mut k: usize = 0;
    while k < values.len()
        invariant
            k <= values@.len(),
            chars@ == s@,
            forall|j: int| 0 <= j < k ==> s@ != (#[trigger] values@[j])@,
        decreases values@.len() - k,
    {
        if same(chars.as_slice(), chars_of(values[k]).as_slice()) {
            return true;
        }
        k += 1;
    }
    false
}

/// The Unicode `White_Space` property.
pub fn is_space(c: char) -> (r: bool)
    ensures
        r == text::is_space(c),
{
    let n = c as u32;
    (9 <= n && n <= 13) || n == 32 || n == 0x85 || n == 0xA0 || n == 0x1680 || (0x2000 <= n && n
        <= 0x200A) || n == 0x2028 || n == 0x2029 || n == 0x202F || n == 0x205F || n == 0x3000
}

/// Whether the slice holds the character.
pub fn has_char(chars: &[char], c: char) -> (r: bool)
    ensures
        r == chars@.contains(c),
{
    let mut i: usize = 0;
    while i < chars.len()
        invariant
            i <= chars@.len(),
            forall|j: int| 0 <= j < i ==> chars@[j] != c,
        decreases chars@.len() - i,
    {
        if chars[i] == c {
            assert(chars@[i as int] == c);
            return true;
        }
        i += 1;
    }
    false
}

/// The character in ASCII lower case.
pub fn ascii_lower(c: char) -> (r: char)
    ensures
        r == text::ascii_lower(c),
{
    if 'A' <= c && c <= 'Z' {
        ((c as u8) + 32) as char
    } else {
        c
    }
}

/// The characters in ASCII lower case.
pub fn lower(chars: &[char]) -> (r: Vec<char>)
    ensures
        r@ == text::lower(chars@),
        r@.len() == chars@.len(),
{
    let mut out: Vec<char> = Vec::new();
    let mut i: usize = 0;
    while i < chars.len()
        invariant
            i <= chars@.len(),
            out@ == text::lower(chars@).take(i as int),
        decreases chars@.len() - i,
    {
        out.push(ascii_lower(chars[i]));
        i += 1;
    }
    assert(text::lower(chars@).take(i as int) =~= text::lower(chars@));
    out
}

/// The characters with every `from` replaced by `to`.
pub fn replace_char(chars: &[char], from: char, to: char) -> (r: Vec<char>)
    ensures
        r@ == text::replace_char(chars@, from, to),
{
    let mut out: Vec<char> = Vec::new();
    let mut i: usize = 0;
    while i < chars.len()
        invariant
            i <= chars@.len(),
            out@ == text::replace_char(chars@, from, to).take(i as int),
        decreases chars@.len() - i,
    {
        if chars[i] == from {
            out.push(to);
        } else {
            out.push(chars[i]);
        }
        i += 1;
    }
    assert(text::replace_char(chars@, from, to).take(i as int) =~= text::replace_char(
        chars@,
        from,
        to,
    ));
    out
}

/// The slice without its leading characters of the class.
pub fn trim_start_by<'a>(chars: &'a [char], class: &CharClass) -> (r: &'a [char])
    ensures
        r@ == text::trim_start_by(chars@, class.pred()),
{
    let mut i: usize = 0;
    while i < chars.len() && class.has(chars[i])
        invariant
            i <= chars@.len(),
            forall|j: int| 0 <= j < i ==> (class.pred())(#[trigger] chars@[j]),
        decreases chars@.len() - i,
    {
        i += 1;
    }
    proof {
        text_lemmas::lemma_trim_start(chars@, class.pred(), i as int);
    }
    slice_subrange(chars, i, chars.len())
}

/// The slice without its trailing characters of the class.
pub fn trim_end_by<'a>(chars: &'a [char], class: &CharClass) -> (r: &'a [char])
    ensures
        r@ == text::trim_end_by(chars@, class.pred()),
{
    let mut n: usize = chars.len();
    while n > 0 && class.has(chars[n - 1])
        invariant
            n <= chars@.len(),
            forall|j: int| n <= j < chars@.len() ==> (class.pred())(#[trigger] chars@[j]),
        decreases n,
    {
        n -= 1;
    }
    proof {
        text_lemmas::lemma_trim_end(chars@, class.pred(), n as int);
    }
    slice_subrange(chars, 0, n)
}

/// The slice without leading and trailing characters of the class.
pub fn trim_by<'a>(chars: &'a [char], class: &CharClass) -> (r: &'a [char])
    ensures
        r@ == text::trim_by(chars@, class.pred()),
{
    trim_end_by(trim_start_by(chars, class), class)
}

/// The slice without leading white space.
pub fn trim_start(chars: &[char]) -> (r: &[char])
    ensures
        r@ == text::trim_start(chars@),
{
    trim_start_by(chars, &CharClass::Space)
}

/// The slice without leading and trailing white space.
pub fn trim(chars: &[char]) -> (r: &[char])
    ensures
        r@ == text::trim(chars@),
{
    trim_by(chars, &CharClass::Space)
}

/// The trimmed text as a string of its own.
pub fn trim_text(value: &str) -> (r: String)
    ensures
        r@ == text::trim(value@),
{
    text_of(trim(chars_of(value).as_slice()))
}

/// Whether nothing but white space is there.
pub fn is_blank(value: &str) -> (r: bool)
    ensures
        r == text::is_blank(value@),
{
    trim(chars_of(value).as_slice()).len() == 0
}

/// The text in ASCII lower case.
pub fn lower_text(value: &str) -> (r: String)
    ensures
        r@ == text::lower(value@),
{
    text_of(lower(chars_of(value).as_slice()).as_slice())
}

/// The first `n` characters, or all where there are fewer.
pub fn prefix(chars: &[char], n: usize) -> (r: &[char])
    ensures
        r@ == text::prefix(chars@, n as nat),
{
    if chars.len() <= n {
        chars
    } else {
        slice_subrange(chars, 0, n)
    }
}

/// Whether `p` stands in `s` at `i`.
pub fn occurs_at(s: &[char], p: &[char], i: usize) -> (r: bool)
    ensures
        r == text::occurs_at(s@, p@, i as int),
{
    if i > s.len() || p.len() > s.len() - i {
        return false;
    }
    same(slice_subrange(s, i, i + p.len()), p)
}

/// The first position of `p` in `s`.
pub fn find(s: &[char], p: &[char]) -> (r: Option<usize>)
    ensures
        r is Some <==> text::contains(s@, p@),
        match r {
            Some(i) => text::find(s@, p@) == Some(i as int) && i + p@.len() <= s@.len()
                && text::first_at(s@, p@, i as int),
            None => text::find(s@, p@) is None,
        },
{
    if p.len() > s.len() {
        return None;
    }
    let mut i: usize = 0;
    while i <= s.len() - p.len()
        invariant
            i <= s@.len() - p@.len() + 1,
            p@.len() <= s@.len(),
            forall|j: int| 0 <= j < i ==> !#[trigger] text::occurs_at(s@, p@, j),
        decreases s@.len() - p@.len() + 1 - i,
    {
        if occurs_at(s, p, i) {
            proof {
                text_lemmas::lemma_find_is(s@, p@, i as int);
            }
            return Some(i);
        }
        if i == s.len() - p.len() {
            return None;
        }
        i += 1;
    }
    None
}

/// Whether `p` stands somewhere in `s`.
pub fn contains(s: &[char], p: &str) -> (r: bool)
    ensures
        r == text::contains(s@, p@),
{
    find(s, chars_of(p).as_slice()).is_some()
}

/// Whether one of `needles` stands somewhere in `s`.
pub fn contains_any(s: &[char], needles: &[&str]) -> (r: bool)
    ensures
        r == text::contains_any(s@, needles@),
{
    let mut k: usize = 0;
    while k < needles.len()
        invariant
            k <= needles@.len(),
            forall|j: int| 0 <= j < k ==> !text::contains(s@, (#[trigger] needles@[j])@),
        decreases needles@.len() - k,
    {
        if contains(s, needles[k]) {
            return true;
        }
        k += 1;
    }
    false
}

/// Whether `s` begins with `p`.
pub fn starts_with(s: &[char], p: &[char]) -> (r: bool)
    ensures
        r == text::starts_with(s@, p@),
{
    p.len() <= s.len() && same(slice_subrange(s, 0, p.len()), p)
}

/// Whether `s` begins with one of `prefixes`.
pub fn starts_with_any(s: &[char], prefixes: &[&str]) -> (r: bool)
    ensures
        r == text::starts_with_any(s@, prefixes@),
{
    let mut k: usize = 0;
    while k < prefixes.len()
        invariant
            k <= prefixes@.len(),
            forall|j: int| 0 <= j < k ==> !text::starts_with(s@, (#[trigger] prefixes@[j])@),
        decreases prefixes@.len() - k,
    {
        if starts_with(s, chars_of(prefixes[k]).as_slice()) {
            return true;
        }
        k += 1;
    }
    false
}

/// Whether `s` ends with `p`.
pub fn ends_with(s: &[char], p: &str) -> (r: bool)
    ensures
        r == text::ends_with(s@, p@),
{
    let p = chars_of(p);
    p.len() <= s.len() && same(slice_subrange(s, s.len() - p.len(), s.len()), p.as_slice())
}

/// The first position of the character.
pub fn find_char(s: &[char], c: char) -> (r: Option<usize>)
    ensures
        match r {
            Some(i) => text::find_char(s@, c) == Some(i as int) && text::first_char_at(
                s@,
                c,
                i as int,
            ),
            None => text::find_char(s@, c) is None && !s@.contains(c),
        },
{
    let mut i: usize = 0;
    while i < s.len()
        invariant
            i <= s@.len(),
            forall|j: int| 0 <= j < i ==> s@[j] != c,
        decreases s@.len() - i,
    {
        if s[i] == c {
            proof {
                text_lemmas::lemma_find_char_is(s@, c, i as int);
            }
            return Some(i);
        }
        i += 1;
    }
    None
}

/// The smallest first position of one of `markers`, or the length.
pub fn earliest(s: &[char], markers: &[&str]) -> (r: usize)
    ensures
        r == text::earliest(s@, markers@, s@.len() as int),
        r <= s@.len(),
{
    let mut best: usize = s.len();
    let mut k: usize = 0;
    while k < markers.len()
        invariant
            k <= markers@.len(),
            best <= s@.len(),
            best == text::earliest(s@, markers@.take(k as int), s@.len() as int),
        decreases markers@.len() - k,
    {
        assert(markers@.take(k + 1).drop_last() =~= markers@.take(k as int));
        if let Some(i) = find(s, chars_of(markers[k]).as_slice()) {
            if i < best {
                best = i;
            }
        }
        k += 1;
    }
    assert(markers@.take(k as int) =~= markers@);
    best
}

/// The first text of `needles`, in their order, that stands somewhere in `s`.
pub fn first_needle(s: &[char], needles: &[&str]) -> (r: Option<usize>)
    ensures
        match r {
            Some(k) => k < needles@.len() && text::first_needle(s@, needles@) == Some(k as int),
            None => text::first_needle(s@, needles@) is None,
        },
{
    let mut found: Option<usize> = None;
    let mut k: usize = 0;
    while k < needles.len()
        invariant
            k <= needles@.len(),
            match found {
                Some(i) => i < k && text::first_needle(s@, needles@.take(k as int)) == Some(
                    i as int,
                ),
                None => text::first_needle(s@, needles@.take(k as int)) is None,
            },
        decreases needles@.len() - k,
    {
        assert(needles@.take(k + 1).drop_last() =~= needles@.take(k as int));
        if found.is_none() && contains(s, needles[k]) {
            found = Some(k);
        }
        k += 1;
    }
    assert(needles@.take(k as int) =~= needles@);
    found
}

/// The first list that is not blank.
pub fn first_present(parts: &[Vec<char>]) -> (r: Option<Vec<char>>)
    ensures
        match r {
            Some(p) => text::first_present(lists(parts@)) == Some(p@),
            None => text::first_present(lists(parts@)) is None,
        },
{
    let mut i: usize = 0;
    assert(lists(parts@).skip(0) =~= lists(parts@));
    while i < parts.len()
        invariant
            i <= parts@.len(),
            text::first_present(lists(parts@)) == text::first_present(
                lists(parts@).skip(i as int),
            ),
        decreases parts@.len() - i,
    {
        assert(lists(parts@).skip(i as int).drop_first() =~= lists(parts@).skip(i + 1));
        if trim(parts[i].as_slice()).len() > 0 {
            return Some(copy_chars(parts[i].as_slice()));
        }
        i += 1;
    }
    None
}

/// Appends a line.
pub fn push_line(lines: &mut Vec<String>, line: String)
    ensures
        text::views(final(lines)@) == text::views(old(lines)@).push(line@),
{
    let ghost before = text::views(lines@);
    lines.push(line);
    assert(text::views(lines@) =~= before.push(line@));
}

/// A copy of the strings.
pub fn copy_texts(values: &[String]) -> (r: Vec<String>)
    ensures
        text::views(r@) == text::views(values@),
{
    let mut out: Vec<String> = Vec::new();
    let mut i: usize = 0;
    while i < values.len()
        invariant
            i <= values@.len(),
            text::views(out@) == text::views(values@).take(i as int),
        decreases values@.len() - i,
    {
        assert(text::views(values@).take(i + 1) =~= text::views(values@).take(i as int).push(
            values@[i as int]@,
        ));
        push_line(&mut out, values[i].clone());
        i += 1;
    }
    assert(text::views(values@).take(i as int) =~= text::views(values@));
    out
}

/// A copy of the string, where there is one.
pub fn copy_opt(value: &Option<String>) -> (r: Option<String>)
    ensures
        text::opt(r) == text::opt(*value),
{
    match value {
        Some(v) => Some(v.clone()),
        None => None,
    }
}

/// The string as a slice, where there is one.
pub fn opt_slice(value: &Option<String>) -> (r: Option<&str>)
    ensures
        text::opt_str(r) == text::opt(*value),
{
    match value {
        Some(v) => Some(v.as_str()),
        None => None,
    }
}

/// The string that holds no characters.
pub fn empty_text() -> (r: String)
    ensures
        r@ == Seq::<char>::empty(),
{
    let r = String::new();
    assert(r@ =~= Seq::<char>::empty());
    r
}

/// Views of a list of character lists.
pub open spec fn lists(parts: Seq<Vec<char>>) -> text::Texts {
    parts.map_values(|p: Vec<char>| p@)
}

/// The segments between the characters of the class.
pub fn split_by(s: &[char], class: &CharClass) -> (r: Vec<Vec<char>>)
    ensures
        lists(r@) == text::split_by(s@, class.pred()),
        r@.len() >= 1,
{
    let mut out: Vec<Vec<char>> = Vec::new();
    let mut current: Vec<char> = Vec::new();
    let mut i: usize = 0;
    assert(lists(out@).push(current@) =~= text::split_by(s@.take(0), class.pred()));
    while i < s.len()
        invariant
            i <= s@.len(),
            lists(out@).push(current@) == text::split_by(s@.take(i as int), class.pred()),
        decreases s@.len() - i,
    {
        let ghost before = text::split_by(s@.take(i as int), class.pred());
        let ghost gone = lists(out@);
        let ghost held = current@;
        assert(s@.take(i + 1).drop_last() =~= s@.take(i as int));
        assert(s@.take(i + 1).last() == s@[i as int]);
        if class.has(s[i]) {
            out.push(current);
            current = Vec::new();
            assert(lists(out@) =~= gone.push(held));
            assert(lists(out@).push(current@) =~= before.push(Seq::<char>::empty()));
        } else {
            current.push(s[i]);
            assert(lists(out@).push(current@) =~= before.update(
                before.len() - 1,
                before.last().push(s@[i as int]),
            ));
        }
        i += 1;
    }
    assert(s@.take(i as int) =~= s@);
    let ghost gone = lists(out@);
    let ghost held = current@;
    out.push(current);
    assert(lists(out@) =~= gone.push(held));
    out
}

/// The segments between the occurrences of the pattern.
pub fn split_at(s: &[char], p: &[char]) -> (r: Vec<Vec<char>>)
    requires
        p@.len() > 0,
    ensures
        lists(r@) == text::split_at(s@, p@),
        r@.len() >= 1,
{
    let mut out: Vec<Vec<char>> = Vec::new();
    let mut from: usize = 0;
    assert(s@.skip(0) =~= s@);
    assert(lists(out@) + text::split_at(s@, p@) =~= text::split_at(s@, p@));
    loop
        invariant_except_break
            text::split_at(s@, p@) == lists(out@) + text::split_at(s@.skip(from as int), p@),
        invariant
            from <= s@.len(),
            p@.len() > 0,
        ensures
            lists(out@) == text::split_at(s@, p@),
            out@.len() >= 1,
        decreases s@.len() - from,
    {
        let rest = slice_subrange(s, from, s.len());
        assert(rest@ =~= s@.skip(from as int));
        let ghost gone = lists(out@);
        match find(rest, p) {
            Some(i) => {
                let segment = copy_chars(slice_subrange(rest, 0, i));
                assert(segment@ =~= rest@.take(i as int));
                assert(rest@.skip(i + p@.len()) =~= s@.skip(from + i + p@.len()));
                out.push(segment);
                assert(lists(out@) =~= gone.push(segment@));
                assert(gone.push(segment@) + text::split_at(rest@.skip(i + p@.len()), p@) =~= gone
                    + (seq![segment@] + text::split_at(rest@.skip(i + p@.len()), p@)));
                from = from + i + p.len();
            },
            None => {
                let segment = copy_chars(rest);
                out.push(segment);
                assert(lists(out@) =~= gone + seq![rest@]);
                break;
            },
        }
    }
    out
}

/// The lines of the text.
pub fn lines(s: &[char]) -> (r: Vec<Vec<char>>)
    ensures
        lists(r@) == text::lines(s@),
{
    let parts = split_by(s, &CharClass::Just('\n'));
    let ghost model = text::split_by(s@, text::just('\n'));
    let ghost closed = model.drop_last().map_values(|p: Seq<char>| text::strip_return(p));
    let last = parts.len() - 1;
    let mut out: Vec<Vec<char>> = Vec::new();
    let mut i: usize = 0;
    while i < last
        invariant
            i <= last,
            last == parts@.len() - 1,
            lists(parts@) == model,
            closed == model.drop_last().map_values(|p: Seq<char>| text::strip_return(p)),
            lists(out@) == closed.take(i as int),
        decreases last - i,
    {
        let ghost gone = lists(out@);
        let mut line = copy_chars(parts[i].as_slice());
        assert(line@ == model[i as int]);
        if line.len() > 0 && line[line.len() - 1] == '\r' {
            let _ = line.pop();
            assert(line@ =~= model[i as int].drop_last());
        }
        assert(line@ == closed[i as int]);
        out.push(line);
        assert(lists(out@) =~= gone.push(line@));
        assert(closed.take(i + 1) =~= closed.take(i as int).push(closed[i as int]));
        i += 1;
    }
    assert(closed.take(last as int) =~= closed);
    let tail = copy_chars(parts[last].as_slice());
    assert(tail@ == model.last());
    if tail.len() > 0 {
        let ghost gone = lists(out@);
        out.push(tail);
        assert(lists(out@) =~= gone.push(tail@));
    }
    out
}

/// The lists that are not empty.
pub fn non_empty(parts: Vec<Vec<char>>) -> (r: Vec<Vec<char>>)
    ensures
        lists(r@) == text::non_empty(lists(parts@)),
{
    let ghost keep = |p: Seq<char>| p.len() > 0;
    let mut out: Vec<Vec<char>> = Vec::new();
    let mut i: usize = 0;
    assert(lists(parts@).take(0) =~= Seq::<Seq<char>>::empty());
    proof {
        reveal(Seq::filter);
    }
    assert(lists(out@) =~= lists(parts@).take(0).filter(keep));
    while i < parts.len()
        invariant
            i <= parts@.len(),
            keep == (|p: Seq<char>| p.len() > 0),
            lists(out@) == lists(parts@).take(i as int).filter(keep),
        decreases parts@.len() - i,
    {
        let ghost gone = lists(out@);
        let ghost x = lists(parts@)[i as int];
        proof {
            text_lemmas::lemma_filter_push(lists(parts@).take(i as int), x, keep);
            assert(lists(parts@).take(i + 1) =~= lists(parts@).take(i as int).push(x));
        }
        if parts[i].len() > 0 {
            let part = copy_chars(parts[i].as_slice());
            out.push(part);
            assert(lists(out@) =~= gone.push(x));
        }
        i += 1;
    }
    assert(lists(parts@).take(i as int) =~= lists(parts@));
    out
}

/// Each list trimmed.
pub fn trimmed(parts: Vec<Vec<char>>) -> (r: Vec<Vec<char>>)
    ensures
        lists(r@) == text::trimmed(lists(parts@)),
{
    let mut out: Vec<Vec<char>> = Vec::new();
    let mut i: usize = 0;
    while i < parts.len()
        invariant
            i <= parts@.len(),
            lists(out@) == text::trimmed(lists(parts@)).take(i as int),
        decreases parts@.len() - i,
    {
        let ghost gone = lists(out@);
        let part = copy_chars(trim(parts[i].as_slice()));
        out.push(part);
        assert(lists(out@) =~= gone.push(part@));
        assert(text::trimmed(lists(parts@)).take(i + 1) =~= text::trimmed(lists(parts@)).take(
            i as int,
        ).push(part@));
        i += 1;
    }
    assert(text::trimmed(lists(parts@)).take(i as int) =~= text::trimmed(lists(parts@)));
    out
}

/// The words of the text.
pub fn words(s: &[char]) -> (r: Vec<Vec<char>>)
    ensures
        lists(r@) == text::words(s@),
{
    non_empty(split_by(s, &CharClass::Space))
}

/// The lists with `sep` between each two.
pub fn join(parts: &[Vec<char>], sep: &str) -> (r: Vec<char>)
    ensures
        r@ == text::join(lists(parts@), sep@),
{
    let sep = chars_of(sep);
    let mut out: Vec<char> = Vec::new();
    let mut i: usize = 0;
    while i < parts.len()
        invariant
            i <= parts@.len(),
            out@ == text::join(lists(parts@).take(i as int), sep@),
        decreases parts@.len() - i,
    {
        proof {
            text_lemmas::lemma_join_push(lists(parts@).take(i as int), lists(parts@)[i as int], sep@);
            assert(lists(parts@).take(i + 1) =~= lists(parts@).take(i as int).push(
                lists(parts@)[i as int],
            ));
        }
        if i > 0 {
            extend(&mut out, sep.as_slice());
        }
        extend(&mut out, parts[i].as_slice());
        i += 1;
    }
    assert(lists(parts@).take(i as int) =~= lists(parts@));
    out
}

/// The strings with `sep` between each two.
pub fn join_texts(parts: &[String], sep: &str) -> (r: String)
    ensures
        r@ == text::join(text::views(parts@), sep@),
{
    let sep = chars_of(sep);
    let mut out: Vec<char> = Vec::new();
    let mut i: usize = 0;
    while i < parts.len()
        invariant
            i <= parts@.len(),
            out@ == text::join(text::views(parts@).take(i as int), sep@),
        decreases parts@.len() - i,
    {
        proof {
            text_lemmas::lemma_join_push(
                text::views(parts@).take(i as int),
                text::views(parts@)[i as int],
                sep@,
            );
            assert(text::views(parts@).take(i + 1) =~= text::views(parts@).take(i as int).push(
                text::views(parts@)[i as int],
            ));
        }
        if i > 0 {
            extend(&mut out, sep.as_slice());
        }
        extend(&mut out, chars_of(parts[i].as_str()).as_slice());
        i += 1;
    }
    assert(text::views(parts@).take(i as int) =~= text::views(parts@));
    text_of(out.as_slice())
}

/// The number in decimal notation.
pub fn decimal(n: u64) -> (r: String)
    ensures
        r@ == text::decimal(n as nat),
{
    text_of(decimal_chars(n).as_slice())
}

fn decimal_chars(n: u64) -> (r: Vec<char>)
    ensures
        r@ == text::decimal(n as nat),
    decreases n,
{
    let mut out: Vec<char> = if n < 10 {
        Vec::new()
    } else {
        decimal_chars(n / 10)
    };
    out.push((48 + (n % 10) as u8) as char);
    out
}

/// The number in decimal notation, with its sign.
pub fn signed_decimal(n: i32) -> (r: String)
    ensures
        r@ == text::signed_decimal(n as int),
{
    if n < 0 {
        let size: u64 = (-(n as i64)) as u64;
        let mut out = String::new();
        out.push('-');
        let digits = decimal(size);
        let r = out.concat(digits.as_str());
        assert(r@ =~= seq!['-'] + digits@);
        r
    } else {
        decimal(n as u64)
    }
}

} // verus!
