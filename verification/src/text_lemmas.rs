//! Facts about the text operations.

use crate::text;
use vstd::prelude::*;

verus! {

/// The first position is unique, so it is what `find` gives.
pub proof fn lemma_find_is(s: Seq<char>, p: Seq<char>, i: int)
    requires
        text::first_at(s, p, i),
    ensures
        text::contains(s, p),
        text::find(s, p) == Some(i),
{
    let k = choose|k: int| text::first_at(s, p, k);
    assert(text::first_at(s, p, k));
    if k < i {
        assert(!text::occurs_at(s, p, k));
    } else if i < k {
        assert(!text::occurs_at(s, p, i));
    }
}

/// The first position of a character is unique.
pub proof fn lemma_find_char_is(s: Seq<char>, c: char, i: int)
    requires
        text::first_char_at(s, c, i),
    ensures
        s.contains(c),
        text::find_char(s, c) == Some(i),
{
    let k = choose|k: int| text::first_char_at(s, c, k);
    assert(text::first_char_at(s, c, k));
    assert(k == i);
}

/// Trimming at the start drops exactly the leading characters in `f`.
pub proof fn lemma_trim_start(s: Seq<char>, f: text::CharPred, k: int)
    requires
        0 <= k <= s.len(),
        forall|j: int| 0 <= j < k ==> f(#[trigger] s[j]),
        k < s.len() ==> !f(s[k]),
    ensures
        text::trim_start_by(s, f) == s.skip(k),
    decreases s.len(),
{
    if k > 0 {
        assert(f(s[0]));
        assert forall|j: int| 0 <= j < k - 1 implies f(#[trigger] s.drop_first()[j]) by {
            assert(s.drop_first()[j] == s[j + 1]);
        }
        lemma_trim_start(s.drop_first(), f, k - 1);
        assert(s.drop_first().skip(k - 1) =~= s.skip(k));
    } else {
        assert(s.skip(0) =~= s);
    }
}

/// Trimming at the end drops exactly the trailing characters in `f`.
pub proof fn lemma_trim_end(s: Seq<char>, f: text::CharPred, k: int)
    requires
        0 <= k <= s.len(),
        forall|j: int| k <= j < s.len() ==> f(#[trigger] s[j]),
        k > 0 ==> !f(s[k - 1]),
    ensures
        text::trim_end_by(s, f) == s.take(k),
    decreases s.len(),
{
    if k < s.len() {
        assert(f(s[s.len() - 1]));
        lemma_trim_end(s.drop_last(), f, k);
        assert(s.drop_last().take(k) =~= s.take(k));
    } else {
        assert(s.take(k) =~= s);
    }
}

/// How many leading characters are in `f`.
pub proof fn leading(s: Seq<char>, f: text::CharPred) -> (k: int)
    ensures
        0 <= k <= s.len(),
        forall|j: int| 0 <= j < k ==> f(#[trigger] s[j]),
        k < s.len() ==> !f(s[k]),
        text::trim_start_by(s, f) == s.skip(k),
    decreases s.len(),
{
    if s.len() > 0 && f(s[0]) {
        let d = leading(s.drop_first(), f);
        let k = d + 1;
        assert forall|j: int| 0 <= j < k implies f(#[trigger] s[j]) by {
            if j > 0 {
                assert(s.drop_first()[j - 1] == s[j]);
            }
        }
        if k < s.len() {
            assert(s.drop_first()[d] == s[k]);
        }
        lemma_trim_start(s, f, k);
        k
    } else {
        assert(s.skip(0) =~= s);
        0
    }
}

/// How many characters are left once the trailing ones in `f` are gone.
pub proof fn kept(s: Seq<char>, f: text::CharPred) -> (k: int)
    ensures
        0 <= k <= s.len(),
        forall|j: int| k <= j < s.len() ==> f(#[trigger] s[j]),
        k > 0 ==> !f(s[k - 1]),
        text::trim_end_by(s, f) == s.take(k),
    decreases s.len(),
{
    if s.len() > 0 && f(s.last()) {
        let k = kept(s.drop_last(), f);
        assert forall|j: int| k <= j < s.len() implies f(#[trigger] s[j]) by {
            if j < s.len() - 1 {
                assert(s.drop_last()[j] == s[j]);
            }
        }
        lemma_trim_end(s, f, k);
        k
    } else {
        assert(s.take(s.len() as int) =~= s);
        s.len() as int
    }
}

/// Trimming cuts one contiguous piece out of the text: what lies outside is in
/// `f`, and the piece neither begins nor ends in `f`.
pub proof fn trim_range(s: Seq<char>, f: text::CharPred) -> (r: (int, int))
    ensures
        0 <= r.0 <= r.1 <= s.len(),
        text::trim_by(s, f) == s.subrange(r.0, r.1),
        forall|j: int| 0 <= j < r.0 ==> f(#[trigger] s[j]),
        forall|j: int| r.1 <= j < s.len() ==> f(#[trigger] s[j]),
        r.0 < r.1 ==> !f(s[r.0]) && !f(s[r.1 - 1]),
        text::trim_by(s, f).len() > 0 ==> !f(text::trim_by(s, f)[0]) && !f(
            text::trim_by(s, f).last(),
        ),
{
    let a = leading(s, f);
    let t = s.skip(a);
    let b = kept(t, f);
    assert(t.take(b) =~= s.subrange(a, a + b));
    assert forall|j: int| a + b <= j < s.len() implies f(#[trigger] s[j]) by {
        assert(t[j - a] == s[j]);
    }
    if b > 0 {
        assert(t[b - 1] == s[a + b - 1]);
        assert(t[0] == s[a]);
    }
    (a, a + b)
}

/// A text that neither begins nor ends in `f` is left as it is.
pub proof fn lemma_trim_noop(s: Seq<char>, f: text::CharPred)
    requires
        s.len() > 0 ==> !f(s[0]) && !f(s.last()),
    ensures
        text::trim_by(s, f) == s,
{
}

/// Trimming twice is trimming once.
pub proof fn lemma_trim_idempotent(s: Seq<char>, f: text::CharPred)
    ensures
        text::trim_by(text::trim_by(s, f), f) == text::trim_by(s, f),
{
    let r = trim_range(s, f);
    lemma_trim_noop(text::trim_by(s, f), f);
}

/// There is always a last segment.
pub proof fn lemma_split_len(s: Seq<char>, f: text::CharPred)
    ensures
        text::split_by(s, f).len() >= 1,
    decreases s.len(),
{
    if s.len() > 0 {
        lemma_split_len(s.drop_last(), f);
    }
}

/// Filtering a longer sequence appends the new element or leaves it out.
pub proof fn lemma_filter_push<A>(s: Seq<A>, x: A, f: spec_fn(A) -> bool)
    ensures
        s.push(x).filter(f) == if f(x) {
            s.filter(f).push(x)
        } else {
            s.filter(f)
        },
{
    reveal(Seq::filter);
    assert(s.push(x).drop_last() =~= s);
}

/// Joining one more text appends the separator and the text.
pub proof fn lemma_join_push(parts: text::Texts, x: Seq<char>, sep: Seq<char>)
    ensures
        text::join(parts.push(x), sep) == if parts.len() == 0 {
            x
        } else {
            text::join(parts, sep) + sep + x
        },
{
    assert(parts.push(x).drop_last() =~= parts);
}

/// Decimal notation is made of digits.
pub proof fn lemma_decimal(n: nat)
    ensures
        text::decimal(n).len() > 0,
        forall|i: int|
            0 <= i < text::decimal(n).len() ==> '0' <= #[trigger] text::decimal(n)[i] <= '9',
    decreases n,
{
    if n >= 10 {
        lemma_decimal(n / 10);
        let s = text::decimal(n);
        assert forall|i: int| 0 <= i < s.len() implies '0' <= #[trigger] s[i] <= '9' by {
            if i < s.len() - 1 {
                assert(s[i] == text::decimal(n / 10)[i]);
            }
        }
    }
}

/// Two numbers with one decimal notation are the same.
pub proof fn lemma_decimal_is_unique(m: nat, n: nat)
    requires
        text::decimal(m) == text::decimal(n),
    ensures
        m == n,
    decreases m,
{
    let s = text::decimal(m);
    if m >= 10 {
        lemma_decimal(m / 10);
    }
    if n >= 10 {
        lemma_decimal(n / 10);
    }
    assert(s.last() == text::digit(m % 10));
    assert(s.last() == text::digit(n % 10));
    assert(text::digit(m % 10) as int == 48 + m % 10);
    assert(text::digit(n % 10) as int == 48 + n % 10);
    if m >= 10 && n >= 10 {
        assert(s.drop_last() =~= text::decimal(m / 10));
        assert(s.drop_last() =~= text::decimal(n / 10));
        lemma_decimal_is_unique(m / 10, n / 10);
    }
}

/// Where `p` stands in `s`, it also stands at a first position.
proof fn lemma_first_exists(s: Seq<char>, p: Seq<char>, i: int)
    requires
        text::occurs_at(s, p, i),
    ensures
        exists|k: int| text::first_at(s, p, k),
    decreases i,
{
    if exists|j: int| 0 <= j < i && text::occurs_at(s, p, j) {
        let j = choose|j: int| 0 <= j < i && text::occurs_at(s, p, j);
        lemma_first_exists(s, p, j);
    } else {
        assert(text::first_at(s, p, i));
    }
}

/// What `find` gives is the first position.
pub proof fn lemma_find(s: Seq<char>, p: Seq<char>)
    ensures
        text::find(s, p) matches Some(i) ==> text::first_at(s, p, i),
{
    if text::contains(s, p) {
        let i = choose|i: int| #[trigger] text::occurs_at(s, p, i);
        lemma_first_exists(s, p, i);
    }
}

proof fn lemma_first_char_exists(s: Seq<char>, c: char, i: int)
    requires
        0 <= i < s.len(),
        s[i] == c,
    ensures
        exists|k: int| text::first_char_at(s, c, k),
    decreases i,
{
    if exists|j: int| 0 <= j < i && s[j] == c {
        let j = choose|j: int| 0 <= j < i && s[j] == c;
        lemma_first_char_exists(s, c, j);
    } else {
        assert(text::first_char_at(s, c, i));
    }
}

/// What `find_char` gives is the first position.
pub proof fn lemma_find_char(s: Seq<char>, c: char)
    ensures
        text::find_char(s, c) matches Some(i) ==> text::first_char_at(s, c, i),
{
    if s.contains(c) {
        let i = choose|i: int| 0 <= i < s.len() && s[i] == c;
        lemma_first_char_exists(s, c, i);
    }
}

/// The earliest marker stands within the bound.
pub proof fn lemma_earliest(s: Seq<char>, markers: Seq<&str>, bound: int)
    requires
        0 <= bound,
    ensures
        0 <= text::earliest(s, markers, bound) <= bound,
    decreases markers.len(),
{
    if markers.len() > 0 {
        lemma_earliest(s, markers.drop_last(), bound);
        lemma_find(s, markers.last()@);
    }
}

/// A segment holds characters of the text that it was split from, and none of
/// those that it was split by.
pub proof fn lemma_split_chars(s: Seq<char>, f: text::CharPred)
    ensures
        forall|k: int, i: int|
            #![trigger text::split_by(s, f)[k][i]]
            0 <= k < text::split_by(s, f).len() && 0 <= i < text::split_by(s, f)[k].len()
                ==> !f(text::split_by(s, f)[k][i]) && s.contains(text::split_by(s, f)[k][i]),
    decreases s.len(),
{
    if s.len() > 0 {
        let rest = s.drop_last();
        let before = text::split_by(rest, f);
        let parts = text::split_by(s, f);
        lemma_split_chars(rest, f);
        lemma_split_len(rest, f);
        assert forall|k: int, i: int|
            #![trigger parts[k][i]]
            0 <= k < parts.len() && 0 <= i < parts[k].len() implies !f(parts[k][i]) && s.contains(
            parts[k][i],
        ) by {
            if k < before.len() && i < before[k].len() {
                assert(parts[k][i] == before[k][i]);
                let j = choose|j: int| 0 <= j < rest.len() && rest[j] == before[k][i];
                assert(s[j] == parts[k][i]);
            } else {
                assert(parts[k][i] == s[s.len() - 1]);
            }
        }
    }
}

/// The first text that is not blank is one of the texts.
pub proof fn lemma_first_present(parts: text::Texts)
    ensures
        text::first_present(parts) matches Some(x) ==> parts.contains(x),
    decreases parts.len(),
{
    if parts.len() > 0 {
        let rest = parts.drop_first();
        lemma_first_present(rest);
        if let Some(x) = text::first_present(parts) {
            if text::is_blank(parts[0]) {
                let i = choose|i: int| 0 <= i < rest.len() && rest[i] == x;
                assert(parts[i + 1] == x);
            } else {
                assert(parts[0] == x);
            }
        }
    }
}

/// Where none of the texts stands in `s`, there is no first.
pub proof fn lemma_no_needle(s: Seq<char>, needles: Seq<&str>)
    requires
        forall|k: int| 0 <= k < needles.len() ==> !text::contains(s, (#[trigger] needles[k])@),
    ensures
        text::first_needle(s, needles) is None,
    decreases needles.len(),
{
    if needles.len() > 0 {
        let rest = needles.drop_last();
        assert forall|k: int| 0 <= k < rest.len() implies !text::contains(
            s,
            (#[trigger] rest[k])@,
        ) by {
            assert(rest[k] == needles[k]);
        }
        lemma_no_needle(s, rest);
        assert(!text::contains(s, needles[needles.len() - 1]@));
    }
}

} // verus!
