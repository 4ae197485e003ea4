//! What the text operations promise of every text.

use crate::error::{AppError, ErrorResponse};
use crate::formatting;
use crate::json;
use crate::json::JsonView;
use crate::order;
use crate::text;
use crate::text_lemmas;
use vstd::prelude::*;

verus! {

// ---------------------------------------------------------------------------
// Trimming
// ---------------------------------------------------------------------------

/// The characters that count as space are those that Unicode calls white space:
/// tab, the line breaks, the blank and the blanks of other widths.
pub proof fn law_spaces(c: char)
    ensures
        text::is_space(c) <==> {
            ||| c == '\u{9}'
            ||| c == '\u{A}'
            ||| c == '\u{B}'
            ||| c == '\u{C}'
            ||| c == '\u{D}'
            ||| c == '\u{20}'
            ||| c == '\u{85}'
            ||| c == '\u{A0}'
            ||| c == '\u{1680}'
            ||| c == '\u{2000}'
            ||| c == '\u{2001}'
            ||| c == '\u{2002}'
            ||| c == '\u{2003}'
            ||| c == '\u{2004}'
            ||| c == '\u{2005}'
            ||| c == '\u{2006}'
            ||| c == '\u{2007}'
            ||| c == '\u{2008}'
            ||| c == '\u{2009}'
            ||| c == '\u{200A}'
            ||| c == '\u{2028}'
            ||| c == '\u{2029}'
            ||| c == '\u{202F}'
            ||| c == '\u{205F}'
            ||| c == '\u{3000}'
        },
{
}

/// A text is blank exactly where it holds nothing but spaces.
pub proof fn law_blank(s: Seq<char>)
    ensures
        text::is_blank(s) <==> forall|i: int| 0 <= i < s.len() ==> text::is_space(#[trigger] s[i]),
{
    let r = text_lemmas::trim_range(s, text::space());
    if forall|i: int| 0 <= i < s.len() ==> text::is_space(#[trigger] s[i]) {
        if r.0 < r.1 {
            assert(text::is_space(s[r.0]));
        }
    }
    if text::is_blank(s) {
        assert forall|i: int| 0 <= i < s.len() implies text::is_space(#[trigger] s[i]) by {
            if i < r.0 {
                assert((text::space())(s[i]));
            } else {
                assert((text::space())(s[i]));
            }
        }
    }
}

/// Spaces around a text do not matter to its trimmed form, and a text that
/// neither begins nor ends with a space is its own trimmed form.
#[verifier::rlimit(60)]
pub proof fn law_trim(before: Seq<char>, s: Seq<char>, after: Seq<char>)
    requires
        text::is_blank(before),
        text::is_blank(after),
        s.len() > 0,
        !text::is_space(s[0]),
        !text::is_space(s.last()),
    ensures
        text::trim(before + s + after) == s,
{
    law_blank(before);
    law_blank(after);
    let whole = before + s + after;
    let f = text::space();
    let k = before.len() as int;
    assert forall|j: int| 0 <= j < k implies f(#[trigger] whole[j]) by {
        assert(whole[j] == before[j]);
    }
    assert(whole[k] == s[0]);
    text_lemmas::lemma_trim_start(whole, f, k);
    let rest = whole.skip(k);
    assert(rest =~= s + after);
    assert forall|j: int| s.len() <= j < rest.len() implies f(#[trigger] rest[j]) by {
        assert(rest[j] == after[j - s.len()]);
    }
    assert(rest[s.len() - 1] == s.last());
    text_lemmas::lemma_trim_end(rest, f, s.len() as int);
    assert(rest.take(s.len() as int) =~= s);
}

/// A trimmed text begins and ends with no space, stands in the text it was made
/// of, and stays as it is when trimmed again.
pub proof fn law_trimmed(s: Seq<char>)
    ensures
        text::trim(s).len() > 0 ==> !text::is_space(text::trim(s)[0]) && !text::is_space(
            text::trim(s).last(),
        ),
        text::contains(s, text::trim(s)),
        text::trim(text::trim(s)) == text::trim(s),
{
    let r = text_lemmas::trim_range(s, text::space());
    text_lemmas::lemma_trim_idempotent(s, text::space());
    assert(text::occurs_at(s, text::trim(s), r.0));
}

/// What is present is not blank and comes trimmed; a blank value counts as none.
pub proof fn law_present(value: Option<Seq<char>>)
    ensures
        text::present(value) is Some <==> (value matches Some(v) && exists|i: int|
            0 <= i < v.len() && !text::is_space(#[trigger] v[i])),
        text::present(value) matches Some(p) ==> p == text::trim(value.unwrap()) && p.len() > 0
            && text::present(Some(p)) == Some(p),
{
    if let Some(v) = value {
        law_blank(v);
        law_trimmed(v);
    }
}

// ---------------------------------------------------------------------------
// Case, beginnings and parts
// ---------------------------------------------------------------------------

/// Lower case changes the ASCII capitals and nothing else, letter by letter.
pub proof fn law_lower(s: Seq<char>)
    ensures
        text::lower(s).len() == s.len(),
        text::lower(text::lower(s)) == text::lower(s),
        forall|i: int|
            #![trigger text::lower(s)[i]]
            0 <= i < s.len() ==> if 'A' <= s[i] <= 'Z' {
                text::lower(s)[i] as u32 == s[i] as u32 + 32
            } else {
                text::lower(s)[i] == s[i]
            },
{
    assert(text::lower(text::lower(s)) =~= text::lower(s));
}

/// A beginning has at most so many characters, and all where there are no more.
pub proof fn law_prefix(s: Seq<char>, n: nat)
    ensures
        text::starts_with(s, text::prefix(s, n)),
        text::prefix(s, n).len() == if s.len() < n {
            s.len()
        } else {
            n
        },
{
    assert(s.take(s.len() as int) =~= s);
}

/// A text holds every part that it was put together from.
pub proof fn law_contains(a: Seq<char>, p: Seq<char>, b: Seq<char>)
    ensures
        text::contains(a + p + b, p),
        text::starts_with(p + b, p),
        text::ends_with(a + p, p),
{
    assert((a + p + b).subrange(a.len() as int, (a.len() + p.len()) as int) =~= p);
    assert(text::occurs_at(a + p + b, p, a.len() as int));
    assert((p + b).take(p.len() as int) =~= p);
    assert((a + p).skip(a.len() as int) =~= p);
}

/// What is found stands there and nowhere before, and it is found wherever it
/// stands at all.
pub proof fn law_find(s: Seq<char>, p: Seq<char>, k: int)
    requires
        0 <= k,
        k + p.len() <= s.len(),
        s.subrange(k, (k + p.len()) as int) == p,
    ensures
        text::find(s, p) matches Some(i) && 0 <= i <= k && s.subrange(i, (i + p.len()) as int) == p,
{
    assert(text::occurs_at(s, p, k));
    text_lemmas::lemma_find(s, p);
    let i = text::find(s, p).unwrap();
    if k < i {
        assert(!text::occurs_at(s, p, k));
    }
}

/// The earliest marker is where no marker stands before it: it is the least of
/// the places where the markers are found, and the bound where none is.
pub proof fn law_earliest(s: Seq<char>, markers: Seq<&str>, bound: int)
    ensures
        forall|k: int|
            0 <= k < markers.len() ==> (text::find(s, (#[trigger] markers[k])@) matches Some(i)
                ==> text::earliest(s, markers, bound) <= i),
        text::earliest(s, markers, bound) <= bound,
        text::earliest(s, markers, bound) == bound || exists|k: int|
            0 <= k < markers.len() && text::find(s, (#[trigger] markers[k])@) == Some(
                text::earliest(s, markers, bound),
            ),
    decreases markers.len(),
{
    if markers.len() > 0 {
        let front = markers.drop_last();
        law_earliest(s, front, bound);
        assert(markers.last() == markers[markers.len() - 1]);
        assert forall|k: int| 0 <= k < markers.len() implies (text::find(
            s,
            (#[trigger] markers[k])@,
        ) matches Some(i) ==> text::earliest(s, markers, bound) <= i) by {
            if k < front.len() {
                assert(front[k] == markers[k]);
            }
        }
        if text::earliest(s, front, bound) != bound {
            let k = choose|k: int|
                0 <= k < front.len() && text::find(s, (#[trigger] front[k])@) == Some(
                    text::earliest(s, front, bound),
                );
            assert(markers[k] == front[k]);
        }
    }
}

/// The first needle that a text holds is the one before which it holds none.
pub proof fn law_first_needle(s: Seq<char>, needles: Seq<&str>)
    ensures
        match text::first_needle(s, needles) {
            Some(k) => 0 <= k < needles.len() && text::contains(s, needles[k]@) && forall|j: int|
                0 <= j < k ==> !text::contains(s, (#[trigger] needles[j])@),
            None => forall|j: int|
                0 <= j < needles.len() ==> !text::contains(s, (#[trigger] needles[j])@),
        },
    decreases needles.len(),
{
    if needles.len() > 0 {
        let front = needles.drop_last();
        law_first_needle(s, front);
        assert(needles.last() == needles[needles.len() - 1]);
        assert forall|j: int| 0 <= j < front.len() implies #[trigger] needles[j] == front[j] by {}
    }
}

/// The first text that is not blank is the one before which all are blank.
pub proof fn law_first_present(parts: text::Texts, k: int)
    requires
        0 <= k < parts.len(),
        !text::is_blank(parts[k]),
        forall|j: int| 0 <= j < k ==> text::is_blank(#[trigger] parts[j]),
    ensures
        text::first_present(parts) == Some(parts[k]),
    decreases parts.len(),
{
    if k > 0 {
        let rest = parts.drop_first();
        assert(text::is_blank(parts[0]));
        assert(rest[k - 1] == parts[k]);
        assert forall|j: int| 0 <= j < k - 1 implies text::is_blank(#[trigger] rest[j]) by {
            assert(rest[j] == parts[j + 1]);
        }
        law_first_present(rest, k - 1);
    }
}

// ---------------------------------------------------------------------------
// Splitting and joining
// ---------------------------------------------------------------------------

/// A text without separators is one segment.
pub proof fn law_split_without_separator(s: Seq<char>, f: text::CharPred)
    requires
        forall|i: int| 0 <= i < s.len() ==> !f(#[trigger] s[i]),
    ensures
        text::split_by(s, f) == seq![s],
    decreases s.len(),
{
    if s.len() > 0 {
        let front = s.drop_last();
        assert forall|i: int| 0 <= i < front.len() implies !f(#[trigger] front[i]) by {
            assert(front[i] == s[i]);
        }
        law_split_without_separator(front, f);
        assert(s.last() == s[s.len() - 1]);
        assert(front.push(s.last()) =~= s);
        assert(text::split_by(s, f) =~= seq![s]);
    } else {
        assert(s =~= Seq::empty());
    }
}

/// A separator ends one segment and begins the next: the segments of a text are
/// those before it, followed by those behind it.
#[verifier::rlimit(60)]
pub proof fn law_split_at_separator(a: Seq<char>, c: char, b: Seq<char>, f: text::CharPred)
    requires
        f(c),
    ensures
        text::split_by(a.push(c) + b, f) == text::split_by(a, f) + text::split_by(b, f),
    decreases b.len(),
{
    let whole = a.push(c) + b;
    if b.len() == 0 {
        assert(whole =~= a.push(c));
        assert(whole.drop_last() =~= a);
        assert(text::split_by(whole, f) =~= text::split_by(a, f) + text::split_by(b, f));
    } else {
        let front = b.drop_last();
        law_split_at_separator(a, c, front, f);
        assert(whole.drop_last() =~= a.push(c) + front);
        assert(whole.last() == b.last());
        text_lemmas::lemma_split_len(front, f);
        assert(text::split_by(whole, f) =~= text::split_by(a, f) + text::split_by(b, f));
    }
}

/// What two lists keep of their texts, they keep together.
pub proof fn lemma_non_empty_of_both(a: text::Texts, b: text::Texts)
    ensures
        text::non_empty(a + b) == text::non_empty(a) + text::non_empty(b),
    decreases b.len(),
{
    let keep = |p: Seq<char>| p.len() > 0;
    reveal(Seq::filter);
    if b.len() == 0 {
        assert(a + b =~= a);
        assert(text::non_empty(b) =~= Seq::empty());
        assert(text::non_empty(a) + text::non_empty(b) =~= text::non_empty(a));
    } else {
        let front = b.drop_last();
        let x = b[b.len() - 1];
        lemma_non_empty_of_both(a, front);
        assert(a + b =~= (a + front).push(x));
        assert(b =~= front.push(x));
        text_lemmas::lemma_filter_push(a + front, x, keep);
        text_lemmas::lemma_filter_push(front, x, keep);
        assert(text::non_empty(a) + text::non_empty(b) =~= if x.len() > 0 {
            (text::non_empty(a) + text::non_empty(front)).push(x)
        } else {
            text::non_empty(a) + text::non_empty(front)
        });
    }
}

proof fn lemma_non_empty_of_one(x: Seq<char>)
    ensures
        text::non_empty(seq![x]) == if x.len() > 0 {
            seq![x]
        } else {
            seq![]
        },
{
    let keep = |p: Seq<char>| p.len() > 0;
    reveal(Seq::filter);
    text_lemmas::lemma_filter_push(text::Texts::empty(), x, keep);
    assert(text::Texts::empty().filter(keep) =~= text::Texts::empty());
    assert(seq![x] =~= text::Texts::empty().push(x));
    assert(text::Texts::empty().push(x) =~= seq![x]);
}

/// A text without spaces is one word, and a space parts the words before it from
/// those behind it.
#[verifier::rlimit(60)]
pub proof fn law_words(word: Seq<char>, a: Seq<char>, c: char, b: Seq<char>)
    requires
        word.len() > 0,
        forall|i: int| 0 <= i < word.len() ==> !text::is_space(#[trigger] word[i]),
        text::is_space(c),
    ensures
        text::words(word) == seq![word],
        text::words(seq![]) == text::Texts::empty(),
        text::words(a.push(c) + b) == text::words(a) + text::words(b),
{
    let f = text::space();
    assert forall|i: int| 0 <= i < word.len() implies !f(#[trigger] word[i]) by {
        assert(!text::is_space(word[i]));
    }
    law_split_without_separator(word, f);
    lemma_non_empty_of_one(word);
    assert(text::split_by(seq![], f) == seq![Seq::<char>::empty()]);
    lemma_non_empty_of_one(Seq::empty());
    law_split_at_separator(a, c, b, f);
    lemma_non_empty_of_both(text::split_by(a, f), text::split_by(b, f));
}

/// Joining keeps the order: the parts of two lists are joined as each is, with
/// the separator between.
pub proof fn law_join(a: text::Texts, b: text::Texts, x: Seq<char>, sep: Seq<char>)
    requires
        a.len() > 0,
        b.len() > 0,
    ensures
        text::join(seq![], sep) == Seq::<char>::empty(),
        text::join(seq![x], sep) == x,
        text::join(a + b, sep) == text::join(a, sep) + sep + text::join(b, sep),
    decreases b.len(),
{
    let front = b.drop_last();
    let last = b[b.len() - 1];
    assert(a + b =~= (a + front).push(last));
    assert(b =~= front.push(last));
    text_lemmas::lemma_join_push(a + front, last, sep);
    text_lemmas::lemma_join_push(front, last, sep);
    if front.len() > 0 {
        law_join(a, front, x, sep);
        assert(text::join(a, sep) + sep + text::join(front, sep) + sep + last =~= text::join(a, sep)
            + sep + (text::join(front, sep) + sep + last));
    } else {
        assert(a + front =~= a);
    }
}

/// A text in one line is its own only line, and a line break ends a line: what
/// stands behind it makes the lines that follow.
#[verifier::rlimit(60)]
pub proof fn law_lines(line: Seq<char>, rest: Seq<char>)
    requires
        forall|i: int| 0 <= i < line.len() ==> #[trigger] line[i] != '\n',
        line.len() > 0 ==> line.last() != '\r',
    ensures
        line.len() > 0 ==> text::lines(line) == seq![line],
        text::lines(line.push('\n') + rest) == seq![line] + text::lines(rest),
        text::lines(line.push('\r').push('\n') + rest) == seq![line] + text::lines(rest),
{
    let f = text::just('\n');
    lemma_line(line);
    law_split_at_separator(line, '\n', rest, f);
    let ret = line.push('\r');
    assert forall|i: int| 0 <= i < ret.len() implies #[trigger] ret[i] != '\n' by {
        if i < line.len() {
            assert(ret[i] == line[i]);
        }
    }
    lemma_line(ret);
    law_split_at_separator(ret, '\n', rest, f);
    text_lemmas::lemma_split_len(rest, f);
    let tail = text::split_by(rest, f);
    let strip = |p: Seq<char>| text::strip_return(p);
    assert((seq![line] + tail).drop_last().map_values(strip) =~= seq![line]
        + tail.drop_last().map_values(strip));
    assert(ret.drop_last() =~= line);
    assert((seq![ret] + tail).drop_last().map_values(strip) =~= seq![line]
        + tail.drop_last().map_values(strip));
    assert((seq![line] + tail).last() == tail.last());
    assert((seq![ret] + tail).last() == tail.last());
    assert(text::lines(line.push('\n') + rest) =~= seq![line] + text::lines(rest));
    assert(text::lines(ret.push('\n') + rest) =~= seq![line] + text::lines(rest));
    if line.len() > 0 {
        assert(seq![line].drop_last() =~= text::Texts::empty());
        assert(text::lines(line) =~= seq![line]);
    }
}

proof fn lemma_line(line: Seq<char>)
    requires
        forall|i: int| 0 <= i < line.len() ==> #[trigger] line[i] != '\n',
    ensures
        text::split_by(line, text::just('\n')) == seq![line],
{
    let f = text::just('\n');
    assert forall|i: int| 0 <= i < line.len() implies !f(#[trigger] line[i]) by {}
    law_split_without_separator(line, f);
}

/// Splitting at a pattern takes the pattern out and nothing else.
pub proof fn law_split_comes_back(s: Seq<char>, p: Seq<char>)
    requires
        p.len() > 0,
    ensures
        text::join(text::split_at(s, p), p) == s,
        text::split_at(s, p).len() > 0,
        !text::contains(s, p) ==> text::split_at(s, p) == seq![s],
    decreases s.len(),
{
    text_lemmas::lemma_find(s, p);
    if let Some(i) = text::find(s, p) {
        let head = s.take(i);
        let rest = s.skip((i + p.len()) as int);
        law_split_comes_back(rest, p);
        law_join(seq![head], text::split_at(rest, p), head, p);
        assert(head + p + rest =~= s);
    } else {
        law_join(seq![s], seq![s], s, p);
    }
}

// ---------------------------------------------------------------------------
// Numbers and order
// ---------------------------------------------------------------------------

/// The value of a text of digits.
pub open spec fn value_of(digits: Seq<char>) -> int
    decreases digits.len(),
{
    if digits.len() == 0 {
        0
    } else {
        value_of(digits.drop_last()) * 10 + (digits.last() as u32 - 48)
    }
}

/// Decimal notation has the value of the number and no leading zero, and a
/// negative number has a minus sign before its digits.
pub proof fn law_decimal(n: nat)
    ensures
        value_of(text::decimal(n)) == n,
        n > 0 ==> text::decimal(n)[0] != '0',
        text::signed_decimal(n as int) == text::decimal(n),
        n > 0 ==> text::signed_decimal(-n) == seq!['-'] + text::decimal(n),
    decreases n,
{
    if n >= 10 {
        law_decimal(n / 10);
        text_lemmas::lemma_decimal(n / 10);
        let front = text::decimal(n / 10);
        assert(front.push(text::digit(n % 10)).drop_last() =~= front);
        assert(text::decimal(n)[0] == front[0]);
    } else {
        let s = text::decimal(n);
        assert(s.drop_last() =~= Seq::empty());
        assert(value_of(s.drop_last()) == 0);
    }
}

/// Texts are ordered by the first character in which they differ, and a text
/// comes before those that it begins.
#[verifier::rlimit(60)]
pub proof fn law_text_order(a: Seq<char>, b: Seq<char>, i: int)
    ensures
        a.len() < b.len() && b.take(a.len() as int) == a ==> order::text_before(a, b)
            && !order::text_before(b, a),
        0 <= i < a.len() && i < b.len() && a.take(i) == b.take(i) && a[i] < b[i]
            ==> order::text_before(a, b) && !order::text_before(b, a),
    decreases a.len(),
{
    if a.len() > 0 && b.len() > 0 {
        let x = a.drop_first();
        let y = b.drop_first();
        law_text_order(x, y, i - 1);
        if a.len() < b.len() && b.take(a.len() as int) == a {
            assert(a[0] == b[0]) by {
                assert(b.take(a.len() as int)[0] == b[0]);
            }
            assert(y.take(x.len() as int) =~= x) by {
                assert(b.take(a.len() as int).drop_first() =~= y.take(x.len() as int));
            }
        }
        if 0 < i < a.len() && i < b.len() && a.take(i) == b.take(i) {
            assert(a.take(i)[0] == b.take(i)[0]);
            assert(x.take(i - 1) =~= a.take(i).drop_first());
            assert(y.take(i - 1) =~= b.take(i).drop_first());
        }
    }
}

// ---------------------------------------------------------------------------
// Fields and errors
// ---------------------------------------------------------------------------

/// A field is the first of its name, and is found wherever there is one.
pub proof fn law_lookup(fields: Seq<(Seq<char>, JsonView)>, k: int)
    requires
        0 <= k < fields.len(),
        forall|j: int| 0 <= j < k ==> (#[trigger] fields[j]).0 != fields[k].0,
    ensures
        json::lookup(fields, fields[k].0) == Some(fields[k].1),
        JsonView::Object(fields).field(fields[k].0) == Some(fields[k].1),
    decreases fields.len(),
{
    if k > 0 {
        let rest = fields.drop_first();
        assert(fields[0].0 != fields[k].0);
        assert(rest[k - 1] == fields[k]);
        assert forall|j: int| 0 <= j < k - 1 implies (#[trigger] rest[j]).0 != rest[k - 1].0 by {
            assert(rest[j] == fields[j + 1]);
        }
        law_lookup(rest, k - 1);
    }
}

/// A field that no entry names is absent, and only objects have fields.
pub proof fn law_absent_field(v: JsonView, key: Seq<char>)
    requires
        v matches JsonView::Object(fields) ==> forall|j: int|
            0 <= j < fields.len() ==> (#[trigger] fields[j]).0 != key,
    ensures
        v.field(key) is None,
        v.field_text(key) is None,
    decreases v,
{
    if let JsonView::Object(fields) = v {
        lemma_absent(fields, key);
    }
}

proof fn lemma_absent(fields: Seq<(Seq<char>, JsonView)>, key: Seq<char>)
    requires
        forall|j: int| 0 <= j < fields.len() ==> (#[trigger] fields[j]).0 != key,
    ensures
        json::lookup(fields, key) is None,
    decreases fields.len(),
{
    if fields.len() > 0 {
        let rest = fields.drop_first();
        assert(fields[0].0 != key);
        assert forall|j: int| 0 <= j < rest.len() implies (#[trigger] rest[j]).0 != key by {
            assert(rest[j] == fields[j + 1]);
        }
        lemma_absent(rest, key);
    }
}

/// An error is answered with its own message and code. The number of the answer
/// tells the kinds of error apart; those of the caller are below 500.
pub proof fn law_error_answers(e: AppError, f: AppError, r: (u16, ErrorResponse), s: (
    u16,
    ErrorResponse,
))
    requires
        call_ensures(AppError::into_response, (e,), r),
        call_ensures(AppError::into_response, (f,), s),
    ensures
        r.1.error@ == e.error@,
        text::opt(r.1.code) == text::opt(e.code),
        r.0 == s.0 ==> e.status == f.status,
        e.status is Internal || e.status is GatewayTimeout <==> r.0 >= 500,
        400 <= r.0 < 600,
        e.status is Unauthorized ==> r.0 == 401,
        e.status is Forbidden ==> r.0 == 403,
        e.status is NotFound ==> r.0 == 404,
        e.status is Conflict ==> r.0 == 409,
        e.status is BadRequest ==> r.0 == 400,
        e.status is Internal ==> r.0 == 500,
        e.status is GatewayTimeout ==> r.0 == 504,
{
}

/// An error keeps its kind and message when it gets a code.
pub proof fn law_error_code(e: AppError, code: &str, r: AppError)
    requires
        call_ensures(AppError::with_code, (e, code), r),
    ensures
        r.status == e.status,
        r.error@ == e.error@,
        text::opt(r.code) == Some(code@),
{
}

/// Each way to make an error gives the kind that it is named after, with the
/// message and no code.
pub proof fn law_error_kinds(
    message: &str,
    bad_request: AppError,
    not_found: AppError,
    conflict: AppError,
    unauthorized: AppError,
    forbidden: AppError,
    gateway_timeout: AppError,
    internal: AppError,
)
    requires
        call_ensures(AppError::bad_request, (message,), bad_request),
        call_ensures(AppError::not_found, (message,), not_found),
        call_ensures(AppError::conflict, (message,), conflict),
        call_ensures(AppError::unauthorized, (message,), unauthorized),
        call_ensures(AppError::forbidden, (message,), forbidden),
        call_ensures(AppError::gateway_timeout, (message,), gateway_timeout),
        call_ensures(AppError::internal, (message,), internal),
    ensures
        bad_request.status is BadRequest && not_found.status is NotFound
            && conflict.status is Conflict && unauthorized.status is Unauthorized
            && forbidden.status is Forbidden && gateway_timeout.status is GatewayTimeout
            && internal.status is Internal,
        forall|e: AppError|
            e == bad_request || e == not_found || e == conflict || e == unauthorized || e
                == forbidden || e == gateway_timeout || e == internal ==> #[trigger] e.error@
                == message@ && e.code is None,
{
}

// ---------------------------------------------------------------------------
// Cut texts, slugs and lists
// ---------------------------------------------------------------------------

/// A cut text begins as the trimmed text does and ends in an ellipsis exactly
/// where the text was longer than the limit.
pub proof fn law_truncated(value: &str, limit: usize, r: String)
    requires
        call_ensures(formatting::truncate_text, (value, limit), r),
    ensures
        value@.len() <= limit ==> r@ == text::trim(value@),
        value@.len() > limit ==> text::ends_with(r@, "..."@) && r@.len() <= limit + 3,
        value@.len() > limit && text::trim(value@) == value@ ==> r@ == value@.take(limit as int)
            + "..."@,
{
    formatting::law_truncated_fits(value@, limit as nat);
    reveal_strlit("...");
    if value@.len() > limit {
        let head = text::prefix(text::trim(value@), limit as nat);
        assert(r@ == head + "..."@);
        assert(r@.skip(head.len() as int) =~= "..."@);
    }
}

/// A slug of lower-case letters and digits is the text itself, cut at the limit,
/// and case does not matter to a slug.
pub proof fn law_slug_of_word(s: Seq<char>, other: Seq<char>)
    requires
        s.len() > 0,
        forall|i: int|
            0 <= i < s.len() ==> ('a' <= #[trigger] s[i] <= 'z' || '0' <= s[i] <= '9'),
        text::lower(other) == s,
    ensures
        formatting::slug(s) == text::prefix(s, 32),
        formatting::slug(other) == text::prefix(s, 32),
{
    assert(text::lower(s) =~= s);
    lemma_dashed_word(s, s);
    lemma_dashed_word(other, s);
    text_lemmas::lemma_trim_noop(s, text::just('-'));
}

proof fn lemma_dashed_word(other: Seq<char>, s: Seq<char>)
    requires
        forall|i: int|
            0 <= i < s.len() ==> ('a' <= #[trigger] s[i] <= 'z' || '0' <= s[i] <= '9'),
        text::lower(other) =~= s,
    ensures
        formatting::dashed(other) == s,
    decreases other.len(),
{
    assert(other.len() == s.len());
    if other.len() > 0 {
        let front = other.drop_last();
        let cut = s.drop_last();
        assert forall|i: int| 0 <= i < cut.len() implies ('a' <= #[trigger] cut[i] <= 'z' || '0'
            <= cut[i] <= '9') by {
            assert(cut[i] == s[i]);
        }
        assert(text::lower(front) =~= cut);
        lemma_dashed_word(front, cut);
        let c = other.last();
        assert(text::lower(other)[s.len() - 1] == text::ascii_lower(c));
        assert(s[s.len() - 1] == text::ascii_lower(c));
        assert(text::is_ascii_alphanumeric(c));
        assert(cut.push(text::ascii_lower(c)) =~= s);
    } else {
        assert(s =~= other);
    }
}

/// A run of other characters between two words is one dash in the slug.
pub proof fn law_slug_parts(a: Seq<char>, c: char, b: Seq<char>, d: char)
    requires
        !text::is_ascii_alphanumeric(c),
        !text::is_ascii_alphanumeric(d),
    ensures
        formatting::slug(a.push(c) + b) == formatting::slug(a.push('-') + b),
        formatting::slug(a.push(c).push(d) + b) == formatting::slug(a.push('-') + b),
{
    lemma_dashed_runs(a, c, b, d);
}

proof fn lemma_dashed_runs(a: Seq<char>, c: char, b: Seq<char>, d: char)
    requires
        !text::is_ascii_alphanumeric(c),
        !text::is_ascii_alphanumeric(d),
    ensures
        formatting::dashed(a.push(c) + b) == formatting::dashed(a.push('-') + b),
        formatting::dashed(a.push(c).push(d) + b) == formatting::dashed(a.push('-') + b),
    decreases b.len(),
{
    if b.len() == 0 {
        assert(a.push(c) + b =~= a.push(c));
        assert(a.push('-') + b =~= a.push('-'));
        assert(a.push(c).push(d) + b =~= a.push(c).push(d));
        assert(a.push(c).drop_last() =~= a);
        assert(a.push('-').drop_last() =~= a);
        assert(a.push(c).push(d).drop_last() =~= a.push(c));
    } else {
        let front = b.drop_last();
        lemma_dashed_runs(a, c, front, d);
        assert((a.push(c) + b).drop_last() =~= a.push(c) + front);
        assert((a.push('-') + b).drop_last() =~= a.push('-') + front);
        assert((a.push(c).push(d) + b).drop_last() =~= a.push(c).push(d) + front);
    }
}

/// A sanitized list keeps the order in which its texts first occur: what a longer
/// list adds comes behind what was there.
pub proof fn law_sanitized_order(values: text::Texts, item: Seq<char>)
    ensures
        formatting::sanitized_list(values.push(item)) == if text::is_blank(item)
            || formatting::sanitized_list(values).contains(text::trim(item)) {
            formatting::sanitized_list(values)
        } else {
            formatting::sanitized_list(values).push(text::trim(item))
        },
{
    assert(values.push(item).drop_last() =~= values);
}

/// Lists of texts are ordered as texts are: by the first place in which they
/// differ, a beginning before what it begins. Repositories are ordered by name,
/// and by their branches where the names are the same.
#[verifier::rlimit(60)]
pub proof fn law_list_order(a: text::Texts, b: text::Texts, i: int, x: Seq<char>, y: Seq<char>)
    ensures
        a.len() < b.len() && b.take(a.len() as int) == a ==> order::texts_before(a, b),
        0 <= i < a.len() && i < b.len() && a.take(i) == b.take(i) && order::text_before(a[i], b[i])
            ==> order::texts_before(a, b),
        order::text_before(x, y) ==> order::repository_before((x, a), (y, b)),
        order::texts_before(a, b) ==> order::repository_before((x, a), (x, b)),
    decreases a.len(),
{
    order::law_by_text_is_order();
    if order::text_before(x, y) && x == y {
        let before = order::by_text();
        assert(!before(x, x));
    }
    if a.len() > 0 && b.len() > 0 {
        let p = a.drop_first();
        let q = b.drop_first();
        law_list_order(p, q, i - 1, x, y);
        if a.len() < b.len() && b.take(a.len() as int) == a {
            assert(a[0] == b[0]) by {
                assert(b.take(a.len() as int)[0] == b[0]);
            }
            assert(q.take(p.len() as int) =~= p) by {
                assert(b.take(a.len() as int).drop_first() =~= q.take(p.len() as int));
            }
        }
        if 0 < i < a.len() && i < b.len() && a.take(i) == b.take(i) {
            assert(a.take(i)[0] == b.take(i)[0]);
            assert(p.take(i - 1) =~= a.take(i).drop_first());
            assert(q.take(i - 1) =~= b.take(i).drop_first());
        }
        if i == 0 && order::text_before(a[0], b[0]) && a[0] == b[0] {
            let before = order::by_text();
            assert(!before(a[0], a[0]));
        }
    }
}

} // verus!
