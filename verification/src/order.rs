//! Sets of texts and of repositories, kept as ascending lists.

use crate::models::DeviceRepository;
use crate::scan;
use crate::scan::chars_of;
use crate::text;
use vstd::prelude::*;

verus! {

// ---------------------------------------------------------------------------
// Orders
// ---------------------------------------------------------------------------

/// A relation "stands before".
pub type Before<T> = spec_fn(T, T) -> bool;

/// The relation is a strict total order.
pub open spec fn is_strict_order<T>(before: Before<T>) -> bool {
    &&& forall|a: T| !#[trigger] before(a, a)
    &&& forall|a: T, b: T, c: T| #[trigger]
        before(a, b) && #[trigger] before(b, c) ==> before(a, c)
    &&& forall|a: T, b: T| #[trigger] before(a, b) || a == b || before(b, a)
}

/// The first text stands before the second in the order of their characters.
pub open spec fn text_before(a: Seq<char>, b: Seq<char>) -> bool
    decreases a.len(),
{
    if b.len() == 0 {
        false
    } else if a.len() == 0 {
        true
    } else if a[0] != b[0] {
        a[0] < b[0]
    } else {
        text_before(a.drop_first(), b.drop_first())
    }
}

/// The first list stands before the second in the order of their texts.
pub open spec fn texts_before(a: text::Texts, b: text::Texts) -> bool
    decreases a.len(),
{
    if b.len() == 0 {
        false
    } else if a.len() == 0 {
        true
    } else if a[0] != b[0] {
        text_before(a[0], b[0])
    } else {
        texts_before(a.drop_first(), b.drop_first())
    }
}

/// The name of a repository and its branches.
pub type RepositoryView = (Seq<char>, text::Texts);

/// The first repository stands before the second: by name, then by branches.
pub open spec fn repository_before(a: RepositoryView, b: RepositoryView) -> bool {
    if a.0 != b.0 {
        text_before(a.0, b.0)
    } else {
        texts_before(a.1, b.1)
    }
}

/// The order of texts.
pub open spec fn by_text() -> Before<Seq<char>> {
    |a: Seq<char>, b: Seq<char>| text_before(a, b)
}

/// The order of repositories.
pub open spec fn by_repository() -> Before<RepositoryView> {
    |a: RepositoryView, b: RepositoryView| repository_before(a, b)
}

proof fn lemma_split_first<T>(a: Seq<T>, b: Seq<T>)
    requires
        a.len() > 0,
        b.len() > 0,
        a[0] == b[0],
    ensures
        a.drop_first() == b.drop_first() ==> a == b,
{
    if a.drop_first() == b.drop_first() {
        assert(a =~= seq![a[0]] + a.drop_first());
        assert(b =~= seq![b[0]] + b.drop_first());
    }
}

proof fn lemma_text_irreflexive(a: Seq<char>)
    ensures
        !text_before(a, a),
    decreases a.len(),
{
    if a.len() > 0 {
        lemma_text_irreflexive(a.drop_first());
    }
}

proof fn lemma_text_transitive(a: Seq<char>, b: Seq<char>, c: Seq<char>)
    requires
        text_before(a, b),
        text_before(b, c),
    ensures
        text_before(a, c),
    decreases a.len(),
{
    if a.len() > 0 && a[0] == b[0] && b[0] == c[0] {
        lemma_text_transitive(a.drop_first(), b.drop_first(), c.drop_first());
    }
}

proof fn lemma_text_total(a: Seq<char>, b: Seq<char>)
    ensures
        text_before(a, b) || a == b || text_before(b, a),
    decreases a.len(),
{
    if a.len() > 0 && b.len() > 0 {
        if a[0] == b[0] {
            lemma_text_total(a.drop_first(), b.drop_first());
            lemma_split_first(a, b);
        }
    } else if a.len() == 0 && b.len() == 0 {
        assert(a =~= b);
    }
}

proof fn lemma_texts_irreflexive(a: text::Texts)
    ensures
        !texts_before(a, a),
    decreases a.len(),
{
    if a.len() > 0 {
        lemma_texts_irreflexive(a.drop_first());
    }
}

proof fn lemma_texts_transitive(a: text::Texts, b: text::Texts, c: text::Texts)
    requires
        texts_before(a, b),
        texts_before(b, c),
    ensures
        texts_before(a, c),
    decreases a.len(),
{
    if a.len() > 0 {
        if a[0] == b[0] && b[0] == c[0] {
            lemma_texts_transitive(a.drop_first(), b.drop_first(), c.drop_first());
        } else if a[0] != b[0] && b[0] != c[0] {
            lemma_text_transitive(a[0], b[0], c[0]);
            lemma_text_irreflexive(a[0]);
        }
    }
}

proof fn lemma_texts_total(a: text::Texts, b: text::Texts)
    ensures
        texts_before(a, b) || a == b || texts_before(b, a),
    decreases a.len(),
{
    if a.len() > 0 && b.len() > 0 {
        if a[0] == b[0] {
            lemma_texts_total(a.drop_first(), b.drop_first());
            lemma_split_first(a, b);
        } else {
            lemma_text_total(a[0], b[0]);
        }
    } else if a.len() == 0 && b.len() == 0 {
        assert(a =~= b);
    }
}

/// Texts are strictly ordered.
pub proof fn law_by_text_is_order()
    ensures
        is_strict_order(by_text()),
{
    let before = by_text();
    assert forall|a: Seq<char>| !#[trigger] before(a, a) by {
        lemma_text_irreflexive(a);
    }
    assert forall|a: Seq<char>, b: Seq<char>, c: Seq<char>| #[trigger] before(a, b)
        && #[trigger] before(b, c) implies before(a, c) by {
        lemma_text_transitive(a, b, c);
    }
    assert forall|a: Seq<char>, b: Seq<char>| #[trigger] before(a, b) || a == b || before(b, a) by {
        lemma_text_total(a, b);
    }
}

/// Repositories are strictly ordered.
pub proof fn law_by_repository_is_order()
    ensures
        is_strict_order(by_repository()),
{
    let before = by_repository();
    assert forall|a: RepositoryView| !#[trigger] before(a, a) by {
        lemma_texts_irreflexive(a.1);
    }
    assert forall|a: RepositoryView, b: RepositoryView, c: RepositoryView| #[trigger] before(a, b)
        && #[trigger] before(b, c) implies before(a, c) by {
        if a.0 == b.0 && b.0 == c.0 {
            lemma_texts_transitive(a.1, b.1, c.1);
        } else if a.0 != b.0 && b.0 != c.0 {
            lemma_text_transitive(a.0, b.0, c.0);
            lemma_text_irreflexive(a.0);
        }
    }
    assert forall|a: RepositoryView, b: RepositoryView| #[trigger] before(a, b) || a == b
        || before(b, a) by {
        lemma_text_total(a.0, b.0);
        lemma_texts_total(a.1, b.1);
    }
}

// ---------------------------------------------------------------------------
// Ascending lists
// ---------------------------------------------------------------------------

/// Each element stands before all that follow it, so none occurs twice.
pub open spec fn ascending<T>(list: Seq<T>, before: Before<T>) -> bool {
    forall|i: int, j: int| 0 <= i < j < list.len() ==> before(#[trigger] list[i], #[trigger] list[j])
}

/// The ascending list with one more element, unless it is there.
pub open spec fn inserted<T>(list: Seq<T>, x: T, before: Before<T>) -> Seq<T>
    decreases list.len(),
{
    if list.len() == 0 {
        seq![x]
    } else if list[0] == x {
        list
    } else if before(x, list[0]) {
        seq![x] + list
    } else {
        seq![list[0]] + inserted(list.drop_first(), x, before)
    }
}

/// The elements as an ascending list.
pub open spec fn as_set<T>(values: Seq<T>, before: Before<T>) -> Seq<T>
    decreases values.len(),
{
    if values.len() == 0 {
        values
    } else {
        inserted(as_set(values.drop_last(), before), values.last(), before)
    }
}

/// Inserting keeps the list ascending and adds nothing but the element.
pub proof fn law_inserted<T>(list: Seq<T>, x: T, before: Before<T>)
    requires
        is_strict_order(before),
        ascending(list, before),
    ensures
        ascending(inserted(list, x, before), before),
        forall|y: T| #[trigger] inserted(list, x, before).contains(y) <==> list.contains(y) || y == x,
    decreases list.len(),
{
    let result = inserted(list, x, before);
    if list.len() == 0 {
        assert(result[0] == x);
    } else if list[0] == x {
    } else if before(x, list[0]) {
        assert forall|i: int, j: int| 0 <= i < j < result.len() implies before(
            #[trigger] result[i],
            #[trigger] result[j],
        ) by {
            if i == 0 {
                if j > 1 {
                    assert(before(list[0], list[j - 1]));
                }
                assert(result[j] == list[j - 1]);
            } else {
                assert(result[i] == list[i - 1]);
                assert(result[j] == list[j - 1]);
            }
        }
        assert forall|y: T| #[trigger] result.contains(y) <==> list.contains(y) || y == x by {
            if list.contains(y) {
                let k = choose|k: int| 0 <= k < list.len() && list[k] == y;
                assert(result[k + 1] == y);
            }
            if y == x {
                assert(result[0] == y);
            }
            if result.contains(y) {
                let k = choose|k: int| 0 <= k < result.len() && result[k] == y;
                if k > 0 {
                    assert(list[k - 1] == y);
                }
            }
        }
    } else {
        let rest = list.drop_first();
        assert(before(list[0], x));
        assert forall|i: int, j: int| 0 <= i < j < rest.len() implies before(
            #[trigger] rest[i],
            #[trigger] rest[j],
        ) by {
            assert(rest[i] == list[i + 1]);
            assert(rest[j] == list[j + 1]);
        }
        law_inserted(rest, x, before);
        let tail = inserted(rest, x, before);
        assert forall|i: int, j: int| 0 <= i < j < result.len() implies before(
            #[trigger] result[i],
            #[trigger] result[j],
        ) by {
            assert(result[j] == tail[j - 1]);
            if i == 0 {
                assert(tail.contains(tail[j - 1]));
                let y = tail[j - 1];
                if rest.contains(y) {
                    let k = choose|k: int| 0 <= k < rest.len() && rest[k] == y;
                    assert(list[k + 1] == y);
                }
            } else {
                assert(result[i] == tail[i - 1]);
            }
        }
        assert forall|y: T| #[trigger] result.contains(y) <==> list.contains(y) || y == x by {
            if list.contains(y) {
                let k = choose|k: int| 0 <= k < list.len() && list[k] == y;
                if k > 0 {
                    assert(rest[k - 1] == y);
                } else {
                    assert(result[0] == y);
                }
            }
            if rest.contains(y) {
                let k = choose|k: int| 0 <= k < rest.len() && rest[k] == y;
                assert(list[k + 1] == y);
            }
            if tail.contains(y) {
                let k = choose|k: int| 0 <= k < tail.len() && tail[k] == y;
                assert(result[k + 1] == y);
            }
            if result.contains(y) {
                let k = choose|k: int| 0 <= k < result.len() && result[k] == y;
                if k > 0 {
                    assert(tail[k - 1] == y);
                } else {
                    assert(list[0] == y);
                }
            }
        }
    }
}

/// The ascending list of some elements holds exactly those.
pub proof fn law_as_set<T>(values: Seq<T>, before: Before<T>)
    requires
        is_strict_order(before),
    ensures
        ascending(as_set(values, before), before),
        forall|y: T| #[trigger] as_set(values, before).contains(y) <==> values.contains(y),
    decreases values.len(),
{
    if values.len() > 0 {
        let front = values.drop_last();
        law_as_set(front, before);
        law_inserted(as_set(front, before), values.last(), before);
        assert forall|y: T| #[trigger] as_set(values, before).contains(y) <==> values.contains(
            y,
        ) by {
            if values.contains(y) {
                let k = choose|k: int| 0 <= k < values.len() && values[k] == y;
                if k < front.len() {
                    assert(front[k] == y);
                }
            }
            if front.contains(y) {
                let k = choose|k: int| 0 <= k < front.len() && front[k] == y;
                assert(values[k] == y);
            }
            assert(values[values.len() - 1] == values.last());
        }
    }
}

/// A list that is ascending is the ascending list of its elements.
pub proof fn law_ascending_is_set<T>(list: Seq<T>, before: Before<T>)
    requires
        is_strict_order(before),
        ascending(list, before),
    ensures
        as_set(list, before) == list,
    decreases list.len(),
{
    if list.len() > 0 {
        let front = list.drop_last();
        law_ascending_is_set(front, before);
        assert forall|j: int| 0 <= j < front.len() implies #[trigger] front[j] != list.last()
            && !before(list.last(), front[j]) by {
            assert(before(list[j], list[list.len() - 1]));
        }
        lemma_inserted_at(front, list.last(), front.len() as int, before);
        assert(front.insert(front.len() as int, list.last()) =~= list);
    }
}

proof fn lemma_inserted_at<T>(list: Seq<T>, x: T, p: int, before: Before<T>)
    requires
        0 <= p <= list.len(),
        forall|j: int| 0 <= j < p ==> #[trigger] list[j] != x && !before(x, list[j]),
        p < list.len() ==> list[p] == x || before(x, list[p]),
    ensures
        inserted(list, x, before) == if p < list.len() && list[p] == x {
            list
        } else {
            list.insert(p, x)
        },
    decreases p,
{
    if p > 0 {
        assert(list[0] != x);
        let rest = list.drop_first();
        assert forall|j: int| 0 <= j < p - 1 implies #[trigger] rest[j] != x && !before(
            x,
            rest[j],
        ) by {
            assert(rest[j] == list[j + 1]);
        }
        lemma_inserted_at(rest, x, p - 1, before);
        if p < list.len() && list[p] == x {
            assert(seq![list[0]] + rest =~= list);
        } else {
            assert(seq![list[0]] + rest.insert(p - 1, x) =~= list.insert(p, x));
        }
    } else if list.len() == 0 {
        assert(list.insert(0, x) =~= seq![x]);
    } else if list[0] != x {
        assert(list.insert(0, x) =~= seq![x] + list);
    }
}

// ---------------------------------------------------------------------------
// Executable counterparts
// ---------------------------------------------------------------------------

/// Whether the first text stands before the second.
pub fn text_less(a: &[char], b: &[char]) -> (r: bool)
    ensures
        r == text_before(a@, b@),
{
    let mut i: usize = 0;
    assert(a@.skip(0) =~= a@);
    assert(b@.skip(0) =~= b@);
    while i < a.len() && i < b.len()
        invariant
            i <= a@.len(),
            i <= b@.len(),
            text_before(a@, b@) == text_before(a@.skip(i as int), b@.skip(i as int)),
        decreases a@.len() - i,
    {
        if a[i] != b[i] {
            return a[i] < b[i];
        }
        assert(a@.skip(i as int).drop_first() =~= a@.skip(i + 1));
        assert(b@.skip(i as int).drop_first() =~= b@.skip(i + 1));
        i += 1;
    }
    i < b.len()
}

/// Whether the first list stands before the second.
pub fn texts_less(a: &[String], b: &[String]) -> (r: bool)
    ensures
        r == texts_before(text::views(a@), text::views(b@)),
{
    let ghost va = text::views(a@);
    let ghost vb = text::views(b@);
    let mut i: usize = 0;
    assert(va.skip(0) =~= va);
    assert(vb.skip(0) =~= vb);
    while i < a.len() && i < b.len()
        invariant
            i <= a@.len(),
            i <= b@.len(),
            va == text::views(a@),
            vb == text::views(b@),
            texts_before(va, vb) == texts_before(va.skip(i as int), vb.skip(i as int)),
        decreases a@.len() - i,
    {
        let x = chars_of(a[i].as_str());
        let y = chars_of(b[i].as_str());
        if !scan::same(x.as_slice(), y.as_slice()) {
            return text_less(x.as_slice(), y.as_slice());
        }
        assert(va.skip(i as int).drop_first() =~= va.skip(i + 1));
        assert(vb.skip(i as int).drop_first() =~= vb.skip(i + 1));
        i += 1;
    }
    i < b.len()
}

/// Adds a text to an ascending list, unless it is there.
pub fn insert_text(list: &mut Vec<String>, item: String)
    ensures
        text::views(final(list)@) == inserted(text::views(old(list)@), item@, by_text()),
{
    let ghost model = text::views(list@);
    let chars = chars_of(item.as_str());
    let mut p: usize = 0;
    while p < list.len()
        invariant
            p <= list@.len(),
            model == text::views(list@),
            model == text::views(old(list)@),
            chars@ == item@,
            forall|j: int|
                0 <= j < p ==> #[trigger] model[j] != item@ && !(by_text())(item@, model[j]),
        decreases list@.len() - p,
    {
        let other = chars_of(list[p].as_str());
        if scan::same(other.as_slice(), chars.as_slice()) {
            proof {
                lemma_inserted_at(model, item@, p as int, by_text());
            }
            return;
        }
        if text_less(chars.as_slice(), other.as_slice()) {
            proof {
                lemma_inserted_at(model, item@, p as int, by_text());
            }
            list.insert(p, item);
            assert(text::views(list@) =~= model.insert(p as int, item@));
            return;
        }
        p += 1;
    }
    proof {
        lemma_inserted_at(model, item@, p as int, by_text());
    }
    list.push(item);
    assert(text::views(list@) =~= model.insert(p as int, item@));
}

/// The texts as an ascending list.
pub fn text_set(values: &[String]) -> (r: Vec<String>)
    ensures
        text::views(r@) == as_set(text::views(values@), by_text()),
{
    let ghost model = text::views(values@);
    let mut out: Vec<String> = Vec::new();
    let mut i: usize = 0;
    assert(text::views(out@) =~= as_set(model.take(0), by_text()));
    while i < values.len()
        invariant
            i <= values@.len(),
            model == text::views(values@),
            text::views(out@) == as_set(model.take(i as int), by_text()),
        decreases values@.len() - i,
    {
        assert(model.take(i + 1).drop_last() =~= model.take(i as int));
        insert_text(&mut out, values[i].clone());
        i += 1;
    }
    assert(model.take(i as int) =~= model);
    out
}

/// The models of a list of repositories.
pub open spec fn repository_views(list: Seq<DeviceRepository>) -> Seq<RepositoryView> {
    list.map_values(|r: DeviceRepository| r@)
}

fn same_texts(a: &[String], b: &[String]) -> (r: bool)
    ensures
        r == (text::views(a@) == text::views(b@)),
{
    if a.len() != b.len() {
        assert(text::views(a@).len() != text::views(b@).len());
        return false;
    }
    let mut i: usize = 0;
    while i < a.len()
        invariant
            i <= a@.len(),
            a@.len() == b@.len(),
            forall|j: int| 0 <= j < i ==> a@[j]@ == b@[j]@,
        decreases a@.len() - i,
    {
        if !scan::same_text(a[i].as_str(), b[i].as_str()) {
            assert(text::views(a@)[i as int] != text::views(b@)[i as int]);
            return false;
        }
        i += 1;
    }
    assert(text::views(a@) =~= text::views(b@));
    true
}

fn same_repository(a: &DeviceRepository, b: &DeviceRepository) -> (r: bool)
    ensures
        r == (a@ == b@),
{
    scan::same_text(a.name.as_str(), b.name.as_str()) && same_texts(
        a.branches.as_slice(),
        b.branches.as_slice(),
    )
}

fn repository_less(a: &DeviceRepository, b: &DeviceRepository) -> (r: bool)
    ensures
        r == repository_before(a@, b@),
{
    let x = chars_of(a.name.as_str());
    let y = chars_of(b.name.as_str());
    if scan::same(x.as_slice(), y.as_slice()) {
        texts_less(a.branches.as_slice(), b.branches.as_slice())
    } else {
        text_less(x.as_slice(), y.as_slice())
    }
}

/// Adds a repository to an ascending list, unless it is there.
pub fn insert_repository(list: &mut Vec<DeviceRepository>, item: DeviceRepository)
    ensures
        repository_views(final(list)@) == inserted(
            repository_views(old(list)@),
            item@,
            by_repository(),
        ),
{
    let ghost model = repository_views(list@);
    let mut p: usize = 0;
    while p < list.len()
        invariant
            p <= list@.len(),
            model == repository_views(list@),
            model == repository_views(old(list)@),
            forall|j: int|
                0 <= j < p ==> #[trigger] model[j] != item@ && !(by_repository())(item@, model[j]),
        decreases list@.len() - p,
    {
        if same_repository(&list[p], &item) {
            proof {
                lemma_inserted_at(model, item@, p as int, by_repository());
            }
            return;
        }
        if repository_less(&item, &list[p]) {
            proof {
                lemma_inserted_at(model, item@, p as int, by_repository());
            }
            list.insert(p, item);
            assert(repository_views(list@) =~= model.insert(p as int, item@));
            return;
        }
        p += 1;
    }
    proof {
        lemma_inserted_at(model, item@, p as int, by_repository());
    }
    list.push(item);
    assert(repository_views(list@) =~= model.insert(p as int, item@));
}

} // verus!
