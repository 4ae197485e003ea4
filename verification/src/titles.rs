//! Titles of jobs, derived from what the operator wrote.

use crate::scan;
use crate::scan::{chars_of, copy_chars, text_of, CharClass};
use crate::text;
use crate::text_lemmas;
use vstd::prelude::*;
use vstd::slice::slice_subrange;

verus! {

/// Characters that end a sentence.
pub const SENTENCE_END: [char; 3] = ['.', '!', '?'];

/// What may separate a leading repository name from the request.
pub const NAME_SEPARATORS: [char; 3] = [',', ':', ' '];

/// Openings that say nothing about the work.
pub const OPENINGS: [&'static str; 6] = [
    "For repo ",
    "For repository ",
    "In repo ",
    "In repository ",
    "Please ",
    "Can you ",
];

/// Words that name the kind of work.
pub const ACTION_WORDS: [&'static str; 12] = [
    "append",
    "update",
    "edit",
    "fix",
    "implement",
    "add",
    "remove",
    "create",
    "refactor",
    "review",
    "document",
    "investigate",
];

/// The label of each of the [`ACTION_WORDS`].
pub const ACTION_LABELS: [&'static str; 12] = [
    "Update",
    "Update",
    "Edit",
    "Fix",
    "Implement",
    "Add",
    "Remove",
    "Create",
    "Refactor",
    "Review",
    "Document",
    "Investigate",
];

/// File names that are recognized without quotes.
pub const KNOWN_FILES: [&'static str; 5] = [
    "readme.md",
    "readme",
    "main.rs",
    "app.rs",
    "roadmap.md",
];

/// What ends the target of the work.
pub const TARGET_ENDS: [&'static str; 9] = [
    " by ",
    " and ",
    " with ",
    " using ",
    " so ",
    ". ",
    ", ",
    "; ",
    " make no other changes",
];

/// Longest title, in characters.
pub const TITLE_LIMIT: usize = 72;

/// Most words of a target that is not a file.
pub const TARGET_WORDS: usize = 6;

/// `s` without the opening `p`.
pub open spec fn without_opening(s: Seq<char>, p: Seq<char>) -> Seq<char> {
    if text::starts_with(s, p) {
        text::trim_start(s.skip(p.len() as int))
    } else {
        s
    }
}

/// `s` without the openings in `list`, each tried once, in order.
pub open spec fn without_openings(s: Seq<char>, list: Seq<&str>) -> Seq<char>
    decreases list.len(),
{
    if list.len() == 0 {
        s
    } else {
        without_opening(without_openings(s, list.drop_last()), list.last()@)
    }
}

/// `s` without a quoted name at its start, where anything follows it.
pub open spec fn without_quoted_name(s: Seq<char>) -> Seq<char> {
    if s.len() > 0 && s[0] == '`' {
        match text::find_char(s.skip(1), '`') {
            Some(end) => {
                let rest = text::trim_start(
                    text::trim_start_by(s.skip(end + 2), text::one_of(NAME_SEPARATORS@)),
                );
                if rest.len() > 0 {
                    rest
                } else {
                    s
                }
            },
            None => s,
        }
    } else {
        s
    }
}

/// The request without its openings, a leading name and its final stop.
pub open spec fn normalized_title(value: Seq<char>) -> Seq<char> {
    without_quoted_name(
        without_openings(
            text::trim_end_by(text::trim(value), text::one_of(SENTENCE_END@)),
            OPENINGS@,
        ),
    )
}

/// The request without its openings, a leading name and its final stop.
pub fn normalize_title_input(value: &str) -> (r: String)
    ensures
        r@ == normalized_title(value@),
{
    let chars = chars_of(value);
    let ends = SENTENCE_END;
    let mut current = copy_chars(
        scan::trim_end_by(scan::trim(chars.as_slice()), &CharClass::OneOf(ends.as_slice())),
    );
    let ghost start = current@;
    let openings = OPENINGS;
    let mut k: usize = 0;
    while k < openings.len()
        invariant
            k <= openings@.len(),
            current@ == without_openings(start, openings@.take(k as int)),
        decreases openings@.len() - k,
    {
        assert(openings@.take(k + 1).drop_last() =~= openings@.take(k as int));
        let opening = chars_of(openings[k]);
        if scan::starts_with(current.as_slice(), opening.as_slice()) {
            let tail = slice_subrange(current.as_slice(), opening.len(), current.len());
            assert(tail@ =~= current@.skip(opening@.len() as int));
            current = copy_chars(scan::trim_start(tail));
        }
        k += 1;
    }
    assert(openings@.take(k as int) =~= OPENINGS@);
    if current.len() > 0 && current[0] == '`' {
        let tail = slice_subrange(current.as_slice(), 1, current.len());
        assert(tail@ =~= current@.skip(1));
        if let Some(end) = scan::find_char(tail, '`') {
            let after = slice_subrange(current.as_slice(), end + 2, current.len());
            assert(after@ =~= current@.skip(end + 2));
            let separators = NAME_SEPARATORS;
            let rest = scan::trim_start(
                scan::trim_start_by(after, &CharClass::OneOf(separators.as_slice())),
            );
            if rest.len() > 0 {
                return text_of(rest);
            }
        }
    }
    text_of(current.as_slice())
}

/// The label of the first action word, in their order, that the text holds.
pub open spec fn title_action(lower: Seq<char>) -> Option<Seq<char>> {
    match text::first_needle(lower, ACTION_WORDS@) {
        Some(k) => Some(ACTION_LABELS@[k]@),
        None => None,
    }
}

/// The label of the first action word, in their order, that the text holds.
pub fn extract_title_action(lower: &str) -> (r: Option<&'static str>)
    ensures
        text::opt_str(r) == title_action(lower@),
{
    let words = ACTION_WORDS;
    let labels = ACTION_LABELS;
    match scan::first_needle(chars_of(lower).as_slice(), words.as_slice()) {
        Some(k) => Some(labels[k]),
        None => None,
    }
}

/// The first file name between quotes, from the part at `i` on.
pub open spec fn quoted_file(parts: text::Texts, i: int) -> Option<Seq<char>>
    decreases parts.len() + 1 - i,
{
    if i < 0 || i >= parts.len() {
        None
    } else if parts[i].contains('.') || parts[i].contains('/') {
        Some(parts[i])
    } else {
        quoted_file(parts, i + 2)
    }
}

/// The first text between backticks that has a dot or a slash.
pub fn extract_backticked_filename(value: &str) -> (r: Option<String>)
    ensures
        text::opt(r) == quoted_file(text::split_by(value@, text::just('`')), 1),
{
    let parts = scan::split_by(chars_of(value).as_slice(), &CharClass::Just('`'));
    let ghost model = text::split_by(value@, text::just('`'));
    let mut i: usize = 1;
    while i < parts.len()
        invariant
            model == text::split_by(value@, text::just('`')),
            scan::lists(parts@) == model,
            1 <= i <= parts@.len() + 1,
            quoted_file(model, 1) == quoted_file(model, i as int),
        decreases parts@.len() + 1 - i,
    {
        let part = parts[i].as_slice();
        if scan::has_char(part, '.') || scan::has_char(part, '/') {
            return Some(text_of(part));
        }
        if parts.len() - i < 2 {
            assert(quoted_file(model, i + 2) is None);
            return None;
        }
        i += 2;
    }
    None
}

/// What stands before the end of the target.
pub open spec fn target_span(value: Seq<char>) -> Seq<char> {
    text::trim(
        value.take(text::earliest(text::lower(value), TARGET_ENDS@, value.len() as int)),
    )
}

/// What stands before the end of the target.
pub fn split_title_target(value: &str) -> (r: String)
    ensures
        r@ == target_span(value@),
{
    let chars = chars_of(value);
    let ends = TARGET_ENDS;
    let cutoff = scan::earliest(scan::lower(chars.as_slice()).as_slice(), ends.as_slice());
    let head = slice_subrange(chars.as_slice(), 0, cutoff);
    assert(head@ =~= value@.take(cutoff as int));
    text_of(scan::trim(head))
}

/// The first `n` texts, or all where there are fewer.
pub open spec fn first_texts(parts: text::Texts, n: int) -> text::Texts {
    if parts.len() <= n {
        parts
    } else {
        parts.take(n)
    }
}

/// The target in a form that fits a title: a file name, or a few words.
pub open spec fn simplified_target(value: Seq<char>) -> Seq<char> {
    let t = text::trim_by(text::trim(value), text::just('`'));
    let l = text::lower(t);
    if l == "readme.md"@ || l == "readme"@ {
        "README"@
    } else if text::ends_with(l, ".md"@) || text::ends_with(l, ".rs"@) || text::ends_with(
        l,
        ".toml"@,
    ) {
        t
    } else {
        text::join(first_texts(text::words(t), TARGET_WORDS as int), " "@)
    }
}

/// The target in a form that fits a title: a file name, or a few words.
pub fn simplify_title_target(value: &str) -> (r: String)
    ensures
        r@ == simplified_target(value@),
{
    let chars = chars_of(value);
    let target = scan::trim_by(scan::trim(chars.as_slice()), &CharClass::Just('`'));
    let lower = scan::lower(target);
    if scan::same(lower.as_slice(), chars_of("readme.md").as_slice()) || scan::same(
        lower.as_slice(),
        chars_of("readme").as_slice(),
    ) {
        "README".to_string()
    } else if scan::ends_with(lower.as_slice(), ".md") || scan::ends_with(lower.as_slice(), ".rs")
        || scan::ends_with(lower.as_slice(), ".toml") {
        text_of(target)
    } else {
        let words = scan::words(target);
        if words.len() <= TARGET_WORDS {
            text_of(scan::join(words.as_slice(), " ").as_slice())
        } else {
            let few = slice_subrange(words.as_slice(), 0, TARGET_WORDS);
            assert(scan::lists(few@) =~= scan::lists(words@).take(TARGET_WORDS as int));
            text_of(scan::join(few, " ").as_slice())
        }
    }
}

/// The action word that stands first in the text, with its position; of two at
/// one position, the first of the list.
pub open spec fn leading_action(lower: Seq<char>, words: Seq<&str>) -> Option<(int, int)>
    decreases words.len(),
{
    if words.len() == 0 {
        None
    } else {
        let before = leading_action(lower, words.drop_last());
        match text::find(lower, words.last()@) {
            Some(i) => if before is None || i < before.unwrap().0 {
                Some((i, words.len() - 1))
            } else {
                before
            },
            None => before,
        }
    }
}

/// The target of the work: a quoted file, a known file, or what follows the
/// first action word.
pub open spec fn title_target(normalized: Seq<char>) -> Option<Seq<char>> {
    let lower = text::lower(normalized);
    match quoted_file(text::split_by(normalized, text::just('`')), 1) {
        Some(file) => Some(simplified_target(file)),
        None => match text::first_needle(lower, KNOWN_FILES@) {
            Some(k) => Some(simplified_target(KNOWN_FILES@[k]@)),
            None => match leading_action(lower, ACTION_WORDS@) {
                Some(found) => {
                    let rest = text::trim_start(
                        normalized.skip(found.0 + ACTION_WORDS@[found.1]@.len()),
                    );
                    if target_span(rest).len() > 0 {
                        Some(simplified_target(target_span(rest)))
                    } else {
                        None
                    }
                },
                None => None,
            },
        },
    }
}

/// The target of the work: a quoted file, a known file, or what follows the
/// first action word. `lower` is the text in lower case.
pub fn extract_title_target(normalized: &str, lower: &str) -> (r: Option<String>)
    requires
        lower@ == text::lower(normalized@),
    ensures
        text::opt(r) == title_target(normalized@),
{
    if let Some(file) = extract_backticked_filename(normalized) {
        return Some(simplify_title_target(file.as_str()));
    }
    let chars = chars_of(normalized);
    let lower = chars_of(lower);
    let files = KNOWN_FILES;
    if let Some(k) = scan::first_needle(lower.as_slice(), files.as_slice()) {
        return Some(simplify_title_target(files[k]));
    }
    let words = ACTION_WORDS;
    let mut found: Option<(usize, usize)> = None;
    let mut k: usize = 0;
    while k < words.len()
        invariant
            k <= words@.len(),
            match found {
                Some(f) => f.1 < k && f.0 + words@[f.1 as int]@.len() <= lower@.len()
                    && leading_action(lower@, words@.take(k as int)) == Some(
                    (f.0 as int, f.1 as int),
                ),
                None => leading_action(lower@, words@.take(k as int)) is None,
            },
        decreases words@.len() - k,
    {
        assert(words@.take(k + 1).drop_last() =~= words@.take(k as int));
        if let Some(i) = scan::find(lower.as_slice(), chars_of(words[k]).as_slice()) {
            match found {
                Some(f) => {
                    if i < f.0 {
                        found = Some((i, k));
                    }
                },
                None => {
                    found = Some((i, k));
                },
            }
        }
        k += 1;
    }
    assert(words@.take(k as int) =~= ACTION_WORDS@);
    match found {
        Some(f) => {
            let word = chars_of(words[f.1]);
            assert(f.0 + word@.len() <= lower.len());
            let from = f.0 + word.len();
            let tail = slice_subrange(chars.as_slice(), from, chars.len());
            assert(tail@ =~= normalized@.skip(from as int));
            let rest = text_of(scan::trim_start(tail));
            let target = split_title_target(rest.as_str());
            if chars_of(target.as_str()).len() > 0 {
                Some(simplify_title_target(target.as_str()))
            } else {
                None
            }
        },
        None => None,
    }
}

/// The title before it is cut: the action with its target, or the request
/// itself where it names no action.
pub open spec fn full_title(normalized: Seq<char>) -> Seq<char> {
    match (title_action(text::lower(normalized)), title_target(normalized)) {
        (Some(action), Some(target)) => action + " "@ + target,
        (Some(action), None) => action,
        _ => normalized,
    }
}

/// The title cut to its limit, without a final stop.
pub open spec fn cut_title(title: Seq<char>) -> Seq<char> {
    text::trim_end_by(
        text::trim(text::prefix(title, TITLE_LIMIT as nat)),
        text::one_of(SENTENCE_END@),
    )
}

/// The title of a job that was asked for with `content`.
pub open spec fn job_title(content: Seq<char>) -> Seq<char> {
    let line = text::trim(
        text::or_value(text::first_present(text::lines(text::trim(content))), "New coding task"@),
    );
    let title = cut_title(full_title(normalized_title(line)));
    if title.len() == 0 {
        "New coding task"@
    } else {
        title
    }
}

/// The title of a job that was asked for with `content`.
pub fn derive_job_title_from_message(content: &str) -> (r: String)
    ensures
        r@ == job_title(content@),
{
    let chars = chars_of(content);
    let lines = scan::lines(scan::trim(chars.as_slice()));
    let line = match scan::first_present(lines.as_slice()) {
        Some(line) => line,
        None => chars_of("New coding task"),
    };
    let first_line = text_of(scan::trim(line.as_slice()));
    let normalized = normalize_title_input(first_line.as_str());
    let lower = scan::lower_text(normalized.as_str());
    let action = extract_title_action(lower.as_str());
    let target = extract_title_target(normalized.as_str(), lower.as_str());
    let full = match (action, target) {
        (Some(action), Some(target)) => action.to_string().concat(" ").concat(target.as_str()),
        (Some(action), None) => action.to_string(),
        _ => normalized,
    };
    let full_chars = chars_of(full.as_str());
    let ends = SENTENCE_END;
    let title = scan::trim_end_by(
        scan::trim(scan::prefix(full_chars.as_slice(), TITLE_LIMIT)),
        &CharClass::OneOf(ends.as_slice()),
    );
    if title.len() == 0 {
        "New coding task".to_string()
    } else {
        text_of(title)
    }
}

// ---------------------------------------------------------------------------
// Laws
// ---------------------------------------------------------------------------

/// The text holds no line feed.
pub open spec fn is_one_line(s: Seq<char>) -> bool {
    forall|i: int| 0 <= i < s.len() ==> #[trigger] s[i] != '\n'
}

/// Each of the texts holds no line feed.
pub open spec fn are_lines(parts: text::Texts) -> bool {
    forall|k: int| 0 <= k < parts.len() ==> is_one_line(#[trigger] parts[k])
}

proof fn lemma_piece(s: Seq<char>, a: int, b: int)
    requires
        is_one_line(s),
        0 <= a <= b <= s.len(),
    ensures
        is_one_line(s.subrange(a, b)),
{
    assert forall|i: int| 0 <= i < b - a implies #[trigger] s.subrange(a, b)[i] != '\n' by {
        assert(s[a + i] != '\n');
    }
}

proof fn lemma_trimmed_line(s: Seq<char>, f: text::CharPred)
    requires
        is_one_line(s),
    ensures
        is_one_line(text::trim_by(s, f)),
        is_one_line(text::trim_start_by(s, f)),
        is_one_line(text::trim_end_by(s, f)),
{
    let r = text_lemmas::trim_range(s, f);
    lemma_piece(s, r.0, r.1);
    let a = text_lemmas::leading(s, f);
    lemma_piece(s, a, s.len() as int);
    assert(s.skip(a) =~= s.subrange(a, s.len() as int));
    let b = text_lemmas::kept(s, f);
    lemma_piece(s, 0, b);
    assert(s.take(b) =~= s.subrange(0, b));
}

proof fn lemma_rest_of_line(s: Seq<char>, n: int)
    requires
        is_one_line(s),
        0 <= n <= s.len(),
    ensures
        is_one_line(s.skip(n)),
        is_one_line(text::trim_start(s.skip(n))),
{
    lemma_piece(s, n, s.len() as int);
    assert(s.skip(n) =~= s.subrange(n, s.len() as int));
    lemma_trimmed_line(s.skip(n), text::space());
}

proof fn lemma_without_openings(s: Seq<char>, list: Seq<&str>)
    requires
        is_one_line(s),
    ensures
        is_one_line(without_openings(s, list)),
    decreases list.len(),
{
    if list.len() > 0 {
        lemma_without_openings(s, list.drop_last());
        let before = without_openings(s, list.drop_last());
        let p = list.last()@;
        if text::starts_with(before, p) {
            lemma_rest_of_line(before, p.len() as int);
        }
    }
}

proof fn lemma_without_quoted_name(s: Seq<char>)
    requires
        is_one_line(s),
    ensures
        is_one_line(without_quoted_name(s)),
{
    if s.len() > 0 && s[0] == '`' {
        text_lemmas::lemma_find_char(s.skip(1), '`');
        if let Some(end) = text::find_char(s.skip(1), '`') {
            lemma_rest_of_line(s, end + 2);
            lemma_trimmed_line(s.skip(end + 2), text::one_of(NAME_SEPARATORS@));
            lemma_trimmed_line(
                text::trim_start_by(s.skip(end + 2), text::one_of(NAME_SEPARATORS@)),
                text::space(),
            );
        }
    }
}

proof fn lemma_normalized_line(s: Seq<char>)
    requires
        is_one_line(s),
    ensures
        is_one_line(normalized_title(s)),
{
    lemma_trimmed_line(s, text::space());
    lemma_trimmed_line(text::trim(s), text::one_of(SENTENCE_END@));
    let start = text::trim_end_by(text::trim(s), text::one_of(SENTENCE_END@));
    lemma_without_openings(start, OPENINGS@);
    lemma_without_quoted_name(without_openings(start, OPENINGS@));
}

proof fn lemma_split_line(s: Seq<char>, f: text::CharPred)
    requires
        is_one_line(s) || f('\n'),
    ensures
        are_lines(text::split_by(s, f)),
{
    let parts = text::split_by(s, f);
    text_lemmas::lemma_split_chars(s, f);
    assert forall|k: int| 0 <= k < parts.len() implies is_one_line(#[trigger] parts[k]) by {
        assert forall|i: int| 0 <= i < parts[k].len() implies #[trigger] parts[k][i] != '\n' by {
            assert(!f(parts[k][i]) && s.contains(parts[k][i]));
        }
    }
}

proof fn lemma_lines(s: Seq<char>)
    ensures
        are_lines(text::lines(s)),
{
    let parts = text::split_by(s, text::just('\n'));
    lemma_split_line(s, text::just('\n'));
    text_lemmas::lemma_split_len(s, text::just('\n'));
    let lines = text::lines(s);
    assert forall|k: int| 0 <= k < lines.len() implies is_one_line(#[trigger] lines[k]) by {
        assert(is_one_line(parts[k]));
        if k < parts.len() - 1 {
            assert(lines[k] == text::strip_return(parts[k]));
            if lines[k] != parts[k] {
                lemma_piece(parts[k], 0, parts[k].len() - 1);
                assert(lines[k] =~= parts[k].subrange(0, parts[k].len() - 1));
            }
        }
    }
}

proof fn lemma_non_empty_lines(parts: text::Texts)
    requires
        are_lines(parts),
    ensures
        are_lines(text::non_empty(parts)),
    decreases parts.len(),
{
    let f = |p: Seq<char>| p.len() > 0;
    reveal(Seq::filter);
    if parts.len() > 0 {
        let rest = parts.drop_last();
        assert forall|k: int| 0 <= k < rest.len() implies is_one_line(#[trigger] rest[k]) by {
            assert(rest[k] == parts[k]);
        }
        lemma_non_empty_lines(rest);
        assert(is_one_line(parts[parts.len() - 1]));
        text_lemmas::lemma_filter_push(rest, parts.last(), f);
        assert(rest.push(parts.last()) =~= parts);
    }
}

proof fn lemma_joined_line(parts: text::Texts)
    requires
        are_lines(parts),
    ensures
        is_one_line(text::join(parts, " "@)),
    decreases parts.len(),
{
    reveal_strlit(" ");
    if parts.len() > 0 {
        assert(is_one_line(parts[0]));
        assert(is_one_line(parts[parts.len() - 1]));
        let rest = parts.drop_last();
        assert forall|k: int| 0 <= k < rest.len() implies is_one_line(#[trigger] rest[k]) by {
            assert(rest[k] == parts[k]);
        }
        lemma_joined_line(rest);
    }
}

proof fn lemma_simplified_line(value: Seq<char>)
    requires
        is_one_line(value),
    ensures
        is_one_line(simplified_target(value)),
{
    reveal_strlit("README");
    lemma_trimmed_line(value, text::space());
    lemma_trimmed_line(text::trim(value), text::just('`'));
    let t = text::trim_by(text::trim(value), text::just('`'));
    lemma_split_line(t, text::space());
    lemma_non_empty_lines(text::split_by(t, text::space()));
    let few = first_texts(text::words(t), TARGET_WORDS as int);
    assert forall|k: int| 0 <= k < few.len() implies is_one_line(#[trigger] few[k]) by {
        assert(few[k] == text::words(t)[k]);
    }
    lemma_joined_line(few);
}

proof fn lemma_quoted_file(parts: text::Texts, i: int)
    requires
        are_lines(parts),
        0 <= i,
    ensures
        quoted_file(parts, i) matches Some(file) ==> is_one_line(file),
    decreases parts.len() + 1 - i,
{
    if i < parts.len() {
        assert(is_one_line(parts[i]));
        lemma_quoted_file(parts, i + 2);
    }
}

proof fn lemma_leading_action(lower: Seq<char>, words: Seq<&str>)
    ensures
        leading_action(lower, words) matches Some(found) ==> 0 <= found.1 < words.len()
            && text::occurs_at(lower, words[found.1]@, found.0),
    decreases words.len(),
{
    if words.len() > 0 {
        lemma_leading_action(lower, words.drop_last());
        text_lemmas::lemma_find(lower, words.last()@);
    }
}

proof fn lemma_needle_is_listed(s: Seq<char>, needles: Seq<&str>)
    ensures
        text::first_needle(s, needles) matches Some(k) ==> 0 <= k < needles.len(),
    decreases needles.len(),
{
    if needles.len() > 0 {
        lemma_needle_is_listed(s, needles.drop_last());
    }
}

proof fn lemma_known_file(k: int)
    requires
        0 <= k < KNOWN_FILES@.len(),
    ensures
        is_one_line(KNOWN_FILES@[k]@),
{
    reveal_strlit("readme.md");
    reveal_strlit("readme");
    reveal_strlit("main.rs");
    reveal_strlit("app.rs");
    reveal_strlit("roadmap.md");
}

proof fn lemma_label(k: int)
    requires
        0 <= k < ACTION_LABELS@.len(),
    ensures
        is_one_line(ACTION_LABELS@[k]@),
{
    reveal_strlit("Update");
    reveal_strlit("Edit");
    reveal_strlit("Fix");
    reveal_strlit("Implement");
    reveal_strlit("Add");
    reveal_strlit("Remove");
    reveal_strlit("Create");
    reveal_strlit("Refactor");
    reveal_strlit("Review");
    reveal_strlit("Document");
    reveal_strlit("Investigate");
}

proof fn lemma_target_line(normalized: Seq<char>)
    requires
        is_one_line(normalized),
    ensures
        title_target(normalized) matches Some(target) ==> is_one_line(target),
{
    let lower = text::lower(normalized);
    let parts = text::split_by(normalized, text::just('`'));
    lemma_split_line(normalized, text::just('`'));
    lemma_quoted_file(parts, 1);
    lemma_needle_is_listed(lower, KNOWN_FILES@);
    lemma_leading_action(lower, ACTION_WORDS@);
    match quoted_file(parts, 1) {
        Some(file) => lemma_simplified_line(file),
        None => match text::first_needle(lower, KNOWN_FILES@) {
            Some(k) => {
                lemma_known_file(k);
                lemma_simplified_line(KNOWN_FILES@[k]@);
            },
            None => if let Some(found) = leading_action(lower, ACTION_WORDS@) {
                let from = found.0 + ACTION_WORDS@[found.1]@.len();
                lemma_rest_of_line(normalized, from);
                let rest = text::trim_start(normalized.skip(from));
                let end = text::earliest(text::lower(rest), TARGET_ENDS@, rest.len() as int);
                text_lemmas::lemma_earliest(
                    text::lower(rest),
                    TARGET_ENDS@,
                    rest.len() as int,
                );
                lemma_piece(rest, 0, end);
                assert(rest.take(end) =~= rest.subrange(0, end));
                lemma_trimmed_line(rest.take(end), text::space());
                lemma_simplified_line(target_span(rest));
            },
        },
    }
}

proof fn lemma_full_line(normalized: Seq<char>)
    requires
        is_one_line(normalized),
    ensures
        is_one_line(full_title(normalized)),
{
    reveal_strlit(" ");
    lemma_target_line(normalized);
    lemma_needle_is_listed(text::lower(normalized), ACTION_WORDS@);
    if let Some(k) = text::first_needle(text::lower(normalized), ACTION_WORDS@) {
        lemma_label(k);
    }
}

/// A text without a character holds no text with it.
proof fn lemma_lacks(s: Seq<char>, p: Seq<char>, k: int)
    requires
        0 <= k < p.len(),
        !s.contains(p[k]),
    ensures
        !text::contains(s, p),
{
    if text::contains(s, p) {
        let i = choose|i: int| #[trigger] text::occurs_at(s, p, i);
        assert(s.subrange(i, i + p.len())[k] == p[k]);
        assert(s[i + k] == p[k]);
    }
}

/// The fixed title names no action.
proof fn lemma_fixed_title()
    ensures
        full_title(normalized_title("New coding task"@)) == "New coding task"@,
{
    let s = "New coding task"@;
    reveal_strlit("New coding task");
    text_lemmas::lemma_trim_noop(s, text::space());
    assert(!SENTENCE_END@.contains('k'));
    assert(text::trim_end_by(s, text::one_of(SENTENCE_END@)) == s);
    lemma_keeps_opening(s, OPENINGS@);
    assert(normalized_title(s) == s);
    let lower = text::lower(s);
    assert forall|k: int| 0 <= k < ACTION_WORDS@.len() implies !text::contains(
        lower,
        (#[trigger] ACTION_WORDS@[k])@,
    ) by {
        lemma_no_action(lower, k);
    }
    text_lemmas::lemma_no_needle(lower, ACTION_WORDS@);
}

proof fn lemma_keeps_opening(s: Seq<char>, list: Seq<&str>)
    requires
        s == "New coding task"@,
        list == OPENINGS@,
    ensures
        without_openings(s, list) == s,
{
    reveal_strlit("New coding task");
    reveal_strlit("For repo ");
    reveal_strlit("For repository ");
    reveal_strlit("In repo ");
    reveal_strlit("In repository ");
    reveal_strlit("Please ");
    reveal_strlit("Can you ");
    assert forall|k: int| 0 <= k < list.len() implies !text::starts_with(
        s,
        (#[trigger] list[k])@,
    ) by {
        let p = list[k]@;
        assert(p[0] != 'N');
        if text::starts_with(s, p) {
            assert(s.take(p.len() as int)[0] == s[0]);
        }
    }
    lemma_no_opening(s, list);
}

proof fn lemma_no_opening(s: Seq<char>, list: Seq<&str>)
    requires
        forall|k: int| 0 <= k < list.len() ==> !text::starts_with(s, (#[trigger] list[k])@),
    ensures
        without_openings(s, list) == s,
    decreases list.len(),
{
    if list.len() > 0 {
        let rest = list.drop_last();
        assert forall|k: int| 0 <= k < rest.len() implies !text::starts_with(
            s,
            (#[trigger] rest[k])@,
        ) by {
            assert(rest[k] == list[k]);
        }
        lemma_no_opening(s, rest);
        assert(!text::starts_with(s, list[list.len() - 1]@));
    }
}

proof fn lemma_no_action(s: Seq<char>, k: int)
    requires
        s == text::lower("New coding task"@),
        0 <= k < ACTION_WORDS@.len(),
    ensures
        !text::contains(s, ACTION_WORDS@[k]@),
{
    reveal_strlit("New coding task");
    assert(s =~= seq![
        'n', 'e', 'w', ' ', 'c', 'o', 'd', 'i', 'n', 'g', ' ', 't', 'a', 's', 'k',
    ]);
    reveal_strlit("append");
    reveal_strlit("update");
    reveal_strlit("edit");
    reveal_strlit("fix");
    reveal_strlit("implement");
    reveal_strlit("add");
    reveal_strlit("remove");
    reveal_strlit("create");
    reveal_strlit("refactor");
    reveal_strlit("review");
    reveal_strlit("document");
    reveal_strlit("investigate");
    let p = ACTION_WORDS@[k]@;
    if k == 0 || k == 1 {
        lemma_lacks(s, p, 1);
    } else if k == 2 || k == 5 {
        if text::contains(s, p) {
            let i = choose|i: int| #[trigger] text::occurs_at(s, p, i);
            assert(s.subrange(i, i + p.len())[0] == s[i]);
            assert(s.subrange(i, i + p.len())[1] == s[i + 1]);
        }
    } else if k == 3 || k == 6 || k == 8 || k == 9 {
        lemma_lacks(s, p, 0);
    } else if k == 4 || k == 7 {
        lemma_lacks(s, p, 1);
    } else if k == 10 {
        lemma_lacks(s, p, 3);
    } else {
        lemma_lacks(s, p, 2);
    }
}

#[verifier::rlimit(60)]
proof fn lemma_blank_title(content: Seq<char>)
    requires
        text::is_blank(content),
    ensures
        job_title(content) == "New coding task"@,
{
    let fixed = "New coding task"@;
    reveal_strlit("New coding task");
    let lines = text::lines(text::trim(content));
    assert(text::trim(content) =~= Seq::<char>::empty());
    assert(lines =~= seq![]);
    assert(text::first_present(lines) is None);
    text_lemmas::lemma_trim_noop(fixed, text::space());
    lemma_fixed_title();
    assert(text::prefix(fixed, TITLE_LIMIT as nat) == fixed);
    assert(!SENTENCE_END@.contains('k'));
    assert(text::trim_end_by(fixed, text::one_of(SENTENCE_END@)) == fixed);
}

/// A title is never empty and never longer than its limit, holds no line feed,
/// and ends with no stop. Blank text gets the fixed title.
#[verifier::rlimit(60)]
pub proof fn law_job_title_fits(content: Seq<char>)
    ensures
        0 < job_title(content).len() <= TITLE_LIMIT,
        is_one_line(job_title(content)),
        !SENTENCE_END@.contains(job_title(content).last()),
        text::is_blank(content) ==> job_title(content) == "New coding task"@,
{
    reveal_strlit("New coding task");
    let lines = text::lines(text::trim(content));
    let chosen = text::or_value(text::first_present(lines), "New coding task"@);
    let line = text::trim(chosen);
    lemma_lines(text::trim(content));
    text_lemmas::lemma_first_present(lines);
    assert(is_one_line(chosen)) by {
        if let Some(x) = text::first_present(lines) {
            let k = choose|k: int| 0 <= k < lines.len() && lines[k] == x;
            assert(is_one_line(lines[k]));
        }
    }
    lemma_trimmed_line(chosen, text::space());
    lemma_normalized_line(line);
    lemma_full_line(normalized_title(line));
    let full = full_title(normalized_title(line));
    let short = text::prefix(full, TITLE_LIMIT as nat);
    assert(is_one_line(short)) by {
        lemma_piece(full, 0, short.len() as int);
        assert(short =~= full.subrange(0, short.len() as int));
    }
    lemma_trimmed_line(short, text::space());
    lemma_trimmed_line(text::trim(short), text::one_of(SENTENCE_END@));
    let r = text_lemmas::trim_range(short, text::space());
    let k = text_lemmas::kept(text::trim(short), text::one_of(SENTENCE_END@));
    assert(!SENTENCE_END@.contains('k'));
    if text::is_blank(content) {
        lemma_blank_title(content);
    }
}

} // verus!
