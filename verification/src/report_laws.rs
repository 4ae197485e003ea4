//! What titles and reports promise: how a job gets its title, and how the outcome
//! of a job is put into words.

use crate::conversation_laws;
use crate::formatting;
use crate::json::{Json, JsonView};
use crate::models::{ExecutionIntent, JobRecord, SummaryRecord};
use crate::text;
use crate::text_laws;
use crate::text_lemmas;
use crate::titles;
use vstd::prelude::*;

verus! {

// ---------------------------------------------------------------------------
// Titles
// ---------------------------------------------------------------------------

/// The first line of a request gives its title; what follows does not matter.
pub proof fn law_first_line_gives_title(line: Seq<char>, rest: Seq<char>)
    requires
        line.len() > 0,
        !text::is_space(line[0]),
        !text::is_space(line.last()),
        forall|i: int| 0 <= i < line.len() ==> #[trigger] line[i] != '\n',
        rest.len() > 0,
        !text::is_space(rest.last()),
    ensures
        titles::job_title(line.push('\n') + rest) == titles::job_title(line),
{
    let whole = line.push('\n') + rest;
    let f = text::space();
    assert(whole[0] == line[0]);
    assert(whole.last() == rest.last());
    text_lemmas::lemma_trim_noop(whole, f);
    text_lemmas::lemma_trim_noop(line, f);
    text_laws::law_lines(line, rest);
    let lines = seq![line] + text::lines(rest);
    assert(lines[0] == line);
    text_laws::law_first_present(lines, 0);
    text_laws::law_first_present(seq![line], 0);
}

/// The action of a title is that of the first of the known verbs that the request
/// holds. To append is to update; every other verb stands for itself.
#[verifier::rlimit(60)]
pub proof fn law_title_action(lower: &str, r: Option<&'static str>)
    requires
        call_ensures(titles::extract_title_action, (lower,), r),
    ensures
        text::opt_str(r) == if text::contains(lower@, "append"@) {
            Some("Update"@)
        } else if text::contains(lower@, "update"@) {
            Some("Update"@)
        } else if text::contains(lower@, "edit"@) {
            Some("Edit"@)
        } else if text::contains(lower@, "fix"@) {
            Some("Fix"@)
        } else if text::contains(lower@, "implement"@) {
            Some("Implement"@)
        } else if text::contains(lower@, "add"@) {
            Some("Add"@)
        } else if text::contains(lower@, "remove"@) {
            Some("Remove"@)
        } else if text::contains(lower@, "create"@) {
            Some("Create"@)
        } else if text::contains(lower@, "refactor"@) {
            Some("Refactor"@)
        } else if text::contains(lower@, "review"@) {
            Some("Review"@)
        } else if text::contains(lower@, "document"@) {
            Some("Document"@)
        } else if text::contains(lower@, "investigate"@) {
            Some("Investigate"@)
        } else {
            None
        },
{
    let words = titles::ACTION_WORDS@;
    let labels = titles::ACTION_LABELS@;
    assert(words.len() == 12);
    assert(words[0] == "append" && labels[0] == "Update");
    assert(words[1] == "update" && labels[1] == "Update");
    assert(words[2] == "edit" && labels[2] == "Edit");
    assert(words[3] == "fix" && labels[3] == "Fix");
    assert(words[4] == "implement" && labels[4] == "Implement");
    assert(words[5] == "add" && labels[5] == "Add");
    assert(words[6] == "remove" && labels[6] == "Remove");
    assert(words[7] == "create" && labels[7] == "Create");
    assert(words[8] == "refactor" && labels[8] == "Refactor");
    assert(words[9] == "review" && labels[9] == "Review");
    assert(words[10] == "document" && labels[10] == "Document");
    assert(words[11] == "investigate" && labels[11] == "Investigate");
    text_laws::law_first_needle(lower@, words);
}

/// A title is the action and what it acts on; where there is no action, it is
/// what was asked for.
pub proof fn law_title_parts(normalized: Seq<char>)
    ensures
        titles::title_action(text::lower(normalized)) matches Some(action) ==> text::starts_with(
            titles::full_title(normalized),
            action,
        ),
        titles::title_action(text::lower(normalized)) matches Some(action) ==> titles::title_target(
            normalized,
        ) matches Some(target) ==> titles::full_title(normalized) == action + " "@ + target,
        titles::title_action(text::lower(normalized)) is None ==> titles::full_title(normalized)
            == normalized,
{
    if let Some(action) = titles::title_action(text::lower(normalized)) {
        let full = titles::full_title(normalized);
        assert(full.take(action.len() as int) =~= action);
    }
}

/// A file that is named in backticks is found, behind any number of backticked
/// words that are no files. A name counts as a file where it has a dot or a slash.
pub proof fn law_quoted_file(before: Seq<char>, name: Seq<char>, after: Seq<char>)
    requires
        !before.contains('`'),
        !name.contains('`'),
    ensures
        name.contains('.') || name.contains('/') ==> titles::quoted_file(
            text::split_by(before.push('`') + (name.push('`') + after), text::just('`')),
            1,
        ) == Some(name),
        !name.contains('.') && !name.contains('/') ==> titles::quoted_file(
            text::split_by(before.push('`') + (name.push('`') + after), text::just('`')),
            1,
        ) == titles::quoted_file(
            seq![before, name] + text::split_by(after, text::just('`')),
            3,
        ),
        titles::quoted_file(text::split_by(before, text::just('`')), 1) is None,
{
    let f = text::just('`');
    assert forall|i: int| 0 <= i < before.len() implies !f(#[trigger] before[i]) by {
        assert(before.contains(before[i]));
    }
    assert forall|i: int| 0 <= i < name.len() implies !f(#[trigger] name[i]) by {
        assert(name.contains(name[i]));
    }
    text_laws::law_split_without_separator(before, f);
    text_laws::law_split_without_separator(name, f);
    text_laws::law_split_at_separator(before, '`', name.push('`') + after, f);
    text_laws::law_split_at_separator(name, '`', after, f);
    let parts = text::split_by(before.push('`') + (name.push('`') + after), f);
    text_lemmas::lemma_split_len(after, f);
    assert(parts =~= seq![before, name] + text::split_by(after, f));
    assert(parts[1] == name);
}

/// What a title acts on is a file in backticks first, then a file that everyone
/// knows, then what stands behind the verb.
#[verifier::rlimit(60)]
pub proof fn law_title_target(normalized: Seq<char>, file: Seq<char>)
    ensures
        titles::quoted_file(text::split_by(normalized, text::just('`')), 1) == Some(file)
            ==> titles::title_target(normalized) == Some(titles::simplified_target(file)),
        titles::quoted_file(text::split_by(normalized, text::just('`')), 1) is None && (
        text::contains(text::lower(normalized), "readme.md"@) || text::contains(
            text::lower(normalized),
            "readme"@,
        )) ==> titles::title_target(normalized) == Some("README"@),
        titles::quoted_file(text::split_by(normalized, text::just('`')), 1) is None
            && !text::contains(text::lower(normalized), "readme"@) && text::contains(
            text::lower(normalized),
            "main.rs"@,
        ) ==> titles::title_target(normalized) == Some("main.rs"@),
{
    let l = text::lower(normalized);
    let list = titles::KNOWN_FILES@;
    assert(list.len() == 5);
    assert(list[0] == "readme.md");
    assert(list[1] == "readme");
    assert(list[2] == "main.rs");
    assert(list[3] == "app.rs");
    assert(list[4] == "roadmap.md");
    text_laws::law_first_needle(l, list);
    lemma_known_targets();
    if text::contains(l, "readme.md"@) {
        assert(text::contains(l, list[0]@));
    }
    if text::contains(l, "readme"@) {
        assert(text::contains(l, list[1]@));
    } else {
        reveal_strlit("readme.md");
        reveal_strlit("readme");
        assert("readme.md"@.subrange(0, 6) =~= "readme"@);
        if text::contains(l, "readme.md"@) {
            let i = choose|i: int| #[trigger] text::occurs_at(l, "readme.md"@, i);
            assert(l.subrange(i, i + 6) =~= l.subrange(i, i + 9).subrange(0, 6));
            assert(text::occurs_at(l, "readme"@, i));
        }
    }
    if text::contains(l, "main.rs"@) {
        assert(text::contains(l, list[2]@));
    }
}

proof fn lemma_known_targets()
    ensures
        titles::simplified_target("readme.md"@) == "README"@,
        titles::simplified_target("readme"@) == "README"@,
        titles::simplified_target("main.rs"@) == "main.rs"@,
{
    reveal_strlit("readme.md");
    reveal_strlit("readme");
    reveal_strlit("main.rs");
    reveal_strlit(".rs");
    let a = "readme.md"@;
    let b = "readme"@;
    let c = "main.rs"@;
    text_lemmas::lemma_trim_noop(a, text::space());
    text_lemmas::lemma_trim_noop(a, text::just('`'));
    text_lemmas::lemma_trim_noop(b, text::space());
    text_lemmas::lemma_trim_noop(b, text::just('`'));
    text_lemmas::lemma_trim_noop(c, text::space());
    text_lemmas::lemma_trim_noop(c, text::just('`'));
    assert(text::lower(a) =~= a);
    assert(text::lower(b) =~= b);
    assert(text::lower(c) =~= c);
    assert(c.len() == 7 && a.len() == 9 && b.len() == 6);
    assert(c.skip(4) =~= ".rs"@);
}

/// A readme is called README; a Markdown, Rust or TOML file keeps its name; and
/// of anything else at most six words are left.
#[verifier::rlimit(60)]
pub proof fn law_simplified_target(value: &str, r: String)
    requires
        call_ensures(titles::simplify_title_target, (value,), r),
    ensures
        ({
            let t = text::trim_by(text::trim(value@), text::just('`'));
            let l = text::lower(t);
            &&& l == "readme.md"@ || l == "readme"@ ==> r@ == "README"@
            &&& l != "readme.md"@ && l != "readme"@ && (text::ends_with(l, ".md"@)
                || text::ends_with(l, ".rs"@) || text::ends_with(l, ".toml"@)) ==> r@ == t
            &&& l != "readme"@ && !text::ends_with(l, ".md"@) && !text::ends_with(l, ".rs"@)
                && !text::ends_with(l, ".toml"@) ==> r@ == text::join(
                if text::words(t).len() <= 6 {
                    text::words(t)
                } else {
                    text::words(t).take(6)
                },
                " "@,
            )
        }),
{
    let t = text::trim_by(text::trim(value@), text::just('`'));
    reveal_strlit("readme.md");
    reveal_strlit(".md");
    assert("readme.md"@.len() == 9);
    assert(".md"@.len() == 3);
    assert("readme.md"@.skip(6) =~= ".md"@);
}

/// A target ends before the first word or mark that begins something else, and is
/// otherwise the whole text.
#[verifier::rlimit(60)]
pub proof fn law_target_ends(value: &str, r: String)
    requires
        call_ensures(titles::split_title_target, (value,), r),
    ensures
        text::contains(value@, r@),
        text::find(text::lower(value@), " by "@) matches Some(i) ==> r@.len() <= i,
        text::find(text::lower(value@), " and "@) matches Some(i) ==> r@.len() <= i,
        text::find(text::lower(value@), " with "@) matches Some(i) ==> r@.len() <= i,
        text::find(text::lower(value@), " using "@) matches Some(i) ==> r@.len() <= i,
        text::find(text::lower(value@), " so "@) matches Some(i) ==> r@.len() <= i,
        text::find(text::lower(value@), ". "@) matches Some(i) ==> r@.len() <= i,
        text::find(text::lower(value@), ", "@) matches Some(i) ==> r@.len() <= i,
        text::find(text::lower(value@), "; "@) matches Some(i) ==> r@.len() <= i,
        text::find(text::lower(value@), " make no other changes"@) matches Some(i) ==> r@.len() <= i,
        r@ == text::trim(value@) || {
            let l = text::lower(value@);
            ||| text::contains(l, " by "@)
            ||| text::contains(l, " and "@)
            ||| text::contains(l, " with "@)
            ||| text::contains(l, " using "@)
            ||| text::contains(l, " so "@)
            ||| text::contains(l, ". "@)
            ||| text::contains(l, ", "@)
            ||| text::contains(l, "; "@)
            ||| text::contains(l, " make no other changes"@)
        },
{
    let l = text::lower(value@);
    let ends = titles::TARGET_ENDS@;
    let bound = value@.len() as int;
    let end = text::earliest(l, ends, bound);
    assert(ends.len() == 9);
    assert(ends[0] == " by ");
    assert(ends[1] == " and ");
    assert(ends[2] == " with ");
    assert(ends[3] == " using ");
    assert(ends[4] == " so ");
    assert(ends[5] == ". ");
    assert(ends[6] == ", ");
    assert(ends[7] == "; ");
    assert(ends[8] == " make no other changes");
    text_laws::law_earliest(l, ends, bound);
    text_lemmas::lemma_earliest(l, ends, bound);
    let cut = value@.take(end);
    let t = text_lemmas::trim_range(cut, text::space());
    assert(value@.subrange(t.0, t.1) =~= r@);
    assert(text::occurs_at(value@, r@, t.0));
    if end == bound {
        assert(cut =~= value@);
    }
}

/// A stop at the end does not matter to a title.
pub proof fn law_final_stop(s: Seq<char>, stop: char)
    requires
        s.len() > 0,
        !text::is_space(s[0]),
        !text::is_space(s.last()),
        stop == '.' || stop == '!' || stop == '?',
    ensures
        titles::normalized_title(s.push(stop)) == titles::normalized_title(s),
{
    let ends = titles::SENTENCE_END@;
    assert(ends.len() == 3);
    assert(ends[0] == '.' && ends[1] == '!' && ends[2] == '?');
    assert(ends.contains(stop));
    let t = s.push(stop);
    assert(t[0] == s[0]);
    text_lemmas::lemma_trim_noop(s, text::space());
    text_lemmas::lemma_trim_noop(t, text::space());
    assert(t.drop_last() =~= s);
}

/// A title leaves out how a request begins: the words that name a repository or
/// ask politely, in this order, each at most once.
#[verifier::rlimit(60)]
pub proof fn law_openings(s: Seq<char>)
    ensures
        titles::without_openings(s, titles::OPENINGS@) == ({
            let a = titles::without_opening(s, "For repo "@);
            let b = titles::without_opening(a, "For repository "@);
            let c = titles::without_opening(b, "In repo "@);
            let d = titles::without_opening(c, "In repository "@);
            let e = titles::without_opening(d, "Please "@);
            titles::without_opening(e, "Can you "@)
        }),
        forall|p: Seq<char>, rest: Seq<char>|
            #![trigger titles::without_opening(p + rest, p)]
            titles::without_opening(p + rest, p) == text::trim_start_by(rest, text::space()),
        forall|p: Seq<char>|
            !text::starts_with(s, p) ==> #[trigger] titles::without_opening(s, p) == s,
{
    let list = titles::OPENINGS@;
    reveal_with_fuel(titles::without_openings, 7);
    assert(list.len() == 6);
    assert(list[0] == "For repo ");
    assert(list[1] == "For repository ");
    assert(list[2] == "In repo ");
    assert(list[3] == "In repository ");
    assert(list[4] == "Please ");
    assert(list[5] == "Can you ");
    let l5 = list.drop_last();
    let l4 = l5.drop_last();
    let l3 = l4.drop_last();
    let l2 = l3.drop_last();
    let l1 = l2.drop_last();
    assert(l5.last() == "Please " && l4.last() == "In repository " && l3.last() == "In repo "
        && l2.last() == "For repository " && l1.last() == "For repo ");
    assert forall|p: Seq<char>, rest: Seq<char>|
        #![trigger titles::without_opening(p + rest, p)]
        titles::without_opening(p + rest, p) == text::trim_start_by(rest, text::space()) by {
        assert((p + rest).take(p.len() as int) =~= p);
        assert((p + rest).skip(p.len() as int) =~= rest);
    }
}

/// A name in backticks at the beginning is left out of a title where something
/// follows it.
#[verifier::rlimit(60)]
pub proof fn law_leading_name(name: Seq<char>, gap: Seq<char>, rest: Seq<char>)
    requires
        !name.contains('`'),
        forall|i: int|
            0 <= i < gap.len() ==> (#[trigger] gap[i] == ',' || gap[i] == ':' || gap[i] == ' '),
        rest.len() > 0,
        !text::is_space(rest[0]),
        rest[0] != ',',
        rest[0] != ':',
    ensures
        titles::without_quoted_name(seq!['`'] + name.push('`') + gap + rest) == rest,
{
    let whole = seq!['`'] + name.push('`') + gap + rest;
    let set = titles::NAME_SEPARATORS@;
    let f = text::one_of(set);
    assert(set.len() == 3);
    assert(set[0] == ',' && set[1] == ':' && set[2] == ' ');
    let inner = whole.skip(1);
    assert(inner[name.len() as int] == '`');
    assert forall|j: int| 0 <= j < name.len() implies inner[j] != '`' by {
        assert(inner[j] == name[j]);
        assert(name.contains(name[j]));
    }
    text_lemmas::lemma_find_char_is(inner, '`', name.len() as int);
    let tail = whole.skip((name.len() + 2) as int);
    assert(tail =~= gap + rest);
    assert forall|j: int| 0 <= j < gap.len() implies f(#[trigger] tail[j]) by {
        assert(tail[j] == gap[j]);
        assert(gap[j] == ',' || gap[j] == ':' || gap[j] == ' ');
        assert(set.contains(gap[j]));
    }
    assert(tail[gap.len() as int] == rest[0]);
    assert(!set.contains(rest[0]));
    text_lemmas::lemma_trim_start(tail, f, gap.len() as int);
    assert(tail.skip(gap.len() as int) =~= rest);
    text_lemmas::lemma_trim_start(rest, text::space(), 0);
    assert(rest.skip(0) =~= rest);
}

// ---------------------------------------------------------------------------
// Execution reports
// ---------------------------------------------------------------------------

/// A report says how its steps went, how many entries changed and what was said
/// last; where it does not say so, nothing is made up.
pub proof fn law_report_fields(
    report: Json,
    key: &str,
    status: Option<String>,
    changed: Option<usize>,
    message: Option<String>,
)
    requires
        call_ensures(formatting::execution_report_status, (&report, key), status),
        call_ensures(formatting::execution_report_changed_entries, (&report,), changed),
        call_ensures(formatting::execution_report_last_message, (&report,), message),
    ensures
        report.model().field(key@) matches Some(step) ==> text::opt(status) == step.field_text(
            "status"@,
        ),
        report.model().field(key@) is None ==> status is None,
        report.model().field("changed_files"@) matches Some(JsonView::Array(items)) ==> (
        changed matches Some(n) && n == items.len()),
        !(report.model().field("changed_files"@) matches Some(JsonView::Array(_)))
            ==> changed is None,
        message is Some <==> (report.model().field_text("last_message"@) matches Some(m)
            && !text::is_blank(m)),
        message matches Some(m) ==> m@ == text::trim(
            report.model().field_text("last_message"@).unwrap(),
        ),
{
}

/// A link to a file is shown by its label alone, or with the place in the file
/// that the link names.
#[verifier::rlimit(60)]
pub proof fn law_file_reference(
    label: &str,
    path: &str,
    folder: Seq<char>,
    file: Seq<char>,
    place: Seq<char>,
    r: String,
)
    requires
        call_ensures(formatting::compact_file_reference, (label, path), r),
        !file.contains('/'),
        !file.contains('\\'),
        !file.contains('#'),
        !place.contains('/'),
        !place.contains('\\'),
    ensures
        path@ == folder.push('/') + file || path@ == folder.push('\\') + file ==> r@ == label@,
        path@ == folder.push('/') + (file.push('#') + place) || path@ == folder.push('\\') + (
        file.push('#') + place) ==> r@ == label@ + "#"@ + place,
{
    lemma_last_segment(folder, '/', file);
    lemma_last_segment(folder, '\\', file);
    let both = file.push('#') + place;
    assert forall|c: char| #[trigger] both.contains(c) && (c == '/' || c == '\\') implies false by {
        let i = choose|i: int| 0 <= i < both.len() && both[i] == c;
        if i < file.len() {
            assert(file[i] == c);
        } else if i > file.len() {
            assert(place[i - file.len() - 1] == c);
        }
    }
    lemma_last_segment(folder, '/', both);
    lemma_last_segment(folder, '\\', both);
    assert(both[file.len() as int] == '#');
    assert forall|j: int| 0 <= j < file.len() implies both[j] != '#' by {
        assert(both[j] == file[j]);
        assert(file.contains(file[j]));
    }
    text_lemmas::lemma_find_char_is(both, '#', file.len() as int);
    assert(both.skip((file.len() + 1) as int) =~= place);
}

proof fn lemma_last_segment(folder: Seq<char>, slash: char, name: Seq<char>)
    requires
        slash == '/' || slash == '\\',
        !name.contains('/'),
        !name.contains('\\'),
    ensures
        text::split_by(
            text::replace_char(folder.push(slash) + name, '\\', '/'),
            text::just('/'),
        ).last() == name,
{
    let f = text::just('/');
    let even = text::replace_char(folder, '\\', '/');
    assert(text::replace_char(folder.push(slash) + name, '\\', '/') =~= even.push('/') + name) by {
        assert forall|i: int| 0 <= i < name.len() implies name[i] != '\\' by {
            assert(name.contains(name[i]));
        }
    }
    assert forall|i: int| 0 <= i < name.len() implies !f(#[trigger] name[i]) by {
        assert(name.contains(name[i]));
    }
    text_laws::law_split_without_separator(name, f);
    text_laws::law_split_at_separator(even, '/', name, f);
}

/// A text without links stays as it is. A link is replaced by what it refers to,
/// in backticks, and the text around it is kept.
#[verifier::rlimit(60)]
pub proof fn law_links(before: Seq<char>, label: Seq<char>, path: Seq<char>, after: Seq<char>)
    requires
        !before.contains('['),
        !label.contains(']'),
        !path.contains(')'),
    ensures
        formatting::links_compacted(before) == before,
        formatting::links_compacted(
            before.push('[') + label + "]("@ + path.push(')') + after,
        ) == before + "`"@ + formatting::file_reference(label, path) + "`"@
            + formatting::links_compacted(after),
{
    reveal_strlit("](");
    let whole = before.push('[') + label + "]("@ + path.push(')') + after;
    let start = before.len() as int;
    assert(whole[start] == '[');
    assert forall|j: int| 0 <= j < start implies whole[j] != '[' by {
        assert(whole[j] == before[j]);
        assert(before.contains(before[j]));
    }
    text_lemmas::lemma_find_char_is(whole, '[', start);
    let inner = whole.skip(start + 1);
    let n = label.len() as int;
    assert(inner =~= label + "]("@ + path.push(')') + after);
    assert(inner.subrange(n, n + 2) =~= "]("@);
    assert(text::occurs_at(inner, "]("@, n));
    assert forall|j: int| 0 <= j < n implies !#[trigger] text::occurs_at(inner, "]("@, j) by {
        if text::occurs_at(inner, "]("@, j) {
            assert(inner.subrange(j, j + 2)[0] == ']');
            assert(inner[j] == label[j]);
            assert(label.contains(label[j]));
        }
    }
    text_lemmas::lemma_find_is(inner, "]("@, n);
    let behind = inner.skip(n + 2);
    let m = path.len() as int;
    assert(behind =~= path.push(')') + after);
    assert(behind[m] == ')');
    assert forall|j: int| 0 <= j < m implies behind[j] != ')' by {
        assert(behind[j] == path[j]);
        assert(path.contains(path[j]));
    }
    text_lemmas::lemma_find_char_is(behind, ')', m);
    assert(inner.take(n) =~= label);
    assert(behind.take(m) =~= path);
    assert(behind.skip(m + 1) =~= after);
    assert(whole.take(start) =~= before);
}

/// Paths into disposable worktrees are shown with plain slashes; other texts keep
/// their backslashes.
pub proof fn law_worktree_paths(value: &str, r: String)
    requires
        call_ensures(formatting::compact_disposable_worktree_paths, (value,), r),
    ensures
        !text::contains(value@, "/.elowen/worktrees/"@) && !text::contains(
            value@,
            "\\.elowen\\worktrees\\"@,
        ) && !text::contains(value@, "/.elowen-sandbox/"@) && !text::contains(
            value@,
            "\\.elowen-sandbox\\"@,
        ) ==> r@ == value@,
        text::contains(value@, "/.elowen/worktrees/"@) || text::contains(
            value@,
            "\\.elowen\\worktrees\\"@,
        ) || text::contains(value@, "/.elowen-sandbox/"@) || text::contains(
            value@,
            "\\.elowen-sandbox\\"@,
        ) ==> r@.len() == value@.len() && !r@.contains('\\') && forall|i: int|
            0 <= i < r@.len() ==> (#[trigger] r@[i] == value@[i] || (value@[i] == '\\' && r@[i]
                == '/')),
{
    let list = formatting::WORKTREE_MARKERS@;
    assert(list.len() == 4);
    assert(list[0] == "/.elowen/worktrees/");
    assert(list[1] == "\\.elowen\\worktrees\\");
    assert(list[2] == "/.elowen-sandbox/");
    assert(list[3] == "\\.elowen-sandbox\\");
}

/// An excerpt is made of the first paragraph that is not blank.
#[verifier::rlimit(60)]
pub proof fn law_excerpt(paragraph: Seq<char>, rest: Seq<char>)
    requires
        !text::is_blank(paragraph),
        !text::contains(paragraph.push('\n'), "\n\n"@),
    ensures
        formatting::result_excerpt(paragraph + "\n\n"@ + rest) == formatting::result_excerpt(
            paragraph,
        ),
        formatting::result_excerpt(paragraph) == formatting::truncated(
            formatting::sanitized_result(text::trim(paragraph)),
            600,
        ),
{
    reveal_strlit("\n\n");
    let p = "\n\n"@;
    let whole = paragraph + p + rest;
    let n = paragraph.len() as int;
    assert(p.len() == 2);
    assert(whole.subrange(n, n + 2) =~= p);
    assert(text::occurs_at(whole, p, n));
    let ended = paragraph.push('\n');
    assert forall|j: int| 0 <= j < n implies !#[trigger] text::occurs_at(whole, p, j) by {
        if text::occurs_at(whole, p, j) {
            assert(ended.subrange(j, j + 2) =~= whole.subrange(j, j + 2));
            assert(text::occurs_at(ended, p, j));
        }
    }
    text_lemmas::lemma_find_is(whole, p, n);
    if text::contains(paragraph, p) {
        let j = choose|j: int| #[trigger] text::occurs_at(paragraph, p, j);
        assert(ended.subrange(j, j + 2) =~= paragraph.subrange(j, j + 2));
        assert(text::occurs_at(ended, p, j));
    }
    assert(text::split_at(paragraph, p) == seq![paragraph]);
    assert(whole.take(n) =~= paragraph);
    let parts = text::split_at(whole, p);
    assert(parts[0] == paragraph);
    text_laws::law_first_present(parts, 0);
    text_laws::law_first_present(seq![paragraph], 0);
}

// ---------------------------------------------------------------------------
// Replies
// ---------------------------------------------------------------------------

/// The line, where there is one.
pub open spec fn line_of(lead: Seq<char>, value: Option<Seq<char>>) -> text::Texts {
    match value {
        Some(v) => seq![lead + v],
        None => seq![],
    }
}

/// The lines that open every report: the headline, the branch, how build and
/// tests went, and how many entries changed, each where it is known.
#[verifier::rlimit(60)]
pub proof fn law_opening_lines(headline: Seq<char>, job: JobRecord, facts: formatting::ReplyFacts)
    ensures
        formatting::opening_lines(headline, job, facts) == seq![headline] + (match job.branch_name {
            Some(branch) => seq!["Branch: `"@ + branch@ + "`"@],
            None => seq![],
        }) + line_of("Build: "@, facts.build) + line_of("Test: "@, facts.test) + (
        match facts.changed {
            Some(n) => seq!["Changed entries: "@ + text::decimal(n)],
            None => seq![],
        }),
{
    let branch = match job.branch_name {
        Some(branch) => seq!["Branch: `"@ + branch@ + "`"@],
        None => seq![],
    };
    let changed = match facts.changed {
        Some(n) => seq!["Changed entries: "@ + text::decimal(n)],
        None => seq![],
    };
    let l1 = text::with_line(seq![headline], formatting::branch_line(job));
    assert(l1 =~= seq![headline] + branch);
    let l2 = text::with_line(l1, formatting::labelled("Build: "@, facts.build));
    assert(l2 =~= seq![headline] + branch + line_of("Build: "@, facts.build));
    let l3 = text::with_line(l2, formatting::labelled("Test: "@, facts.test));
    assert(l3 =~= seq![headline] + branch + line_of("Build: "@, facts.build) + line_of(
        "Test: "@,
        facts.test,
    ));
    assert(formatting::opening_lines(headline, job, facts) =~= seq![headline] + branch + line_of(
        "Build: "@,
        facts.build,
    ) + line_of("Test: "@, facts.test) + changed);
}

/// A report on a success opens with the job and its repository, shows the final
/// result where there is one, and closes with a word on the approval.
#[verifier::rlimit(60)]
pub proof fn law_success_report(
    job: JobRecord,
    build: Option<&str>,
    test: Option<&str>,
    changed: Option<usize>,
    message: Option<&str>,
    closing: &str,
    r: String,
)
    requires
        call_ensures(
            formatting::format_success_reply,
            (&job, build, test, changed, message, closing),
            r,
        ),
    ensures
        text::starts_with(
            r@,
            "I finished job `"@ + job.short_id@ + "` for repo `"@ + job.repo_name@
                + "` successfully."@,
        ),
        text::ends_with(r@, "\n"@ + closing@),
        job.branch_name matches Some(branch) ==> text::contains(r@, "Branch: `"@ + branch@ + "`"@),
        build matches Some(b) ==> text::contains(r@, "Build: "@ + b@),
        test matches Some(t) ==> text::contains(r@, "Test: "@ + t@),
        changed matches Some(n) ==> text::contains(
            r@,
            "Changed entries: "@ + text::decimal(n as nat),
        ),
        message matches Some(m) ==> text::contains(r@, formatting::truncated(m@, 600)),
{
    let facts = formatting::facts(build, test, changed);
    let head = formatting::success_headline(job);
    lemma_success(head, job, facts, text::opt_str(message), closing@);
}

/// What every report on a success holds.
#[verifier::rlimit(60)]
proof fn lemma_success(
    head: Seq<char>,
    job: JobRecord,
    facts: formatting::ReplyFacts,
    message: Option<Seq<char>>,
    closing: Seq<char>,
)
    ensures
        ({
            let r = formatting::success_reply(head, job, facts, message, closing);
            &&& text::starts_with(r, head)
            &&& text::ends_with(r, "\n"@ + closing)
            &&& job.branch_name matches Some(branch) ==> text::contains(
                r,
                "Branch: `"@ + branch@ + "`"@,
            )
            &&& facts.build matches Some(b) ==> text::contains(r, "Build: "@ + b)
            &&& facts.test matches Some(t) ==> text::contains(r, "Test: "@ + t)
            &&& facts.changed matches Some(n) ==> text::contains(
                r,
                "Changed entries: "@ + text::decimal(n),
            )
            &&& message matches Some(m) ==> text::contains(r, formatting::truncated(m, 600))
        }),
{
    let open = formatting::opening_lines(head, job, facts);
    lemma_opening_members(head, job, facts);
    lemma_success_lines(open, message, closing);
}

#[verifier::rlimit(60)]
proof fn lemma_success_lines(
    open: text::Texts,
    message: Option<Seq<char>>,
    closing: Seq<char>,
)
    requires
        open.len() > 0,
    ensures
        ({
            let r = text::join(
                formatting::with_closing(formatting::with_result(open, message), closing),
                "\n"@,
            );
            &&& text::starts_with(r, open[0])
            &&& text::ends_with(r, "\n"@ + closing)
            &&& forall|i: int| 0 <= i < open.len() ==> text::contains(r, #[trigger] open[i])
            &&& message matches Some(m) ==> text::contains(r, formatting::truncated(m, 600))
        }),
{
    let with = formatting::with_result(open, message);
    let all = formatting::with_closing(with, closing);
    let sep = "\n"@;
    let r = text::join(all, sep);
    let front = with.push(Seq::empty());
    assert(all[0] == open[0]);
    lemma_first_line(all, sep);
    text_lemmas::lemma_join_push(front, closing, sep);
    assert(r =~= text::join(front, sep) + (sep + closing));
    text_laws::law_contains(text::join(front, sep), sep + closing, Seq::empty());
    assert forall|i: int| 0 <= i < open.len() implies text::contains(r, #[trigger] open[i]) by {
        assert(all[i] == open[i]);
        conversation_laws::law_joined_text_holds_parts(all, sep, i);
    }
    if let Some(m) = message {
        let k = (open.len() + 2) as int;
        assert(all[k] == formatting::truncated(m, 600));
        conversation_laws::law_joined_text_holds_parts(all, sep, k);
    }
}

#[verifier::rlimit(60)]
proof fn lemma_opening_members(head: Seq<char>, job: JobRecord, facts: formatting::ReplyFacts)
    ensures
        ({
            let open = formatting::opening_lines(head, job, facts);
            &&& open.len() > 0 && open[0] == head
            &&& job.branch_name matches Some(branch) ==> exists|i: int|
                0 <= i < open.len() && #[trigger] open[i] == "Branch: `"@ + branch@ + "`"@
            &&& facts.build matches Some(b) ==> exists|i: int|
                0 <= i < open.len() && #[trigger] open[i] == "Build: "@ + b
            &&& facts.test matches Some(t) ==> exists|i: int|
                0 <= i < open.len() && #[trigger] open[i] == "Test: "@ + t
            &&& facts.changed matches Some(n) ==> exists|i: int|
                0 <= i < open.len() && #[trigger] open[i] == "Changed entries: "@ + text::decimal(n)
        }),
{
    let open = formatting::opening_lines(head, job, facts);
    let l1 = text::with_line(seq![head], formatting::branch_line(job));
    let l2 = text::with_line(l1, formatting::labelled("Build: "@, facts.build));
    let l3 = text::with_line(l2, formatting::labelled("Test: "@, facts.test));
    if let Some(branch) = job.branch_name {
        assert(open[1] == "Branch: `"@ + branch@ + "`"@);
    }
    if let Some(b) = facts.build {
        assert(open[l1.len() as int] == "Build: "@ + b);
    }
    if let Some(t) = facts.test {
        assert(open[l2.len() as int] == "Test: "@ + t);
    }
    if let Some(n) = facts.changed {
        assert(open[l3.len() as int] == "Changed entries: "@ + text::decimal(n));
    }
}

proof fn lemma_first_line(parts: text::Texts, sep: Seq<char>)
    requires
        parts.len() > 0,
    ensures
        text::starts_with(text::join(parts, sep), parts[0]),
{
    let r = text::join(parts, sep);
    if parts.len() > 1 {
        let rest = parts.skip(1);
        assert(parts =~= seq![parts[0]] + rest);
        text_laws::law_join(seq![parts[0]], rest, parts[0], sep);
    }
    assert(r.take(parts[0].len() as int) =~= parts[0]);
}

/// A success without a push says that nothing was committed. A read-only one says
/// so, and whether it left changes behind.
#[verifier::rlimit(60)]
pub proof fn law_other_success_reports(
    job: JobRecord,
    build: Option<&str>,
    test: Option<&str>,
    changed: Option<usize>,
    message: Option<&str>,
    plain: String,
    reading: String,
)
    requires
        call_ensures(
            formatting::format_success_without_push_reply,
            (&job, build, test, changed, message),
            plain,
        ),
        call_ensures(
            formatting::format_read_only_success_reply,
            (&job, build, test, changed, message),
            reading,
        ),
    ensures
        text::starts_with(
            plain@,
            "I finished job `"@ + job.short_id@ + "` for repo `"@ + job.repo_name@
                + "` successfully."@,
        ),
        text::ends_with(
            plain@,
            "\n"@
                + "No committed repository changes were produced, so no push approval was required."@,
        ),
        text::starts_with(
            reading@,
            "I finished read-only job `"@ + job.short_id@ + "` for repo `"@ + job.repo_name@
                + "` successfully."@,
        ),
        changed is None || changed == Some(0usize) ==> text::ends_with(
            reading@,
            "\n"@
                + "This ran in read-only mode, so no repository changes were produced and no push approval was required."@,
        ),
        changed is Some && changed != Some(0usize) ==> text::ends_with(
            reading@,
            "\n"@
                + "This ran in read-only mode. Any tracked changes were left uncommitted in the disposable worktree, and no push approval was opened."@,
        ),
        message matches Some(m) ==> text::contains(plain@, formatting::truncated(m@, 600))
            && text::contains(reading@, formatting::truncated(m@, 600)),
        build matches Some(b) ==> text::contains(plain@, "Build: "@ + b@) && text::contains(
            reading@,
            "Build: "@ + b@,
        ),
        test matches Some(t) ==> text::contains(plain@, "Test: "@ + t@) && text::contains(
            reading@,
            "Test: "@ + t@,
        ),
{
    let facts = formatting::facts(build, test, changed);
    lemma_success(
        formatting::success_headline(job),
        job,
        facts,
        text::opt_str(message),
        "No committed repository changes were produced, so no push approval was required."@,
    );
    lemma_success(
        formatting::read_only_headline(job),
        job,
        facts,
        text::opt_str(message),
        formatting::read_only_closing(facts.changed),
    );
}

/// A report on a failure opens with the job and its repository and gives the
/// detail; without one, the summary where it is not blank.
#[verifier::rlimit(60)]
pub proof fn law_failure_report(
    job: JobRecord,
    build: Option<&str>,
    test: Option<&str>,
    changed: Option<usize>,
    detail: Option<&str>,
    summary: Option<&SummaryRecord>,
    r: String,
)
    requires
        call_ensures(
            formatting::format_failure_reply,
            (&job, build, test, changed, detail, summary),
            r,
        ),
    ensures
        text::starts_with(
            r@,
            "I couldn't complete job `"@ + job.short_id@ + "` for repo `"@ + job.repo_name@
                + "`."@,
        ),
        detail matches Some(d) ==> text::ends_with(
            r@,
            "\n"@ + ("Detail: "@ + formatting::truncated(d@, 240)),
        ),
        detail is None && summary is Some && !text::is_blank(summary.unwrap().content@)
            ==> text::ends_with(
            r@,
            "\n"@ + ("Summary: "@ + formatting::truncated(summary.unwrap().content@, 240)),
        ),
        detail is None && (summary is None || text::is_blank(summary.unwrap().content@)) ==> r@
            == text::join(
            formatting::opening_lines(
                formatting::failure_headline(job),
                job,
                formatting::facts(build, test, changed),
            ),
            "\n"@,
        ),
        build matches Some(b) ==> text::contains(r@, "Build: "@ + b@),
        test matches Some(t) ==> text::contains(r@, "Test: "@ + t@),
{
    let facts = formatting::facts(build, test, changed);
    let head = formatting::failure_headline(job);
    let open = formatting::opening_lines(head, job, facts);
    let sep = "\n"@;
    let line = formatting::failure_line(
        text::opt_str(detail),
        formatting::summary_content(summary),
    );
    let all = text::with_line(open, line);
    lemma_opening_members(head, job, facts);
    law_opening_lines(head, job, facts);
    assert(open[0] == head);
    assert(all[0] == head);
    lemma_first_line(all, sep);
    assert forall|i: int| 0 <= i < open.len() implies text::contains(r@, #[trigger] open[i]) by {
        assert(all[i] == open[i]);
        conversation_laws::law_joined_text_holds_parts(all, sep, i);
    }
    if let Some(l) = line {
        text_lemmas::lemma_join_push(open, l, sep);
        assert(r@ =~= text::join(open, sep) + (sep + l));
        text_laws::law_contains(text::join(open, sep), sep + l, Seq::empty());
    }
}

/// The notes on the two intents differ.
pub proof fn law_intent_notes(a: ExecutionIntent, b: ExecutionIntent)
    ensures
        formatting::intent_note(a) == formatting::intent_note(b) <==> a == b,
        a.name() == b.name() <==> a == b,
        a is ReadOnly ==> formatting::intent_note(a) == "read-only"@ && a.name() == "read_only"@,
        crate::draft_payload::named_intent(a.name()) == Some(a),
{
    reveal_strlit("workspace-change");
    reveal_strlit("read-only");
    reveal_strlit("workspace_change");
    reveal_strlit("read_only");
    assert("workspace-change"@.len() == 16);
    assert("read-only"@.len() == 9);
    assert("workspace_change"@.len() == 16);
    assert("read_only"@.len() == 9);
}

// ---------------------------------------------------------------------------
// Verbs and results
// ---------------------------------------------------------------------------

/// The leading verb of a request is the one that stands first; of two that stand
/// in the same place, the one that is listed first.
pub proof fn law_leading_verb(lower: Seq<char>, words: Seq<&str>)
    ensures
        match titles::leading_action(lower, words) {
            Some(found) => 0 <= found.1 < words.len() && text::find(lower, words[found.1]@) == Some(
                found.0,
            ) && forall|j: int|
                0 <= j < words.len() ==> (text::find(lower, (#[trigger] words[j])@) matches Some(m)
                    ==> found.0 < m || (found.0 == m && found.1 <= j)),
            None => forall|j: int|
                0 <= j < words.len() ==> text::find(lower, (#[trigger] words[j])@) is None,
        },
    decreases words.len(),
{
    if words.len() > 0 {
        let front = words.drop_last();
        law_leading_verb(lower, front);
        assert(words.last() == words[words.len() - 1]);
        assert forall|j: int| 0 <= j < front.len() implies #[trigger] words[j] == front[j] by {}
    }
}

/// Where no file is named, a title acts on what stands behind the leading verb, as
/// far as the clause goes.
#[verifier::rlimit(60)]
pub proof fn law_target_behind_verb(normalized: Seq<char>, verb: int, at: int)
    requires
        titles::quoted_file(text::split_by(normalized, text::just('`')), 1) is None,
        forall|j: int|
            0 <= j < titles::KNOWN_FILES@.len() ==> !text::contains(
                text::lower(normalized),
                (#[trigger] titles::KNOWN_FILES@[j])@,
            ),
        0 <= verb < titles::ACTION_WORDS@.len(),
        text::find(text::lower(normalized), titles::ACTION_WORDS@[verb]@) == Some(at),
        forall|j: int|
            0 <= j < titles::ACTION_WORDS@.len() && j != verb ==> (text::find(
                text::lower(normalized),
                (#[trigger] titles::ACTION_WORDS@[j])@,
            ) matches Some(m) ==> at < m),
    ensures
        ({
            let rest = text::trim_start_by(
                normalized.skip((at + titles::ACTION_WORDS@[verb]@.len()) as int),
                text::space(),
            );
            if text::is_blank(titles::target_span(rest)) {
                titles::title_target(normalized) is None
            } else {
                titles::title_target(normalized) == Some(
                    titles::simplified_target(titles::target_span(rest)),
                )
            }
        }),
{
    let l = text::lower(normalized);
    law_leading_verb(l, titles::ACTION_WORDS@);
    text_laws::law_first_needle(l, titles::KNOWN_FILES@);
    let found = titles::leading_action(l, titles::ACTION_WORDS@).unwrap();
    if found.1 != verb {
        assert(text::find(l, titles::ACTION_WORDS@[found.1]@) == Some(found.0));
        assert(text::find(l, titles::ACTION_WORDS@[verb]@) == Some(at));
    }
    let rest = text::trim_start_by(
        normalized.skip((at + titles::ACTION_WORDS@[verb]@.len()) as int),
        text::space(),
    );
    let cut = rest.take(
        text::earliest(text::lower(rest), titles::TARGET_ENDS@, rest.len() as int),
    );
    text_laws::law_trimmed(cut);
}

/// A result is shown trimmed, with its links and then its paths made short.
pub proof fn law_sanitized_result(
    value: &str,
    r: String,
    trimmed: &str,
    linked: String,
    linked_text: &str,
    short: String,
)
    requires
        call_ensures(formatting::sanitize_chat_result_text, (value,), r),
        trimmed@ == text::trim(value@),
        call_ensures(formatting::compact_markdown_file_links, (trimmed,), linked),
        linked_text@ == linked@,
        call_ensures(formatting::compact_disposable_worktree_paths, (linked_text,), short),
    ensures
        r@ == short@,
{
}

/// An excerpt of a result has at most 600 characters and an ellipsis.
pub proof fn law_excerpt_fits(value: &str, r: String)
    requires
        call_ensures(formatting::primary_result_excerpt, (value,), r),
    ensures
        r@.len() <= 603,
{
    let first = text::trim(
        text::or_value(
            text::first_present(text::split_at(value@, "\n\n"@)),
            text::trim(value@),
        ),
    );
    formatting::law_truncated_fits(formatting::sanitized_result(first), 600);
}

/// A short line that names no verb and begins like no request is its own title.
#[verifier::rlimit(60)]
pub proof fn law_plain_line_is_title(line: Seq<char>)
    requires
        0 < line.len() <= 72,
        !text::is_space(line[0]),
        !text::is_space(line.last()),
        line.last() != '.' && line.last() != '!' && line.last() != '?',
        line[0] != '`',
        forall|i: int| 0 <= i < line.len() ==> #[trigger] line[i] != '\n',
        forall|j: int|
            0 <= j < titles::OPENINGS@.len() ==> !text::starts_with(
                line,
                (#[trigger] titles::OPENINGS@[j])@,
            ),
        forall|j: int|
            0 <= j < titles::ACTION_WORDS@.len() ==> !text::contains(
                text::lower(line),
                (#[trigger] titles::ACTION_WORDS@[j])@,
            ),
    ensures
        titles::job_title(line) == line,
{
    let ends = titles::SENTENCE_END@;
    assert(ends.len() == 3);
    assert(ends[0] == '.' && ends[1] == '!' && ends[2] == '?');
    assert(!ends.contains(line.last()));
    let f = text::one_of(ends);
    assert(text::trim_end_by(line, f) == line);
    text_lemmas::lemma_trim_noop(line, text::space());
    text_laws::law_lines(line, Seq::empty());
    text_laws::law_first_present(seq![line], 0);
    let list = titles::OPENINGS@;
    assert(list.len() == 6);
    assert(list[0] == "For repo ");
    assert(list[1] == "For repository ");
    assert(list[2] == "In repo ");
    assert(list[3] == "In repository ");
    assert(list[4] == "Please ");
    assert(list[5] == "Can you ");
    law_openings(line);
    assert(!text::starts_with(line, list[0]@));
    assert(!text::starts_with(line, list[1]@));
    assert(!text::starts_with(line, list[2]@));
    assert(!text::starts_with(line, list[3]@));
    assert(!text::starts_with(line, list[4]@));
    assert(!text::starts_with(line, list[5]@));
    assert(titles::normalized_title(line) == line);
    text_laws::law_first_needle(text::lower(line), titles::ACTION_WORDS@);
}

} // verus!
