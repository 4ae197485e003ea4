//! How a request names a repository, a branch and a title, and what of it is left
//! as an instruction.

use crate::drafts;
use crate::text;
use crate::text_laws;
use crate::text_lemmas;
use vstd::prelude::*;

verus! {

// ---------------------------------------------------------------------------
// Quoted names
// ---------------------------------------------------------------------------

/// A name in backticks behind a keyword is taken, trimmed, as far as the closing
/// backtick, whatever the case of the keyword. The first such place counts.
#[verifier::rlimit(60)]
pub proof fn law_quoted_name(
    before: Seq<char>,
    lead: Seq<char>,
    name: Seq<char>,
    after: Seq<char>,
    keyword: Seq<char>,
)
    requires
        text::lower(lead) == keyword + " `"@,
        text::first_at(
            text::lower(before + lead + name.push('`') + after),
            keyword + " `"@,
            before.len() as int,
        ),
        !name.contains('`'),
    ensures
        text::is_blank(name) ==> drafts::quoted_hint(
            before + lead + name.push('`') + after,
            keyword,
        ) is None,
        !text::is_blank(name) ==> drafts::quoted_hint(
            before + lead + name.push('`') + after,
            keyword,
        ) == Some(text::trim(name)),
{
    let whole = before + lead + name.push('`') + after;
    text_lemmas::lemma_find_is(text::lower(whole), keyword + " `"@, before.len() as int);
    let rest = whole.skip((before.len() + lead.len()) as int);
    assert(text::lower(lead).len() == lead.len());
    assert(rest =~= name.push('`') + after);
    assert(rest[name.len() as int] == '`');
    assert forall|j: int| 0 <= j < name.len() implies rest[j] != '`' by {
        assert(rest[j] == name[j]);
        assert(name.contains(name[j]));
    }
    text_lemmas::lemma_find_char_is(rest, '`', name.len() as int);
    assert(rest.take(name.len() as int) =~= name);
}

/// Without a keyword there is no name, and without a closing backtick there is no
/// quoted one.
pub proof fn law_no_keyword_no_name(s: Seq<char>, keyword: Seq<char>)
    ensures
        !text::contains(text::lower(s), keyword) ==> drafts::keyword_hint(s, keyword) is None
            && drafts::phrase_hint(s, keyword) is None,
        !text::contains(text::lower(s), keyword + " `"@) ==> drafts::quoted_hint(
            s,
            keyword,
        ) is None,
        (forall|i: int| 0 <= i < s.len() ==> #[trigger] s[i] != '`') ==> drafts::quoted_hint(
            s,
            keyword,
        ) is None,
{
    if forall|i: int| 0 <= i < s.len() ==> #[trigger] s[i] != '`' {
        text_lemmas::lemma_find(text::lower(s), keyword + " `"@);
        if let Some(i) = text::find(text::lower(s), keyword + " `"@) {
            let from = i + (keyword + " `"@).len();
            assert(text::lower(s).len() == s.len());
            let rest = s.skip(from);
            if rest.contains('`') {
                let j = choose|j: int| 0 <= j < rest.len() && rest[j] == '`';
                assert(s[from + j] == '`');
            }
        }
    }
}

/// A repository that is named in backticks is the one that the request names.
pub proof fn law_quoted_repository(
    before: Seq<char>,
    lead: Seq<char>,
    name: Seq<char>,
    after: Seq<char>,
)
    requires
        !name.contains('`'),
        !text::is_blank(name),
    ensures
        text::lower(lead) == "repo"@ + " `"@ && text::first_at(
            text::lower(before + lead + name.push('`') + after),
            "repo"@ + " `"@,
            before.len() as int,
        ) ==> drafts::repo_hint(before + lead + name.push('`') + after) == Some(text::trim(name)),
        text::lower(lead) == "repository"@ + " `"@ && text::first_at(
            text::lower(before + lead + name.push('`') + after),
            "repository"@ + " `"@,
            before.len() as int,
        ) && drafts::quoted_hint(before + lead + name.push('`') + after, "repo"@) is None
            ==> drafts::repo_hint(before + lead + name.push('`') + after) == Some(text::trim(name)),
{
    let whole = before + lead + name.push('`') + after;
    if text::lower(lead) == "repo"@ + " `"@ && text::first_at(
        text::lower(whole),
        "repo"@ + " `"@,
        before.len() as int,
    ) {
        law_quoted_name(before, lead, name, after, "repo"@);
    }
    if text::lower(lead) == "repository"@ + " `"@ && text::first_at(
        text::lower(whole),
        "repository"@ + " `"@,
        before.len() as int,
    ) {
        law_quoted_name(before, lead, name, after, "repository"@);
    }
}

/// A branch that is named in backticks is the one that the request names, and the
/// base branch comes before any other.
pub proof fn law_quoted_branch(
    before: Seq<char>,
    lead: Seq<char>,
    name: Seq<char>,
    after: Seq<char>,
)
    requires
        !name.contains('`'),
        !text::is_blank(name),
    ensures
        text::lower(lead) == "base branch"@ + " `"@ && text::first_at(
            text::lower(before + lead + name.push('`') + after),
            "base branch"@ + " `"@,
            before.len() as int,
        ) ==> drafts::branch_hint(before + lead + name.push('`') + after) == Some(text::trim(name)),
        text::lower(lead) == "branch"@ + " `"@ && text::first_at(
            text::lower(before + lead + name.push('`') + after),
            "branch"@ + " `"@,
            before.len() as int,
        ) && drafts::quoted_hint(before + lead + name.push('`') + after, "base branch"@) is None
            ==> drafts::branch_hint(before + lead + name.push('`') + after) == Some(
            text::trim(name),
        ),
{
    let whole = before + lead + name.push('`') + after;
    if text::lower(lead) == "base branch"@ + " `"@ && text::first_at(
        text::lower(whole),
        "base branch"@ + " `"@,
        before.len() as int,
    ) {
        law_quoted_name(before, lead, name, after, "base branch"@);
    }
    if text::lower(lead) == "branch"@ + " `"@ && text::first_at(
        text::lower(whole),
        "branch"@ + " `"@,
        before.len() as int,
    ) {
        law_quoted_name(before, lead, name, after, "branch"@);
    }
}

/// A title in backticks is the one that the request gives.
pub proof fn law_quoted_title(
    before: Seq<char>,
    lead: Seq<char>,
    name: Seq<char>,
    after: Seq<char>,
)
    requires
        !name.contains('`'),
        !text::is_blank(name),
        text::lower(lead) == "title"@ + " `"@,
        text::first_at(
            text::lower(before + lead + name.push('`') + after),
            "title"@ + " `"@,
            before.len() as int,
        ),
    ensures
        drafts::title_hint(before + lead + name.push('`') + after) == Some(text::trim(name)),
{
    law_quoted_name(before, lead, name, after, "title"@);
}

// ---------------------------------------------------------------------------
// Names without quotes
// ---------------------------------------------------------------------------

/// The marks that may stand around a name: comma, stop, semicolon, colon and
/// round brackets.
pub open spec fn is_mark(c: char) -> bool {
    c == ',' || c == '.' || c == ';' || c == ':' || c == ')' || c == '('
}

proof fn lemma_marks(c: char)
    ensures
        text::one_of(drafts::VALUE_PUNCTUATION@)(c) <==> is_mark(c),
{
    let set = drafts::VALUE_PUNCTUATION@;
    assert(set.len() == 6);
    assert(set[0] == ',' && set[1] == '.' && set[2] == ';' && set[3] == ':' && set[4] == ')'
        && set[5] == '(');
}

proof fn lemma_keyword_separators(c: char)
    ensures
        text::one_of(drafts::KEYWORD_SEPARATORS@)(c) <==> c == ' ' || c == ':',
{
    let set = drafts::KEYWORD_SEPARATORS@;
    assert(set.len() == 2);
    assert(set[0] == ' ' && set[1] == ':');
}

/// The word behind a keyword is the name, without the blanks and colons before it
/// and the marks that follow it. The first such place counts.
#[verifier::rlimit(60)]
pub proof fn law_keyword_value(
    before: Seq<char>,
    lead: Seq<char>,
    gap: Seq<char>,
    name: Seq<char>,
    marks: Seq<char>,
    after: Seq<char>,
    keyword: Seq<char>,
)
    requires
        text::lower(lead) == keyword,
        text::first_at(
            text::lower(before + lead + gap + name + marks + after),
            keyword,
            before.len() as int,
        ),
        forall|i: int| 0 <= i < gap.len() ==> (#[trigger] gap[i] == ' ' || gap[i] == ':'),
        name.len() > 0,
        forall|i: int| 0 <= i < name.len() ==> !text::is_space(#[trigger] name[i]),
        !is_mark(name[0]),
        !is_mark(name.last()),
        forall|i: int| 0 <= i < marks.len() ==> is_mark(#[trigger] marks[i]),
        after.len() > 0 ==> text::is_space(after[0]),
    ensures
        drafts::keyword_hint(before + lead + gap + name + marks + after, keyword) == Some(name),
{
    let whole = before + lead + gap + name + marks + after;
    text_lemmas::lemma_find_is(text::lower(whole), keyword, before.len() as int);
    assert(text::lower(lead).len() == lead.len());
    let rest = whole.skip((before.len() + lead.len()) as int);
    assert(rest =~= gap + name + marks + after);
    let f = text::one_of(drafts::KEYWORD_SEPARATORS@);
    assert forall|j: int| 0 <= j < gap.len() implies f(#[trigger] rest[j]) by {
        assert(rest[j] == gap[j]);
        lemma_keyword_separators(gap[j]);
    }
    assert(rest[gap.len() as int] == name[0]);
    lemma_keyword_separators(name[0]);
    assert(!text::is_space(name[0]));
    text_lemmas::lemma_trim_start(rest, f, gap.len() as int);
    let word = name + marks;
    let tail = rest.skip(gap.len() as int);
    assert(tail =~= word + after);
    assert forall|i: int| 0 <= i < word.len() implies !text::is_space(#[trigger] word[i]) by {
        if i < name.len() {
            assert(word[i] == name[i]);
        } else {
            assert(word[i] == marks[i - name.len()]);
            assert(is_mark(marks[i - name.len()]));
        }
    }
    if after.len() == 0 {
        assert(tail =~= word);
        text_laws::law_words(word, word, ' ', word);
    } else {
        text_laws::law_words(word, word, after[0], after.skip(1));
        assert(tail =~= word.push(after[0]) + after.skip(1));
        assert(text::words(tail)[0] == word);
    }
    let g = text::one_of(drafts::VALUE_PUNCTUATION@);
    lemma_marks(name[0]);
    lemma_marks(name.last());
    assert(word[0] == name[0]);
    text_lemmas::lemma_trim_start(word, g, 0);
    assert(word.skip(0) =~= word);
    assert forall|j: int| name.len() <= j < word.len() implies g(#[trigger] word[j]) by {
        assert(word[j] == marks[j - name.len()]);
        lemma_marks(marks[j - name.len()]);
    }
    assert(word[name.len() - 1] == name.last());
    text_lemmas::lemma_trim_end(word, g, name.len() as int);
    assert(word.take(name.len() as int) =~= name);
    text_lemmas::lemma_trim_noop(name, text::space());
}

/// A name in backticks comes before one without, and a repository before the
/// longer word for it; where none is quoted, the first word decides.
#[verifier::rlimit(60)]
pub proof fn law_names_in_order(s: Seq<char>)
    ensures
        drafts::quoted_hint(s, "repo"@) matches Some(name) ==> drafts::repo_hint(s) == Some(name),
        drafts::quoted_hint(s, "repo"@) is None ==> (drafts::quoted_hint(
            s,
            "repository"@,
        ) matches Some(name) ==> drafts::repo_hint(s) == Some(name)),
        drafts::quoted_hint(s, "repo"@) is None && drafts::quoted_hint(s, "repository"@) is None
            ==> (drafts::keyword_hint(s, "repo"@) matches Some(name) ==> drafts::repo_hint(s)
            == Some(name)),
        !text::contains(text::lower(s), "repo"@) ==> drafts::repo_hint(s) is None,
        drafts::quoted_hint(s, "base branch"@) matches Some(name) ==> drafts::branch_hint(s)
            == Some(name),
        drafts::quoted_hint(s, "base branch"@) is None ==> (drafts::quoted_hint(
            s,
            "branch"@,
        ) matches Some(name) ==> drafts::branch_hint(s) == Some(name)),
        drafts::quoted_hint(s, "base branch"@) is None && drafts::quoted_hint(s, "branch"@) is None
            ==> (drafts::keyword_hint(s, "base branch"@) matches Some(name)
            ==> drafts::branch_hint(s) == Some(name)),
        drafts::quoted_hint(s, "base branch"@) is None && drafts::quoted_hint(s, "branch"@) is None
            && drafts::keyword_hint(s, "base branch"@) is None ==> drafts::branch_hint(s)
            == drafts::keyword_hint(s, "branch"@),
        !text::contains(text::lower(s), "branch"@) ==> drafts::branch_hint(s) is None,
        drafts::quoted_hint(s, "title"@) matches Some(name) ==> drafts::title_hint(s) == Some(name),
        drafts::quoted_hint(s, "title"@) is None ==> (drafts::phrase_hint(
            s,
            "title"@,
        ) matches Some(name) ==> drafts::title_hint(s) == Some(name)),
        drafts::quoted_hint(s, "title"@) is None && drafts::phrase_hint(s, "title"@) is None ==> (
        drafts::phrase_hint(s, "call it"@) matches Some(name) ==> drafts::title_hint(s) == Some(
            name,
        )),
        drafts::quoted_hint(s, "title"@) is None && drafts::phrase_hint(s, "title"@) is None
            && drafts::phrase_hint(s, "call it"@) is None ==> (drafts::phrase_hint(
            s,
            "rename it to"@,
        ) matches Some(name) ==> drafts::title_hint(s) == Some(name)),
        drafts::quoted_hint(s, "title"@) is None && drafts::phrase_hint(s, "title"@) is None
            && drafts::phrase_hint(s, "call it"@) is None && drafts::phrase_hint(
            s,
            "rename it to"@,
        ) is None ==> (drafts::phrase_hint(s, "rename this to"@) matches Some(name)
            ==> drafts::title_hint(s) == Some(name)),
        drafts::quoted_hint(s, "title"@) is None && drafts::phrase_hint(s, "title"@) is None
            && drafts::phrase_hint(s, "call it"@) is None && drafts::phrase_hint(
            s,
            "rename it to"@,
        ) is None && drafts::phrase_hint(s, "rename this to"@) is None ==> drafts::title_hint(s)
            == drafts::phrase_hint(s, "rename to"@),
{
    let l = text::lower(s);
    if !text::contains(l, "repo"@) {
        reveal_strlit("repo");
        reveal_strlit("repository");
        assert("repository"@.take(4) =~= "repo"@);
        lemma_longer(l, "repo"@, " `"@);
        lemma_part(l, "repository"@, 0, 4);
        assert("repository"@.subrange(0, 4) =~= "repo"@);
        lemma_longer(l, "repository"@, " `"@);
        law_no_keyword_no_name(s, "repo"@);
        law_no_keyword_no_name(s, "repository"@);
    }
    if !text::contains(l, "branch"@) {
        reveal_strlit("branch");
        reveal_strlit("base branch");
        assert("base branch"@.subrange(5, 11) =~= "branch"@);
        lemma_longer(l, "branch"@, " `"@);
        lemma_part(l, "base branch"@, 5, 11);
        lemma_longer(l, "base branch"@, " `"@);
        law_no_keyword_no_name(s, "branch"@);
        law_no_keyword_no_name(s, "base branch"@);
    }
}

proof fn lemma_longer(s: Seq<char>, p: Seq<char>, more: Seq<char>)
    requires
        !text::contains(s, p),
    ensures
        !text::contains(s, p + more),
{
    if text::contains(s, p + more) {
        assert((p + more).subrange(0, p.len() as int) =~= p);
        lemma_part(s, p + more, 0, p.len() as int);
    }
}

proof fn lemma_part(s: Seq<char>, p: Seq<char>, a: int, b: int)
    requires
        0 <= a <= b <= p.len(),
    ensures
        text::contains(s, p) ==> text::contains(s, p.subrange(a, b)),
{
    if text::contains(s, p) {
        let i = choose|i: int| #[trigger] text::occurs_at(s, p, i);
        let whole = s.subrange(i, (i + p.len()) as int);
        assert(s.subrange(i + a, i + b) =~= whole.subrange(a, b));
        assert(text::occurs_at(s, p.subrange(a, b), i + a));
    }
}

proof fn lemma_phrase_separators(c: char)
    ensures
        text::one_of(drafts::PHRASE_SEPARATORS@)(c) <==> c == ' ' || c == ':' || c == '-' || c
            == '=',
{
    let set = drafts::PHRASE_SEPARATORS@;
    assert(set.len() == 4);
    assert(set[0] == ' ' && set[1] == ':' && set[2] == '-' && set[3] == '=');
}

/// A phrase behind a keyword is taken up to the end of its line, sentence or
/// clause, without the separators before it and the spaces around it.
#[verifier::rlimit(60)]
pub proof fn law_phrase_value(
    before: Seq<char>,
    lead: Seq<char>,
    gap: Seq<char>,
    phrase: Seq<char>,
    after: Seq<char>,
    keyword: Seq<char>,
)
    requires
        text::lower(lead) == keyword,
        text::first_at(
            text::lower(before + lead + gap + phrase + after),
            keyword,
            before.len() as int,
        ),
        forall|i: int|
            0 <= i < gap.len() ==> (#[trigger] gap[i] == ' ' || gap[i] == ':' || gap[i] == '-'
                || gap[i] == '='),
        phrase.len() > 0,
        !text::is_space(phrase[0]),
        phrase[0] != ':' && phrase[0] != '-' && phrase[0] != '=',
        !phrase.contains('`'),
        forall|k: int, j: int|
            0 <= k < drafts::PHRASE_ENDS@.len() && 0 <= j < phrase.len()
                ==> !#[trigger] text::occurs_at(phrase + after, drafts::PHRASE_ENDS@[k]@, j),
        after.len() > 0 ==> after[0] == '\n' || after[0] == '.' || after[0] == ';',
    ensures
        drafts::phrase_hint(before + lead + gap + phrase + after, keyword) == Some(
            text::trim(phrase),
        ),
{
    let whole = before + lead + gap + phrase + after;
    text_lemmas::lemma_find_is(text::lower(whole), keyword, before.len() as int);
    assert(text::lower(lead).len() == lead.len());
    let rest = whole.skip((before.len() + lead.len()) as int);
    assert(rest =~= gap + phrase + after);
    let f = text::one_of(drafts::PHRASE_SEPARATORS@);
    assert forall|j: int| 0 <= j < gap.len() implies f(#[trigger] rest[j]) by {
        assert(rest[j] == gap[j]);
        lemma_phrase_separators(gap[j]);
    }
    assert(rest[gap.len() as int] == phrase[0]);
    lemma_phrase_separators(phrase[0]);
    text_lemmas::lemma_trim_start(rest, f, gap.len() as int);
    let tail = rest.skip(gap.len() as int);
    assert(tail =~= phrase + after);
    assert(tail[0] == phrase[0]);
    assert(phrase.contains(phrase[0]));
    let ends = drafts::PHRASE_ENDS@;
    let end = text::earliest(tail, ends, tail.len() as int);
    text_laws::law_earliest(tail, ends, tail.len() as int);
    text_lemmas::lemma_earliest(tail, ends, tail.len() as int);
    if end < phrase.len() {
        let k = choose|k: int|
            0 <= k < ends.len() && text::find(tail, (#[trigger] ends[k])@) == Some(end);
        text_lemmas::lemma_find(tail, ends[k]@);
        assert(text::occurs_at(tail, ends[k]@, end));
    }
    if after.len() > 0 {
        lemma_phrase_ends();
        let k: int = if after[0] == '\n' {
            0
        } else if after[0] == '.' {
            1
        } else {
            2
        };
        let n = phrase.len() as int;
        assert(ends[k]@ =~= seq![after[0]]);
        assert(tail.subrange(n, n + 1) =~= seq![after[0]]);
        text_laws::law_find(tail, ends[k]@, n);
    }
    assert(end == phrase.len());
    assert(tail.take(end) =~= phrase);
    if phrase.len() > 0 {
        assert(phrase.contains(phrase.last()));
    }
    text_lemmas::lemma_trim_noop(phrase, text::just('`'));
    text_laws::law_blank(phrase);
}

proof fn lemma_phrase_ends()
    ensures
        drafts::PHRASE_ENDS@.len() == 8,
        drafts::PHRASE_ENDS@[0]@ =~= seq!['\n'],
        drafts::PHRASE_ENDS@[1]@ =~= seq!['.'],
        drafts::PHRASE_ENDS@[2]@ =~= seq![';'],
        drafts::PHRASE_ENDS@[3]@ == ", and "@,
        drafts::PHRASE_ENDS@[4]@ == " and use "@,
        drafts::PHRASE_ENDS@[5]@ == " and switch "@,
        drafts::PHRASE_ENDS@[6]@ == " and set "@,
        drafts::PHRASE_ENDS@[7]@ == " and keep "@,
{
    reveal_strlit("\n");
    reveal_strlit(".");
    reveal_strlit(";");
    let ends = drafts::PHRASE_ENDS@;
    assert(ends[0] == "\n");
    assert(ends[1] == ".");
    assert(ends[2] == ";");
    assert(ends[3] == ", and ");
    assert(ends[4] == " and use ");
    assert(ends[5] == " and switch ");
    assert(ends[6] == " and set ");
    assert(ends[7] == " and keep ");
}

/// A phrase that is not in backticks holds no end of a line or sentence, and
/// nothing that begins another instruction.
#[verifier::rlimit(60)]
pub proof fn law_phrase_is_one_clause(s: Seq<char>, keyword: Seq<char>, phrase: Seq<char>)
    requires
        drafts::phrase_hint(s, keyword) == Some(phrase),
        forall|i: int| 0 <= i < s.len() ==> #[trigger] s[i] != '`',
    ensures
        !text::contains(phrase, "\n"@),
        !text::contains(phrase, "."@),
        !text::contains(phrase, ";"@),
        !text::contains(phrase, ", and "@),
        !text::contains(phrase, " and use "@),
        !text::contains(phrase, " and switch "@),
        !text::contains(phrase, " and set "@),
        !text::contains(phrase, " and keep "@),
{
    let ends = drafts::PHRASE_ENDS@;
    lemma_phrase_ends();
    assert(ends[0] == "\n" && ends[1] == "." && ends[2] == ";");
    reveal_strlit(", and ");
    reveal_strlit(" and use ");
    reveal_strlit(" and switch ");
    reveal_strlit(" and set ");
    reveal_strlit(" and keep ");
    lemma_phrase_lacks_end(s, keyword, phrase, 0);
    lemma_phrase_lacks_end(s, keyword, phrase, 1);
    lemma_phrase_lacks_end(s, keyword, phrase, 2);
    lemma_phrase_lacks_end(s, keyword, phrase, 3);
    lemma_phrase_lacks_end(s, keyword, phrase, 4);
    lemma_phrase_lacks_end(s, keyword, phrase, 5);
    lemma_phrase_lacks_end(s, keyword, phrase, 6);
    lemma_phrase_lacks_end(s, keyword, phrase, 7);
}

#[verifier::rlimit(60)]
proof fn lemma_phrase_lacks_end(s: Seq<char>, keyword: Seq<char>, phrase: Seq<char>, k: int)
    requires
        drafts::phrase_hint(s, keyword) == Some(phrase),
        forall|i: int| 0 <= i < s.len() ==> #[trigger] s[i] != '`',
        0 <= k < drafts::PHRASE_ENDS@.len(),
        drafts::PHRASE_ENDS@[k]@.len() > 0,
    ensures
        !text::contains(phrase, drafts::PHRASE_ENDS@[k]@),
{
    let f = text::one_of(drafts::PHRASE_SEPARATORS@);
    text_lemmas::lemma_find(text::lower(s), keyword);
    let at = text::find(text::lower(s), keyword).unwrap();
    assert(text::lower(s).len() == s.len());
    let from = at + keyword.len();
    let rest = s.skip(from);
    let n = text_lemmas::leading(rest, f);
    let tail = text::trim_start_by(rest, f);
    assert(tail == rest.skip(n));
    if tail.len() > 0 {
        assert(tail[0] == s[from + n]);
    }
    let end = text::earliest(tail, drafts::PHRASE_ENDS@, tail.len() as int);
    let piece = tail.take(end);
    let p = drafts::PHRASE_ENDS@[k]@;
    lemma_cut_lacks(tail, drafts::PHRASE_ENDS@, k);
    lemma_trim_lacks(piece, text::just('`'), p);
    lemma_trim_lacks(text::trim_by(piece, text::just('`')), text::space(), p);
}

proof fn lemma_trim_lacks(s: Seq<char>, f: text::CharPred, p: Seq<char>)
    requires
        !text::contains(s, p),
    ensures
        !text::contains(text::trim_by(s, f), p),
{
    let r = text_lemmas::trim_range(s, f);
    let t = text::trim_by(s, f);
    if text::contains(t, p) {
        let i = choose|i: int| #[trigger] text::occurs_at(t, p, i);
        assert(s.subrange(r.0 + i, (r.0 + i + p.len()) as int) =~= t.subrange(
            i,
            (i + p.len()) as int,
        ));
        assert(text::occurs_at(s, p, r.0 + i));
    }
}

proof fn lemma_cut_lacks(s: Seq<char>, ends: Seq<&str>, k: int)
    requires
        0 <= k < ends.len(),
        ends[k]@.len() > 0,
    ensures
        !text::contains(s.take(text::earliest(s, ends, s.len() as int)), ends[k]@),
{
    let end = text::earliest(s, ends, s.len() as int);
    let p = ends[k]@;
    text_laws::law_earliest(s, ends, s.len() as int);
    text_lemmas::lemma_earliest(s, ends, s.len() as int);
    let cut = s.take(end);
    if text::contains(cut, p) {
        let i = choose|i: int| #[trigger] text::occurs_at(cut, p, i);
        assert(s.subrange(i, (i + p.len()) as int) =~= cut.subrange(i, (i + p.len()) as int));
        text_laws::law_find(s, p, i);
    }
}

// ---------------------------------------------------------------------------
// Instructions
// ---------------------------------------------------------------------------

/// Whether a clause begins by naming a part of the draft.
pub proof fn law_metadata_openings(clause: Seq<char>)
    ensures
        drafts::metadata_rest(clause) is Some <==> {
            let l = text::lower(clause);
            ||| text::starts_with(l, "repo "@)
            ||| text::starts_with(l, "repository "@)
            ||| text::starts_with(l, "use repo "@)
            ||| text::starts_with(l, "use repository "@)
            ||| text::starts_with(l, "base branch "@)
            ||| text::starts_with(l, "branch "@)
            ||| text::starts_with(l, "use branch "@)
            ||| text::starts_with(l, "use base branch "@)
            ||| text::starts_with(l, "title "@)
            ||| text::starts_with(l, "call it "@)
            ||| text::starts_with(l, "rename it to "@)
            ||| text::starts_with(l, "rename this to "@)
            ||| text::starts_with(l, "rename to "@)
        },
{
    let list = drafts::METADATA_OPENINGS@;
    assert(list.len() == 13);
    assert(list[0] == "repo ");
    assert(list[1] == "repository ");
    assert(list[2] == "use repo ");
    assert(list[3] == "use repository ");
    assert(list[4] == "base branch ");
    assert(list[5] == "branch ");
    assert(list[6] == "use branch ");
    assert(list[7] == "use base branch ");
    assert(list[8] == "title ");
    assert(list[9] == "call it ");
    assert(list[10] == "rename it to ");
    assert(list[11] == "rename this to ");
    assert(list[12] == "rename to ");
}

/// Behind a part of the draft, the text after the joint is left. A plain `and`
/// is looked for first, then a comma.
#[verifier::rlimit(60)]
pub proof fn law_metadata_rest(clause: Seq<char>, i: int)
    requires
        drafts::metadata_rest(clause) is Some,
    ensures
        text::first_at(text::lower(clause), " and "@, i) ==> drafts::metadata_rest(clause) == Some(
            text::trim(clause.skip(i + 5)),
        ),
        !text::contains(text::lower(clause), " and "@) && text::first_at(
            text::lower(clause),
            ", then "@,
            i,
        ) ==> drafts::metadata_rest(clause) == Some(text::trim(clause.skip(i + 7))),
        !text::contains(text::lower(clause), " and "@) && !text::contains(
            text::lower(clause),
            ", then "@,
        ) && text::first_at(text::lower(clause), ", "@, i) ==> drafts::metadata_rest(clause)
            == Some(text::trim(clause.skip(i + 2))),
        !text::contains(text::lower(clause), " and "@) && !text::contains(
            text::lower(clause),
            ", "@,
        ) ==> drafts::metadata_rest(clause) == Some(Seq::<char>::empty()),
{
    let list = drafts::CLAUSE_JOINTS@;
    let l = text::lower(clause);
    assert(list.len() == 3);
    assert(list[0] == " and ");
    assert(list[1] == ", then ");
    assert(list[2] == ", ");
    reveal_strlit(" and ");
    reveal_strlit(", then ");
    reveal_strlit(", ");
    text_laws::law_first_needle(l, list);
    if text::first_at(l, " and "@, i) {
        text_lemmas::lemma_find_is(l, " and "@, i);
        assert(text::contains(l, list[0]@));
    }
    if text::first_at(l, ", then "@, i) {
        text_lemmas::lemma_find_is(l, ", then "@, i);
        assert(text::contains(l, list[1]@));
    }
    if text::first_at(l, ", "@, i) {
        text_lemmas::lemma_find_is(l, ", "@, i);
        assert(text::contains(l, list[2]@));
    }
    assert(", then "@.subrange(0, 2) =~= ", "@);
    lemma_part(l, ", then "@, 0, 2);
}

/// A clause speaks of the draft only where it says to send it or to keep it
/// read-only, or names a title, a repository, a branch or an intent.
pub proof fn law_metadata_clause(clause: Seq<char>)
    ensures
        drafts::is_metadata(clause) <==> {
            let l = text::lower(clause);
            ||| l == "send it"@
            ||| l == "dispatch it"@
            ||| l == "run it"@
            ||| l == "keep it read-only"@
            ||| l == "make it read-only"@
            ||| l == "leave it read-only"@
            ||| drafts::title_hint(clause) is Some
            ||| drafts::repo_hint(clause) is Some
            ||| drafts::branch_hint(clause) is Some
            ||| drafts::demanded_intent(clause) is Some
        },
{
    let list = drafts::BARE_CLAUSES@;
    assert(list.len() == 6);
    assert(list[0] == "send it");
    assert(list[1] == "dispatch it");
    assert(list[2] == "run it");
    assert(list[3] == "keep it read-only");
    assert(list[4] == "make it read-only");
    assert(list[5] == "leave it read-only");
}

/// A clause that does not speak of the draft is an instruction as it stands; one
/// that only speaks of it is none; and no instruction speaks of the draft alone.
pub proof fn law_instruction_of_clause(raw: Seq<char>)
    ensures
        text::is_blank(raw) ==> drafts::clause_instruction(raw) is None,
        !text::is_blank(raw) && drafts::metadata_rest(text::trim(raw)) is None
            && !drafts::is_metadata(text::trim(raw)) ==> drafts::clause_instruction(raw) == Some(
            text::trim(raw),
        ),
        drafts::metadata_rest(text::trim(raw)) is None && drafts::is_metadata(text::trim(raw))
            ==> drafts::clause_instruction(raw) is None,
        drafts::metadata_rest(text::trim(raw)) matches Some(rest) ==> !text::is_blank(raw) ==> (
        drafts::clause_instruction(raw) is Some <==> rest.len() > 0 && !drafts::is_metadata(rest)),
        drafts::clause_instruction(raw) matches Some(said) ==> said.len() > 0
            && !drafts::is_metadata(said),
{
}

/// The instructions of a message are those of its clauses, in their order.
pub proof fn law_instructions(a: text::Texts, b: text::Texts, clause: Seq<char>)
    ensures
        drafts::instructions(a + b) == drafts::instructions(a) + drafts::instructions(b),
        drafts::clause_instruction(clause) matches Some(said) ==> drafts::instructions(
            seq![clause],
        ) == seq![said],
        drafts::clause_instruction(clause) is None ==> drafts::instructions(seq![clause])
            == text::Texts::empty(),
    decreases b.len(),
{
    if b.len() == 0 {
        assert(a + b =~= a);
        assert(drafts::instructions(a) + drafts::instructions(b) =~= drafts::instructions(a));
    } else {
        law_instructions(a, b.drop_last(), clause);
        assert((a + b).drop_last() =~= a + b.drop_last());
        assert(drafts::instructions(a + b) =~= drafts::instructions(a) + drafts::instructions(b));
    }
    let one = seq![clause];
    assert(one.drop_last() =~= text::Texts::empty());
    assert(drafts::instructions(text::Texts::empty()) =~= text::Texts::empty());
    if let Some(said) = drafts::clause_instruction(clause) {
        assert(drafts::instructions(one) =~= seq![said]);
    }
}

/// A message of one clause adds just that clause's instruction.
pub proof fn law_update_of_one_clause(s: Seq<char>)
    requires
        forall|i: int|
            0 <= i < s.len() ==> #[trigger] s[i] != '\n' && s[i] != ';' && s[i] != '.',
    ensures
        drafts::clause_instruction(s) is None ==> drafts::request_update(s) is None,
        drafts::clause_instruction(s) matches Some(said) ==> drafts::request_update(s)
            == text::present(Some(said)),
{
    let set = drafts::CLAUSE_ENDS@;
    let f = text::one_of(set);
    assert(set.len() == 3);
    assert(set[0] == '\n' && set[1] == ';' && set[2] == '.');
    assert forall|i: int| 0 <= i < s.len() implies !f(#[trigger] s[i]) by {
        assert(s[i] != '\n' && s[i] != ';' && s[i] != '.');
        if set.contains(s[i]) {
            let k = choose|k: int| 0 <= k < set.len() && set[k] == s[i];
        }
    }
    text_laws::law_split_without_separator(s, f);
    law_instructions(seq![], seq![], s);
    text_laws::law_trimmed(Seq::empty());
}

/// A line break, a semicolon or a stop ends a clause: a message of two clauses
/// that both instruct adds the first, a blank and the second.
#[verifier::rlimit(60)]
pub proof fn law_update_of_two_clauses(a: Seq<char>, end: char, b: Seq<char>)
    requires
        end == '\n' || end == ';' || end == '.',
        forall|i: int|
            0 <= i < a.len() ==> #[trigger] a[i] != '\n' && a[i] != ';' && a[i] != '.',
        forall|i: int|
            0 <= i < b.len() ==> #[trigger] b[i] != '\n' && b[i] != ';' && b[i] != '.',
    ensures
        drafts::clause_instruction(a) is None ==> drafts::request_update(a.push(end) + b)
            == drafts::request_update(b),
        drafts::clause_instruction(b) is None ==> drafts::request_update(a.push(end) + b)
            == drafts::request_update(a),
        drafts::clause_instruction(a) matches Some(x) ==> drafts::clause_instruction(b) matches Some(
            y,
        ) ==> drafts::request_update(a.push(end) + b) == text::present(Some(x + " "@ + y)),
{
    let set = drafts::CLAUSE_ENDS@;
    let f = text::one_of(set);
    assert(set.len() == 3);
    assert(set[0] == '\n' && set[1] == ';' && set[2] == '.');
    assert(set.contains(end));
    assert forall|i: int| 0 <= i < a.len() implies !f(#[trigger] a[i]) by {
        assert(a[i] != '\n' && a[i] != ';' && a[i] != '.');
    }
    assert forall|i: int| 0 <= i < b.len() implies !f(#[trigger] b[i]) by {
        assert(b[i] != '\n' && b[i] != ';' && b[i] != '.');
    }
    text_laws::law_split_without_separator(a, f);
    text_laws::law_split_without_separator(b, f);
    text_laws::law_split_at_separator(a, end, b, f);
    law_instructions(seq![a], seq![b], a);
    law_instructions(seq![a], seq![b], b);
    let ia = drafts::instructions(seq![a]);
    let ib = drafts::instructions(seq![b]);
    if drafts::clause_instruction(a) is None {
        assert(ia + ib =~= ib);
    }
    if drafts::clause_instruction(b) is None {
        assert(ia + ib =~= ia);
    }
    if drafts::clause_instruction(a) is Some && drafts::clause_instruction(b) is Some {
        text_laws::law_join(ia, ib, ia[0], " "@);
        text_laws::law_join(ia, ib, ib[0], " "@);
    }
}

/// A name, a title and an added instruction are never blank and have no spaces
/// around them.
pub proof fn law_hints_are_text(s: Seq<char>, keyword: Seq<char>)
    ensures
        drafts::quoted_hint(s, keyword) matches Some(x) ==> x.len() > 0 && text::trim(x) == x,
        drafts::keyword_hint(s, keyword) matches Some(x) ==> x.len() > 0 && text::trim(x) == x,
        drafts::phrase_hint(s, keyword) matches Some(x) ==> x.len() > 0 && text::trim(x) == x,
        drafts::repo_hint(s) matches Some(x) ==> x.len() > 0 && text::trim(x) == x,
        drafts::branch_hint(s) matches Some(x) ==> x.len() > 0 && text::trim(x) == x,
        drafts::title_hint(s) matches Some(x) ==> x.len() > 0 && text::trim(x) == x,
        drafts::request_update(s) matches Some(x) ==> x.len() > 0 && text::trim(x) == x,
{
    assert forall|v: Seq<char>| (#[trigger] text::present(Some(v))) is Some implies text::present(
        Some(v),
    ).unwrap().len() > 0 && text::trim(text::present(Some(v)).unwrap()) == text::present(
        Some(v),
    ).unwrap() by {
        text_lemmas::lemma_trim_idempotent(v, text::space());
    }
}

} // verus!
