//! What holds of the stanza parser for every text.

use crate::modules::compats::repo::apt::{
    Field, LineKind, ParserView, RepoInfoView, SignatureView, StanzaView, assigned, classify,
    closed, empty_repo, extended, field_named, initial, parse, run, step, with_key,
};
use crate::text::{
    all_tokens, first_index_of, is_plain_line, is_space, joined, leading_spaces,
    lemma_first_index_of, lemma_first_index_of_is_first, lemma_joined_chars,
    lemma_lines_of_unlines, lemma_spaces_bounded, lemma_tokens_are_tokens, lemma_tokens_concat,
    lemma_tokens_of_joined, lemma_tokens_trim, lemma_tokens_trim_start, lines, tokens, trim,
    trim_start, unlines,
};
use vstd::prelude::*;

verus! {

/// Whether `line` holds a key or continues one.
pub open spec fn is_content(line: Seq<char>) -> bool {
    classify(line) == LineKind::Continuation || classify(line) == LineKind::KeyValue
}

/// Whether a stanza is open after `lines`: a line with content was read,
/// and no blank line since.
pub open spec fn stanza_open(lines: Seq<Seq<char>>) -> bool
    decreases lines.len(),
{
    if lines.len() == 0 {
        false
    } else {
        match classify(lines.last()) {
            LineKind::Blank => false,
            LineKind::Comment => stanza_open(lines.drop_last()),
            _ => true,
        }
    }
}

/// The number of stanzas that begin within `lines`. A stanza begins with a
/// line with content that stands where none is open; a blank line or the end
/// of the text ends it.
pub open spec fn stanza_count(lines: Seq<Seq<char>>) -> nat
    decreases lines.len(),
{
    if lines.len() == 0 {
        0
    } else if is_content(lines.last()) && !stanza_open(lines.drop_last()) {
        stanza_count(lines.drop_last()) + 1
    } else {
        stanza_count(lines.drop_last())
    }
}

/// The key of a line that holds one.
pub open spec fn key_of(line: Seq<char>) -> Seq<char> {
    trim(line.take(first_index_of(line, ':')->0))
}

/// The value of a line that holds a key.
pub open spec fn value_of(line: Seq<char>) -> Seq<char> {
    trim(line.skip(first_index_of(line, ':')->0 + 1))
}

/// Whether `line` holds a key and a colon after it.
pub open spec fn is_key_line(line: Seq<char>) -> bool {
    classify(line) == LineKind::KeyValue && first_index_of(line, ':') is Some
}

/// Whether every item of every list of `repo` is a token.
pub open spec fn well_formed(repo: RepoInfoView) -> bool {
    &&& all_tokens(repo.architectures)
    &&& all_tokens(repo.types)
    &&& all_tokens(repo.uris)
    &&& all_tokens(repo.suites)
    &&& all_tokens(repo.components)
}

/// Whether every descriptor that `st` holds is well formed.
pub open spec fn state_well_formed(st: ParserView) -> bool {
    &&& forall|i: int| 0 <= i < st.repos.len() ==> well_formed(#[trigger] st.repos[i])
    &&& match st.stanza {
        StanzaView::Idle => true,
        StanzaView::InStanza { repo, last_key } => well_formed(repo),
    }
}

/// While the lines are read, a descriptor is open exactly where a stanza
/// is, and the descriptors closed and open are as many as the stanzas begun.
pub proof fn lemma_run_counts_stanzas(lines: Seq<Seq<char>>)
    requires
        run(lines) is Ok,
    ensures
        (run(lines)->Ok_0.stanza is InStanza) == stanza_open(lines),
        run(lines)->Ok_0.repos.len() + (if stanza_open(lines) {
            1nat
        } else {
            0nat
        }) == stanza_count(lines),
    decreases lines.len(),
{
    if lines.len() > 0 {
        lemma_run_counts_stanzas(lines.drop_last());
    }
}

/// The descriptors that come out are as many as the stanzas of the text.
pub proof fn lemma_one_descriptor_per_stanza(content: Seq<char>)
    requires
        parse(content) is Ok,
    ensures
        parse(content)->Ok_0.len() == stanza_count(lines(content)),
{
    lemma_run_counts_stanzas(lines(content));
}

/// Reading a line keeps the descriptors well formed.
pub proof fn lemma_step_well_formed(st: ParserView, line: Seq<char>)
    requires
        state_well_formed(st),
        step(st, line) is Ok,
    ensures
        state_well_formed(step(st, line)->Ok_0),
{
    let next = step(st, line)->Ok_0;
    match classify(line) {
        LineKind::Blank => {
            match st.stanza {
                StanzaView::Idle => {},
                StanzaView::InStanza { repo, last_key } => {
                    assert forall|i: int| 0 <= i < next.repos.len() implies well_formed(
                        #[trigger] next.repos[i],
                    ) by {
                        if i < st.repos.len() {
                            assert(next.repos[i] == st.repos[i]);
                        }
                    }
                },
            }
        },
        LineKind::Comment => {},
        LineKind::Continuation => {
            let repo = st.stanza->repo;
            let more = tokens(trim_start(line));
            lemma_tokens_are_tokens(trim_start(line));
            lemma_all_tokens_concat(repo.architectures, more);
            lemma_all_tokens_concat(repo.types, more);
            lemma_all_tokens_concat(repo.uris, more);
            lemma_all_tokens_concat(repo.suites, more);
            lemma_all_tokens_concat(repo.components, more);
        },
        LineKind::KeyValue => {
            lemma_tokens_are_tokens(value_of(line));
        },
    }
}

/// Two lists of tokens make a list of tokens.
pub proof fn lemma_all_tokens_concat(a: Seq<Seq<char>>, b: Seq<Seq<char>>)
    requires
        all_tokens(a),
        all_tokens(b),
    ensures
        all_tokens(a + b),
{
    assert forall|i: int| 0 <= i < (a + b).len() implies crate::text::is_token(
        #[trigger] (a + b)[i],
    ) by {
        if i < a.len() {
            assert((a + b)[i] == a[i]);
        } else {
            assert((a + b)[i] == b[i - a.len()]);
        }
    }
}

/// Every descriptor that the parser holds is well formed.
pub proof fn lemma_run_well_formed(lines: Seq<Seq<char>>)
    requires
        run(lines) is Ok,
    ensures
        state_well_formed(run(lines)->Ok_0),
    decreases lines.len(),
{
    if lines.len() > 0 {
        lemma_run_well_formed(lines.drop_last());
        lemma_step_well_formed(run(lines.drop_last())->Ok_0, lines.last());
    }
}

/// Every list item of every descriptor that comes out is a token: it has
/// at least one character and no whitespace.
pub proof fn lemma_parse_well_formed(content: Seq<char>)
    requires
        parse(content) is Ok,
    ensures
        forall|i: int|
            0 <= i < parse(content)->Ok_0.len() ==> well_formed(#[trigger] parse(content)->Ok_0[i]),
{
    lemma_run_well_formed(lines(content));
    let st = run(lines(content))->Ok_0;
    let out = closed(st).repos;
    assert forall|i: int| 0 <= i < out.len() implies well_formed(#[trigger] out[i]) by {
        if i < st.repos.len() {
            assert(out[i] == st.repos[i]);
        }
    }
}

/// A line with a key, with an indented line appended to it, is a line with
/// the same key.
pub proof fn lemma_key_line_append(line: Seq<char>, more: Seq<char>)
    requires
        is_key_line(line),
    ensures
        is_key_line(line + more),
        first_index_of(line + more, ':') == first_index_of(line, ':'),
        key_of(line + more) == key_of(line),
        (line + more).skip(first_index_of(line, ':')->0 + 1) == line.skip(
            first_index_of(line, ':')->0 + 1,
        ) + more,
{
    let whole = line + more;
    let k = first_index_of(line, ':')->0;
    lemma_spaces_bounded(line);
    assert(line.len() > 0);
    assert(leading_spaces(line) == 0);
    assert(trim_start(line) =~= line);
    assert(whole[0] == line[0]);
    assert(leading_spaces(whole) == 0);
    assert(trim_start(whole) =~= whole);
    lemma_first_index_of_is_first(line, ':');
    assert forall|i: int| 0 <= i < k implies #[trigger] whole[i] != ':' by {
        assert(whole[i] == line[i]);
    }
    assert(whole[k] == line[k]);
    lemma_first_index_of(whole, ':', k);
    assert(whole.take(k) =~= line.take(k));
    assert(whole.skip(k + 1) =~= line.skip(k + 1) + more);
}

/// A value that is continued on an indented line gives a list field the
/// tokens that the two lines give it when written as one. The reference to
/// a signing key is left out: a continuation does not extend its path.
pub proof fn lemma_continuation_joins(st: ParserView, line: Seq<char>, more: Seq<char>)
    requires
        is_key_line(line),
        classify(more) == LineKind::Continuation,
        field_named(key_of(line)) != Field::SignedBy,
    ensures
        step(st, line) is Ok,
        step(step(st, line)->Ok_0, more) == step(st, line + more),
{
    lemma_key_line_append(line, more);
    let k = first_index_of(line, ':')->0;
    let v = line.skip(k + 1);
    lemma_spaces_bounded(more);
    assert(more.len() > 0);
    lemma_tokens_trim(v + more);
    lemma_tokens_concat(v, more);
    lemma_tokens_trim(v);
    lemma_tokens_trim_start(more);
    assert(tokens(trim(v + more)) == tokens(trim(v)) + tokens(trim_start(more)));
}

/// A key that stands twice in a stanza holds what its second line gives
/// it: the second line replaces, it does not append.
pub proof fn lemma_second_key_replaces(st: ParserView, first: Seq<char>, second: Seq<char>)
    requires
        is_key_line(first),
        is_key_line(second),
        key_of(first) == key_of(second),
    ensures
        step(st, first) is Ok,
        step(step(st, first)->Ok_0, second) == step(st, second),
{
}

/// A line that names a signing key never fails: the descriptor refers to
/// the path, with no bytes; and where the file cannot be read, it stays so.
pub proof fn lemma_signing_key_line(st: ParserView, line: Seq<char>)
    requires
        is_key_line(line),
        field_named(key_of(line)) == Field::SignedBy,
    ensures
        step(st, line) is Ok,
        step(st, line)->Ok_0.stanza is InStanza,
        step(st, line)->Ok_0.stanza->repo.signed_by == Some(
            SignatureView { path: Some(value_of(line)), data: Seq::empty() },
        ),
        with_key(step(st, line)->Ok_0.stanza->repo, None) == step(st, line)->Ok_0.stanza->repo,
{
}

/// A key as it is written: it has no whitespace and no colon, and does not
/// begin a comment.
pub open spec fn is_plain_key(key: Seq<char>) -> bool {
    &&& key.len() > 0
    &&& key[0] != '#'
    &&& forall|i: int| 0 <= i < key.len() ==> !is_space(#[trigger] key[i]) && key[i] != ':'
}

/// The line that gives `key` the list `items`.
pub open spec fn field_line(key: Seq<char>, items: Seq<Seq<char>>) -> Seq<char> {
    key + seq![':'] + joined(items)
}

/// The lines that give the five lists of `repo`.
pub open spec fn written(repo: RepoInfoView) -> Seq<Seq<char>> {
    seq![
        field_line("Types"@, repo.types),
        field_line("URIs"@, repo.uris),
        field_line("Suites"@, repo.suites),
        field_line("Components"@, repo.components),
        field_line("Architectures"@, repo.architectures),
    ]
}

/// `repo` with its lists alone.
pub open spec fn lists_of(repo: RepoInfoView) -> RepoInfoView {
    RepoInfoView { signed_by: None, ..repo }
}

/// The line that gives a key a list of tokens is read as that key with
/// that list.
pub proof fn lemma_field_line(key: Seq<char>, items: Seq<Seq<char>>)
    requires
        is_plain_key(key),
        all_tokens(items),
    ensures
        is_key_line(field_line(key, items)),
        key_of(field_line(key, items)) == key,
        tokens(value_of(field_line(key, items))) == items,
{
    let line = field_line(key, items);
    let k = key.len() as int;
    assert(line[0] == key[0]);
    assert(leading_spaces(line) == 0);
    assert(trim_start(line) =~= line);
    assert forall|i: int| 0 <= i < k implies #[trigger] line[i] != ':' by {
        assert(line[i] == key[i]);
    }
    assert(line[k] == ':');
    lemma_first_index_of(line, ':', k);
    assert(line.take(k) =~= key);
    assert(leading_spaces(key) == 0);
    assert(trim_start(key) =~= key);
    assert(!is_space(key.last()));
    assert(crate::text::trailing_spaces(key) == 0);
    assert(trim(key) =~= key);
    assert(line.skip(k + 1) =~= joined(items));
    lemma_tokens_trim(joined(items));
    lemma_tokens_of_joined(items);
}

/// The five keys of the lists are plain, and each names its field.
pub proof fn lemma_list_keys()
    ensures
        is_plain_key("Types"@),
        is_plain_key("URIs"@),
        is_plain_key("Suites"@),
        is_plain_key("Components"@),
        is_plain_key("Architectures"@),
        field_named("Types"@) == Field::Types,
        field_named("URIs"@) == Field::Uris,
        field_named("Suites"@) == Field::Suites,
        field_named("Components"@) == Field::Components,
        field_named("Architectures"@) == Field::Architectures,
{
    reveal_strlit("Types");
    reveal_strlit("URIs");
    reveal_strlit("Suites");
    reveal_strlit("Components");
    reveal_strlit("Architectures");
    assert("URIs"@.len() != "Types"@.len());
    assert("Suites"@.len() != "Types"@.len());
    assert("Suites"@.len() != "URIs"@.len());
    assert("Components"@.len() != "Types"@.len());
    assert("Components"@.len() != "URIs"@.len());
    assert("Components"@.len() != "Suites"@.len());
    assert("Architectures"@.len() != "Types"@.len());
    assert("Architectures"@.len() != "URIs"@.len());
    assert("Architectures"@.len() != "Suites"@.len());
    assert("Architectures"@.len() != "Components"@.len());
}

/// Writing the lists of a descriptor as one line for each key and reading
/// the lines again gives one descriptor, with the same lists in the same
/// order.
pub proof fn lemma_round_trip(repo: RepoInfoView)
    requires
        well_formed(repo),
    ensures
        run(written(repo)) is Ok,
        closed(run(written(repo))->Ok_0).repos == seq![lists_of(repo)],
{
    lemma_list_keys();
    let all = written(repo);
    lemma_field_line("Types"@, repo.types);
    lemma_field_line("URIs"@, repo.uris);
    lemma_field_line("Suites"@, repo.suites);
    lemma_field_line("Components"@, repo.components);
    lemma_field_line("Architectures"@, repo.architectures);
    assert(all.take(0) =~= Seq::<Seq<char>>::empty());
    assert(run(all.take(0)) == Ok::<ParserView, Seq<char>>(initial()));
    assert(all.take(1).drop_last() =~= all.take(0));
    let s1 = run(all.take(1))->Ok_0;
    assert(run(all.take(1)) == step(initial(), all[0]));
    assert(all.take(2).drop_last() =~= all.take(1));
    assert(run(all.take(2)) == step(s1, all[1]));
    let s2 = run(all.take(2))->Ok_0;
    assert(all.take(3).drop_last() =~= all.take(2));
    assert(run(all.take(3)) == step(s2, all[2]));
    let s3 = run(all.take(3))->Ok_0;
    assert(all.take(4).drop_last() =~= all.take(3));
    assert(run(all.take(4)) == step(s3, all[3]));
    let s4 = run(all.take(4))->Ok_0;
    assert(all.take(5).drop_last() =~= all.take(4));
    assert(all.take(5) =~= all);
    assert(run(all) == step(s4, all[4]));
    let s5 = run(all)->Ok_0;
    assert(s5.stanza->repo =~= lists_of(repo));
    assert(closed(s5).repos =~= seq![lists_of(repo)]);
}

/// The line that gives a key a list of tokens can be written and read
/// back.
pub proof fn lemma_field_line_plain(key: Seq<char>, items: Seq<Seq<char>>)
    requires
        is_plain_key(key),
        all_tokens(items),
    ensures
        is_plain_line(field_line(key, items)),
{
    let line = field_line(key, items);
    let k = key.len() as int;
    lemma_joined_chars(items);
    assert forall|i: int| 0 <= i < line.len() implies #[trigger] line[i] != '\n' by {
        if i < k {
            assert(line[i] == key[i]);
        } else if i > k {
            assert(line[i] == joined(items)[i - k - 1]);
        }
    }
    if items.len() > 0 {
        assert(line.last() == joined(items).last());
    } else {
        assert(joined(items) =~= Seq::<char>::empty());
        assert(line.last() == ':');
    }
}

/// Writing the lists of a descriptor as text, one line for each key, and
/// reading the text again gives one descriptor, with the same lists in the
/// same order.
pub proof fn lemma_round_trip_text(repo: RepoInfoView)
    requires
        well_formed(repo),
    ensures
        parse(unlines(written(repo))) == Ok::<Seq<RepoInfoView>, Seq<char>>(seq![lists_of(repo)]),
{
    lemma_list_keys();
    lemma_field_line_plain("Types"@, repo.types);
    lemma_field_line_plain("URIs"@, repo.uris);
    lemma_field_line_plain("Suites"@, repo.suites);
    lemma_field_line_plain("Components"@, repo.components);
    lemma_field_line_plain("Architectures"@, repo.architectures);
    lemma_lines_of_unlines(written(repo));
    lemma_round_trip(repo);
}

} // verus!
