//! APT repository sources in the stanza format.
//!
//! A source file is a sequence of stanzas separated by blank lines. A stanza
//! is a sequence of `Key: value` lines, each of which indented lines may
//! continue. Lines whose first visible character is `#` are comments.

use crate::error::Error;
use crate::modules::compats::repo::theorems::{
    lemma_one_descriptor_per_stanza, lemma_parse_well_formed, stanza_count, well_formed,
};
use crate::text::{
    find_char, first_index_of, is_space, lines, rows, skip_spaces, same_text, split_lines,
    split_tokens, chars_of, text_of, texts, tokens, trim, trim_bounds, trim_start,
};
use vstd::prelude::*;

verus! {

/// One stanza: the description of one repository.
#[derive(Debug, Clone, PartialEq, Eq)]
pub struct RepoInfo {
    pub architectures: Vec<String>,
    pub types: Vec<String>,
    pub uris: Vec<String>,
    pub suites: Vec<String>,
    pub components: Vec<String>,
    pub signed_by: Option<Signature>,
}

/// A reference to a signing key: where it lies, and its bytes.
#[derive(Debug, Clone, PartialEq, Eq)]
pub struct Signature {
    pub path: Option<String>,
    pub data: Vec<u8>,
}

/// What a `Signature` holds.
pub struct SignatureView {
    pub path: Option<Seq<char>>,
    pub data: Seq<u8>,
}

/// What a `RepoInfo` holds.
pub struct RepoInfoView {
    pub architectures: Seq<Seq<char>>,
    pub types: Seq<Seq<char>>,
    pub uris: Seq<Seq<char>>,
    pub suites: Seq<Seq<char>>,
    pub components: Seq<Seq<char>>,
    pub signed_by: Option<SignatureView>,
}

impl View for Signature {
    type V = SignatureView;

    open spec fn view(&self) -> SignatureView {
        SignatureView {
            path: match self.path {
                Some(p) => Some(p@),
                None => None,
            },
            data: self.data@,
        }
    }
}

impl View for RepoInfo {
    type V = RepoInfoView;

    open spec fn view(&self) -> RepoInfoView {
        RepoInfoView {
            architectures: texts(self.architectures@),
            types: texts(self.types@),
            uris: texts(self.uris@),
            suites: texts(self.suites@),
            components: texts(self.components@),
            signed_by: match self.signed_by {
                Some(s) => Some(s@),
                None => None,
            },
        }
    }
}

/// What a list of descriptors holds.
pub open spec fn repo_views(v: Seq<RepoInfo>) -> Seq<RepoInfoView> {
    Seq::new(v.len(), |i: int| v[i]@)
}

/// The four kinds of line, tested in this order.
#[derive(Debug, Clone, Copy, PartialEq, Eq)]
pub enum LineKind {
    /// Nothing but whitespace.
    Blank,
    /// The first visible character is `#`.
    Comment,
    /// Begins with whitespace.
    Continuation,
    /// Anything else.
    KeyValue,
}

/// The field that a key names.
#[derive(Debug, Clone, Copy, PartialEq, Eq)]
pub enum Field {
    Types,
    Uris,
    Suites,
    Components,
    Architectures,
    SignedBy,
    /// A key that is read and otherwise ignored.
    Other,
}

/// The kind of `line`.
pub open spec fn classify(line: Seq<char>) -> LineKind {
    let visible = trim_start(line);
    if visible.len() == 0 {
        LineKind::Blank
    } else if visible[0] == '#' {
        LineKind::Comment
    } else if is_space(line[0]) {
        LineKind::Continuation
    } else {
        LineKind::KeyValue
    }
}

/// The field that `key` names; keys are case-sensitive.
pub open spec fn field_named(key: Seq<char>) -> Field {
    if key == "Types"@ {
        Field::Types
    } else if key == "URIs"@ {
        Field::Uris
    } else if key == "Suites"@ {
        Field::Suites
    } else if key == "Components"@ {
        Field::Components
    } else if key == "Architectures"@ {
        Field::Architectures
    } else if key == "Signed-By"@ {
        Field::SignedBy
    } else {
        Field::Other
    }
}

/// The descriptor that a stanza starts from.
pub open spec fn empty_repo() -> RepoInfoView {
    RepoInfoView {
        architectures: Seq::empty(),
        types: Seq::empty(),
        uris: Seq::empty(),
        suites: Seq::empty(),
        components: Seq::empty(),
        signed_by: None,
    }
}

/// `repo` after a `Key: value` line: a list field is replaced by the tokens
/// of the value, the signing key by a reference to the path `value` with no
/// bytes yet.
pub open spec fn assigned(repo: RepoInfoView, field: Field, value: Seq<char>) -> RepoInfoView {
    match field {
        Field::Types => RepoInfoView { types: tokens(value), ..repo },
        Field::Uris => RepoInfoView { uris: tokens(value), ..repo },
        Field::Suites => RepoInfoView { suites: tokens(value), ..repo },
        Field::Components => RepoInfoView { components: tokens(value), ..repo },
        Field::Architectures => RepoInfoView { architectures: tokens(value), ..repo },
        Field::SignedBy => RepoInfoView {
            signed_by: Some(SignatureView { path: Some(value), data: Seq::empty() }),
            ..repo
        },
        Field::Other => repo,
    }
}

/// `repo` after a continuation line: the tokens of `value` are appended to
/// a list field; any other field stays.
pub open spec fn extended(repo: RepoInfoView, field: Field, value: Seq<char>) -> RepoInfoView {
    match field {
        Field::Types => RepoInfoView { types: repo.types + tokens(value), ..repo },
        Field::Uris => RepoInfoView { uris: repo.uris + tokens(value), ..repo },
        Field::Suites => RepoInfoView { suites: repo.suites + tokens(value), ..repo },
        Field::Components => RepoInfoView { components: repo.components + tokens(value), ..repo },
        Field::Architectures => RepoInfoView {
            architectures: repo.architectures + tokens(value),
            ..repo
        },
        Field::SignedBy => repo,
        Field::Other => repo,
    }
}

/// Where the parser stands within the text.
pub enum Stanza {
    /// Between stanzas.
    Idle,
    /// Inside a stanza, after a line with the key `last_key`.
    InStanza { repo: RepoInfo, last_key: String },
}

/// What a `Stanza` holds.
pub enum StanzaView {
    Idle,
    InStanza { repo: RepoInfoView, last_key: Seq<char> },
}

impl View for Stanza {
    type V = StanzaView;

    open spec fn view(&self) -> StanzaView {
        match *self {
            Stanza::Idle => StanzaView::Idle,
            Stanza::InStanza { repo, last_key } => StanzaView::InStanza {
                repo: repo@,
                last_key: last_key@,
            },
        }
    }
}

/// The parser between two lines: the descriptors of the stanzas that are
/// closed, and the stanza that is open, if one is.
pub struct Parser {
    pub repos: Vec<RepoInfo>,
    pub stanza: Stanza,
}

/// What a `Parser` holds.
pub struct ParserView {
    pub repos: Seq<RepoInfoView>,
    pub stanza: StanzaView,
}

impl View for Parser {
    type V = ParserView;

    open spec fn view(&self) -> ParserView {
        ParserView { repos: repo_views(self.repos@), stanza: self.stanza@ }
    }
}

/// The message for an indented line that no key precedes.
pub open spec fn indented_message(line: Seq<char>) -> Seq<char> {
    "Indented line without a preceding key: "@ + line
}

/// The message for a line that should hold a key and has no colon.
pub open spec fn format_message(line: Seq<char>) -> Seq<char> {
    "Invalid key-value pair format: "@ + line
}

/// The parser before the first line.
pub open spec fn initial() -> ParserView {
    ParserView { repos: Seq::empty(), stanza: StanzaView::Idle }
}

/// `st` with the open stanza, if any, closed and appended.
pub open spec fn closed(st: ParserView) -> ParserView {
    match st.stanza {
        StanzaView::Idle => st,
        StanzaView::InStanza { repo, last_key } => ParserView {
            repos: st.repos.push(repo),
            stanza: StanzaView::Idle,
        },
    }
}

/// The parser after `line`, or the message of the error that `line` is.
pub open spec fn step(st: ParserView, line: Seq<char>) -> Result<ParserView, Seq<char>> {
    match classify(line) {
        LineKind::Blank => Ok(closed(st)),
        LineKind::Comment => Ok(st),
        LineKind::Continuation => match st.stanza {
            StanzaView::Idle => Err(indented_message(line)),
            StanzaView::InStanza { repo, last_key } => Ok(
                ParserView {
                    repos: st.repos,
                    stanza: StanzaView::InStanza {
                        repo: extended(repo, field_named(last_key), trim_start(line)),
                        last_key,
                    },
                },
            ),
        },
        LineKind::KeyValue => match first_index_of(line, ':') {
            None => Err(format_message(line)),
            Some(colon) => {
                let key = trim(line.take(colon));
                let value = trim(line.skip(colon + 1));
                let repo = match st.stanza {
                    StanzaView::Idle => empty_repo(),
                    StanzaView::InStanza { repo, last_key } => repo,
                };
                Ok(
                    ParserView {
                        repos: st.repos,
                        stanza: StanzaView::InStanza {
                            repo: assigned(repo, field_named(key), value),
                            last_key: key,
                        },
                    },
                )
            },
        },
    }
}

/// The parser after all of `lines`, or the message of the first error.
pub open spec fn run(lines: Seq<Seq<char>>) -> Result<ParserView, Seq<char>>
    decreases lines.len(),
{
    if lines.len() == 0 {
        Ok(initial())
    } else {
        match run(lines.drop_last()) {
            Ok(st) => step(st, lines.last()),
            Err(message) => Err(message),
        }
    }
}

/// The descriptors that `content` describes, in the order of the text, or
/// the message of the first malformed line. The end of the text closes a
/// stanza as a blank line does.
pub open spec fn parse(content: Seq<char>) -> Result<Seq<RepoInfoView>, Seq<char>> {
    match run(lines(content)) {
        Ok(st) => Ok(closed(st).repos),
        Err(message) => Err(message),
    }
}

/// An error stays: once a prefix of the lines has failed, so has the whole.
pub proof fn lemma_run_error_stays(lines: Seq<Seq<char>>, n: int)
    requires
        0 <= n <= lines.len(),
        run(lines.take(n)) is Err,
    ensures
        run(lines) == run(lines.take(n)),
    decreases lines.len() - n,
{
    if n < lines.len() {
        assert(lines.take(n + 1).drop_last() =~= lines.take(n));
        lemma_run_error_stays(lines, n + 1);
    } else {
        assert(lines.take(n) =~= lines);
    }
}

/// The field that `key` names.
pub fn field_of(key: &str) -> (r: Field)
    ensures
        r == field_named(key@),
{
    if same_text(key, "Types") {
        Field::Types
    } else if same_text(key, "URIs") {
        Field::Uris
    } else if same_text(key, "Suites") {
        Field::Suites
    } else if same_text(key, "Components") {
        Field::Components
    } else if same_text(key, "Architectures") {
        Field::Architectures
    } else if same_text(key, "Signed-By") {
        Field::SignedBy
    } else {
        Field::Other
    }
}

/// The kind of `line`.
pub fn classify_line(line: &Vec<char>) -> (r: LineKind)
    ensures
        r == classify(line@),
{
    let n = line.len();
    let a = skip_spaces(line, 0, n);
    proof {
        assert(line@.subrange(0, n as int) =~= line@);
        assert(trim_start(line@) =~= line@.subrange(a as int, n as int));
    }
    if a == n {
        LineKind::Blank
    } else if line[a] == '#' {
        LineKind::Comment
    } else if a > 0 {
        LineKind::Continuation
    } else {
        LineKind::KeyValue
    }
}

/// `repo` once the file of its signing key was read: the bytes that were
/// read, or none where the file could not be read. A descriptor without a
/// signing key stays as it is.
pub open spec fn with_key(repo: RepoInfoView, read: Option<Seq<u8>>) -> RepoInfoView {
    match repo.signed_by {
        Some(signature) => RepoInfoView {
            signed_by: Some(
                SignatureView {
                    path: signature.path,
                    data: match read {
                        Some(bytes) => bytes,
                        None => Seq::empty(),
                    },
                },
            ),
            ..repo
        },
        None => repo,
    }
}

impl RepoInfo {
    /// The path of the signing key, where the descriptor names one.
    pub fn key_path(&self) -> (r: Option<&String>)
        ensures
            match r {
                Some(p) => self@.signed_by is Some && self@.signed_by->0.path == Some(p@),
                None => self@.signed_by is None || self@.signed_by->0.path is None,
            },
    {
        match &self.signed_by {
            Some(signature) => match &signature.path {
                Some(p) => Some(p),
                None => None,
            },
            None => None,
        }
    }

    /// Attaches the bytes of the signing key. `read` is what reading the
    /// file at the key's path gave; `None`, for a file that could not be
    /// read, leaves the key without bytes.
    pub fn with_key_data(self, read: Option<Vec<u8>>) -> (r: RepoInfo)
        ensures
            r@ == with_key(
                self@,
                match read {
                    Some(bytes) => Some(bytes@),
                    None => None,
                },
            ),
    {
        let mut repo = self;
        match repo.signed_by {
            Some(signature) => {
                let data = match read {
                    Some(bytes) => bytes,
                    None => Vec::new(),
                };
                repo.signed_by = Some(Signature { path: signature.path, data });
                repo
            },
            None => {
                repo.signed_by = None;
                repo
            },
        }
    }

    /// A descriptor with every field empty.
    pub fn empty() -> (r: RepoInfo)
        ensures
            r@ == empty_repo(),
    {
        let r = RepoInfo {
            architectures: Vec::new(),
            types: Vec::new(),
            uris: Vec::new(),
            suites: Vec::new(),
            components: Vec::new(),
            signed_by: None,
        };
        assert(r@.architectures =~= Seq::empty());
        assert(r@.types =~= Seq::empty());
        assert(r@.uris =~= Seq::empty());
        assert(r@.suites =~= Seq::empty());
        assert(r@.components =~= Seq::empty());
        r
    }

    /// The descriptor after a `Key: value` line for `field`, the trimmed
    /// value being `line[from..to]`.
    pub fn assign(self, field: Field, line: &Vec<char>, from: usize, to: usize) -> (r: RepoInfo)
        requires
            from <= to <= line.len(),
        ensures
            r@ == assigned(self@, field, line@.subrange(from as int, to as int)),
    {
        let mut repo = self;
        match field {
            Field::Types => {
                repo.types = split_tokens(line, from, to);
            },
            Field::Uris => {
                repo.uris = split_tokens(line, from, to);
            },
            Field::Suites => {
                repo.suites = split_tokens(line, from, to);
            },
            Field::Components => {
                repo.components = split_tokens(line, from, to);
            },
            Field::Architectures => {
                repo.architectures = split_tokens(line, from, to);
            },
            Field::SignedBy => {
                let path = text_of(line, from, to);
                repo.signed_by = Some(Signature { path: Some(path), data: Vec::new() });
            },
            Field::Other => {},
        }
        repo
    }

    /// The descriptor after a continuation line for `field`, the line
    /// without its indentation being `line[from..to]`.
    pub fn extend(self, field: Field, line: &Vec<char>, from: usize, to: usize) -> (r: RepoInfo)
        requires
            from <= to <= line.len(),
        ensures
            r@ == extended(self@, field, line@.subrange(from as int, to as int)),
    {
        let mut repo = self;
        match field {
            Field::Types => {
                let mut more = split_tokens(line, from, to);
                repo.types.append(&mut more);
                assert(repo@.types =~= self@.types + tokens(
                    line@.subrange(from as int, to as int),
                ));
            },
            Field::Uris => {
                let mut more = split_tokens(line, from, to);
                repo.uris.append(&mut more);
                assert(repo@.uris =~= self@.uris + tokens(line@.subrange(from as int, to as int)));
            },
            Field::Suites => {
                let mut more = split_tokens(line, from, to);
                repo.suites.append(&mut more);
                assert(repo@.suites =~= self@.suites + tokens(
                    line@.subrange(from as int, to as int),
                ));
            },
            Field::Components => {
                let mut more = split_tokens(line, from, to);
                repo.components.append(&mut more);
                assert(repo@.components =~= self@.components + tokens(
                    line@.subrange(from as int, to as int),
                ));
            },
            Field::Architectures => {
                let mut more = split_tokens(line, from, to);
                repo.architectures.append(&mut more);
                assert(repo@.architectures =~= self@.architectures + tokens(
                    line@.subrange(from as int, to as int),
                ));
            },
            Field::SignedBy => {},
            Field::Other => {},
        }
        repo
    }
}

impl Parser {
    /// The parser before the first line.
    pub fn new() -> (r: Parser)
        ensures
            r@ == initial(),
    {
        let r = Parser { repos: Vec::new(), stanza: Stanza::Idle };
        assert(r@.repos =~= Seq::empty());
        r
    }

    /// Closes the open stanza, if one is open.
    pub fn close(self) -> (r: Parser)
        ensures
            r@ == closed(self@),
    {
        let Parser { repos, stanza } = self;
        match stanza {
            Stanza::Idle => Parser { repos, stanza: Stanza::Idle },
            Stanza::InStanza { repo, last_key } => {
                let mut repos = repos;
                repos.push(repo);
                assert(repo_views(repos@) =~= self@.repos.push(repo@));
                Parser { repos, stanza: Stanza::Idle }
            },
        }
    }

    /// Reads one line.
    pub fn feed(self, line: &Vec<char>) -> (r: Result<Parser, Error>)
        ensures
            match r {
                Ok(p) => step(self@, line@) == Ok::<ParserView, Seq<char>>(p@),
                Err(e) => step(self@, line@) == Err::<ParserView, Seq<char>>(e.text()),
            },
    {
        let n = line.len();
        match classify_line(line) {
            LineKind::Blank => Ok(self.close()),
            LineKind::Comment => Ok(self),
            LineKind::Continuation => {
                let Parser { repos, stanza } = self;
                match stanza {
                    Stanza::Idle => {
                        let text = text_of(line, 0, n);
                        assert(line@.subrange(0, n as int) =~= line@);
                        Err(
                            Error::ParseError(
                                String::from_str("Indented line without a preceding key: ").concat(
                                    text.as_str(),
                                ),
                            ),
                        )
                    },
                    Stanza::InStanza { repo, last_key } => {
                        let field = field_of(last_key.as_str());
                        let (a, _b) = trim_bounds(line, 0, n);
                        assert(line@.subrange(0, n as int) =~= line@);
                        let repo = repo.extend(field, line, a, n);
                        Ok(Parser { repos, stanza: Stanza::InStanza { repo, last_key } })
                    },
                }
            },
            LineKind::KeyValue => {
                match find_char(line, ':') {
                    None => {
                        let text = text_of(line, 0, n);
                        assert(line@.subrange(0, n as int) =~= line@);
                        Err(
                            Error::ParseError(
                                String::from_str("Invalid key-value pair format: ").concat(
                                    text.as_str(),
                                ),
                            ),
                        )
                    },
                    Some(colon) => {
                        let Parser { repos, stanza } = self;
                        let (ka, kb) = trim_bounds(line, 0, colon);
                        let key = text_of(line, ka, kb);
                        let (va, vb) = trim_bounds(line, colon + 1, n);
                        assert(line@.skip(colon + 1) =~= line@.subrange(colon + 1, n as int));
                        assert(line@.take(colon as int) =~= line@.subrange(0, colon as int));
                        let field = field_of(key.as_str());
                        let repo = match stanza {
                            Stanza::Idle => RepoInfo::empty(),
                            Stanza::InStanza { repo, last_key } => repo,
                        };
                        let repo = repo.assign(field, line, va, vb);
                        Ok(Parser { repos, stanza: Stanza::InStanza { repo, last_key: key } })
                    },
                }
            },
        }
    }

    /// Ends the text: closes the open stanza and hands out the descriptors.
    pub fn finish(self) -> (r: Vec<RepoInfo>)
        ensures
            repo_views(r@) == closed(self@).repos,
    {
        self.close().repos
    }
}

/// Reads the text of one repository source file. Returns the descriptors of
/// its stanzas in the order of the text, or the error for the first
/// malformed line: an indented line where no key precedes it in its stanza,
/// or a line that should hold a key and has no colon. A signing key comes
/// out as a reference to its path, with no bytes. There is one descriptor
/// for each stanza, and every item of its lists is a token.
pub fn parse_repo_info(content: &str) -> (r: Result<Vec<RepoInfo>, Error>)
    ensures
        match r {
            Ok(repos) => {
                &&& parse(content@) == Ok::<Seq<RepoInfoView>, Seq<char>>(repo_views(repos@))
                &&& repos.len() == stanza_count(lines(content@))
                &&& forall|i: int| 0 <= i < repos.len() ==> well_formed(#[trigger] repos[i]@)
            },
            Err(e) => parse(content@) == Err::<Seq<RepoInfoView>, Seq<char>>(e.text()),
        },
{
    let chars = chars_of(content);
    let all = split_lines(&chars);
    let mut parser = Parser::new();
    let mut i: usize = 0;
    assert(rows(all@).take(0) =~= Seq::<Seq<char>>::empty());
    while i < all.len()
        invariant
            i <= all.len(),
            rows(all@) == lines(content@),
            run(rows(all@).take(i as int)) == Ok::<ParserView, Seq<char>>(parser@),
        decreases all.len() - i,
    {
        proof {
            let t = rows(all@).take(i + 1);
            assert(t.drop_last() =~= rows(all@).take(i as int));
            assert(t.last() == all@[i as int]@);
        }
        match parser.feed(&all[i]) {
            Ok(next) => {
                parser = next;
            },
            Err(e) => {
                proof {
                    lemma_run_error_stays(rows(all@), i + 1);
                }
                return Err(e);
            },
        }
        i += 1;
    }
    assert(rows(all@).take(i as int) =~= rows(all@));
    let repos = parser.finish();
    proof {
        lemma_one_descriptor_per_stanza(content@);
        lemma_parse_well_formed(content@);
        assert forall|i: int| 0 <= i < repos.len() implies well_formed(#[trigger] repos[i]@) by {
            assert(repo_views(repos@)[i] == repos[i]@);
        }
    }
    Ok(repos)
}

/// Reads `content` and appends its descriptors to `all`. Text that is
/// malformed adds nothing, and its error is handed back.
pub fn append_repos(all: &mut Vec<RepoInfo>, content: &str) -> (r: Result<(), Error>)
    ensures
        match r {
            Ok(()) => parse(content@) is Ok && repo_views(final(all)@) == repo_views(old(all)@)
                + parse(content@)->Ok_0,
            Err(e) => parse(content@) == Err::<Seq<RepoInfoView>, Seq<char>>(e.text())
                && *final(all) == *old(all),
        },
{
    match parse_repo_info(content) {
        Ok(mut repos) => {
            let ghost added = repos@;
            all.append(&mut repos);
            assert(repo_views(all@) =~= repo_views(old(all)@) + repo_views(added));
            Ok(())
        },
        Err(e) => Err(e),
    }
}

} // verus!
