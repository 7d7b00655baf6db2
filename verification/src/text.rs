//! Character-level text primitives: whitespace, trimming, whitespace-separated
//! tokens and line splitting, each with its mathematical definition.

use vstd::prelude::*;

verus! {

/// Whether `c` is whitespace as Unicode defines it (`White_Space`).
pub open spec fn is_space(c: char) -> bool {
    let n = c as u32;
    ||| 0x09 <= n <= 0x0D
    ||| n == 0x20
    ||| n == 0x85
    ||| n == 0xA0
    ||| n == 0x1680
    ||| 0x2000 <= n <= 0x200A
    ||| n == 0x2028
    ||| n == 0x2029
    ||| n == 0x202F
    ||| n == 0x205F
    ||| n == 0x3000
}

/// Number of whitespace characters at the front of `s`.
pub open spec fn leading_spaces(s: Seq<char>) -> nat
    decreases s.len(),
{
    if s.len() > 0 && is_space(s[0]) {
        1 + leading_spaces(s.drop_first())
    } else {
        0
    }
}

/// Number of whitespace characters at the back of `s`.
pub open spec fn trailing_spaces(s: Seq<char>) -> nat
    decreases s.len(),
{
    if s.len() > 0 && is_space(s.last()) {
        1 + trailing_spaces(s.drop_last())
    } else {
        0
    }
}

/// `s` without its leading whitespace.
pub open spec fn trim_start(s: Seq<char>) -> Seq<char> {
    s.skip(leading_spaces(s) as int)
}

/// `s` without its trailing whitespace.
pub open spec fn trim_end(s: Seq<char>) -> Seq<char> {
    s.take(s.len() - trailing_spaces(s))
}

/// `s` without leading and trailing whitespace.
pub open spec fn trim(s: Seq<char>) -> Seq<char> {
    trim_end(trim_start(s))
}

/// State of a left-to-right scan for tokens: the tokens already closed by a
/// whitespace character, and the characters of the token still being read.
pub open spec fn scan_tokens(s: Seq<char>) -> (Seq<Seq<char>>, Seq<char>)
    decreases s.len(),
{
    if s.len() == 0 {
        (Seq::empty(), Seq::empty())
    } else {
        let (done, word) = scan_tokens(s.drop_last());
        if !is_space(s.last()) {
            (done, word.push(s.last()))
        } else if word.len() > 0 {
            (done.push(word), Seq::empty())
        } else {
            (done, word)
        }
    }
}

/// The maximal whitespace-free runs of `s`, in order.
pub open spec fn tokens(s: Seq<char>) -> Seq<Seq<char>> {
    let (done, word) = scan_tokens(s);
    if word.len() > 0 {
        done.push(word)
    } else {
        done
    }
}

/// A line as it is handed out: a carriage return directly before the line
/// feed belongs to the terminator.
pub open spec fn strip_cr(s: Seq<char>) -> Seq<char> {
    if s.len() > 0 && s.last() == '\r' {
        s.drop_last()
    } else {
        s
    }
}

/// State of a left-to-right scan for lines: the lines already terminated by
/// a line feed, and the characters read since.
pub open spec fn scan_lines(s: Seq<char>) -> (Seq<Seq<char>>, Seq<char>)
    decreases s.len(),
{
    if s.len() == 0 {
        (Seq::empty(), Seq::empty())
    } else {
        let (done, rest) = scan_lines(s.drop_last());
        if s.last() == '\n' {
            (done.push(strip_cr(rest)), Seq::empty())
        } else {
            (done, rest.push(s.last()))
        }
    }
}

/// The lines of `s`. Lines end at `\n` or `\r\n`; the terminator is not part
/// of the line, and a last line needs none.
pub open spec fn lines(s: Seq<char>) -> Seq<Seq<char>> {
    let (done, rest) = scan_lines(s);
    if rest.len() > 0 {
        done.push(rest)
    } else {
        done
    }
}

/// Index of the first `c` in `s`, if there is one.
pub open spec fn first_index_of(s: Seq<char>, c: char) -> Option<int>
    decreases s.len(),
{
    if s.len() == 0 {
        None
    } else if s[0] == c {
        Some(0)
    } else {
        match first_index_of(s.drop_first(), c) {
            Some(k) => Some(k + 1),
            None => None,
        }
    }
}

/// The character sequences of a list of strings.
pub open spec fn texts(v: Seq<String>) -> Seq<Seq<char>> {
    Seq::new(v.len(), |i: int| v[i]@)
}

/// The character sequences of a list of character vectors.
pub open spec fn rows(v: Seq<Vec<char>>) -> Seq<Seq<char>> {
    Seq::new(v.len(), |i: int| v[i]@)
}

/// `leading_spaces` is the index of the first character that is no
/// whitespace, or the length where there is none.
pub proof fn lemma_leading_spaces(s: Seq<char>, k: int)
    requires
        0 <= k <= s.len(),
        forall|i: int| 0 <= i < k ==> is_space(#[trigger] s[i]),
        k == s.len() || !is_space(s[k]),
    ensures
        leading_spaces(s) == k,
    decreases k,
{
    if k > 0 {
        let t = s.drop_first();
        assert forall|i: int| 0 <= i < k - 1 implies is_space(#[trigger] t[i]) by {
            assert(t[i] == s[i + 1]);
        }
        lemma_leading_spaces(t, k - 1);
    }
}

/// `trailing_spaces` counts back to the last character that is no
/// whitespace.
pub proof fn lemma_trailing_spaces(s: Seq<char>, k: int)
    requires
        0 <= k <= s.len(),
        forall|i: int| s.len() - k <= i < s.len() ==> is_space(#[trigger] s[i]),
        k == s.len() || !is_space(s[s.len() - k - 1]),
    ensures
        trailing_spaces(s) == k,
    decreases k,
{
    if k > 0 {
        let t = s.drop_last();
        assert forall|i: int| t.len() - (k - 1) <= i < t.len() implies is_space(#[trigger] t[i]) by {
            assert(t[i] == s[i]);
        }
        lemma_trailing_spaces(t, k - 1);
    }
}

/// `first_index_of` is the least index that holds `c`.
pub proof fn lemma_first_index_of(s: Seq<char>, c: char, k: int)
    requires
        0 <= k <= s.len(),
        forall|i: int| 0 <= i < k ==> #[trigger] s[i] != c,
        k == s.len() || s[k] == c,
    ensures
        first_index_of(s, c) == (if k == s.len() { None } else { Some(k) }),
    decreases k,
{
    if k > 0 {
        let t = s.drop_first();
        assert forall|i: int| 0 <= i < k - 1 implies #[trigger] t[i] != c by {
            assert(t[i] == s[i + 1]);
        }
        lemma_first_index_of(t, c, k - 1);
    }
}

/// The converse: where `first_index_of` finds `c`, it stands there, and
/// nowhere before; where it finds none, there is none.
pub proof fn lemma_first_index_of_is_first(s: Seq<char>, c: char)
    ensures
        match first_index_of(s, c) {
            Some(k) => 0 <= k < s.len() && s[k] == c && forall|i: int|
                0 <= i < k ==> #[trigger] s[i] != c,
            None => forall|i: int| 0 <= i < s.len() ==> #[trigger] s[i] != c,
        },
    decreases s.len(),
{
    if s.len() > 0 && s[0] != c {
        let t = s.drop_first();
        lemma_first_index_of_is_first(t, c);
        match first_index_of(t, c) {
            Some(k) => {
                assert forall|i: int| 0 <= i < k + 1 implies #[trigger] s[i] != c by {
                    if i > 0 {
                        assert(s[i] == t[i - 1]);
                    }
                }
            },
            None => {
                assert forall|i: int| 0 <= i < s.len() implies #[trigger] s[i] != c by {
                    if i > 0 {
                        assert(s[i] == t[i - 1]);
                    }
                }
            },
        }
    }
}

/// A token: at least one character, none of them whitespace.
pub open spec fn is_token(t: Seq<char>) -> bool {
    t.len() > 0 && forall|i: int| 0 <= i < t.len() ==> !is_space(#[trigger] t[i])
}

/// Whether every item of `ts` is a token.
pub open spec fn all_tokens(ts: Seq<Seq<char>>) -> bool {
    forall|i: int| 0 <= i < ts.len() ==> is_token(#[trigger] ts[i])
}

/// The tokens of `ts` written out, a space before each.
pub open spec fn joined(ts: Seq<Seq<char>>) -> Seq<char>
    decreases ts.len(),
{
    if ts.len() == 0 {
        Seq::empty()
    } else {
        joined(ts.drop_last()) + seq![' '] + ts.last()
    }
}

/// What a scan has closed are tokens, and what it holds has no whitespace.
pub proof fn lemma_scan_tokens_are_tokens(s: Seq<char>)
    ensures
        all_tokens(scan_tokens(s).0),
        forall|i: int| 0 <= i < scan_tokens(s).1.len() ==> !is_space(#[trigger] scan_tokens(s).1[i]),
    decreases s.len(),
{
    if s.len() > 0 {
        lemma_scan_tokens_are_tokens(s.drop_last());
    }
}

/// Every item of `tokens(s)` is a token.
pub proof fn lemma_tokens_are_tokens(s: Seq<char>)
    ensures
        all_tokens(tokens(s)),
{
    lemma_scan_tokens_are_tokens(s);
}

/// A scan that holds no open token goes on as if it began anew.
pub proof fn lemma_scan_tokens_append(x: Seq<char>, y: Seq<char>)
    requires
        scan_tokens(x).1.len() == 0,
    ensures
        scan_tokens(x + y) == (scan_tokens(x).0 + scan_tokens(y).0, scan_tokens(y).1),
    decreases y.len(),
{
    if y.len() == 0 {
        assert(x + y =~= x);
        assert(scan_tokens(x).0 + scan_tokens(y).0 =~= scan_tokens(x).0);
        assert(scan_tokens(x).1 =~= scan_tokens(y).1);
    } else {
        assert((x + y).drop_last() =~= x + y.drop_last());
        assert((x + y).last() == y.last());
        lemma_scan_tokens_append(x, y.drop_last());
        let (d, w) = scan_tokens(y.drop_last());
        assert((scan_tokens(x).0 + d).push(w) =~= scan_tokens(x).0 + d.push(w));
    }
}

/// After a whitespace character a scan holds no open token, and has closed
/// the tokens of what it read.
pub proof fn lemma_scan_tokens_after_space(x: Seq<char>, c: char)
    requires
        is_space(c),
    ensures
        scan_tokens(x.push(c)) == (tokens(x), Seq::<char>::empty()),
        tokens(x.push(c)) == tokens(x),
{
    assert(x.push(c).drop_last() =~= x);
    assert(scan_tokens(x).1.len() == 0 ==> scan_tokens(x).1 =~= Seq::<char>::empty());
}

/// Text that begins with whitespace adds its tokens to those before it.
pub proof fn lemma_tokens_concat(x: Seq<char>, y: Seq<char>)
    requires
        y.len() > 0,
        is_space(y[0]),
    ensures
        tokens(x + y) == tokens(x) + tokens(y),
        tokens(y) == tokens(y.drop_first()),
{
    let rest = y.drop_first();
    let e = Seq::<char>::empty();
    lemma_scan_tokens_after_space(x, y[0]);
    lemma_scan_tokens_append(x.push(y[0]), rest);
    assert(x.push(y[0]) + rest =~= x + y);
    lemma_scan_tokens_after_space(e, y[0]);
    lemma_scan_tokens_append(e.push(y[0]), rest);
    assert(e.push(y[0]) + rest =~= y);
    assert(tokens(e) =~= Seq::<Seq<char>>::empty());
    assert(tokens(e) + scan_tokens(rest).0 =~= scan_tokens(rest).0);
    let (d, w) = scan_tokens(rest);
    if w.len() > 0 {
        assert((tokens(x) + d).push(w) =~= tokens(x) + d.push(w));
    }
}

/// The whitespace at either end is part of the text.
pub proof fn lemma_spaces_bounded(s: Seq<char>)
    ensures
        leading_spaces(s) <= s.len(),
        trailing_spaces(s) <= s.len(),
    decreases s.len(),
{
    if s.len() > 0 {
        lemma_spaces_bounded(s.drop_first());
        lemma_spaces_bounded(s.drop_last());
    }
}

/// Leading whitespace holds no token.
pub proof fn lemma_tokens_trim_start(s: Seq<char>)
    ensures
        tokens(trim_start(s)) == tokens(s),
    decreases s.len(),
{
    if s.len() > 0 && is_space(s[0]) {
        lemma_tokens_concat(Seq::<char>::empty(), s);
        lemma_tokens_trim_start(s.drop_first());
        lemma_spaces_bounded(s.drop_first());
        assert(trim_start(s) =~= trim_start(s.drop_first()));
    } else {
        assert(trim_start(s) =~= s);
    }
}

/// Trailing whitespace holds no token.
pub proof fn lemma_tokens_trim_end(s: Seq<char>)
    ensures
        tokens(trim_end(s)) == tokens(s),
    decreases s.len(),
{
    if s.len() > 0 && is_space(s.last()) {
        lemma_scan_tokens_after_space(s.drop_last(), s.last());
        assert(s.drop_last().push(s.last()) =~= s);
        lemma_tokens_trim_end(s.drop_last());
        lemma_spaces_bounded(s.drop_last());
        assert(trim_end(s) =~= trim_end(s.drop_last()));
    } else {
        assert(trim_end(s) =~= s);
    }
}

/// Trimming changes no token.
pub proof fn lemma_tokens_trim(s: Seq<char>)
    ensures
        tokens(trim(s)) == tokens(s),
{
    lemma_tokens_trim_end(trim_start(s));
    lemma_tokens_trim_start(s);
}

/// A token scanned after a closed scan is held whole.
pub proof fn lemma_scan_token(t: Seq<char>)
    requires
        forall|i: int| 0 <= i < t.len() ==> !is_space(#[trigger] t[i]),
    ensures
        scan_tokens(t) == (Seq::<Seq<char>>::empty(), t),
    decreases t.len(),
{
    if t.len() > 0 {
        lemma_scan_token(t.drop_last());
        assert(t.drop_last().push(t.last()) =~= t);
    } else {
        assert(t =~= Seq::<char>::empty());
    }
}

/// Tokens that are written out with a space before each are read back as
/// they were, in their order.
pub proof fn lemma_tokens_of_joined(ts: Seq<Seq<char>>)
    requires
        all_tokens(ts),
    ensures
        tokens(joined(ts)) == ts,
    decreases ts.len(),
{
    if ts.len() == 0 {
        assert(tokens(joined(ts)) =~= ts);
    } else {
        let head = ts.drop_last();
        let t = ts.last();
        assert(all_tokens(head)) by {
            assert forall|i: int| 0 <= i < head.len() implies is_token(#[trigger] head[i]) by {
                assert(head[i] == ts[i]);
            }
        }
        lemma_tokens_of_joined(head);
        assert(is_token(t));
        lemma_scan_tokens_after_space(joined(head), ' ');
        lemma_scan_token(t);
        lemma_scan_tokens_append(joined(head).push(' '), t);
        assert(joined(head).push(' ') + t =~= joined(ts));
        assert(tokens(joined(ts)) =~= head.push(t));
        assert(head.push(t) =~= ts);
    }
}

/// What is written of tokens is spaces and the characters of the tokens,
/// and ends with the last token.
pub proof fn lemma_joined_chars(ts: Seq<Seq<char>>)
    requires
        all_tokens(ts),
    ensures
        forall|i: int|
            0 <= i < joined(ts).len() ==> (#[trigger] joined(ts)[i]) == ' ' || !is_space(
                joined(ts)[i],
            ),
        ts.len() > 0 ==> joined(ts).len() > 0 && !is_space(joined(ts).last()),
    decreases ts.len(),
{
    if ts.len() > 0 {
        let head = ts.drop_last();
        let t = ts.last();
        assert forall|i: int| 0 <= i < head.len() implies is_token(#[trigger] head[i]) by {
            assert(head[i] == ts[i]);
        }
        lemma_joined_chars(head);
        assert(is_token(t));
        let j = joined(ts);
        let n = joined(head).len() as int;
        assert forall|i: int| 0 <= i < j.len() implies (#[trigger] j[i]) == ' ' || !is_space(
            j[i],
        ) by {
            if i < n {
                assert(j[i] == joined(head)[i]);
            } else if i > n {
                assert(j[i] == t[i - n - 1]);
            }
        }
        assert(j.last() == t.last());
    }
}

/// The lines of `ls` written out, a line feed after each.
pub open spec fn unlines(ls: Seq<Seq<char>>) -> Seq<char>
    decreases ls.len(),
{
    if ls.len() == 0 {
        Seq::empty()
    } else {
        unlines(ls.drop_last()) + ls.last() + seq!['\n']
    }
}

/// A line that can be written and read back: it holds no line feed and
/// does not end with a carriage return.
pub open spec fn is_plain_line(l: Seq<char>) -> bool {
    &&& forall|i: int| 0 <= i < l.len() ==> #[trigger] l[i] != '\n'
    &&& l.len() > 0 ==> l.last() != '\r'
}

/// A scan for lines that holds no open line goes on as if it began anew.
pub proof fn lemma_scan_lines_append(x: Seq<char>, y: Seq<char>)
    requires
        scan_lines(x).1.len() == 0,
    ensures
        scan_lines(x + y) == (scan_lines(x).0 + scan_lines(y).0, scan_lines(y).1),
    decreases y.len(),
{
    if y.len() == 0 {
        assert(x + y =~= x);
        assert(scan_lines(x).0 + scan_lines(y).0 =~= scan_lines(x).0);
        assert(scan_lines(x).1 =~= scan_lines(y).1);
    } else {
        assert((x + y).drop_last() =~= x + y.drop_last());
        assert((x + y).last() == y.last());
        lemma_scan_lines_append(x, y.drop_last());
        let (d, w) = scan_lines(y.drop_last());
        assert((scan_lines(x).0 + d).push(strip_cr(w)) =~= scan_lines(x).0 + d.push(strip_cr(w)));
    }
}

/// Text without a line feed is one open line.
pub proof fn lemma_scan_line(l: Seq<char>)
    requires
        forall|i: int| 0 <= i < l.len() ==> #[trigger] l[i] != '\n',
    ensures
        scan_lines(l) == (Seq::<Seq<char>>::empty(), l),
    decreases l.len(),
{
    if l.len() > 0 {
        lemma_scan_line(l.drop_last());
        assert(l.drop_last().push(l.last()) =~= l);
    } else {
        assert(l =~= Seq::<char>::empty());
    }
}

/// Plain lines that are written out are read back as they were.
pub proof fn lemma_lines_of_unlines(ls: Seq<Seq<char>>)
    requires
        forall|i: int| 0 <= i < ls.len() ==> is_plain_line(#[trigger] ls[i]),
    ensures
        scan_lines(unlines(ls)) == (ls, Seq::<char>::empty()),
        lines(unlines(ls)) == ls,
    decreases ls.len(),
{
    if ls.len() == 0 {
        assert(scan_lines(unlines(ls)).0 =~= ls);
    } else {
        let head = ls.drop_last();
        let l = ls.last();
        assert forall|i: int| 0 <= i < head.len() implies is_plain_line(#[trigger] head[i]) by {
            assert(head[i] == ls[i]);
        }
        lemma_lines_of_unlines(head);
        assert(is_plain_line(l));
        lemma_scan_line(l);
        let ended = l.push('\n');
        assert(ended.drop_last() =~= l);
        assert(strip_cr(l) == l);
        assert(scan_lines(ended).0 =~= seq![l]);
        lemma_scan_lines_append(unlines(head), ended);
        assert(unlines(head) + ended =~= unlines(ls));
        assert(head + seq![l] =~= ls);
    }
}

/// Whether `c` is whitespace.
pub fn char_is_space(c: char) -> (r: bool)
    ensures
        r == is_space(c),
{
    let n: u32 = c as u32;
    (0x09 <= n && n <= 0x0D) || n == 0x20 || n == 0x85 || n == 0xA0 || n == 0x1680 || (0x2000 <= n
        && n <= 0x200A) || n == 0x2028 || n == 0x2029 || n == 0x202F || n == 0x205F || n == 0x3000
}

/// The characters of `s`.
pub fn chars_of(s: &str) -> (r: Vec<char>)
    ensures
        r@ == s@,
{
    let mut r: Vec<char> = Vec::new();
    for c in it: s.chars()
        invariant
            it.seq() == s@,
            r@ == it.seq().take(it.index() as int),
    {
        r.push(c);
        assert(it.seq().take(it.index() + 1) =~= it.seq().take(it.index() as int).push(c));
    }
    assert(r@ =~= s@);
    r
}

/// The string made of `chars`, through `String::from_iter`, which collects
/// the characters of an iterator in order.
#[verifier::external_body]
fn string_of(chars: Vec<char>) -> (r: String)
    ensures
        r@ == chars@,
{
    String::from_iter(chars)
}

/// End of the leading whitespace of `v[from..to]`.
pub fn skip_spaces(v: &Vec<char>, from: usize, to: usize) -> (k: usize)
    requires
        from <= to <= v.len(),
    ensures
        from <= k <= to,
        k == from + leading_spaces(v@.subrange(from as int, to as int)),
{
    let mut k: usize = from;
    while k < to && char_is_space(v[k])
        invariant
            from <= k <= to <= v.len(),
            forall|i: int| from <= i < k ==> is_space(#[trigger] v@[i]),
        decreases to - k,
    {
        k += 1;
    }
    proof {
        lemma_leading_spaces(v@.subrange(from as int, to as int), k - from);
    }
    k
}

/// Start of the trailing whitespace of `v[from..to]`.
pub fn skip_spaces_back(v: &Vec<char>, from: usize, to: usize) -> (k: usize)
    requires
        from <= to <= v.len(),
    ensures
        from <= k <= to,
        k == to - trailing_spaces(v@.subrange(from as int, to as int)),
{
    let mut k: usize = to;
    while k > from && char_is_space(v[k - 1])
        invariant
            from <= k <= to <= v.len(),
            forall|i: int| k <= i < to ==> is_space(#[trigger] v@[i]),
        decreases k,
    {
        k -= 1;
    }
    proof {
        lemma_trailing_spaces(v@.subrange(from as int, to as int), to - k);
    }
    k
}

/// The bounds of `v[from..to]` without its leading and trailing whitespace.
pub fn trim_bounds(v: &Vec<char>, from: usize, to: usize) -> (r: (usize, usize))
    requires
        from <= to <= v.len(),
    ensures
        from <= r.0 <= r.1 <= to,
        v@.subrange(r.0 as int, to as int) == trim_start(v@.subrange(from as int, to as int)),
        v@.subrange(r.0 as int, r.1 as int) == trim(v@.subrange(from as int, to as int)),
{
    let a = skip_spaces(v, from, to);
    let b = skip_spaces_back(v, a, to);
    proof {
        let s = v@.subrange(from as int, to as int);
        assert(trim_start(s) =~= v@.subrange(a as int, to as int));
        assert(trim(s) =~= v@.subrange(a as int, b as int));
    }
    (a, b)
}

/// `v[from..to]` as a string.
pub fn text_of(v: &Vec<char>, from: usize, to: usize) -> (r: String)
    requires
        from <= to <= v.len(),
    ensures
        r@ == v@.subrange(from as int, to as int),
{
    let mut out: Vec<char> = Vec::new();
    let mut i: usize = from;
    while i < to
        invariant
            from <= i <= to <= v.len(),
            out@ == v@.subrange(from as int, i as int),
        decreases to - i,
    {
        out.push(v[i]);
        assert(v@.subrange(from as int, i + 1) =~= v@.subrange(from as int, i as int).push(
            v@[i as int],
        ));
        i += 1;
    }
    string_of(out)
}

/// Whether `s` and `other` hold the same characters.
pub fn same_text(s: &str, other: &str) -> (r: bool)
    ensures
        r == (s@ == other@),
{
    let n = s.unicode_len();
    if other.unicode_len() != n {
        return false;
    }
    let mut i: usize = 0;
    while i < n
        invariant
            i <= n,
            n == s@.len(),
            n == other@.len(),
            forall|j: int| 0 <= j < i ==> s@[j] == other@[j],
        decreases n - i,
    {
        if s.get_char(i) != other.get_char(i) {
            return false;
        }
        i += 1;
    }
    assert(s@ =~= other@);
    true
}

/// Position of the first `c` in `v`, if there is one.
pub fn find_char(v: &Vec<char>, c: char) -> (r: Option<usize>)
    ensures
        match r {
            Some(k) => first_index_of(v@, c) == Some(k as int) && k < v.len(),
            None => first_index_of(v@, c) is None,
        },
{
    let mut k: usize = 0;
    while k < v.len() && v[k] != c
        invariant
            k <= v.len(),
            forall|i: int| 0 <= i < k ==> #[trigger] v@[i] != c,
        decreases v.len() - k,
    {
        k += 1;
    }
    proof {
        lemma_first_index_of(v@, c, k as int);
    }
    if k < v.len() {
        Some(k)
    } else {
        None
    }
}

/// The whitespace-separated tokens of `v[from..to]`.
pub fn split_tokens(v: &Vec<char>, from: usize, to: usize) -> (r: Vec<String>)
    requires
        from <= to <= v.len(),
    ensures
        texts(r@) == tokens(v@.subrange(from as int, to as int)),
{
    let ghost s = v@.subrange(from as int, to as int);
    let mut done: Vec<String> = Vec::new();
    let mut word: Vec<char> = Vec::new();
    let mut i: usize = from;
    assert(texts(done@) =~= Seq::<Seq<char>>::empty());
    while i < to
        invariant
            from <= i <= to <= v.len(),
            s == v@.subrange(from as int, to as int),
            scan_tokens(s.take(i - from)) == (texts(done@), word@),
        decreases to - i,
    {
        let c = v[i];
        proof {
            let t = s.take(i + 1 - from);
            assert(t.drop_last() =~= s.take(i - from));
            assert(t.last() == c);
        }
        if !char_is_space(c) {
            word.push(c);
        } else if word.len() > 0 {
            let ghost before = done@;
            let text = string_of(word);
            done.push(text);
            word = Vec::new();
            assert(texts(done@) =~= texts(before).push(text@));
        }
        i += 1;
    }
    assert(s.take(i - from) =~= s);
    if word.len() > 0 {
        let ghost before = done@;
        let text = string_of(word);
        done.push(text);
        assert(texts(done@) =~= texts(before).push(text@));
    }
    done
}

/// The lines of `chars`.
pub fn split_lines(chars: &Vec<char>) -> (r: Vec<Vec<char>>)
    ensures
        rows(r@) == lines(chars@),
{
    let mut done: Vec<Vec<char>> = Vec::new();
    let mut rest: Vec<char> = Vec::new();
    let mut i: usize = 0;
    assert(rows(done@) =~= Seq::<Seq<char>>::empty());
    while i < chars.len()
        invariant
            i <= chars.len(),
            scan_lines(chars@.take(i as int)) == (rows(done@), rest@),
        decreases chars.len() - i,
    {
        let c = chars[i];
        proof {
            let t = chars@.take(i + 1);
            assert(t.drop_last() =~= chars@.take(i as int));
            assert(t.last() == c);
        }
        if c == '\n' {
            let ghost before = done@;
            let ghost line = strip_cr(rest@);
            if rest.len() > 0 && rest[rest.len() - 1] == '\r' {
                rest.pop();
            }
            assert(rest@ =~= line);
            done.push(rest);
            rest = Vec::new();
            assert(rows(done@) =~= rows(before).push(line));
        } else {
            rest.push(c);
        }
        i += 1;
    }
    assert(chars@.take(i as int) =~= chars@);
    if rest.len() > 0 {
        let ghost before = done@;
        let ghost line = rest@;
        done.push(rest);
        assert(rows(done@) =~= rows(before).push(line));
    }
    done
}

} // verus!
