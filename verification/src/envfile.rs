//! Variable names, and the `.env` file format: one `NAME=value` per line,
//! with blank lines and `#` comments skipped, an optional `export ` prefix,
//! and one pair of matching quotes stripped from a value.
use vstd::prelude::*;

use crate::envmap::{map_of, EnvMap, Pair};
use crate::error::{EnvzError, ErrorView};
use crate::text::{
    chars_of, decimal, is_ws, push_chars, push_decimal, push_str, string_of, trim, trim_bounds,
    trim_end, trim_start,
};

verus! {

// ---------------------------------------------------------------------------
// Variable names
// ---------------------------------------------------------------------------

/// An ASCII letter.
pub open spec fn is_alpha(c: char) -> bool {
    ('A' <= c && c <= 'Z') || ('a' <= c && c <= 'z')
}

/// An ASCII letter or digit.
pub open spec fn is_alnum(c: char) -> bool {
    is_alpha(c) || ('0' <= c && c <= '9')
}

/// A valid variable name: `[A-Za-z_][A-Za-z0-9_]*`.
pub open spec fn valid_key(k: Seq<char>) -> bool {
    &&& k.len() > 0
    &&& (is_alpha(k[0]) || k[0] == '_')
    &&& forall|i: int| 0 <= i < k.len() ==> is_alnum(#[trigger] k[i]) || k[i] == '_'
}

/// Whether `v[lo..hi]` is a valid variable name.
fn valid_key_at(v: &[char], lo: usize, hi: usize) -> (r: bool)
    requires
        lo <= hi <= v@.len(),
    ensures
        r == valid_key(v@.subrange(lo as int, hi as int)),
{
    let ghost k = v@.subrange(lo as int, hi as int);
    if lo == hi {
        return false;
    }
    let c0 = v[lo];
    if !(('A' <= c0 && c0 <= 'Z') || ('a' <= c0 && c0 <= 'z') || c0 == '_') {
        assert(k[0] == c0);
        return false;
    }
    let mut i = lo;
    while i < hi
        invariant
            lo <= i <= hi <= v@.len(),
            k == v@.subrange(lo as int, hi as int),
            forall|j: int| 0 <= j < i - lo ==> is_alnum(#[trigger] k[j]) || k[j] == '_',
        decreases hi - i,
    {
        let c = v[i];
        assert(k[i - lo] == c);
        if !(('A' <= c && c <= 'Z') || ('a' <= c && c <= 'z') || ('0' <= c && c <= '9') || c
            == '_') {
            return false;
        }
        i = i + 1;
    }
    assert(k[0] == c0);
    true
}

/// Checks that `key` is a valid variable name, `[A-Za-z_][A-Za-z0-9_]*`.
pub fn validate_key(key: &str) -> (r: Result<(), EnvzError>)
    ensures
        r is Ok <==> valid_key(key@),
        r matches Err(e) ==> e@ == ErrorView::InvalidKey(key@),
{
    let v = chars_of(key);
    assert(v@.subrange(0, v@.len() as int) =~= v@);
    if valid_key_at(v.as_slice(), 0, v.len()) {
        Ok(())
    } else {
        Err(EnvzError::InvalidKey(string_of(v.as_slice(), 0, v.len())))
    }
}

// ---------------------------------------------------------------------------
// Lines
// ---------------------------------------------------------------------------

/// The first index `>= start` at which `s` holds `c`, or `s.len()` if none.
pub open spec fn find_char(s: Seq<char>, c: char, start: int) -> int
    decreases s.len() - start,
{
    if start < 0 || start >= s.len() {
        s.len() as int
    } else if s[start] == c {
        start
    } else {
        find_char(s, c, start + 1)
    }
}

/// [`find_char`] is the first occurrence.
pub proof fn lemma_find_char(s: Seq<char>, c: char, start: int, j: int)
    requires
        0 <= start <= j <= s.len(),
        forall|k: int| start <= k < j ==> s[k] != c,
        j == s.len() || s[j] == c,
    ensures
        find_char(s, c, start) == j,
    decreases j - start,
{
    if start < j {
        lemma_find_char(s, c, start + 1, j);
    }
}

/// [`find_char`] from an index inside `s` lies between that index and the end.
pub proof fn lemma_find_char_bounds(s: Seq<char>, c: char, start: int)
    requires
        0 <= start <= s.len(),
    ensures
        start <= find_char(s, c, start) <= s.len(),
    decreases s.len() - start,
{
    if start < s.len() && s[start] != c {
        lemma_find_char_bounds(s, c, start + 1);
    }
}

/// The line of `s` from `start` up to the line break at `e`; a carriage
/// return before a line feed belongs to the break.
pub open spec fn line_at(s: Seq<char>, start: int, e: int) -> Seq<char> {
    if e < s.len() && e > start && s[e - 1] == '\r' {
        s.subrange(start, e - 1)
    } else {
        s.subrange(start, e)
    }
}

/// The lines of `s` from index `start` on (as `str::lines` splits them:
/// at `\n` or `\r\n`, with no empty line after a final line break).
pub open spec fn lines_from(s: Seq<char>, start: int) -> Seq<Seq<char>>
    decreases s.len() - start,
{
    if start < 0 || start >= s.len() {
        Seq::empty()
    } else {
        let e = find_char(s, '\n', start);
        if e < start {
            // Never taken: see `lemma_find_char_bounds`.
            Seq::empty()
        } else if e >= s.len() {
            seq![line_at(s, start, e)]
        } else {
            seq![line_at(s, start, e)] + lines_from(s, e + 1)
        }
    }
}

/// The lines of a text.
pub open spec fn lines(s: Seq<char>) -> Seq<Seq<char>> {
    lines_from(s, 0)
}

// ---------------------------------------------------------------------------
// The meaning of a line
// ---------------------------------------------------------------------------

/// What one line of an env file amounts to.
pub enum LineOutcome {
    /// A blank line or a comment.
    Skip,
    /// A variable and its value.
    Entry(Seq<char>, Seq<char>),
    /// A malformed line, with the message that reports it.
    Fail(Seq<char>),
}

/// The prefix `export ` that a line may carry.
pub open spec fn export_prefix() -> Seq<char> {
    seq!['e', 'x', 'p', 'o', 'r', 't', ' ']
}

/// `t` without a leading `export `.
pub open spec fn strip_export(t: Seq<char>) -> Seq<char> {
    if t.len() >= 7 && t.take(7) == export_prefix() {
        t.skip(7)
    } else {
        t
    }
}

/// `v` without one pair of matching surrounding quotes (`"` or `'`).
pub open spec fn unquote(v: Seq<char>) -> Seq<char> {
    if v.len() >= 2 && ((v[0] == '"' && v.last() == '"') || (v[0] == '\'' && v.last()
        == '\'')) {
        v.subrange(1, v.len() - 1)
    } else {
        v
    }
}

/// The message for line `n` holding no `=`.
pub open spec fn missing_eq_message(n: nat, line: Seq<char>) -> Seq<char> {
    "line "@ + decimal(n) + ": missing '=' in '"@ + line + "'"@
}

/// The message for line `n` naming an invalid variable.
pub open spec fn invalid_key_message(n: nat, key: Seq<char>) -> Seq<char> {
    "line "@ + decimal(n) + ": invalid key '"@ + key + "'"@
}

/// The meaning of `line`, the `n`-th line (counting from 1) of an env file.
pub open spec fn line_outcome(line: Seq<char>, n: nat) -> LineOutcome {
    let t = trim(line);
    if t.len() == 0 || t[0] == '#' {
        LineOutcome::Skip
    } else {
        let u = strip_export(t);
        let i = find_char(u, '=', 0);
        if i >= u.len() {
            LineOutcome::Fail(missing_eq_message(n, u))
        } else {
            let key = trim(u.take(i));
            if !valid_key(key) {
                LineOutcome::Fail(invalid_key_message(n, key))
            } else {
                LineOutcome::Entry(key, unquote(trim(u.skip(i + 1))))
            }
        }
    }
}

/// The pairs of a list of lines, in order, or the message for its first
/// malformed line.
pub open spec fn parse_lines(ls: Seq<Seq<char>>) -> Result<Seq<Pair>, Seq<char>>
    decreases ls.len(),
{
    if ls.len() == 0 {
        Ok(Seq::empty())
    } else {
        match parse_lines(ls.drop_last()) {
            Err(m) => Err(m),
            Ok(ps) => match line_outcome(ls.last(), ls.len()) {
                LineOutcome::Skip => Ok(ps),
                LineOutcome::Entry(k, v) => Ok(ps.push((k, v))),
                LineOutcome::Fail(m) => Err(m),
            },
        }
    }
}

/// The variables an env file defines (a later line overrides an earlier one
/// for the same name), or the message for its first malformed line.
pub open spec fn env_file_map(text: Seq<char>) -> Result<Map<Seq<char>, Seq<char>>, Seq<char>> {
    match parse_lines(lines(text)) {
        Ok(ps) => Ok(map_of(ps)),
        Err(m) => Err(m),
    }
}

/// Every name that parsing collects is a valid variable name.
proof fn lemma_parse_lines_valid(ls: Seq<Seq<char>>)
    ensures
        parse_lines(ls) matches Ok(ps) ==> forall|i: int| 0 <= i < ps.len() ==> valid_key(
            #[trigger] ps[i].0,
        ),
    decreases ls.len(),
{
    if ls.len() > 0 {
        lemma_parse_lines_valid(ls.drop_last());
    }
}

/// Every variable an env file defines has a valid name.
pub proof fn lemma_env_file_names_valid(text: Seq<char>, name: Seq<char>)
    requires
        env_file_map(text) matches Ok(m) && m.contains_key(name),
    ensures
        valid_key(name),
{
    lemma_parse_lines_valid(lines(text));
    let ps = parse_lines(lines(text))->Ok_0;
    crate::envmap::lemma_map_of_dom(ps, name);
}

/// Once a prefix of the lines fails, the whole list fails the same way.
proof fn lemma_parse_fail_extends(a: Seq<Seq<char>>, b: Seq<Seq<char>>, m: Seq<char>)
    requires
        parse_lines(a) == Err::<Seq<Pair>, Seq<char>>(m),
    ensures
        parse_lines(a + b) == Err::<Seq<Pair>, Seq<char>>(m),
    decreases b.len(),
{
    if b.len() == 0 {
        assert(a + b =~= a);
    } else {
        lemma_parse_fail_extends(a, b.drop_last(), m);
        assert((a + b).drop_last() =~= a + b.drop_last());
    }
}

/// The characters a variable name may hold, written out: a name is valid
/// exactly when it is not empty, begins with an ASCII letter or `_`, and
/// every character is an ASCII letter, an ASCII digit `0` to `9`, or `_`.
pub proof fn lemma_valid_key_chars(k: Seq<char>)
    ensures
        valid_key(k) <==> {
            &&& k.len() > 0
            &&& ('A' <= k[0] <= 'Z' || 'a' <= k[0] <= 'z' || k[0] == '_')
            &&& forall|i: int|
                0 <= i < k.len() ==> ('A' <= #[trigger] k[i] <= 'Z' || 'a' <= k[i] <= 'z' || '0'
                    <= k[i] <= '9' || k[i] == '_')
        },
{
}

/// A valid name stays valid when any ASCII letter, digit or `_` is
/// appended to it.
pub proof fn lemma_valid_key_extend(k: Seq<char>, c: char)
    requires
        valid_key(k),
        'A' <= c <= 'Z' || 'a' <= c <= 'z' || '0' <= c <= '9' || c == '_',
    ensures
        valid_key(k.push(c)),
{
    assert(k.push(c)[0] == k[0]);
    assert forall|i: int| 0 <= i < k.push(c).len() implies is_alnum(#[trigger] k.push(c)[i])
        || k.push(c)[i] == '_' by {
        if i < k.len() {
            assert(k.push(c)[i] == k[i]);
        }
    }
}

/// No character of a valid name is whitespace, `=` or `#`.
proof fn lemma_valid_key_plain(k: Seq<char>, i: int)
    requires
        valid_key(k),
        0 <= i < k.len(),
    ensures
        !is_ws(k[i]),
        k[i] != '=',
        k[i] != '#',
        k[i] != ' ',
{
    let c = k[i];
    assert(is_alnum(c) || c == '_');
    assert(!is_ws(c)) by {
        let u = c as u32;
        assert(('0' <= c && c <= '9') ==> 0x30 <= u && u <= 0x39);
        assert(('A' <= c && c <= 'Z') ==> 0x41 <= u && u <= 0x5A);
        assert(('a' <= c && c <= 'z') ==> 0x61 <= u && u <= 0x7A);
        assert(c == '_' ==> u == 0x5F);
    }
}

/// A line `NAME=rest`, with a valid name and no trailing whitespace, defines
/// that name; its value is `rest`, trimmed, with one pair of matching quotes
/// taken off.
pub proof fn lemma_assignment_line(k: Seq<char>, rest: Seq<char>, n: nat)
    requires
        valid_key(k),
        rest.len() == 0 || !is_ws(rest.last()),
    ensures
        line_outcome(k + "="@ + rest, n) == LineOutcome::Entry(k, unquote(trim(rest))),
{
    reveal_strlit("=");
    let line = k + "="@ + rest;
    let m = k.len() as int;
    lemma_valid_key_plain(k, 0);
    lemma_valid_key_plain(k, m - 1);
    assert(line[0] == k[0]);
    assert(line[m] == '=');
    assert(trim_start(line) == line);
    if rest.len() > 0 {
        assert(line.last() == rest.last());
    } else {
        assert(line.last() == '=');
    }
    assert(trim_end(line) == line);
    let t = trim(line);
    assert(t == line);
    // No `export ` prefix: the seventh character would have to be a space.
    if t.len() >= 7 && t.take(7) == export_prefix() {
        assert(t.take(7)[6] == ' ');
        if m > 6 {
            lemma_valid_key_plain(k, 6);
            assert(t[6] == k[6]);
        } else {
            assert(t.take(7)[m] == export_prefix()[m]);
            assert(t[m] == '=');
        }
        assert(false);
    }
    assert(strip_export(t) == t);
    assert forall|j: int| 0 <= j < m implies t[j] != '=' by {
        lemma_valid_key_plain(k, j);
        assert(t[j] == k[j]);
    }
    lemma_find_char(t, '=', 0, m);
    assert(t.take(m) =~= k);
    assert(trim_start(k) == k);
    assert(k.last() == k[m - 1]);
    assert(trim_end(k) == k);
    assert(t.skip(m + 1) =~= rest);
}

/// A quoted value is kept exactly as written between its quotes, the
/// whitespace and quote characters inside included: the line `NAME="q"`
/// (or `NAME='q'`) gives `q`, whatever `q` holds.
pub proof fn lemma_quoted_value_kept(k: Seq<char>, q: Seq<char>, quote: char, n: nat)
    requires
        valid_key(k),
        quote == '"' || quote == '\'',
    ensures
        line_outcome(k + "="@ + (seq![quote] + q + seq![quote]), n) == LineOutcome::Entry(k, q),
{
    let r = seq![quote] + q + seq![quote];
    assert(r[0] == quote);
    assert(r.last() == quote);
    lemma_assignment_line(k, r, n);
    assert(trim_start(r) == r);
    assert(trim_end(r) == r);
    assert(r.subrange(1, r.len() - 1) =~= q);
}

/// An env file of the one line `NAME="q"` (or `NAME='q'`), where `q` holds
/// no line break, defines exactly `NAME`, with the value `q`.
pub proof fn lemma_quoted_value_file(k: Seq<char>, q: Seq<char>, quote: char)
    requires
        valid_key(k),
        quote == '"' || quote == '\'',
        !q.contains('\n'),
    ensures
        env_file_map(k + "="@ + (seq![quote] + q + seq![quote])) == Ok::<
            Map<Seq<char>, Seq<char>>,
            Seq<char>,
        >(map![k => q]),
{
    reveal_strlit("=");
    let text = k + "="@ + (seq![quote] + q + seq![quote]);
    let m = k.len() as int;
    assert forall|j: int| 0 <= j < text.len() implies text[j] != '\n' by {
        if j < m {
            lemma_valid_key_plain(k, j);
            assert(text[j] == k[j]);
        } else if j == m {
            assert(text[j] == '=');
        } else if j == m + 1 || j == text.len() - 1 {
        } else {
            assert(text[j] == q[j - m - 2]);
        }
    }
    lemma_find_char(text, '\n', 0, text.len() as int);
    assert(text.subrange(0, text.len() as int) =~= text);
    assert(lines(text) == seq![text]);
    lemma_quoted_value_kept(k, q, quote, 1);
    let ls = seq![text];
    assert(ls.drop_last() =~= Seq::<Seq<char>>::empty());
    assert(ls.last() == text);
    assert(ls.len() == 1);
    assert(parse_lines(Seq::<Seq<char>>::empty()) == Ok::<Seq<Pair>, Seq<char>>(Seq::<Pair>::empty()));
    let ps = Seq::<Pair>::empty().push((k, q));
    assert(parse_lines(ls) == Ok::<Seq<Pair>, Seq<char>>(ps));
    assert(ps.drop_last() =~= Seq::<Pair>::empty());
    assert(ps.last() == (k, q));
    assert(map_of(Seq::<Pair>::empty()) == Map::<Seq<char>, Seq<char>>::empty());
    assert(map_of(ps) =~= map![k => q]);
}

// ---------------------------------------------------------------------------
// Parsing
// ---------------------------------------------------------------------------

/// The first index in `from..to` at which `v` holds `c`, or `to` if none.
fn find_in(v: &[char], c: char, from: usize, to: usize) -> (j: usize)
    requires
        from <= to <= v@.len(),
    ensures
        from <= j <= to,
        forall|k: int| from <= k < j ==> v@[k] != c,
        j == to || v@[j as int] == c,
{
    let mut j = from;
    while j < to && v[j] != c
        invariant
            from <= j <= to <= v@.len(),
            forall|k: int| from <= k < j ==> v@[k] != c,
        decreases to - j,
    {
        j = j + 1;
    }
    j
}

/// The outcome of the line `v[lo..hi]`, the `n`-th line, computed on the
/// characters of the whole text.
fn classify_line(v: &[char], lo: usize, hi: usize, n: usize) -> (r: Result<
    Option<(String, String)>,
    String,
>)
    requires
        lo <= hi <= v@.len(),
    ensures
        match line_outcome(v@.subrange(lo as int, hi as int), n as nat) {
            LineOutcome::Skip => r == Ok::<Option<(String, String)>, String>(None),
            LineOutcome::Entry(k, val) => r matches Ok(Some(p)) && p.0@ == k && p.1@ == val,
            LineOutcome::Fail(m) => r matches Err(e) && e@ == m,
        },
{
    let ghost line = v@.subrange(lo as int, hi as int);
    let (a, b) = trim_bounds(v, lo, hi);
    let ghost t = v@.subrange(a as int, b as int);
    assert(t == trim(line));
    if a == b || v[a] == '#' {
        return Ok(None);
    }
    // Strip a leading `export `.
    let mut a2 = a;
    if b - a >= 7 && v[a] == 'e' && v[a + 1] == 'x' && v[a + 2] == 'p' && v[a + 3] == 'o' && v[a
        + 4] == 'r' && v[a + 5] == 't' && v[a + 6] == ' ' {
        a2 = a + 7;
        assert(t.take(7) =~= export_prefix());
        assert(t.skip(7) =~= v@.subrange(a2 as int, b as int));
    } else {
        proof {
            if t.len() >= 7 && t.take(7) == export_prefix() {
                assert(t.take(7)[0] == v@[a as int]);
                assert(t.take(7)[1] == v@[a + 1]);
                assert(t.take(7)[2] == v@[a + 2]);
                assert(t.take(7)[3] == v@[a + 3]);
                assert(t.take(7)[4] == v@[a + 4]);
                assert(t.take(7)[5] == v@[a + 5]);
                assert(t.take(7)[6] == v@[a + 6]);
            }
        }
    }
    let ghost u = v@.subrange(a2 as int, b as int);
    assert(u == strip_export(t));
    // Split at the first `=`.
    let eq = find_in(v, '=', a2, b);
    proof {
        assert forall|k: int| 0 <= k < eq - a2 implies u[k] != '=' by {
            assert(u[k] == v@[a2 + k]);
        }
        if eq < b {
            assert(u[eq - a2] == v@[eq as int]);
        }
        lemma_find_char(u, '=', 0, eq - a2);
    }
    if eq == b {
        let mut msg = String::new();
        push_str(&mut msg, "line ");
        push_decimal(&mut msg, n as u64);
        push_str(&mut msg, ": missing '=' in '");
        push_chars(&mut msg, v, a2, b);
        push_str(&mut msg, "'");
        assert(msg@ =~= missing_eq_message(n as nat, u));
        return Err(msg);
    }
    let (ka, kb) = trim_bounds(v, a2, eq);
    assert(u.take(eq - a2) =~= v@.subrange(a2 as int, eq as int));
    let ghost key = v@.subrange(ka as int, kb as int);
    if !valid_key_at(v, ka, kb) {
        let mut msg = String::new();
        push_str(&mut msg, "line ");
        push_decimal(&mut msg, n as u64);
        push_str(&mut msg, ": invalid key '");
        push_chars(&mut msg, v, ka, kb);
        push_str(&mut msg, "'");
        assert(msg@ =~= invalid_key_message(n as nat, key));
        return Err(msg);
    }
    let (va, vb) = trim_bounds(v, eq + 1, b);
    assert(u.skip(eq - a2 + 1) =~= v@.subrange(eq + 1, b as int));
    let ghost value = v@.subrange(va as int, vb as int);
    let mut qa = va;
    let mut qb = vb;
    if vb - va >= 2 && ((v[va] == '"' && v[vb - 1] == '"') || (v[va] == '\'' && v[vb - 1]
        == '\'')) {
        qa = va + 1;
        qb = vb - 1;
        assert(value[0] == v@[va as int]);
        assert(value.last() == v@[vb - 1]);
        assert(value.subrange(1, value.len() - 1) =~= v@.subrange(qa as int, qb as int));
    } else {
        proof {
            if value.len() >= 2 {
                assert(value[0] == v@[va as int]);
                assert(value.last() == v@[vb - 1]);
            }
        }
    }
    assert(v@.subrange(qa as int, qb as int) == unquote(value));
    let k = string_of(v, ka, kb);
    let val = string_of(v, qa, qb);
    Ok(Some((k, val)))
}

/// Reads the variables of an env file (`NAME=value` lines; blank lines and
/// `#` comments skipped; an `export ` prefix allowed; one pair of matching
/// quotes stripped from a value). A later line overrides an earlier one for
/// the same name. Fails on the first line without `=` or with an invalid name.
pub fn parse_env_file(contents: &str) -> (r: Result<EnvMap, EnvzError>)
    ensures
        match env_file_map(contents@) {
            Ok(mp) => r matches Ok(m) && m.wf() && m.to_map() == mp,
            Err(msg) => r matches Err(e) && e@ == ErrorView::ParseError(msg),
        },
{
    let s = chars_of(contents);
    let n = s.len();
    let mut map = EnvMap::new();
    let mut start: usize = 0;
    let mut count: usize = 0;
    let ghost mut done: Seq<Seq<char>> = Seq::empty();
    let ghost mut ps: Seq<Pair> = Seq::empty();
    assert(lines(s@) =~= done + lines_from(s@, 0));
    while start < n
        invariant
            n == s@.len(),
            s@ == contents@,
            start <= n,
            count == done.len(),
            count <= start,
            lines(s@) == done + lines_from(s@, start as int),
            parse_lines(done) == Ok::<Seq<Pair>, Seq<char>>(ps),
            map.wf(),
            map.to_map() == map_of(ps),
        decreases n - start,
    {
        let e = find_in(s.as_slice(), '\n', start, n);
        proof {
            lemma_find_char(s@, '\n', start as int, e as int);
            lemma_find_char_bounds(s@, '\n', start as int);
        }
        let hi = if e < n && e > start && s[e - 1] == '\r' {
            e - 1
        } else {
            e
        };
        let ghost line = line_at(s@, start as int, e as int);
        assert(line == s@.subrange(start as int, hi as int));
        assert(lines_from(s@, start as int) =~= seq![line] + lines_from(s@, e + 1));
        let ghost done2 = done.push(line);
        assert(done2.drop_last() =~= done);
        let outcome = classify_line(s.as_slice(), start, hi, count + 1);
        match outcome {
            Err(msg) => {
                proof {
                    assert(done + lines_from(s@, start as int) =~= done2 + lines_from(
                        s@,
                        e + 1,
                    ));
                    lemma_parse_fail_extends(done2, lines_from(s@, e + 1), msg@);
                }
                return Err(EnvzError::ParseError(msg));
            },
            Ok(None) => {},
            Ok(Some(p)) => {
                let (k, val) = p;
                let ghost old_ps = ps;
                proof {
                    ps = ps.push((k@, val@));
                    assert(ps.drop_last() =~= old_ps);
                }
                map.insert(k, val);
            },
        }
        proof {
            assert(done + lines_from(s@, start as int) =~= done2 + lines_from(s@, e + 1));
            done = done2;
        }
        count = count + 1;
        if e < n {
            start = e + 1;
        } else {
            assert(lines_from(s@, e + 1) =~= lines_from(s@, n as int));
            start = n;
        }
    }
    assert(lines_from(s@, start as int) =~= Seq::<Seq<char>>::empty());
    assert(done + Seq::<Seq<char>>::empty() =~= done);
    Ok(map)
}

} // verus!
