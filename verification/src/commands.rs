//! The decisions and the output text of the vault tool's commands, apart
//! from reading and writing the vault.
use vstd::prelude::*;

use crate::envfile::{
    find_char, lemma_assignment_line, lemma_find_char, line_outcome, valid_key, validate_key,
    LineOutcome,
};
use crate::envmap::{EnvMap, Pair};
use crate::error::{EnvzError, ErrorView};
use crate::store::seed_from_bytes;
use crate::text::{
    chars_of, decimal, is_ws, owned, push_char, push_decimal, push_str, string_of, trim,
    trim_bounds, trim_end, trim_start,
};

verus! {

// ---------------------------------------------------------------------------
// set
// ---------------------------------------------------------------------------

/// What `set` makes of its `NAME=value` argument: the trimmed name (which
/// must be valid) and the value after the first `=`, as it stands.
pub open spec fn pair_result(p: Seq<char>) -> Result<(Seq<char>, Seq<char>), ErrorView> {
    let i = find_char(p, '=', 0);
    if i >= p.len() {
        Err(ErrorView::ParseError("Expected KEY=VALUE format"@))
    } else if !valid_key(trim(p.take(i))) {
        Err(ErrorView::InvalidKey(trim(p.take(i))))
    } else {
        Ok((trim(p.take(i)), p.skip(i + 1)))
    }
}

/// Splits the argument of `set` into a name and a value.
pub fn parse_pair(pair: &str) -> (r: Result<(String, String), EnvzError>)
    ensures
        match pair_result(pair@) {
            Ok((k, v)) => r matches Ok((a, b)) && a@ == k && b@ == v,
            Err(e) => r matches Err(x) && x@ == e,
        },
{
    let c = chars_of(pair);
    let n = c.len();
    let mut i: usize = 0;
    while i < n && c[i] != '='
        invariant
            n == c@.len(),
            i <= n,
            forall|k: int| 0 <= k < i ==> c@[k] != '=',
        decreases n - i,
    {
        i = i + 1;
    }
    proof {
        lemma_find_char(c@, '=', 0, i as int);
    }
    if i == n {
        return Err(EnvzError::ParseError(owned("Expected KEY=VALUE format")));
    }
    let (a, b) = trim_bounds(c.as_slice(), 0, i);
    assert(c@.subrange(0, i as int) =~= c@.take(i as int));
    let key = string_of(c.as_slice(), a, b);
    match validate_key(key.as_str()) {
        Ok(()) => {},
        Err(e) => return Err(e),
    }
    let value = string_of(c.as_slice(), i + 1, n);
    assert(c@.subrange(i + 1, n as int) =~= c@.skip(i + 1));
    Ok((key, value))
}

/// The report of `set`: `Updated: NAME` for a name that had a value,
/// `Set: NAME` otherwise.
pub fn set_message(key: &str, existed: bool) -> (s: String)
    ensures
        s@ == (if existed {
            "Updated: "@
        } else {
            "Set: "@
        }) + key@,
{
    let mut s = String::new();
    if existed {
        push_str(&mut s, "Updated: ");
    } else {
        push_str(&mut s, "Set: ");
    }
    push_str(&mut s, key);
    assert(s@ =~= (if existed {
        "Updated: "@
    } else {
        "Set: "@
    }) + key@);
    s
}

// ---------------------------------------------------------------------------
// get, delete
// ---------------------------------------------------------------------------

/// The value of `key`, or `KeyNotFound`.
pub fn lookup(data: &EnvMap, key: &str) -> (r: Result<String, EnvzError>)
    requires
        data.wf(),
    ensures
        data.to_map().contains_key(key@) ==> (r matches Ok(v) && v@ == data.to_map()[key@]),
        !data.to_map().contains_key(key@) ==> (r matches Err(e) && e@ == ErrorView::KeyNotFound(
            key@,
        )),
{
    match data.get(key) {
        Some(v) => Ok(v.clone()),
        None => Err(EnvzError::KeyNotFound(owned(key))),
    }
}

/// Removes `key`; fails with `KeyNotFound`, leaving the map as it was, when
/// it has no value.
pub fn delete_entry(data: &mut EnvMap, key: &str) -> (r: Result<(), EnvzError>)
    requires
        old(data).wf(),
    ensures
        final(data).wf(),
        final(data).to_map() == old(data).to_map().remove(key@),
        (r is Ok) == old(data).to_map().contains_key(key@),
        r matches Err(e) ==> e@ == ErrorView::KeyNotFound(key@),
{
    match data.remove(key) {
        Some(_) => Ok(()),
        None => {
            proof {
                assert(old(data).to_map().remove(key@) =~= old(data).to_map());
            }
            Err(EnvzError::KeyNotFound(owned(key)))
        },
    }
}

// ---------------------------------------------------------------------------
// list, env, unenv
// ---------------------------------------------------------------------------

/// The line `list` prints for a variable.
pub open spec fn list_line(p: Pair) -> Seq<char> {
    p.0 + "="@ + p.1
}

/// The lines `list` prints: `NAME=value`, in the order of the names.
pub fn list_lines(data: &EnvMap) -> (r: Vec<String>)
    requires
        data.wf(),
    ensures
        r@.len() == data@.len(),
        forall|i: int| 0 <= i < r@.len() ==> #[trigger] r@[i]@ == list_line(data@[i]),
{
    let entries = data.entries();
    let mut r: Vec<String> = Vec::new();
    let mut i: usize = 0;
    while i < entries.len()
        invariant
            crate::envmap::pairs_view(entries@) == data@,
            i <= entries@.len(),
            r@.len() == i,
            forall|j: int| 0 <= j < i ==> #[trigger] r@[j]@ == list_line(data@[j]),
        decreases entries@.len() - i,
    {
        let mut s = String::new();
        push_str(&mut s, entries[i].0.as_str());
        push_str(&mut s, "=");
        push_str(&mut s, entries[i].1.as_str());
        assert(s@ =~= list_line(data@[i as int]));
        r.push(s);
        i = i + 1;
    }
    r
}

/// Each line `list` prints is the name, `=` and the value, whatever the
/// value (the empty one too): read back as a line of an env file, it
/// defines the same variable with the same value, for every value that
/// neither begins nor ends with whitespace nor is wrapped in matching quotes
/// (which the env-file format would take off).
pub proof fn lemma_list_line_reads_back(p: Pair, n: nat)
    requires
        valid_key(p.0),
        p.1.len() > 0 ==> !is_ws(p.1[0]) && !is_ws(p.1.last()),
        !(p.1.len() >= 2 && ((p.1[0] == '"' && p.1.last() == '"') || (p.1[0] == '\'' && p.1.last()
            == '\''))),
    ensures
        line_outcome(list_line(p), n) == LineOutcome::Entry(p.0, p.1),
        list_line(p).len() == p.0.len() + 1 + p.1.len(),
{
    reveal_strlit("=");
    lemma_assignment_line(p.0, p.1, n);
    assert(trim_start(p.1) == p.1);
    assert(trim_end(p.1) == p.1);
}

/// How one character of a value is written inside a shell `$'...'` string.
pub open spec fn escape_char(c: char) -> Seq<char> {
    if c == '\\' {
        seq!['\\', '\\']
    } else if c == '\'' {
        seq!['\\', '\'']
    } else if c == '\n' {
        seq!['\\', 'n']
    } else if c == '\r' {
        seq!['\\', 'r']
    } else if c == '\t' {
        seq!['\\', 't']
    } else if c == '\0' {
        seq!['\\', '0']
    } else {
        seq![c]
    }
}

/// A value written for a shell `$'...'` string: backslashes and quotes
/// escaped, and newlines, carriage returns, tabs and NULs spelled out.
pub open spec fn shell_escape(s: Seq<char>) -> Seq<char>
    decreases s.len(),
{
    if s.len() == 0 {
        Seq::empty()
    } else {
        shell_escape(s.drop_last()) + escape_char(s.last())
    }
}

/// The character a backslash escape stands for in a shell `$'...'` string.
pub open spec fn unescape_char(c: char) -> char {
    if c == 'n' {
        '\n'
    } else if c == 'r' {
        '\r'
    } else if c == 't' {
        '\t'
    } else if c == '0' {
        '\0'
    } else {
        c
    }
}

/// Reads an escaped value back, left to right: a backslash and the character
/// after it stand for one character.
pub open spec fn shell_unescape(t: Seq<char>) -> Seq<char>
    decreases t.len(),
{
    if t.len() == 0 {
        Seq::empty()
    } else if t[0] == '\\' && t.len() >= 2 {
        seq![unescape_char(t[1])] + shell_unescape(t.skip(2))
    } else {
        seq![t[0]] + shell_unescape(t.skip(1))
    }
}

proof fn lemma_shell_escape_cons(c: char, s: Seq<char>)
    ensures
        shell_escape(seq![c] + s) == escape_char(c) + shell_escape(s),
    decreases s.len(),
{
    if s.len() == 0 {
        assert(seq![c] + s =~= seq![c]);
        assert(seq![c].drop_last() =~= Seq::<char>::empty());
        assert(shell_escape(Seq::<char>::empty()) == Seq::<char>::empty());
        assert(shell_escape(seq![c]) == shell_escape(seq![c].drop_last()) + escape_char(c));
        assert(Seq::<char>::empty() + escape_char(c) =~= escape_char(c));
        assert(escape_char(c) + Seq::<char>::empty() =~= escape_char(c));
    } else {
        lemma_shell_escape_cons(c, s.drop_last());
        assert((seq![c] + s).drop_last() =~= seq![c] + s.drop_last());
        assert((seq![c] + s).last() == s.last());
        assert(escape_char(c) + shell_escape(s.drop_last()) + escape_char(s.last()) =~= escape_char(c)
            + (shell_escape(s.drop_last()) + escape_char(s.last())));
    }
}

/// Escaping loses nothing: reading the escaped text back gives the value.
/// So the `$'...'` string of an `export` line always stands for exactly the
/// stored value, whatever characters it holds.
pub proof fn lemma_shell_escape_roundtrip(s: Seq<char>)
    ensures
        shell_unescape(shell_escape(s)) == s,
    decreases s.len(),
{
    if s.len() > 0 {
        let c = s[0];
        let rest = s.skip(1);
        assert(s =~= seq![c] + rest);
        lemma_shell_escape_cons(c, rest);
        lemma_shell_escape_roundtrip(rest);
        let t = shell_escape(s);
        let e = escape_char(c);
        if e.len() == 2 {
            assert(t.skip(2) =~= shell_escape(rest));
            assert(t[0] == '\\');
        } else {
            assert(t.skip(1) =~= shell_escape(rest));
            assert(t[0] == c);
        }
        assert(shell_unescape(t) =~= s);
    }
}

/// Different values are escaped differently.
pub proof fn lemma_shell_escape_injective(a: Seq<char>, b: Seq<char>)
    requires
        shell_escape(a) == shell_escape(b),
    ensures
        a == b,
{
    lemma_shell_escape_roundtrip(a);
    lemma_shell_escape_roundtrip(b);
}

/// Whether `c` is an octal digit.
pub open spec fn is_octal(c: char) -> bool {
    '0' <= c <= '7'
}

/// The character bash's ANSI-C quoting (`$'...'`) makes of a backslash
/// followed by `x`, for the one-character escapes: `\\`, `\'`, `\"`,
/// `\?`, `\a`, `\b`, `\e`, `\E`, `\f`, `\n`, `\r`, `\t`, `\v`.
/// `None` for any other character after the backslash (octal, `\x`, `\u`,
/// `\U`, `\c` and unknown escapes).
pub open spec fn ansi_c_simple_escape(x: char) -> Option<char> {
    if x == '\\' || x == '\'' || x == '"' || x == '?' {
        Some(x)
    } else if x == 'a' {
        Some('\x07')
    } else if x == 'b' {
        Some('\x08')
    } else if x == 'e' || x == 'E' {
        Some('\x1b')
    } else if x == 'f' {
        Some('\x0c')
    } else if x == 'n' {
        Some('\n')
    } else if x == 'r' {
        Some('\r')
    } else if x == 't' {
        Some('\t')
    } else if x == 'v' {
        Some('\x0b')
    } else {
        None
    }
}

/// What bash reads from the text `t` inside a `$'...'` string: the
/// one-character escapes of [`ansi_c_simple_escape`], and `\0` not followed
/// by another octal digit (the character NUL); every other character stands
/// for itself. `None` where the text holds a bare `'` (which would end the
/// string), a trailing backslash, or an escape outside those (longer octal
/// escapes, `\x`, `\u`, `\U`, `\c`, unknown ones), which this reading
/// leaves out.
pub open spec fn ansi_c_read(t: Seq<char>) -> Option<Seq<char>>
    decreases t.len(),
{
    if t.len() == 0 {
        Some(Seq::empty())
    } else if t[0] == '\'' {
        None
    } else if t[0] == '\\' {
        if t.len() < 2 {
            None
        } else {
            let c = if t[1] == '0' && (t.len() == 2 || !is_octal(t[2])) {
                Some('\0')
            } else {
                ansi_c_simple_escape(t[1])
            };
            match (c, ansi_c_read(t.skip(2))) {
                (Some(c), Some(rest)) => Some(seq![c] + rest),
                _ => None,
            }
        }
    } else {
        match ansi_c_read(t.skip(1)) {
            Some(rest) => Some(seq![t[0]] + rest),
            None => None,
        }
    }
}

/// The `$'...'` string of an `export` line stands for exactly the stored
/// value: read back by bash's ANSI-C quoting rules, the escaped text gives
/// the value, character for character. This holds of every value in which
/// no NUL is followed by an octal digit (there bash would read the digit
/// into the escape of the NUL).
pub proof fn lemma_shell_escape_reads_back(v: Seq<char>)
    requires
        forall|i: int| 0 <= i < v.len() - 1 && v[i] == '\0' ==> !is_octal(#[trigger] v[i + 1]),
    ensures
        ansi_c_read(shell_escape(v)) == Some(v),
    decreases v.len(),
{
    if v.len() > 0 {
        let c = v[0];
        let rest = v.skip(1);
        assert(v =~= seq![c] + rest);
        assert forall|i: int| 0 <= i < rest.len() - 1 && rest[i] == '\0' implies !is_octal(
            #[trigger] rest[i + 1],
        ) by {
            assert(rest[i] == v[i + 1]);
            assert(rest[i + 1] == v[i + 2]);
        }
        lemma_shell_escape_reads_back(rest);
        lemma_shell_escape_cons(c, rest);
        let t = shell_escape(v);
        let e = escape_char(c);
        assert(t == e + shell_escape(rest));
        if e.len() == 2 {
            assert(t.skip(2) =~= shell_escape(rest));
            assert(t[0] == '\\');
            assert(t[1] == e[1]);
            if c == '\0' {
                if t.len() > 2 {
                    assert(rest.len() > 0) by {
                        if rest.len() == 0 {
                            assert(shell_escape(rest) == Seq::<char>::empty());
                        }
                    }
                    let c2 = rest[0];
                    assert(rest =~= seq![c2] + rest.skip(1));
                    lemma_shell_escape_cons(c2, rest.skip(1));
                    assert(t[2] == escape_char(c2)[0]);
                    assert(v[1] == c2);
                }
            }
        } else {
            assert(t.skip(1) =~= shell_escape(rest));
            assert(t[0] == c);
        }
        assert(ansi_c_read(t) =~= Some(v));
    }
}

/// Escapes a value for a shell `$'...'` string.
pub fn escape_value(value: &str) -> (r: String)
    ensures
        r@ == shell_escape(value@),
{
    let c = chars_of(value);
    let mut r = String::new();
    let mut i: usize = 0;
    while i < c.len()
        invariant
            c@ == value@,
            i <= c@.len(),
            r@ == shell_escape(c@.take(i as int)),
        decreases c@.len() - i,
    {
        let ch = c[i];
        let ghost before = r@;
        if ch == '\\' {
            push_char(&mut r, '\\');
            push_char(&mut r, '\\');
        } else if ch == '\'' {
            push_char(&mut r, '\\');
            push_char(&mut r, '\'');
        } else if ch == '\n' {
            push_char(&mut r, '\\');
            push_char(&mut r, 'n');
        } else if ch == '\r' {
            push_char(&mut r, '\\');
            push_char(&mut r, 'r');
        } else if ch == '\t' {
            push_char(&mut r, '\\');
            push_char(&mut r, 't');
        } else if ch == '\0' {
            push_char(&mut r, '\\');
            push_char(&mut r, '0');
        } else {
            push_char(&mut r, ch);
        }
        assert(r@ =~= before + escape_char(ch));
        assert(c@.take(i + 1).drop_last() =~= c@.take(i as int));
        i = i + 1;
    }
    assert(c@.take(c@.len() as int) =~= c@);
    r
}

/// The line `env` prints for a variable: an `export` statement for shells.
pub open spec fn export_line(p: Pair) -> Seq<char> {
    "export "@ + p.0 + "=$'"@ + shell_escape(p.1) + "'"@
}

/// The lines `env` prints, in the order of the names.
pub fn env_lines(data: &EnvMap) -> (r: Vec<String>)
    requires
        data.wf(),
    ensures
        r@.len() == data@.len(),
        forall|i: int| 0 <= i < r@.len() ==> #[trigger] r@[i]@ == export_line(data@[i]),
{
    let entries = data.entries();
    let mut r: Vec<String> = Vec::new();
    let mut i: usize = 0;
    while i < entries.len()
        invariant
            crate::envmap::pairs_view(entries@) == data@,
            i <= entries@.len(),
            r@.len() == i,
            forall|j: int| 0 <= j < i ==> #[trigger] r@[j]@ == export_line(data@[j]),
        decreases entries@.len() - i,
    {
        let mut s = String::new();
        push_str(&mut s, "export ");
        push_str(&mut s, entries[i].0.as_str());
        push_str(&mut s, "=$'");
        let escaped = escape_value(entries[i].1.as_str());
        push_str(&mut s, escaped.as_str());
        push_str(&mut s, "'");
        assert(s@ =~= export_line(data@[i as int]));
        r.push(s);
        i = i + 1;
    }
    r
}

/// The line `unenv` prints for a variable.
pub open spec fn unset_line(p: Pair) -> Seq<char> {
    "unset "@ + p.0
}

/// The lines `unenv` prints, in the order of the names.
pub fn unenv_lines(data: &EnvMap) -> (r: Vec<String>)
    requires
        data.wf(),
    ensures
        r@.len() == data@.len(),
        forall|i: int| 0 <= i < r@.len() ==> #[trigger] r@[i]@ == unset_line(data@[i]),
{
    let entries = data.entries();
    let mut r: Vec<String> = Vec::new();
    let mut i: usize = 0;
    while i < entries.len()
        invariant
            crate::envmap::pairs_view(entries@) == data@,
            i <= entries@.len(),
            r@.len() == i,
            forall|j: int| 0 <= j < i ==> #[trigger] r@[j]@ == unset_line(data@[j]),
        decreases entries@.len() - i,
    {
        let mut s = String::new();
        push_str(&mut s, "unset ");
        push_str(&mut s, entries[i].0.as_str());
        assert(s@ =~= unset_line(data@[i as int]));
        r.push(s);
        i = i + 1;
    }
    r
}

// ---------------------------------------------------------------------------
// run, unsafe, clear, init
// ---------------------------------------------------------------------------

/// A command line to run must name a program.
pub fn check_command(command: &Vec<String>) -> (r: Result<(), EnvzError>)
    ensures
        (r is Ok) == (command@.len() > 0),
        r matches Err(e) ==> e@ == ErrorView::CommandError("No command specified"@),
{
    if command.len() == 0 {
        return Err(EnvzError::CommandError(owned("No command specified")));
    }
    Ok(())
}

/// The question `clear` asks before deleting `count` variables.
pub fn clear_prompt(count: usize) -> (s: String)
    ensures
        s@ == "Delete all "@ + decimal(count as nat) + " variable(s) from the vault?"@,
{
    let mut s = String::new();
    push_str(&mut s, "Delete all ");
    push_decimal(&mut s, count as u64);
    push_str(&mut s, " variable(s) from the vault?");
    assert(s@ =~= "Delete all "@ + decimal(count as nat) + " variable(s) from the vault?"@);
    s
}

// ---------------------------------------------------------------------------
// clear
// ---------------------------------------------------------------------------

/// The next step of `clear`.
#[derive(Debug, Clone, PartialEq, Eq)]
pub enum ClearStep {
    /// The vault holds nothing: say so and stop.
    AlreadyEmpty,
    /// Ask this question, and come back with the answer.
    Confirm(String),
    /// The user declined: stop, leaving the vault as it is.
    Aborted,
    /// Seal the vault empty and write it.
    Clear,
}

/// What `clear` does next, for a vault of `count` variables, given the
/// user's answer to the confirmation once it has been asked (`None` before).
/// An empty vault needs no confirmation.
pub fn clear_step(count: usize, answer: Option<bool>) -> (r: ClearStep)
    ensures
        count == 0 ==> r == ClearStep::AlreadyEmpty,
        count > 0 ==> match answer {
            None => r matches ClearStep::Confirm(q) && q@ == "Delete all "@ + decimal(count as nat)
                + " variable(s) from the vault?"@,
            Some(true) => r == ClearStep::Clear,
            Some(false) => r == ClearStep::Aborted,
        },
{
    if count == 0 {
        return ClearStep::AlreadyEmpty;
    }
    match answer {
        None => ClearStep::Confirm(clear_prompt(count)),
        Some(true) => ClearStep::Clear,
        Some(false) => ClearStep::Aborted,
    }
}

// ---------------------------------------------------------------------------
// init
// ---------------------------------------------------------------------------

/// `init` refuses to replace an existing vault unless forced, and, unless
/// Touch ID is switched off, needs it to be available; the existing vault is
/// checked first.
pub fn check_init(vault_exists: bool, force: bool, biometric: bool, touch_id_available: bool) -> (r: Result<(), EnvzError>)
    ensures
        (r is Ok) == ((!vault_exists || force) && (!biometric || touch_id_available)),
        (vault_exists && !force) ==> (r matches Err(e) && e@ == ErrorView::VaultAlreadyExists),
        (!vault_exists || force) && biometric && !touch_id_available ==> (r matches Err(e) && e@
            == ErrorView::Keychain("Touch ID is required but not available on this system."@)),
{
    if vault_exists && !force {
        return Err(EnvzError::VaultAlreadyExists);
    }
    if biometric && !touch_id_available {
        return Err(EnvzError::Keychain(owned("Touch ID is required but not available on this system.")));
    }
    Ok(())
}

/// The seed `init` reuses, from what looking it up in the keychain gave: a
/// seed found there is reused (and must have 32 bytes); when the lookup
/// failed, for whatever reason, there is none and a new one is made.
pub fn existing_seed(found: &Result<Vec<u8>, EnvzError>) -> (r: Result<Option<[u8; 32]>, EnvzError>)
    ensures
        match found {
            Ok(b) => if b@.len() == 32 {
                r matches Ok(Some(s)) && s@ == b@
            } else {
                r matches Err(e) && e@ == ErrorView::Keychain("Invalid seed length"@)
            },
            Err(_) => r matches Ok(None),
        },
{
    match found {
        Ok(b) => match seed_from_bytes(b) {
            Ok(s) => Ok(Some(s)),
            Err(e) => Err(e),
        },
        Err(_) => Ok(None),
    }
}

/// What `init` reports once the vault is written.
pub fn init_created_message(biometric: bool) -> (s: &'static str)
    ensures
        biometric ==> s@ == "Vault created with Touch ID protection."@,
        !biometric ==> s@ == "Vault created without Touch ID protection."@,
{
    if biometric {
        "Vault created with Touch ID protection."
    } else {
        "Vault created without Touch ID protection."
    }
}

/// Whether `init` offers to delete the plaintext file it imported: only when
/// a file was given and it held at least one variable.
pub fn offer_file_deletion(imported: usize, file_given: bool) -> (r: bool)
    ensures
        r == (imported > 0 && file_given),
{
    imported > 0 && file_given
}

} // verus!
