//! Which environment variables are safe to hand to an untrusted process.
use vstd::prelude::*;

use crate::envmap::{pairs_view, Pair};
use crate::text::{chars_of, same_text};

verus! {

/// The variables that are passed on unchanged.
pub open spec fn safe_var_names() -> Seq<Seq<char>> {
    seq![
        "HOME"@, "USER"@, "LOGNAME"@, "SHELL"@, "PATH"@, "PWD"@, "OLDPWD"@, "TERM"@,
        "TERM_PROGRAM"@, "TERM_SESSION_ID"@, "LANG"@, "TMPDIR"@, "TMP"@, "TEMP"@, "DISPLAY"@,
        "WAYLAND_DISPLAY"@, "DBUS_SESSION_BUS_ADDRESS"@, "SSH_AUTH_SOCK"@, "SSH_AGENT_PID"@,
        "EDITOR"@, "VISUAL"@, "PAGER"@, "HOSTNAME"@, "HOSTTYPE"@, "MACHTYPE"@, "OSTYPE"@,
        "SHLVL"@, "COLORTERM"@, "NO_COLOR"@, "COLUMNS"@, "LINES"@, "_"@,
    ]
}

fn safe_names() -> (v: Vec<&'static str>)
    ensures
        v@.len() == safe_var_names().len(),
        forall|i: int| 0 <= i < v@.len() ==> #[trigger] v@[i]@ == safe_var_names()[i],
{
    let v = vec![
        "HOME", "USER", "LOGNAME", "SHELL", "PATH", "PWD", "OLDPWD", "TERM",
        "TERM_PROGRAM", "TERM_SESSION_ID", "LANG", "TMPDIR", "TMP", "TEMP", "DISPLAY",
        "WAYLAND_DISPLAY", "DBUS_SESSION_BUS_ADDRESS", "SSH_AUTH_SOCK", "SSH_AGENT_PID",
        "EDITOR", "VISUAL", "PAGER", "HOSTNAME", "HOSTTYPE", "MACHTYPE", "OSTYPE",
        "SHLVL", "COLORTERM", "NO_COLOR", "COLUMNS", "LINES", "_",
    ];
    v
}

/// Whether `s` begins with `p`.
pub open spec fn starts_with(s: Seq<char>, p: Seq<char>) -> bool {
    s.len() >= p.len() && s.take(p.len() as int) == p
}

/// Whether a variable may be passed to an untrusted process: it is one of
/// [`safe_var_names`], or its name begins with `XDG_` or `LC_`.
pub open spec fn is_safe_name(name: Seq<char>) -> bool {
    ||| safe_var_names().contains(name)
    ||| starts_with(name, seq!['X', 'D', 'G', '_'])
    ||| starts_with(name, seq!['L', 'C', '_'])
}

/// Every documented safe variable is passed on to an untrusted process:
/// the home, user and shell variables, the search path and working
/// directories, the terminal's type and size, the locale, the temporary
/// directories, the display and session buses, the SSH agent, the editor
/// and pager, the host and system types, the shell level, the colour
/// settings, and `_`.
pub proof fn lemma_documented_names_safe()
    ensures
        is_safe_name("HOME"@),
        is_safe_name("USER"@),
        is_safe_name("LOGNAME"@),
        is_safe_name("SHELL"@),
        is_safe_name("PATH"@),
        is_safe_name("PWD"@),
        is_safe_name("OLDPWD"@),
        is_safe_name("TERM"@),
        is_safe_name("TERM_PROGRAM"@),
        is_safe_name("TERM_SESSION_ID"@),
        is_safe_name("LANG"@),
        is_safe_name("TMPDIR"@),
        is_safe_name("TMP"@),
        is_safe_name("TEMP"@),
        is_safe_name("DISPLAY"@),
        is_safe_name("WAYLAND_DISPLAY"@),
        is_safe_name("DBUS_SESSION_BUS_ADDRESS"@),
        is_safe_name("SSH_AUTH_SOCK"@),
        is_safe_name("SSH_AGENT_PID"@),
        is_safe_name("EDITOR"@),
        is_safe_name("VISUAL"@),
        is_safe_name("PAGER"@),
        is_safe_name("HOSTNAME"@),
        is_safe_name("HOSTTYPE"@),
        is_safe_name("MACHTYPE"@),
        is_safe_name("OSTYPE"@),
        is_safe_name("SHLVL"@),
        is_safe_name("COLORTERM"@),
        is_safe_name("NO_COLOR"@),
        is_safe_name("COLUMNS"@),
        is_safe_name("LINES"@),
        is_safe_name("_"@),
{
    assert(safe_var_names()[0] == "HOME"@);
    assert(safe_var_names()[1] == "USER"@);
    assert(safe_var_names()[2] == "LOGNAME"@);
    assert(safe_var_names()[3] == "SHELL"@);
    assert(safe_var_names()[4] == "PATH"@);
    assert(safe_var_names()[5] == "PWD"@);
    assert(safe_var_names()[6] == "OLDPWD"@);
    assert(safe_var_names()[7] == "TERM"@);
    assert(safe_var_names()[8] == "TERM_PROGRAM"@);
    assert(safe_var_names()[9] == "TERM_SESSION_ID"@);
    assert(safe_var_names()[10] == "LANG"@);
    assert(safe_var_names()[11] == "TMPDIR"@);
    assert(safe_var_names()[12] == "TMP"@);
    assert(safe_var_names()[13] == "TEMP"@);
    assert(safe_var_names()[14] == "DISPLAY"@);
    assert(safe_var_names()[15] == "WAYLAND_DISPLAY"@);
    assert(safe_var_names()[16] == "DBUS_SESSION_BUS_ADDRESS"@);
    assert(safe_var_names()[17] == "SSH_AUTH_SOCK"@);
    assert(safe_var_names()[18] == "SSH_AGENT_PID"@);
    assert(safe_var_names()[19] == "EDITOR"@);
    assert(safe_var_names()[20] == "VISUAL"@);
    assert(safe_var_names()[21] == "PAGER"@);
    assert(safe_var_names()[22] == "HOSTNAME"@);
    assert(safe_var_names()[23] == "HOSTTYPE"@);
    assert(safe_var_names()[24] == "MACHTYPE"@);
    assert(safe_var_names()[25] == "OSTYPE"@);
    assert(safe_var_names()[26] == "SHLVL"@);
    assert(safe_var_names()[27] == "COLORTERM"@);
    assert(safe_var_names()[28] == "NO_COLOR"@);
    assert(safe_var_names()[29] == "COLUMNS"@);
    assert(safe_var_names()[30] == "LINES"@);
    assert(safe_var_names()[31] == "_"@);
}

/// No other variable is passed on: a safe name is one of the documented
/// names, or begins with `XDG_` or `LC_`.
pub proof fn lemma_only_documented_names_safe(name: Seq<char>)
    requires
        is_safe_name(name),
    ensures
        starts_with(name, seq!['X', 'D', 'G', '_']) || starts_with(name, seq!['L', 'C', '_']) || {
        ||| name == "HOME"@
        ||| name == "USER"@
        ||| name == "LOGNAME"@
        ||| name == "SHELL"@
        ||| name == "PATH"@
        ||| name == "PWD"@
        ||| name == "OLDPWD"@
        ||| name == "TERM"@
        ||| name == "TERM_PROGRAM"@
        ||| name == "TERM_SESSION_ID"@
        ||| name == "LANG"@
        ||| name == "TMPDIR"@
        ||| name == "TMP"@
        ||| name == "TEMP"@
        ||| name == "DISPLAY"@
        ||| name == "WAYLAND_DISPLAY"@
        ||| name == "DBUS_SESSION_BUS_ADDRESS"@
        ||| name == "SSH_AUTH_SOCK"@
        ||| name == "SSH_AGENT_PID"@
        ||| name == "EDITOR"@
        ||| name == "VISUAL"@
        ||| name == "PAGER"@
        ||| name == "HOSTNAME"@
        ||| name == "HOSTTYPE"@
        ||| name == "MACHTYPE"@
        ||| name == "OSTYPE"@
        ||| name == "SHLVL"@
        ||| name == "COLORTERM"@
        ||| name == "NO_COLOR"@
        ||| name == "COLUMNS"@
        ||| name == "LINES"@
        ||| name == "_"@
        },
{
    assert(safe_var_names()[0] == "HOME"@);
    assert(safe_var_names()[1] == "USER"@);
    assert(safe_var_names()[2] == "LOGNAME"@);
    assert(safe_var_names()[3] == "SHELL"@);
    assert(safe_var_names()[4] == "PATH"@);
    assert(safe_var_names()[5] == "PWD"@);
    assert(safe_var_names()[6] == "OLDPWD"@);
    assert(safe_var_names()[7] == "TERM"@);
    assert(safe_var_names()[8] == "TERM_PROGRAM"@);
    assert(safe_var_names()[9] == "TERM_SESSION_ID"@);
    assert(safe_var_names()[10] == "LANG"@);
    assert(safe_var_names()[11] == "TMPDIR"@);
    assert(safe_var_names()[12] == "TMP"@);
    assert(safe_var_names()[13] == "TEMP"@);
    assert(safe_var_names()[14] == "DISPLAY"@);
    assert(safe_var_names()[15] == "WAYLAND_DISPLAY"@);
    assert(safe_var_names()[16] == "DBUS_SESSION_BUS_ADDRESS"@);
    assert(safe_var_names()[17] == "SSH_AUTH_SOCK"@);
    assert(safe_var_names()[18] == "SSH_AGENT_PID"@);
    assert(safe_var_names()[19] == "EDITOR"@);
    assert(safe_var_names()[20] == "VISUAL"@);
    assert(safe_var_names()[21] == "PAGER"@);
    assert(safe_var_names()[22] == "HOSTNAME"@);
    assert(safe_var_names()[23] == "HOSTTYPE"@);
    assert(safe_var_names()[24] == "MACHTYPE"@);
    assert(safe_var_names()[25] == "OSTYPE"@);
    assert(safe_var_names()[26] == "SHLVL"@);
    assert(safe_var_names()[27] == "COLORTERM"@);
    assert(safe_var_names()[28] == "NO_COLOR"@);
    assert(safe_var_names()[29] == "COLUMNS"@);
    assert(safe_var_names()[30] == "LINES"@);
    assert(safe_var_names()[31] == "_"@);
    if safe_var_names().contains(name) {
        let i = choose|i: int| 0 <= i < safe_var_names().len() && safe_var_names()[i] == name;
        assert(0 <= i < 32);
    }
}

/// Whether the variable `name` may be passed to an untrusted process.
pub fn is_safe_var(name: &str) -> (b: bool)
    ensures
        b == is_safe_name(name@),
{
    let names = safe_names();
    let mut i: usize = 0;
    while i < names.len()
        invariant
            names@.len() == safe_var_names().len(),
            forall|j: int| 0 <= j < names@.len() ==> #[trigger] names@[j]@ == safe_var_names()[j],
            i <= names@.len(),
            forall|j: int| 0 <= j < i ==> safe_var_names()[j] != name@,
        decreases names@.len() - i,
    {
        if same_text(name, names[i]) {
            assert(safe_var_names()[i as int] == name@);
            return true;
        }
        i = i + 1;
    }
    assert(!safe_var_names().contains(name@));
    let c = chars_of(name);
    let xdg = c.len() >= 4 && c[0] == 'X' && c[1] == 'D' && c[2] == 'G' && c[3] == '_';
    let lc = c.len() >= 3 && c[0] == 'L' && c[1] == 'C' && c[2] == '_';
    proof {
        if c@.len() >= 4 {
            assert(xdg == (c@.take(4) =~= seq!['X', 'D', 'G', '_']));
        }
        if c@.len() >= 3 {
            assert(lc == (c@.take(3) =~= seq!['L', 'C', '_']));
        }
    }
    xdg || lc
}

/// The pairs of `s` whose names are safe, in order.
pub open spec fn safe_pairs(s: Seq<Pair>) -> Seq<Pair>
    decreases s.len(),
{
    if s.len() == 0 {
        Seq::empty()
    } else if is_safe_name(s.last().0) {
        safe_pairs(s.drop_last()).push(s.last())
    } else {
        safe_pairs(s.drop_last())
    }
}

/// Keeps the environment variables that are safe to pass to an untrusted
/// process, in their order.
pub fn filter_vars(vars: Vec<(String, String)>) -> (r: Vec<(String, String)>)
    ensures
        pairs_view(r@) == safe_pairs(pairs_view(vars@)),
{
    let mut r: Vec<(String, String)> = Vec::new();
    let n = vars.len();
    let mut i: usize = 0;
    while i < n
        invariant
            n == vars@.len(),
            i <= n,
            pairs_view(r@) == safe_pairs(pairs_view(vars@).take(i as int)),
        decreases n - i,
    {
        let ghost before = pairs_view(vars@).take(i as int);
        assert(pairs_view(vars@).take(i + 1).drop_last() =~= before);
        assert(pairs_view(vars@).take(i + 1).last() == pairs_view(vars@)[i as int]);
        if is_safe_var(vars[i].0.as_str()) {
            let k = vars[i].0.clone();
            let v = vars[i].1.clone();
            let ghost old_r = r@;
            r.push((k, v));
            assert(pairs_view(r@) =~= pairs_view(old_r).push(pairs_view(vars@)[i as int]));
        }
        i = i + 1;
    }
    assert(pairs_view(vars@).take(n as int) =~= pairs_view(vars@));
    r
}

} // verus!
