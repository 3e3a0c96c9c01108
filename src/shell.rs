use vstd::prelude::*;

use crate::quote::{
    escape_single_quotes, fish_quotable, lemma_single_quoted_round_trip, single_quoted, word_value,
};

verus! {

/// The interactive shells this library knows how to speak to.
#[derive(Clone, Copy, Debug, PartialEq, Eq, Structural)]
pub enum Shell {
    Bash,
    Zsh,
    Fish,
}

/// The token handed to direnv's `export` command for a shell: Bash and Zsh
/// share the zsh-compatible export syntax.
pub open spec fn export_arg_of(sh: Shell) -> Seq<char> {
    match sh {
        Shell::Fish => "fish"@,
        Shell::Bash | Shell::Zsh => "zsh"@,
    }
}

/// The shell selected by the value of `DIRENV_INSTANT_SHELL`: `fish` and
/// `zsh` name their shells, anything else (or no value) selects Bash.
pub open spec fn detected(value: Option<&str>) -> Shell {
    match value {
        Some(v) => if v@ == "fish"@ {
            Shell::Fish
        } else if v@ == "zsh"@ {
            Shell::Zsh
        } else {
            Shell::Bash
        },
        None => Shell::Bash,
    }
}

/// The statement text that precedes the quoted value when `sh` sets `name`.
pub open spec fn set_prefix(sh: Shell, name: Seq<char>) -> Seq<char> {
    match sh {
        Shell::Fish => "set -gx "@ + name + " "@,
        Shell::Bash | Shell::Zsh => "export "@ + name + "="@,
    }
}

/// The statement with which `sh` sets `name` to `value`.
pub open spec fn set_line(sh: Shell, name: Seq<char>, value: Seq<char>) -> Seq<char> {
    set_prefix(sh, name) + single_quoted(value)
}

/// The statement with which `sh` removes `name`.
pub open spec fn unset_line(sh: Shell, name: Seq<char>) -> Seq<char> {
    match sh {
        Shell::Fish => "set -e "@ + name,
        Shell::Bash | Shell::Zsh => "unset "@ + name,
    }
}

/// Whether `a` and `b` hold the same characters.
pub fn same_text(a: &str, b: &str) -> (r: bool)
    ensures
        r == (a@ == b@),
{
    let n = a.unicode_len();
    if n != b.unicode_len() {
        return false;
    }
    let mut i: usize = 0;
    while i < n
        invariant
            n == a@.len(),
            n == b@.len(),
            i <= n,
            a@.subrange(0, i as int) == b@.subrange(0, i as int),
        decreases n - i,
    {
        if a.get_char(i) != b.get_char(i) {
            return false;
        }
        assert(a@.subrange(0, i + 1) =~= a@.subrange(0, i as int).push(a@[i as int]));
        assert(b@.subrange(0, i + 1) =~= b@.subrange(0, i as int).push(b@[i as int]));
        i = i + 1;
    }
    assert(a@ =~= a@.subrange(0, n as int));
    assert(b@ =~= b@.subrange(0, n as int));
    true
}

/// The line that sets `name` reads as the assignment text followed by one
/// word whose value is exactly `value`: for Bash and Zsh with every value,
/// for Fish with every value it can hold between single quotes.
pub proof fn lemma_set_line_round_trip(sh: Shell, name: Seq<char>, value: Seq<char>)
    requires
        sh is Fish ==> fish_quotable(value),
    ensures
        ({
            let line = set_line(sh, name, value);
            let k = set_prefix(sh, name).len() as int;
            &&& line.subrange(0, k) == set_prefix(sh, name)
            &&& word_value(sh, line.subrange(k, line.len() as int), false) == Some(value)
        }),
{
    let line = set_line(sh, name, value);
    let k = set_prefix(sh, name).len() as int;
    assert(line.subrange(0, k) =~= set_prefix(sh, name));
    assert(line.subrange(k, line.len() as int) =~= single_quoted(value));
    lemma_single_quoted_round_trip(sh, value);
}

impl Default for Shell {
    fn default() -> (r: Shell)
        ensures
            r == Shell::Bash,
    {
        Shell::Bash
    }
}

impl Shell {
    /// The shell named by the value of `DIRENV_INSTANT_SHELL`, given as
    /// `value` (`None` where the variable is unset).
    pub fn from_env(value: Option<&str>) -> (r: Shell)
        ensures
            r == detected(value),
    {
        match value {
            Some(v) => if same_text(v, "fish") {
                Shell::Fish
            } else if same_text(v, "zsh") {
                Shell::Zsh
            } else {
                Shell::Bash
            },
            None => Shell::Bash,
        }
    }

    /// Returns the shell name for direnv's export command.
    pub fn direnv_export_arg(self) -> (r: &'static str)
        ensures
            r@ == export_arg_of(self),
    {
        match self {
            Shell::Fish => "fish",
            Shell::Bash | Shell::Zsh => "zsh",
        }
    }

    /// The statement that sets `name` to `value` in this shell, with the
    /// value single-quoted and each `'` in it written as `'\''`.
    pub fn export_var(self, name: &str, value: &str) -> (r: String)
        ensures
            r@ == set_line(self, name@, value@),
    {
        let escaped = escape_single_quotes(value);
        let mut r = match self {
            Shell::Fish => String::from_str("set -gx "),
            Shell::Bash | Shell::Zsh => String::from_str("export "),
        };
        r.append(name);
        match self {
            Shell::Fish => r.append(" "),
            Shell::Bash | Shell::Zsh => r.append("="),
        }
        proof {
            reveal_strlit("'");
        }
        r.append("'");
        r.append(escaped.as_str());
        r.append("'");
        assert(r@ =~= set_line(self, name@, value@));
        r
    }

    /// The statement that removes `name` in this shell.
    pub fn unset_var(self, name: &str) -> (r: String)
        ensures
            r@ == unset_line(self, name@),
    {
        let mut r = match self {
            Shell::Fish => String::from_str("set -e "),
            Shell::Bash | Shell::Zsh => String::from_str("unset "),
        };
        r.append(name);
        r
    }
}

} // verus!
