use vstd::prelude::*;

use crate::shell::{detected, same_text, Shell};

verus! {

/// The startup hook sourced by Bash.
pub const BASH_HOOK: &'static str = r#"_direnv_instant_hook() {
  local previous_exit_status=$?
  eval "$(DIRENV_INSTANT_SHELL=bash direnv-instant start)"
  return $previous_exit_status
}
if [[ ";${PROMPT_COMMAND[*]:-};" != *";_direnv_instant_hook;"* ]]; then
  PROMPT_COMMAND="_direnv_instant_hook${PROMPT_COMMAND:+;$PROMPT_COMMAND}"
fi
"#;

/// The startup hook sourced by Zsh.
pub const ZSH_HOOK: &'static str = r#"_direnv_instant_hook() {
  eval "$(DIRENV_INSTANT_SHELL=zsh direnv-instant start)"
}
typeset -ag precmd_functions
if (( ! ${precmd_functions[(I)_direnv_instant_hook]} )); then
  precmd_functions=(_direnv_instant_hook $precmd_functions)
fi
typeset -ag chpwd_functions
if (( ! ${chpwd_functions[(I)_direnv_instant_hook]} )); then
  chpwd_functions=(_direnv_instant_hook $chpwd_functions)
fi
"#;

/// The startup hook sourced by Fish.
pub const FISH_HOOK: &'static str = r#"function __direnv_instant_hook --on-event fish_prompt
    DIRENV_INSTANT_SHELL=fish direnv-instant start | source
end
"#;

/// The name under which a shell is asked for its hook.
pub open spec fn shell_name(sh: Shell) -> Seq<char> {
    match sh {
        Shell::Bash => "bash"@,
        Shell::Zsh => "zsh"@,
        Shell::Fish => "fish"@,
    }
}

/// The shell that a hook request names, if it names one.
pub open spec fn named(name: Seq<char>) -> Option<Shell> {
    if name == "bash"@ {
        Some(Shell::Bash)
    } else if name == "zsh"@ {
        Some(Shell::Zsh)
    } else if name == "fish"@ {
        Some(Shell::Fish)
    } else {
        None
    }
}

/// The hook script of a shell.
pub open spec fn hook_text(sh: Shell) -> Seq<char> {
    match sh {
        Shell::Bash => BASH_HOOK@,
        Shell::Zsh => ZSH_HOOK@,
        Shell::Fish => FISH_HOOK@,
    }
}

/// The diagnostic for a hook request that names no known shell.
pub open spec fn unsupported_message(name: Seq<char>) -> Seq<char> {
    "Unsupported shell: "@ + name
}

/// A hook was asked for a shell outside the supported set.
#[derive(Debug, PartialEq, Eq)]
pub struct UnsupportedShell {
    pub name: String,
}

impl UnsupportedShell {
    /// The diagnostic text, which holds the offending name.
    pub fn message(&self) -> (r: String)
        ensures
            r@ == unsupported_message(self.name@),
    {
        let mut r = String::from_str("Unsupported shell: ");
        r.append(self.name.as_str());
        r
    }
}

impl Shell {
    /// The startup hook script of this shell.
    pub fn hook_script(self) -> (r: &'static str)
        ensures
            r@ == hook_text(self),
    {
        match self {
            Shell::Bash => BASH_HOOK,
            Shell::Zsh => ZSH_HOOK,
            Shell::Fish => FISH_HOOK,
        }
    }
}

/// The shell that `name` names for a hook request.
pub fn parse_shell_name(name: &str) -> (r: Result<Shell, UnsupportedShell>)
    ensures
        match named(name@) {
            Some(sh) => r == Ok::<Shell, UnsupportedShell>(sh),
            None => r matches Err(e) && e.name@ == name@,
        },
{
    if same_text(name, "bash") {
        Ok(Shell::Bash)
    } else if same_text(name, "zsh") {
        Ok(Shell::Zsh)
    } else if same_text(name, "fish") {
        Ok(Shell::Fish)
    } else {
        Err(UnsupportedShell { name: String::from_str(name) })
    }
}

/// The hook script to print for the shell named `shell`, or the error that
/// names it when no supported shell has that name.
pub fn run(shell: &str) -> (r: Result<&'static str, UnsupportedShell>)
    ensures
        match named(shell@) {
            Some(sh) => r matches Ok(t) && t@ == hook_text(sh),
            None => r matches Err(e) && e.name@ == shell@,
        },
{
    match parse_shell_name(shell) {
        Ok(sh) => Ok(sh.hook_script()),
        Err(e) => Err(e),
    }
}

/// Detection, hook dispatch and the variants agree: each shell's name selects
/// that shell for its hook and, given as the detection value, detects it, and
/// distinct shells have distinct names.
pub proof fn lemma_names_correspond(sh: Shell, other: Shell, value: &str)
    requires
        value@ == shell_name(sh),
    ensures
        named(shell_name(sh)) == Some(sh),
        detected(Some(value)) == sh,
        sh != other ==> shell_name(sh) != shell_name(other),
{
    reveal_strlit("bash");
    reveal_strlit("zsh");
    reveal_strlit("fish");
    assert("bash"@ != "zsh"@ && "bash"@ != "fish"@ && "zsh"@ != "fish"@) by {
        assert("bash"@.len() != "zsh"@.len());
        assert("bash"@[0] != "fish"@[0]);
        assert("zsh"@.len() != "fish"@.len());
    }
}

} // verus!
