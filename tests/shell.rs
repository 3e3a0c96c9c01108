use direnv_instant::quote::escape_single_quotes;
use direnv_instant::shell::Shell;

#[test]
fn detect_fish() {
    assert_eq!(Shell::from_env(Some("fish")), Shell::Fish);
}

#[test]
fn detect_zsh() {
    assert_eq!(Shell::from_env(Some("zsh")), Shell::Zsh);
}

#[test]
fn detect_bash() {
    assert_eq!(Shell::from_env(Some("bash")), Shell::Bash);
}

#[test]
fn detect_other_values_default_to_bash() {
    assert_eq!(Shell::from_env(Some("ksh")), Shell::Bash);
    assert_eq!(Shell::from_env(Some("")), Shell::Bash);
    assert_eq!(Shell::from_env(Some("Fish")), Shell::Bash);
    assert_eq!(Shell::from_env(Some("fish ")), Shell::Bash);
    assert_eq!(Shell::from_env(None), Shell::Bash);
}

#[test]
fn default_is_bash() {
    assert_eq!(Shell::default(), Shell::Bash);
}

#[test]
fn export_arg_per_shell() {
    assert_eq!(Shell::Fish.direnv_export_arg(), "fish");
    assert_eq!(Shell::Bash.direnv_export_arg(), "zsh");
    assert_eq!(Shell::Zsh.direnv_export_arg(), "zsh");
}

#[test]
fn bash_export_empty_value() {
    assert_eq!(Shell::Bash.export_var("FOO", ""), "export FOO=''");
}

#[test]
fn bash_export_embedded_quote() {
    assert_eq!(Shell::Bash.export_var("FOO", "a'b"), r"export FOO='a'\''b'");
}

#[test]
fn fish_export_plain_value() {
    assert_eq!(Shell::Fish.export_var("FOO", "x"), "set -gx FOO 'x'");
}

#[test]
fn fish_export_empty_value() {
    assert_eq!(Shell::Fish.export_var("FOO", ""), "set -gx FOO ''");
}

#[test]
fn zsh_export_special_characters() {
    assert_eq!(
        Shell::Zsh.export_var("PATH_X", "a b $HOME `x`"),
        "export PATH_X='a b $HOME `x`'"
    );
}

#[test]
fn export_lone_quote() {
    assert_eq!(Shell::Bash.export_var("Q", "'"), r"export Q=''\'''");
    assert_eq!(Shell::Fish.export_var("Q", "'"), r"set -gx Q ''\'''");
}

#[test]
fn escape_replaces_every_quote() {
    assert_eq!(escape_single_quotes("'"), r"'\''");
    assert_eq!(escape_single_quotes("it's 'x'"), r"it'\''s '\''x'\''");
    assert_eq!(escape_single_quotes("héllo"), "héllo");
    assert_eq!(escape_single_quotes(""), "");
}

#[test]
fn unset_per_shell() {
    assert_eq!(Shell::Fish.unset_var("FOO"), "set -e FOO");
    assert_eq!(Shell::Bash.unset_var("FOO"), "unset FOO");
    assert_eq!(Shell::Zsh.unset_var("FOO"), "unset FOO");
}

/// Reads a word of single-quoted segments joined by `\'`, as a POSIX shell does.
fn read_posix_word(word: &str) -> Option<String> {
    let chars: Vec<char> = word.chars().collect();
    let mut out = String::new();
    let mut quoted = false;
    let mut i = 0;
    while i < chars.len() {
        let c = chars[i];
        if c == '\'' {
            quoted = !quoted;
            i += 1;
        } else if quoted {
            out.push(c);
            i += 1;
        } else if c == '\\' && i + 1 < chars.len() {
            out.push(chars[i + 1]);
            i += 2;
        } else {
            return None;
        }
    }
    if quoted {
        None
    } else {
        Some(out)
    }
}

#[test]
fn export_value_reads_back() {
    for value in ["", "'", "a'b", "$HOME and spaces", "''x''", "back\\slash", "`cmd`"] {
        let line = Shell::Bash.export_var("FOO", value);
        let word = line.strip_prefix("export FOO=").unwrap();
        assert_eq!(read_posix_word(word).as_deref(), Some(value));
    }
}
