use vstd::prelude::*;

use crate::shell::Shell;

verus! {

/// What a single character of a value becomes inside a single-quoted word:
/// a quote closes the word, is written escaped, and reopens it.
pub open spec fn escape_char(c: char) -> Seq<char> {
    if c == '\'' {
        seq!['\'', '\\', '\'', '\'']
    } else {
        seq![c]
    }
}

/// The text placed between the surrounding single quotes for a value.
pub open spec fn escape_quotes(v: Seq<char>) -> Seq<char>
    decreases v.len(),
{
    if v.len() == 0 {
        Seq::empty()
    } else {
        escape_char(v[0]) + escape_quotes(v.drop_first())
    }
}

/// A value written as one single-quoted shell word.
pub open spec fn single_quoted(v: Seq<char>) -> Seq<char> {
    seq!['\''] + escape_quotes(v) + seq!['\'']
}

pub proof fn lemma_escape_concat(a: Seq<char>, b: Seq<char>)
    ensures
        escape_quotes(a + b) == escape_quotes(a) + escape_quotes(b),
    decreases a.len(),
{
    if a.len() == 0 {
        assert(a + b =~= b);
        assert(escape_quotes(a) + escape_quotes(b) =~= escape_quotes(b));
    } else {
        assert((a + b).drop_first() =~= a.drop_first() + b);
        lemma_escape_concat(a.drop_first(), b);
        assert(escape_quotes(a + b) =~= escape_quotes(a) + escape_quotes(b));
    }
}

/// Writes `value` so that it can stand between single quotes: every `'`
/// becomes `'\''`.
pub fn escape_single_quotes(value: &str) -> (r: String)
    ensures
        r@ == escape_quotes(value@),
{
    let n = value.unicode_len();
    let mut r = String::new();
    let mut i: usize = 0;
    while i < n
        invariant
            n == value@.len(),
            i <= n,
            r@ == escape_quotes(value@.subrange(0, i as int)),
        decreases n - i,
    {
        let c = value.get_char(i);
        proof {
            let done = value@.subrange(0, i as int);
            assert(value@.subrange(0, i + 1) =~= done + seq![c]);
            lemma_escape_concat(done, seq![c]);
            assert(seq![c].drop_first() =~= Seq::<char>::empty());
            assert(escape_quotes(Seq::<char>::empty()) == Seq::<char>::empty());
            assert(escape_quotes(seq![c]) =~= escape_char(c));
        }
        if c == '\'' {
            proof {
                reveal_strlit("'\\''");
            }
            r.append("'\\''");
            assert(r@ =~= escape_quotes(value@.subrange(0, i + 1)));
        } else {
            let one = value.substring_char(i, i + 1);
            assert(one@ =~= seq![c]);
            r.append(one);
            assert(r@ =~= escape_quotes(value@.subrange(0, i + 1)));
        }
        i = i + 1;
    }
    assert(value@.subrange(0, n as int) =~= value@);
    r
}

/// `t` with `c` in front, where there is a `t`.
pub open spec fn prepend(c: char, t: Option<Seq<char>>) -> Option<Seq<char>> {
    match t {
        Some(w) => Some(seq![c] + w),
        None => None,
    }
}

/// The value that `sh` gives to the word `s`, read from the state `quoted`,
/// for words made of single-quoted segments and of the escapes `\\` and `\'`
/// between them. Inside single quotes Bash and Zsh take every character as it
/// stands, while Fish also reads `\\` and `\'` as escapes. `None` for a word
/// outside that form or with an unclosed quote.
pub open spec fn word_value(sh: Shell, s: Seq<char>, quoted: bool) -> Option<Seq<char>>
    decreases s.len(),
{
    if s.len() == 0 {
        if quoted {
            None
        } else {
            Some(Seq::empty())
        }
    } else if s[0] == '\'' {
        word_value(sh, s.drop_first(), !quoted)
    } else if s[0] == '\\' && s.len() >= 2 && (s[1] == '\\' || s[1] == '\'') && (!quoted
        || sh is Fish) {
        prepend(s[1], word_value(sh, s.subrange(2, s.len() as int), quoted))
    } else if quoted {
        prepend(s[0], word_value(sh, s.drop_first(), quoted))
    } else {
        None
    }
}

/// Values that Fish reads back unchanged from a single-quoted word: each
/// backslash is followed by a character other than a backslash or a quote.
pub open spec fn fish_quotable(v: Seq<char>) -> bool {
    forall|i: int|
        0 <= i < v.len() && #[trigger] v[i] == '\\' ==> i + 1 < v.len() && v[i + 1] != '\\'
            && v[i + 1] != '\''
}

proof fn lemma_escaped_tail(sh: Shell, v: Seq<char>)
    requires
        sh is Fish ==> fish_quotable(v),
    ensures
        word_value(sh, escape_quotes(v) + seq!['\''], true) == Some(v),
    decreases v.len(),
{
    let s = escape_quotes(v) + seq!['\''];
    if v.len() == 0 {
        assert(s =~= seq!['\'']);
        assert(s.drop_first() =~= Seq::<char>::empty());
        assert(word_value(sh, Seq::<char>::empty(), false) == Some(Seq::<char>::empty()));
        assert(v =~= Seq::<char>::empty());
        assert(word_value(sh, s, true) == word_value(sh, s.drop_first(), false));
    } else {
        let c = v[0];
        let tail = v.drop_first();
        let rest = escape_quotes(tail) + seq!['\''];
        assert(sh is Fish ==> fish_quotable(tail)) by {
            if sh is Fish {
                assert forall|i: int| 0 <= i < tail.len() && #[trigger] tail[i] == '\\' implies i
                    + 1 < tail.len() && tail[i + 1] != '\\' && tail[i + 1] != '\'' by {
                    assert(v[i + 1] == tail[i]);
                }
            }
        }
        lemma_escaped_tail(sh, tail);
        assert(seq![c] + tail =~= v);
        if c == '\'' {
            assert(s =~= seq!['\'', '\\', '\'', '\''] + rest);
            let s1 = s.drop_first();
            assert(s1 =~= seq!['\\', '\'', '\''] + rest);
            let s2 = s1.subrange(2, s1.len() as int);
            assert(s2 =~= seq!['\''] + rest);
            assert(s2.drop_first() =~= rest);
            assert(word_value(sh, s2, false) == word_value(sh, rest, true));
            assert(word_value(sh, s1, false) == prepend('\'', word_value(sh, s2, false)));
            assert(word_value(sh, s, true) == word_value(sh, s1, false));
        } else {
            assert(s =~= seq![c] + rest);
            assert(s.drop_first() =~= rest);
            if c == '\\' && sh is Fish {
                let d = v[1];
                assert(tail[0] == d);
                assert(escape_quotes(tail) =~= seq![d] + escape_quotes(tail.drop_first()));
                assert(s[1] == d);
            }
            assert(word_value(sh, s, true) == prepend(c, word_value(sh, rest, true)));
        }
    }
}

/// A value written as a single-quoted word reads back as that same value:
/// in Bash and Zsh for every value, in Fish for every value that it can hold
/// between single quotes.
pub proof fn lemma_single_quoted_round_trip(sh: Shell, v: Seq<char>)
    requires
        sh is Fish ==> fish_quotable(v),
    ensures
        word_value(sh, single_quoted(v), false) == Some(v),
{
    let s = single_quoted(v);
    assert(s.drop_first() =~= escape_quotes(v) + seq!['\'']);
    lemma_escaped_tail(sh, v);
}

} // verus!
