//! POSIX single-quoting, with the law that a shell reads a quoted text back
//! as the text itself.

use vstd::prelude::*;
use crate::text::{chars_of, push_char};

verus! {

/// What one character of the text becomes inside the quotes: a `'` closes
/// the quotes, is written escaped, and reopens them.
pub open spec fn quoted_char(c: char) -> Seq<char> {
    if c == '\'' {
        seq!['\'', '\\', '\'', '\'']
    } else {
        seq![c]
    }
}

/// The text between the outer quotes.
pub open spec fn quoted_body(s: Seq<char>) -> Seq<char>
    decreases s.len(),
{
    if s.len() == 0 {
        seq![]
    } else {
        quoted_char(s[0]) + quoted_body(s.drop_first())
    }
}

/// `'` + the text with every `'` written as `'\''` + `'`.
pub open spec fn single_quoted(s: Seq<char>) -> Seq<char> {
    seq!['\''] + quoted_body(s) + seq!['\'']
}

proof fn lemma_quoted_body_push(s: Seq<char>, c: char)
    ensures
        quoted_body(s.push(c)) == quoted_body(s) + quoted_char(c),
    decreases s.len(),
{
    if s.len() == 0 {
        assert(s.push(c).drop_first() == s);
        assert(quoted_body(s.push(c)) == quoted_char(c) + quoted_body(s));
    } else {
        assert(s.push(c).drop_first() == s.drop_first().push(c));
        lemma_quoted_body_push(s.drop_first(), c);
    }
}

/// Minimal POSIX single-quote for embedding a path in a shell command.
pub fn shell_quote(s: &str) -> (res: String)
    ensures
        res@ == single_quoted(s@),
        res@.len() >= 2,
        res@[0] == '\'',
        res@.last() == '\'',
{
    let v = chars_of(s);
    let mut out = String::new();
    push_char(&mut out, '\'');
    let mut i: usize = 0;
    while i < v.len()
        invariant
            i <= v@.len(),
            out@ == seq!['\''] + quoted_body(v@.take(i as int)),
        decreases v@.len() - i,
    {
        let c = v[i];
        proof {
            assert(v@.take(i + 1) == v@.take(i as int).push(c));
            lemma_quoted_body_push(v@.take(i as int), c);
        }
        if c == '\'' {
            push_char(&mut out, '\'');
            push_char(&mut out, '\\');
            push_char(&mut out, '\'');
            push_char(&mut out, '\'');
        } else {
            push_char(&mut out, c);
        }
        i = i + 1;
    }
    assert(v@.take(v@.len() as int) == v@);
    push_char(&mut out, '\'');
    out
}

/// How a POSIX shell reads a word made of plain characters, `\`-escapes and
/// single-quoted stretches (no expansions): `quoting` tells whether the
/// reader is inside single quotes. `None` when a quote is left open.
pub open spec fn shell_word(w: Seq<char>, quoting: bool) -> Option<Seq<char>>
    decreases w.len(),
{
    if w.len() == 0 {
        if quoting {
            None
        } else {
            Some(seq![])
        }
    } else if quoting {
        if w[0] == '\'' {
            shell_word(w.drop_first(), false)
        } else {
            match shell_word(w.drop_first(), true) {
                Some(r) => Some(seq![w[0]] + r),
                None => None,
            }
        }
    } else if w[0] == '\'' {
        shell_word(w.drop_first(), true)
    } else if w[0] == '\\' && w.len() >= 2 {
        match shell_word(w.skip(2), false) {
            Some(r) => Some(seq![w[1]] + r),
            None => None,
        }
    } else {
        match shell_word(w.drop_first(), false) {
            Some(r) => Some(seq![w[0]] + r),
            None => None,
        }
    }
}

proof fn lemma_read_quoted_body(s: Seq<char>, rest: Seq<char>)
    ensures
        shell_word(quoted_body(s) + rest, true) == (match shell_word(rest, true) {
            Some(r) => Some(s + r),
            None => None::<Seq<char>>,
        }),
    decreases s.len(),
{
    if s.len() == 0 {
        assert(quoted_body(s) + rest == rest);
        match shell_word(rest, true) {
            Some(r) => {
                assert(s + r == r);
            },
            None => {},
        }
    } else {
        let c = s[0];
        let tail = quoted_body(s.drop_first()) + rest;
        lemma_read_quoted_body(s.drop_first(), rest);
        let w = quoted_body(s) + rest;
        if c == '\'' {
            assert(w == seq!['\'', '\\', '\'', '\''] + tail);
            assert(w.drop_first() == seq!['\\', '\'', '\''] + tail);
            let w1 = w.drop_first();
            assert(w1.skip(2) == seq!['\''] + tail);
            assert((seq!['\''] + tail).drop_first() == tail);
            assert(w[0] == '\'');
            assert(shell_word(w, true) == shell_word(w1, false));
            assert(w1[0] == '\\' && w1[1] == '\'');
            assert(shell_word(w1.skip(2), false) == shell_word(tail, true));
            match shell_word(rest, true) {
                Some(r) => {
                    assert(seq![c] + (s.drop_first() + r) == s + r);
                },
                None => {},
            }
        } else {
            assert(w == seq![c] + tail);
            assert(w.drop_first() == tail);
            assert(w[0] == c);
            match shell_word(rest, true) {
                Some(r) => {
                    assert(seq![c] + (s.drop_first() + r) == s + r);
                },
                None => {},
            }
        }
    }
}

/// A shell reads `shell_quote(s)` back as `s`, whatever characters `s`
/// holds.
pub proof fn law_shell_quote_reads_back(s: Seq<char>)
    ensures
        shell_word(single_quoted(s), false) == Some(s),
{
    let w = single_quoted(s);
    assert(w.drop_first() == quoted_body(s) + seq!['\'']);
    assert(w[0] == '\'');
    lemma_read_quoted_body(s, seq!['\'']);
    assert(seq!['\''].drop_first() == Seq::<char>::empty());
    assert(shell_word(seq!['\''], true) == shell_word(Seq::<char>::empty(), false));
    assert(s + Seq::<char>::empty() == s);
}

} // verus!
