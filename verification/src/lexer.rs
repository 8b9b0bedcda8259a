//! The lexer: splits source text on runs of whitespace and resolves every
//! word through the mnemonic table, in order.
//!
//! Space, tab, carriage return and newline are treated uniformly; line
//! boundaries carry no meaning.  No word is dropped, resolution never fails
//! (unknown words become literals), and empty input yields an empty token
//! sequence.

use crate::emitter::{toks_view, LexError};
use crate::op::{resolve_spec, Op, OpV};
use vstd::prelude::*;

verus! {

/// The characters that separate words.
pub open spec fn is_ws(c: char) -> bool {
    c == ' ' || c == '\t' || c == '\n' || c == '\r'
}

/// Executable counterpart of [`is_ws`].
fn is_ws_char(c: char) -> (r: bool)
    ensures
        r == is_ws(c),
{
    c == ' ' || c == '\t' || c == '\n' || c == '\r'
}

/// One step of the split: the words finished so far and the word being
/// gathered, advanced by one character.
pub open spec fn split_step(
    acc: (Seq<Seq<char>>, Seq<char>),
    c: char,
) -> (Seq<Seq<char>>, Seq<char>) {
    if is_ws(c) {
        if acc.1.len() > 0 {
            (acc.0.push(acc.1), Seq::empty())
        } else {
            acc
        }
    } else {
        (acc.0, acc.1.push(c))
    }
}

/// The split state after reading all of `s`.
pub open spec fn split_fold(s: Seq<char>) -> (Seq<Seq<char>>, Seq<char>)
    decreases s.len(),
{
    if s.len() == 0 {
        (Seq::empty(), Seq::empty())
    } else {
        split_step(split_fold(s.drop_last()), s.last())
    }
}

/// The words of `s`: maximal runs of non-whitespace characters, in order.
pub open spec fn split_ws(s: Seq<char>) -> Seq<Seq<char>> {
    let r = split_fold(s);
    if r.1.len() > 0 {
        r.0.push(r.1)
    } else {
        r.0
    }
}

/// Each word resolved through the mnemonic table, in order.
pub open spec fn words_to_toks(ws: Seq<Seq<char>>) -> Seq<(OpV, Seq<char>)> {
    ws.map_values(|w: Seq<char>| resolve_spec(w))
}

/// What lexing `s` produces: its words resolved in order.
pub open spec fn lex_spec(s: Seq<char>) -> Seq<(OpV, Seq<char>)> {
    words_to_toks(split_ws(s))
}

/// LAW: lexing is deterministic — equal source text always yields the same
/// token sequence, so re-lexing the same text twice gives identical results.
pub proof fn lemma_lex_deterministic(s1: Seq<char>, s2: Seq<char>)
    requires
        s1 == s2,
    ensures
        lex_spec(s1) == lex_spec(s2),
{
}

proof fn lemma_split_fold_leading(c: char, s: Seq<char>)
    requires
        is_ws(c),
    ensures
        split_fold(seq![c] + s) == split_fold(s),
    decreases s.len(),
{
    if s.len() == 0 {
        let u = seq![c] + s;
        assert(u =~= seq![c]);
        assert(s =~= Seq::<char>::empty());
        assert(u.drop_last() =~= Seq::<char>::empty());
        assert(u.last() == c);
        assert(split_fold(Seq::<char>::empty()) == (
            Seq::<Seq<char>>::empty(),
            Seq::<char>::empty(),
        ));
        assert(split_fold(u) == split_step(split_fold(u.drop_last()), c));
    } else {
        lemma_split_fold_leading(c, s.drop_last());
        assert((seq![c] + s).drop_last() =~= seq![c] + s.drop_last());
        assert((seq![c] + s).last() == s.last());
    }
}

/// LAW: a leading whitespace character changes nothing — the same tokens
/// come out.
pub proof fn lemma_lex_ignores_leading_ws(c: char, s: Seq<char>)
    requires
        is_ws(c),
    ensures
        lex_spec(seq![c] + s) == lex_spec(s),
{
    lemma_split_fold_leading(c, s);
}

/// LAW: a trailing whitespace character changes nothing — the same tokens
/// come out.
pub proof fn lemma_lex_ignores_trailing_ws(s: Seq<char>, c: char)
    requires
        is_ws(c),
    ensures
        lex_spec(s.push(c)) == lex_spec(s),
{
    assert(s.push(c).drop_last() =~= s);
    assert(s.push(c).last() == c);
}

/// The lexer.  It accumulates the token sequence it builds.
#[derive(Debug, Clone)]
pub struct Lexer {
    /// The tokens lexed so far.
    pub result: Vec<(Op, String)>,
}

impl Lexer {
    /// A lexer with no tokens yet.
    pub fn new() -> (r: Self)
        ensures
            r.result@.len() == 0,
    {
        Lexer { result: Vec::new() }
    }

    /// Split `source` on whitespace, resolve every word in order and append
    /// the tokens to `result`.  This stage cannot fail: the returned result
    /// is always `Ok`.
    pub fn lex(&mut self, source: &str) -> (r: Result<(), LexError>)
        ensures
            r is Ok,
            toks_view(final(self).result@) == toks_view(old(self).result@) + lex_spec(source@),
    {
        let n = source.unicode_len();
        let mut i: usize = 0;
        let mut in_word = false;
        let mut start: usize = 0;
        proof {
            assert(source@.take(0) =~= Seq::<char>::empty());
            assert(toks_view(self.result@) =~= toks_view(old(self).result@) + words_to_toks(
                split_fold(source@.take(0)).0,
            ));
        }
        while i < n
            invariant
                n == source@.len(),
                i <= n,
                ({
                    let f = split_fold(source@.take(i as int));
                    &&& toks_view(self.result@) == toks_view(old(self).result@) + words_to_toks(
                        f.0,
                    )
                    &&& in_word ==> start < i && f.1 == source@.subrange(start as int, i as int)
                    &&& !in_word ==> f.1 == Seq::<char>::empty()
                }),
            decreases n - i,
        {
            let c = source.get_char(i);
            let ghost prev = split_fold(source@.take(i as int));
            proof {
                assert(source@.take(i as int + 1).drop_last() =~= source@.take(i as int));
                assert(source@.take(i as int + 1).last() == source@[i as int]);
                assert(split_fold(source@.take(i as int + 1)) == split_step(
                    prev,
                    source@[i as int],
                ));
            }
            if is_ws_char(c) {
                if in_word {
                    let word = source.substring_char(start, i);
                    let tok = Op::from_str(word);
                    let ghost res0 = self.result@;
                    self.result.push(tok);
                    in_word = false;
                    proof {
                        assert(word@ == prev.1);
                        assert(toks_view(self.result@) =~= toks_view(res0).push(
                            resolve_spec(word@),
                        ));
                        assert(words_to_toks(prev.0.push(prev.1)) =~= words_to_toks(prev.0).push(
                            resolve_spec(prev.1),
                        ));
                        assert(toks_view(self.result@) =~= toks_view(old(self).result@)
                            + words_to_toks(prev.0.push(prev.1)));
                    }
                }
            } else {
                if !in_word {
                    start = i;
                    in_word = true;
                    proof {
                        assert(prev.1.push(source@[i as int]) =~= source@.subrange(
                            start as int,
                            i as int + 1,
                        ));
                    }
                } else {
                    proof {
                        assert(prev.1.push(source@[i as int]) =~= source@.subrange(
                            start as int,
                            i as int + 1,
                        ));
                    }
                }
            }
            i += 1;
        }
        proof {
            assert(source@.take(n as int) =~= source@);
        }
        if in_word {
            let word = source.substring_char(start, n);
            let tok = Op::from_str(word);
            let ghost res0 = self.result@;
            self.result.push(tok);
            proof {
                let f = split_fold(source@);
                assert(word@ == f.1);
                assert(toks_view(self.result@) =~= toks_view(res0).push(resolve_spec(word@)));
                assert(words_to_toks(f.0.push(f.1)) =~= words_to_toks(f.0).push(
                    resolve_spec(f.1),
                ));
                assert(toks_view(self.result@) =~= toks_view(old(self).result@) + words_to_toks(
                    split_ws(source@),
                ));
            }
        } else {
            proof {
                assert(toks_view(self.result@) =~= toks_view(old(self).result@) + words_to_toks(
                    split_ws(source@),
                ));
            }
        }
        Ok(())
    }
}

} // verus!
