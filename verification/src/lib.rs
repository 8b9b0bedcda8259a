//! A single-pass assembler for a small stack-machine mnemonic language.
//!
//! Source text is split on whitespace, each word is resolved to an
//! instruction with its fixed one-byte hex encoding (unknown words become
//! literal operands), and the token sequence is emitted left to right as a
//! flat list of hex strings, with a one-token lookahead for the single
//! operand-carrying instruction.

pub mod emitter;
pub mod lexer;
pub mod op;

use crate::emitter::{emit_spec, strs_view, toks_view, LexError, LexErrorKind, Parser};
use crate::lexer::{lex_spec, Lexer};
use vstd::prelude::*;

verus! {

/// All parts concatenated in order with no separator.
pub open spec fn concat_all(parts: Seq<Seq<char>>) -> Seq<char>
    decreases parts.len(),
{
    if parts.len() == 0 {
        Seq::empty()
    } else {
        concat_all(parts.drop_last()) + parts.last()
    }
}

/// What the whole pipeline turns source text into: the emitted hex strings
/// joined with no separator, or the kind of fatal condition hit.
pub open spec fn assemble_spec(s: Seq<char>) -> Result<Seq<char>, LexErrorKind> {
    match emit_spec(lex_spec(s)) {
        Ok(parts) => Ok(concat_all(parts)),
        Err(e) => Err(e),
    }
}

/// Join the emitted hex strings into one string, no separator.
pub fn join_all(parts: &Vec<String>) -> (r: String)
    ensures
        r@ == concat_all(strs_view(parts@)),
{
    let mut acc = String::new();
    let mut i: usize = 0;
    proof {
        assert(strs_view(parts@).take(0) =~= Seq::<Seq<char>>::empty());
    }
    while i < parts.len()
        invariant
            i <= parts@.len(),
            acc@ == concat_all(strs_view(parts@).take(i as int)),
        decreases parts@.len() - i,
    {
        acc.append(parts[i].as_str());
        proof {
            assert(strs_view(parts@).take(i as int + 1).drop_last() =~= strs_view(parts@).take(
                i as int,
            ));
            assert(strs_view(parts@).take(i as int + 1).last() == parts@[i as int]@);
        }
        i += 1;
    }
    proof {
        assert(strs_view(parts@).take(parts@.len() as int) =~= strs_view(parts@));
    }
    acc
}

/// The full translation: lex the source, emit the token sequence, join the
/// output — exactly as [`assemble_spec`] states.  A missing or malformed
/// operand aborts the whole run; no partial output is returned.
pub fn assemble(source: &str) -> (r: Result<String, LexError>)
    ensures
        match r {
            Ok(out) => assemble_spec(source@) == Ok::<Seq<char>, LexErrorKind>(out@),
            Err(e) => {
                &&& assemble_spec(source@) == Err::<Seq<char>, LexErrorKind>(e.kind)
                &&& e.line is None
            },
        },
{
    let mut lexer = Lexer::new();
    match lexer.lex(source) {
        Ok(()) => {},
        Err(e) => {
            // Lexing cannot fail; its contract promises `Ok`.
            return Err(e);
        },
    }
    proof {
        assert(toks_view(lexer.result@) =~= lex_spec(source@));
    }
    let mut parser = Parser::new(lexer.result);
    let ghost toks = toks_view(parser.tokens@);
    proof {
        assert(toks.skip(0) =~= toks);
    }
    match parser.parse() {
        Ok(parts) => {
            let joined = join_all(&parts);
            Ok(joined)
        },
        Err(e) => Err(e),
    }
}

/// LAW: empty input produces an empty token sequence, an empty byte
/// sequence and no error.
pub proof fn lemma_empty_input()
    ensures
        lex_spec(Seq::<char>::empty()) == Seq::<(crate::op::OpV, Seq<char>)>::empty(),
        assemble_spec(Seq::<char>::empty()) == Ok::<Seq<char>, LexErrorKind>(
            Seq::<char>::empty(),
        ),
{
    assert(lex_spec(Seq::<char>::empty()) =~= Seq::<(crate::op::OpV, Seq<char>)>::empty());
    assert(emit_spec(lex_spec(Seq::<char>::empty())) == Ok::<Seq<Seq<char>>, LexErrorKind>(
        Seq::<Seq<char>>::empty(),
    ));
}

} // verus!
