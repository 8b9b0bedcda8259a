//! The emitter: a single left-to-right walk over a token sequence that
//! produces the flat list of hex strings.
//!
//! One instruction carries an immediate operand (`PUSH1`): after emitting its
//! encoding the emitter requires the next token to be a literal, strips any
//! leading `0x` prefixes from its payload and emits the remaining digits
//! verbatim.  A literal standing on its own (not after an operand-carrying
//! instruction) is emitted the same way: its payload with leading `0x`
//! prefixes stripped.  A missing or non-literal operand aborts the whole run
//! with a typed error; no partial output is returned.

use crate::op::{Op, OpV};
use vstd::prelude::*;

verus! {

/// Why a run was aborted.
#[derive(Debug, Clone, Copy, PartialEq, Eq)]
pub enum LexErrorKind {
    /// An operand-carrying instruction was the last token.
    MissingOperand,
    /// The token after an operand-carrying instruction was itself a
    /// recognized instruction rather than a literal.
    MalformedOperand,
}

/// A fatal condition, carrying its kind, an optional source line and a fixed
/// description.
#[derive(Debug, Clone, Copy)]
pub struct LexError {
    pub kind: LexErrorKind,
    pub line: Option<usize>,
    pub description: &'static str,
}

impl LexError {
    /// A fresh error of the given kind, with no line recorded yet.
    pub fn new(kind: LexErrorKind, description: &'static str) -> (r: Self)
        ensures
            r.kind == kind,
            r.line is None,
            r.description == description,
    {
        LexError { kind, line: None, description }
    }

    /// Record the line the error happened on; returns the updated error.
    pub fn line(&mut self, l: usize) -> (r: Self)
        ensures
            final(self).kind == old(self).kind,
            final(self).description == old(self).description,
            final(self).line == Some(l),
            r == *final(self),
    {
        self.line = Some(l);
        *self
    }
}

/// A literal payload with every leading `0x` removed.
pub open spec fn strip_hex_prefix_spec(v: Seq<char>) -> Seq<char>
    decreases v.len(),
{
    if v.len() >= 2 && v[0] == '0' && v[1] == 'x' {
        strip_hex_prefix_spec(v.skip(2))
    } else {
        v
    }
}

/// LAW: stripping the `0x` prefix is idempotent — a payload already
/// stripped is left as it is, so the prefix is genuinely optional.
pub proof fn lemma_strip_hex_prefix_idempotent(v: Seq<char>)
    ensures
        strip_hex_prefix_spec(strip_hex_prefix_spec(v)) == strip_hex_prefix_spec(v),
    decreases v.len(),
{
    if v.len() >= 2 && v[0] == '0' && v[1] == 'x' {
        lemma_strip_hex_prefix_idempotent(v.skip(2));
    }
}

/// Executable counterpart of [`strip_hex_prefix_spec`].
pub fn strip_hex_prefix(v: &str) -> (r: String)
    ensures
        r@ == strip_hex_prefix_spec(v@),
{
    let n = v.unicode_len();
    let mut start: usize = 0;
    proof {
        assert(v@.skip(0) =~= v@);
    }
    loop
        invariant
            n == v@.len(),
            start <= n,
            strip_hex_prefix_spec(v@) == strip_hex_prefix_spec(v@.skip(start as int)),
        ensures
            start <= n,
            n == v@.len(),
            strip_hex_prefix_spec(v@) == v@.skip(start as int),
        decreases n - start,
    {
        if start < n && start + 1 < n {
            let c0 = v.get_char(start);
            let c1 = v.get_char(start + 1);
            proof {
                assert(v@.skip(start as int)[0] == v@[start as int]);
                assert(v@.skip(start as int)[1] == v@[start as int + 1]);
            }
            if c0 == '0' && c1 == 'x' {
                proof {
                    assert(v@.skip(start as int).skip(2) =~= v@.skip(start as int + 2));
                }
                start += 2;
            } else {
                proof {
                    assert(strip_hex_prefix_spec(v@.skip(start as int)) == v@.skip(start as int));
                }
                break;
            }
        } else {
            proof {
                assert(v@.skip(start as int).len() < 2);
                assert(strip_hex_prefix_spec(v@.skip(start as int)) == v@.skip(start as int));
            }
            break;
        }
    }
    let r = String::from_str(v.substring_char(start, n));
    proof {
        assert(v@.subrange(start as int, n as int) =~= v@.skip(start as int));
    }
    r
}

/// Whether an instruction consumes the following token as immediate data.
pub open spec fn is_operand_carrying(v: OpV) -> bool {
    v is PUSH1
}

/// What the emitter produces from a token sequence, or the kind of fatal
/// condition it hits.
pub open spec fn emit_spec(toks: Seq<(OpV, Seq<char>)>) -> Result<Seq<Seq<char>>, LexErrorKind>
    decreases toks.len(),
{
    if toks.len() == 0 {
        Ok(Seq::empty())
    } else if is_operand_carrying(toks[0].0) {
        if toks.len() < 2 {
            Err(LexErrorKind::MissingOperand)
        } else {
            match toks[1].0 {
                OpV::VALUE(v) => match emit_spec(toks.skip(2)) {
                    Ok(rest) => Ok(seq![toks[0].1, strip_hex_prefix_spec(v)] + rest),
                    Err(e) => Err(e),
                },
                _ => Err(LexErrorKind::MalformedOperand),
            }
        }
    } else {
        let first = match toks[0].0 {
            OpV::VALUE(v) => strip_hex_prefix_spec(v),
            _ => toks[0].1,
        };
        match emit_spec(toks.skip(1)) {
            Ok(rest) => Ok(seq![first] + rest),
            Err(e) => Err(e),
        }
    }
}

/// The view of one token.
pub open spec fn tok_view(t: (Op, String)) -> (OpV, Seq<char>) {
    (t.0@, t.1@)
}

/// The view of a token sequence.
pub open spec fn toks_view(ts: Seq<(Op, String)>) -> Seq<(OpV, Seq<char>)> {
    ts.map_values(|t: (Op, String)| tok_view(t))
}

/// The view of the produced hex strings.
pub open spec fn strs_view(ss: Seq<String>) -> Seq<Seq<char>> {
    ss.map_values(|s: String| s@)
}

/// An emission with `prefix` already produced in front of it.
spec fn emit_prepend(
    prefix: Seq<Seq<char>>,
    r: Result<Seq<Seq<char>>, LexErrorKind>,
) -> Result<Seq<Seq<char>>, LexErrorKind> {
    match r {
        Ok(rest) => Ok(prefix + rest),
        Err(e) => Err(e),
    }
}

proof fn lemma_emit_prepend_assoc(
    a: Seq<Seq<char>>,
    b: Seq<Seq<char>>,
    r: Result<Seq<Seq<char>>, LexErrorKind>,
)
    ensures
        emit_prepend(a, emit_prepend(b, r)) == emit_prepend(a + b, r),
{
    match r {
        Ok(rest) => {
            assert(a + (b + rest) =~= (a + b) + rest);
        },
        Err(_) => {
        },
    }
}

/// The fixed encoding of each token, in order.
pub open spec fn encodings_of(toks: Seq<(OpV, Seq<char>)>) -> Seq<Seq<char>> {
    toks.map_values(|t: (OpV, Seq<char>)| t.1)
}

/// LAW: a sequence of plain instructions — no operand-carrying instruction
/// and no literal — emits exactly one encoding per token, in input order,
/// with no cursor skips.
pub proof fn lemma_plain_sequence(toks: Seq<(OpV, Seq<char>)>)
    requires
        forall|i: int|
            0 <= i < toks.len() ==> !is_operand_carrying(#[trigger] toks[i].0) && !(toks[i].0
                is VALUE),
    ensures
        emit_spec(toks) == Ok::<Seq<Seq<char>>, LexErrorKind>(encodings_of(toks)),
    decreases toks.len(),
{
    if toks.len() == 0 {
        assert(encodings_of(toks) =~= Seq::<Seq<char>>::empty());
    } else {
        assert(forall|i: int| 0 <= i < toks.skip(1).len() ==> toks.skip(1)[i] == toks[i + 1]);
        lemma_plain_sequence(toks.skip(1));
        assert(seq![toks[0].1] + encodings_of(toks.skip(1)) =~= encodings_of(toks));
    }
}

/// LAW: an operand-carrying instruction with nothing following it is a
/// fatal condition, not a zero-filled emission — appending one to any
/// sequence that emits successfully turns the whole emission into the
/// missing-operand error.
pub proof fn lemma_missing_operand_fatal(toks: Seq<(OpV, Seq<char>)>, p: (OpV, Seq<char>))
    requires
        emit_spec(toks) is Ok,
        is_operand_carrying(p.0),
    ensures
        emit_spec(toks.push(p)) == Err::<Seq<Seq<char>>, LexErrorKind>(
            LexErrorKind::MissingOperand,
        ),
    decreases toks.len(),
{
    let t2 = toks.push(p);
    if toks.len() == 0 {
        assert(t2.len() == 1);
        assert(t2[0] == p);
    } else if is_operand_carrying(toks[0].0) {
        assert(toks.len() >= 2);
        assert(toks[1].0 is VALUE);
        assert(emit_spec(toks.skip(2)) is Ok);
        assert(t2[0] == toks[0]);
        assert(t2[1] == toks[1]);
        assert(t2.skip(2) =~= toks.skip(2).push(p));
        lemma_missing_operand_fatal(toks.skip(2), p);
    } else {
        assert(emit_spec(toks.skip(1)) is Ok);
        assert(t2[0] == toks[0]);
        assert(t2.skip(1) =~= toks.skip(1).push(p));
        lemma_missing_operand_fatal(toks.skip(1), p);
    }
}

/// The emitter.  It owns the token sequence and consumes it once, cursor
/// moving strictly left to right.
#[derive(Debug)]
pub struct Parser {
    pub cursor: usize,
    pub tokens: Vec<(Op, String)>,
}

impl Parser {
    /// An emitter over the given tokens, cursor at the start.
    pub fn new(tokens: Vec<(Op, String)>) -> (r: Self)
        ensures
            r.cursor == 0,
            r.tokens == tokens,
    {
        Parser { cursor: 0, tokens }
    }

    /// Walk the remaining tokens and produce the byte sequence, exactly as
    /// [`emit_spec`] states; on a fatal condition the whole run aborts with
    /// the matching error kind and no output.
    pub fn parse(&mut self) -> (r: Result<Vec<String>, LexError>)
        ensures
            final(self).tokens == old(self).tokens,
            old(self).cursor <= old(self).tokens@.len() ==> match r {
                Ok(out) => {
                    &&& emit_spec(toks_view(old(self).tokens@).skip(old(self).cursor as int))
                        == Ok::<Seq<Seq<char>>, LexErrorKind>(strs_view(out@))
                    &&& final(self).cursor == old(self).tokens@.len()
                },
                Err(e) => {
                    &&& emit_spec(toks_view(old(self).tokens@).skip(old(self).cursor as int))
                        == Err::<Seq<Seq<char>>, LexErrorKind>(e.kind)
                    &&& e.line is None
                },
            },
    {
        let ghost full = toks_view(old(self).tokens@).skip(old(self).cursor as int);
        let mut out: Vec<String> = Vec::new();
        while self.cursor < self.tokens.len()
            invariant
                full == toks_view(old(self).tokens@).skip(old(self).cursor as int),
                self.tokens == old(self).tokens,
                old(self).cursor <= self.cursor,
                old(self).cursor <= old(self).tokens@.len() ==> {
                    &&& self.cursor <= self.tokens@.len()
                    &&& emit_spec(full) == emit_prepend(
                        strs_view(out@),
                        emit_spec(toks_view(self.tokens@).skip(self.cursor as int)),
                    )
                },
                old(self).cursor > old(self).tokens@.len() ==> self.cursor == old(self).cursor,
            decreases self.tokens@.len() - self.cursor,
        {
            let c = self.cursor;
            let ghost rest = toks_view(self.tokens@).skip(c as int);
            proof {
                assert(old(self).cursor <= self.tokens@.len());
                assert(rest.len() == self.tokens@.len() - c);
                assert(rest[0] == tok_view(self.tokens@[c as int]));
            }
            match &self.tokens[c].0 {
                Op::PUSH1 => {
                    if c + 1 >= self.tokens.len() {
                        proof {
                            assert(rest.len() == 1);
                            assert(emit_spec(rest) == Err::<Seq<Seq<char>>, LexErrorKind>(
                                LexErrorKind::MissingOperand,
                            ));
                        }
                        return Err(
                            LexError::new(
                                LexErrorKind::MissingOperand,
                                "operand-carrying instruction at end of input",
                            ),
                        );
                    }
                    proof {
                        assert(rest[1] == tok_view(self.tokens@[c as int + 1]));
                    }
                    match &self.tokens[c + 1].0 {
                        Op::VALUE(v) => {
                            let enc = String::clone(&self.tokens[c].1);
                            let operand = strip_hex_prefix(v.as_str());
                            let ghost out0 = out@;
                            out.push(enc);
                            out.push(operand);
                            self.cursor = c + 2;
                            proof {
                                let pair = seq![
                                    rest[0].1,
                                    strip_hex_prefix_spec(rest[1].0->VALUE_0),
                                ];
                                assert(rest.skip(2) =~= toks_view(self.tokens@).skip(c as int + 2));
                                assert(emit_spec(rest) == emit_prepend(
                                    pair,
                                    emit_spec(toks_view(self.tokens@).skip(c as int + 2)),
                                ));
                                lemma_emit_prepend_assoc(
                                    strs_view(out0),
                                    pair,
                                    emit_spec(toks_view(self.tokens@).skip(c as int + 2)),
                                );
                                assert(strs_view(out@) =~= strs_view(out0) + pair);
                            }
                        },
                        _ => {
                            proof {
                                assert(!(rest[1].0 is VALUE));
                                assert(emit_spec(rest) == Err::<Seq<Seq<char>>, LexErrorKind>(
                                    LexErrorKind::MalformedOperand,
                                ));
                            }
                            return Err(
                                LexError::new(
                                    LexErrorKind::MalformedOperand,
                                    "operand is a recognized instruction, not a literal",
                                ),
                            );
                        },
                    }
                },
                Op::VALUE(v) => {
                    let operand = strip_hex_prefix(v.as_str());
                    let ghost out0 = out@;
                    out.push(operand);
                    self.cursor = c + 1;
                    proof {
                        let one = seq![strip_hex_prefix_spec(rest[0].0->VALUE_0)];
                        assert(rest.skip(1) =~= toks_view(self.tokens@).skip(c as int + 1));
                        assert(emit_spec(rest) == emit_prepend(
                            one,
                            emit_spec(toks_view(self.tokens@).skip(c as int + 1)),
                        ));
                        lemma_emit_prepend_assoc(
                            strs_view(out0),
                            one,
                            emit_spec(toks_view(self.tokens@).skip(c as int + 1)),
                        );
                        assert(strs_view(out@) =~= strs_view(out0) + one);
                    }
                },
                _ => {
                    let enc = String::clone(&self.tokens[c].1);
                    let ghost out0 = out@;
                    out.push(enc);
                    self.cursor = c + 1;
                    proof {
                        let one = seq![rest[0].1];
                        assert(!is_operand_carrying(rest[0].0));
                        assert(!(rest[0].0 is VALUE));
                        assert(rest.skip(1) =~= toks_view(self.tokens@).skip(c as int + 1));
                        assert(emit_spec(rest) == emit_prepend(
                            one,
                            emit_spec(toks_view(self.tokens@).skip(c as int + 1)),
                        ));
                        lemma_emit_prepend_assoc(
                            strs_view(out0),
                            one,
                            emit_spec(toks_view(self.tokens@).skip(c as int + 1)),
                        );
                        assert(strs_view(out@) =~= strs_view(out0) + one);
                    }
                },
            }
        }
        proof {
            if old(self).cursor <= old(self).tokens@.len() {
                assert(toks_view(self.tokens@).skip(self.cursor as int) =~= Seq::<(
                    OpV,
                    Seq<char>,
                )>::empty());
                assert(emit_spec(full) == Ok::<Seq<Seq<char>>, LexErrorKind>(
                    strs_view(out@) + Seq::empty(),
                ));
                assert(strs_view(out@) + Seq::<Seq<char>>::empty() =~= strs_view(out@));
            }
        }
        Ok(out)
    }
}

} // verus!
