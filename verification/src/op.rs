//! The instruction vocabulary and the mnemonic table.
//!
//! A word of source text resolves, case-insensitively, to one of the fixed
//! instruction tags together with its constant two-digit hex encoding.  A
//! word outside the vocabulary is not an error: it becomes `VALUE`, carrying
//! the word itself, with the sentinel encoding `"0"`, and is interpreted
//! later by the emitter.

use vstd::prelude::*;

verus! {

/// A stack-machine instruction, plus the open variant `VALUE` that carries
/// an unrecognized word verbatim.
#[derive(Debug, Clone, PartialEq, Eq)]
pub enum Op {
    MSTORE,
    MLOAD,
    CREATE,
    EXTCODECOPY,
    PUSH1,
    POP,
    DUP1,
    SWAP1,
    VALUE(String),
    STOP,
    ADD,
    MUL,
    SUB,
    DIV,
    SDIV,
    MOD,
    SMOD,
    ADDMOD,
    MULMOD,
    EXP,
    SIGNEXTEND,
    GT,
    SLT,
    SGT,
    EQ,
    ISZERO,
    AND,
    OR,
    XOR,
    NOT,
    BYTE,
    SHL,
    SHR,
    SAR,
    SHA3,
    ADDRESS,
    BALANCE,
    CALLVALUE,
    RETURN,
}

/// The mathematical shape of an [`Op`]: the same tags, with the `VALUE`
/// payload abstracted to its character sequence.
pub enum OpV {
    MSTORE,
    MLOAD,
    CREATE,
    EXTCODECOPY,
    PUSH1,
    POP,
    DUP1,
    SWAP1,
    VALUE(Seq<char>),
    STOP,
    ADD,
    MUL,
    SUB,
    DIV,
    SDIV,
    MOD,
    SMOD,
    ADDMOD,
    MULMOD,
    EXP,
    SIGNEXTEND,
    GT,
    SLT,
    SGT,
    EQ,
    ISZERO,
    AND,
    OR,
    XOR,
    NOT,
    BYTE,
    SHL,
    SHR,
    SAR,
    SHA3,
    ADDRESS,
    BALANCE,
    CALLVALUE,
    RETURN,
}

impl View for Op {
    type V = OpV;

    open spec fn view(&self) -> OpV {
        match self {
            Op::MSTORE => OpV::MSTORE,
            Op::MLOAD => OpV::MLOAD,
            Op::CREATE => OpV::CREATE,
            Op::EXTCODECOPY => OpV::EXTCODECOPY,
            Op::PUSH1 => OpV::PUSH1,
            Op::POP => OpV::POP,
            Op::DUP1 => OpV::DUP1,
            Op::SWAP1 => OpV::SWAP1,
            Op::VALUE(w) => OpV::VALUE(w@),
            Op::STOP => OpV::STOP,
            Op::ADD => OpV::ADD,
            Op::MUL => OpV::MUL,
            Op::SUB => OpV::SUB,
            Op::DIV => OpV::DIV,
            Op::SDIV => OpV::SDIV,
            Op::MOD => OpV::MOD,
            Op::SMOD => OpV::SMOD,
            Op::ADDMOD => OpV::ADDMOD,
            Op::MULMOD => OpV::MULMOD,
            Op::EXP => OpV::EXP,
            Op::SIGNEXTEND => OpV::SIGNEXTEND,
            Op::GT => OpV::GT,
            Op::SLT => OpV::SLT,
            Op::SGT => OpV::SGT,
            Op::EQ => OpV::EQ,
            Op::ISZERO => OpV::ISZERO,
            Op::AND => OpV::AND,
            Op::OR => OpV::OR,
            Op::XOR => OpV::XOR,
            Op::NOT => OpV::NOT,
            Op::BYTE => OpV::BYTE,
            Op::SHL => OpV::SHL,
            Op::SHR => OpV::SHR,
            Op::SAR => OpV::SAR,
            Op::SHA3 => OpV::SHA3,
            Op::ADDRESS => OpV::ADDRESS,
            Op::BALANCE => OpV::BALANCE,
            Op::CALLVALUE => OpV::CALLVALUE,
            Op::RETURN => OpV::RETURN,
        }
    }
}

/// ASCII lower-casing of one character; anything but `'A'..='Z'` is kept.
pub open spec fn lower_char(c: char) -> char {
    if c == 'A' {
        'a'
    } else if c == 'B' {
        'b'
    } else if c == 'C' {
        'c'
    } else if c == 'D' {
        'd'
    } else if c == 'E' {
        'e'
    } else if c == 'F' {
        'f'
    } else if c == 'G' {
        'g'
    } else if c == 'H' {
        'h'
    } else if c == 'I' {
        'i'
    } else if c == 'J' {
        'j'
    } else if c == 'K' {
        'k'
    } else if c == 'L' {
        'l'
    } else if c == 'M' {
        'm'
    } else if c == 'N' {
        'n'
    } else if c == 'O' {
        'o'
    } else if c == 'P' {
        'p'
    } else if c == 'Q' {
        'q'
    } else if c == 'R' {
        'r'
    } else if c == 'S' {
        's'
    } else if c == 'T' {
        't'
    } else if c == 'U' {
        'u'
    } else if c == 'V' {
        'v'
    } else if c == 'W' {
        'w'
    } else if c == 'X' {
        'x'
    } else if c == 'Y' {
        'y'
    } else if c == 'Z' {
        'z'
    } else {
        c
    }
}

/// ASCII lower-casing of a whole word.
pub open spec fn lower(w: Seq<char>) -> Seq<char> {
    w.map_values(|c: char| lower_char(c))
}

/// Executable counterpart of [`lower_char`].
pub fn to_lower_char(c: char) -> (r: char)
    ensures
        r == lower_char(c),
{
    match c {
        'A' => 'a',
        'B' => 'b',
        'C' => 'c',
        'D' => 'd',
        'E' => 'e',
        'F' => 'f',
        'G' => 'g',
        'H' => 'h',
        'I' => 'i',
        'J' => 'j',
        'K' => 'k',
        'L' => 'l',
        'M' => 'm',
        'N' => 'n',
        'O' => 'o',
        'P' => 'p',
        'Q' => 'q',
        'R' => 'r',
        'S' => 's',
        'T' => 't',
        'U' => 'u',
        'V' => 'v',
        'W' => 'w',
        'X' => 'x',
        'Y' => 'y',
        'Z' => 'z',
        _ => c,
    }
}

/// The mnemonic table: what a word resolves to.
///
/// A recognized mnemonic (compared after ASCII lower-casing, so any letter
/// case is accepted) yields its tag and fixed two-digit hex encoding; any
/// other word yields `VALUE` carrying the word unchanged, with the sentinel
/// encoding `"0"`.
pub open spec fn resolve_spec(w: Seq<char>) -> (OpV, Seq<char>) {
    let l = lower(w);
    if l == "mstore"@ {
        (OpV::MSTORE, "52"@)
    } else if l == "mload"@ {
        (OpV::MLOAD, "51"@)
    } else if l == "create"@ {
        (OpV::CREATE, "f0"@)
    } else if l == "extcodecopy"@ {
        (OpV::EXTCODECOPY, "3c"@)
    } else if l == "push1"@ {
        (OpV::PUSH1, "60"@)
    } else if l == "pop"@ {
        (OpV::POP, "50"@)
    } else if l == "dup1"@ {
        (OpV::DUP1, "80"@)
    } else if l == "swap1"@ {
        (OpV::SWAP1, "90"@)
    } else if l == "stop"@ {
        (OpV::STOP, "00"@)
    } else if l == "add"@ {
        (OpV::ADD, "01"@)
    } else if l == "mul"@ {
        (OpV::MUL, "02"@)
    } else if l == "sub"@ {
        (OpV::SUB, "03"@)
    } else if l == "div"@ {
        (OpV::DIV, "04"@)
    } else if l == "sdiv"@ {
        (OpV::SDIV, "05"@)
    } else if l == "mod"@ {
        (OpV::MOD, "06"@)
    } else if l == "smod"@ {
        (OpV::SMOD, "07"@)
    } else if l == "addmod"@ {
        (OpV::ADDMOD, "08"@)
    } else if l == "mulmod"@ {
        (OpV::MULMOD, "09"@)
    } else if l == "exp"@ {
        (OpV::EXP, "0a"@)
    } else if l == "signextend"@ {
        (OpV::SIGNEXTEND, "0b"@)
    } else if l == "gt"@ {
        (OpV::GT, "11"@)
    } else if l == "slt"@ {
        (OpV::SLT, "12"@)
    } else if l == "sgt"@ {
        (OpV::SGT, "13"@)
    } else if l == "eq"@ {
        (OpV::EQ, "14"@)
    } else if l == "callvalue"@ {
        (OpV::CALLVALUE, "34"@)
    } else if l == "return"@ {
        (OpV::RETURN, "f3"@)
    } else {
        (OpV::VALUE(w), "0"@)
    }
}

/// Whether a word is a recognized mnemonic (it does not fall through to the
/// `VALUE` variant).
pub open spec fn is_recognized(w: Seq<char>) -> bool {
    !(resolve_spec(w).0 is VALUE)
}

/// Whether two words are equal up to ASCII letter case.
fn eq_ignore_case(a: &str, b: &str) -> (r: bool)
    ensures
        r == (lower(a@) == lower(b@)),
{
    let na = a.unicode_len();
    let nb = b.unicode_len();
    if na != nb {
        proof {
            assert(lower(a@).len() != lower(b@).len());
        }
        return false;
    }
    let mut i: usize = 0;
    while i < na
        invariant
            na == a@.len(),
            na == b@.len(),
            i <= na,
            forall|j: int| 0 <= j < i ==> lower_char(a@[j]) == lower_char(b@[j]),
        decreases na - i,
    {
        if to_lower_char(a.get_char(i)) != to_lower_char(b.get_char(i)) {
            proof {
                assert(lower(a@)[i as int] != lower(b@)[i as int]);
            }
            return false;
        }
        i += 1;
    }
    proof {
        assert(lower(a@) =~= lower(b@));
    }
    true
}

/// LAW: resolution is case-insensitive — two words with the same ASCII
/// lower-casing, the first of them a recognized mnemonic, resolve to the
/// same canonical instruction and the same fixed encoding.
pub proof fn lemma_resolution_case_insensitive(w1: Seq<char>, w2: Seq<char>)
    requires
        lower(w1) == lower(w2),
        is_recognized(w1),
    ensures
        resolve_spec(w1) == resolve_spec(w2),
{
}

/// A word made of characters that lower-casing keeps is its own lower-casing.
proof fn lemma_lower_fixed(s: Seq<char>)
    requires
        forall|i: int| 0 <= i < s.len() ==> lower_char(s[i]) == s[i],
    ensures
        lower(s) == s,
{
    assert(lower(s) =~= s);
}

impl Op {
    /// Resolve one word through the mnemonic table: the canonical
    /// instruction paired with its encoding, exactly as [`resolve_spec`]
    /// states.  Resolution never fails: an unrecognized word is returned as
    /// `VALUE` with the sentinel encoding.
    pub fn from_str(word: &str) -> (r: (Op, String))
        ensures
            r.0@ == resolve_spec(word@).0,
            r.1@ == resolve_spec(word@).1,
    {
        proof {
            reveal_strlit("mstore");
            reveal_strlit("mload");
            reveal_strlit("create");
            reveal_strlit("extcodecopy");
            reveal_strlit("push1");
            reveal_strlit("pop");
            reveal_strlit("dup1");
            reveal_strlit("swap1");
            reveal_strlit("stop");
            reveal_strlit("add");
            reveal_strlit("mul");
            reveal_strlit("sub");
            reveal_strlit("div");
            reveal_strlit("sdiv");
            reveal_strlit("mod");
            reveal_strlit("smod");
            reveal_strlit("addmod");
            reveal_strlit("mulmod");
            reveal_strlit("exp");
            reveal_strlit("signextend");
            reveal_strlit("gt");
            reveal_strlit("slt");
            reveal_strlit("sgt");
            reveal_strlit("eq");
            reveal_strlit("callvalue");
            reveal_strlit("return");
            lemma_lower_fixed("mstore"@);
            lemma_lower_fixed("mload"@);
            lemma_lower_fixed("create"@);
            lemma_lower_fixed("extcodecopy"@);
            lemma_lower_fixed("push1"@);
            lemma_lower_fixed("pop"@);
            lemma_lower_fixed("dup1"@);
            lemma_lower_fixed("swap1"@);
            lemma_lower_fixed("stop"@);
            lemma_lower_fixed("add"@);
            lemma_lower_fixed("mul"@);
            lemma_lower_fixed("sub"@);
            lemma_lower_fixed("div"@);
            lemma_lower_fixed("sdiv"@);
            lemma_lower_fixed("mod"@);
            lemma_lower_fixed("smod"@);
            lemma_lower_fixed("addmod"@);
            lemma_lower_fixed("mulmod"@);
            lemma_lower_fixed("exp"@);
            lemma_lower_fixed("signextend"@);
            lemma_lower_fixed("gt"@);
            lemma_lower_fixed("slt"@);
            lemma_lower_fixed("sgt"@);
            lemma_lower_fixed("eq"@);
            lemma_lower_fixed("callvalue"@);
            lemma_lower_fixed("return"@);
        }
        if eq_ignore_case(word, "mstore") {
            (Op::MSTORE, String::from_str("52"))
        } else if eq_ignore_case(word, "mload") {
            (Op::MLOAD, String::from_str("51"))
        } else if eq_ignore_case(word, "create") {
            (Op::CREATE, String::from_str("f0"))
        } else if eq_ignore_case(word, "extcodecopy") {
            (Op::EXTCODECOPY, String::from_str("3c"))
        } else if eq_ignore_case(word, "push1") {
            (Op::PUSH1, String::from_str("60"))
        } else if eq_ignore_case(word, "pop") {
            (Op::POP, String::from_str("50"))
        } else if eq_ignore_case(word, "dup1") {
            (Op::DUP1, String::from_str("80"))
        } else if eq_ignore_case(word, "swap1") {
            (Op::SWAP1, String::from_str("90"))
        } else if eq_ignore_case(word, "stop") {
            (Op::STOP, String::from_str("00"))
        } else if eq_ignore_case(word, "add") {
            (Op::ADD, String::from_str("01"))
        } else if eq_ignore_case(word, "mul") {
            (Op::MUL, String::from_str("02"))
        } else if eq_ignore_case(word, "sub") {
            (Op::SUB, String::from_str("03"))
        } else if eq_ignore_case(word, "div") {
            (Op::DIV, String::from_str("04"))
        } else if eq_ignore_case(word, "sdiv") {
            (Op::SDIV, String::from_str("05"))
        } else if eq_ignore_case(word, "mod") {
            (Op::MOD, String::from_str("06"))
        } else if eq_ignore_case(word, "smod") {
            (Op::SMOD, String::from_str("07"))
        } else if eq_ignore_case(word, "addmod") {
            (Op::ADDMOD, String::from_str("08"))
        } else if eq_ignore_case(word, "mulmod") {
            (Op::MULMOD, String::from_str("09"))
        } else if eq_ignore_case(word, "exp") {
            (Op::EXP, String::from_str("0a"))
        } else if eq_ignore_case(word, "signextend") {
            (Op::SIGNEXTEND, String::from_str("0b"))
        } else if eq_ignore_case(word, "gt") {
            (Op::GT, String::from_str("11"))
        } else if eq_ignore_case(word, "slt") {
            (Op::SLT, String::from_str("12"))
        } else if eq_ignore_case(word, "sgt") {
            (Op::SGT, String::from_str("13"))
        } else if eq_ignore_case(word, "eq") {
            (Op::EQ, String::from_str("14"))
        } else if eq_ignore_case(word, "callvalue") {
            (Op::CALLVALUE, String::from_str("34"))
        } else if eq_ignore_case(word, "return") {
            (Op::RETURN, String::from_str("f3"))
        } else {
            (Op::VALUE(String::from_str(word)), String::from_str("0"))
        }
    }
}

} // verus!
