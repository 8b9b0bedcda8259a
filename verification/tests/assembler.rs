use stackasm::assemble;
use stackasm::emitter::{LexError, LexErrorKind, Parser};
use stackasm::lexer::Lexer;
use stackasm::op::Op;

fn lex_tokens(src: &str) -> Vec<(Op, String)> {
    let mut lexer = Lexer::new();
    lexer.lex(src).unwrap();
    lexer.result
}

fn emit(src: &str) -> Result<Vec<String>, LexError> {
    let mut parser = Parser::new(lex_tokens(src));
    parser.parse()
}

#[test]
fn mnemonic_table_encodings() {
    let expected: Vec<(&str, Op, &str)> = vec![
        ("mstore", Op::MSTORE, "52"),
        ("mload", Op::MLOAD, "51"),
        ("create", Op::CREATE, "f0"),
        ("extcodecopy", Op::EXTCODECOPY, "3c"),
        ("push1", Op::PUSH1, "60"),
        ("pop", Op::POP, "50"),
        ("dup1", Op::DUP1, "80"),
        ("swap1", Op::SWAP1, "90"),
        ("stop", Op::STOP, "00"),
        ("add", Op::ADD, "01"),
        ("mul", Op::MUL, "02"),
        ("sub", Op::SUB, "03"),
        ("div", Op::DIV, "04"),
        ("sdiv", Op::SDIV, "05"),
        ("mod", Op::MOD, "06"),
        ("smod", Op::SMOD, "07"),
        ("addmod", Op::ADDMOD, "08"),
        ("mulmod", Op::MULMOD, "09"),
        ("exp", Op::EXP, "0a"),
        ("signextend", Op::SIGNEXTEND, "0b"),
        ("gt", Op::GT, "11"),
        ("slt", Op::SLT, "12"),
        ("sgt", Op::SGT, "13"),
        ("eq", Op::EQ, "14"),
        ("callvalue", Op::CALLVALUE, "34"),
        ("return", Op::RETURN, "f3"),
    ];
    for (word, op, enc) in expected {
        let (r_op, r_enc) = Op::from_str(word);
        assert_eq!(r_op, op);
        assert_eq!(r_enc, enc.to_string());
    }
}

#[test]
fn mnemonic_table_case_insensitive() {
    for word in ["push1", "PUSH1", "PuSh1", "pUsH1"] {
        let (op, enc) = Op::from_str(word);
        assert_eq!(op, Op::PUSH1);
        assert_eq!(enc, "60".to_string());
    }
    for word in ["pop", "POP", "PoP"] {
        let (op, enc) = Op::from_str(word);
        assert_eq!(op, Op::POP);
        assert_eq!(enc, "50".to_string());
    }
    for word in ["return", "RETURN", "Return"] {
        let (op, enc) = Op::from_str(word);
        assert_eq!(op, Op::RETURN);
        assert_eq!(enc, "f3".to_string());
    }
}

#[test]
fn unrecognized_word_is_a_literal_not_an_error() {
    let (op, enc) = Op::from_str("0x01");
    assert_eq!(op, Op::VALUE("0x01".to_string()));
    assert_eq!(enc, "0".to_string());

    // The payload keeps the word exactly as given, letter case included.
    let (op, enc) = Op::from_str("DeadBeef");
    assert_eq!(op, Op::VALUE("DeadBeef".to_string()));
    assert_eq!(enc, "0".to_string());

    // `iszero` has an instruction tag but no table entry, so it resolves to
    // a literal like any other unrecognized word.
    let (op, _) = Op::from_str("iszero");
    assert_eq!(op, Op::VALUE("iszero".to_string()));
}

#[test]
fn push_with_hex_prefix() {
    let out = emit("push1 0x01").unwrap();
    assert_eq!(out, vec!["60".to_string(), "01".to_string()]);
}

#[test]
fn push_without_hex_prefix() {
    let out = emit("push1 2a").unwrap();
    assert_eq!(out, vec!["60".to_string(), "2a".to_string()]);
}

#[test]
fn push_missing_operand_is_fatal() {
    let err = emit("push1").unwrap_err();
    assert_eq!(err.kind, LexErrorKind::MissingOperand);
    assert!(err.line.is_none());

    let err = emit("pop push1").unwrap_err();
    assert_eq!(err.kind, LexErrorKind::MissingOperand);
}

#[test]
fn push_followed_by_instruction_is_fatal() {
    let err = emit("push1 pop").unwrap_err();
    assert_eq!(err.kind, LexErrorKind::MalformedOperand);

    // Case variations of the operand word still resolve to an instruction.
    let err = emit("push1 POP").unwrap_err();
    assert_eq!(err.kind, LexErrorKind::MalformedOperand);
}

#[test]
fn fatal_condition_returns_no_partial_output() {
    // The first two tokens would emit fine; the abort still discards them.
    assert!(emit("pop dup1 push1").is_err());
    assert!(assemble("pop dup1 push1").is_err());
}

#[test]
fn plain_sequence_one_encoding_per_token() {
    let out = emit("pop dup1 swap1").unwrap();
    assert_eq!(
        out,
        vec!["50".to_string(), "80".to_string(), "90".to_string()]
    );
}

#[test]
fn relex_is_deterministic() {
    let src = "push1 0x01 POP DeadBeef\nmstore";
    let first = lex_tokens(src);
    let second = lex_tokens(src);
    assert_eq!(first, second);
}

#[test]
fn empty_input_is_empty_output_and_no_error() {
    assert_eq!(lex_tokens("").len(), 0);
    let out = emit("").unwrap();
    assert!(out.is_empty());
    assert_eq!(assemble("").unwrap(), "".to_string());
}

#[test]
fn whitespace_only_input_is_empty_output() {
    assert_eq!(assemble(" \t\r\n  ").unwrap(), "".to_string());
}

#[test]
fn whitespace_runs_and_line_breaks_are_uniform() {
    let plain = assemble("push1 0x01 pop").unwrap();
    let spaced = assemble("\n\t push1\r\n0x01 \t pop \n").unwrap();
    assert_eq!(plain, spaced);
    assert_eq!(plain, "600150".to_string());
}

#[test]
fn standalone_literal_emits_its_stripped_payload() {
    assert_eq!(emit("2a").unwrap(), vec!["2a".to_string()]);
    assert_eq!(emit("0x2a").unwrap(), vec!["2a".to_string()]);
}

#[test]
fn hex_prefix_stripping_is_idempotent() {
    // Every leading `0x` goes, so stripping twice changes nothing more.
    assert_eq!(emit("push1 0x0x2a").unwrap(), vec!["60".to_string(), "2a".to_string()]);
    assert_eq!(emit("0x").unwrap(), vec!["".to_string()]);
}

#[test]
fn assemble_joins_without_separator() {
    assert_eq!(assemble("push1 0x01 pop").unwrap(), "600150".to_string());
    assert_eq!(
        assemble("push1 0x60 push1 0x40 mstore stop").unwrap(),
        "606060405200".to_string()
    );
}

#[test]
fn lexer_appends_in_order() {
    let toks = lex_tokens("pop 0x01 swap1");
    assert_eq!(toks.len(), 3);
    assert_eq!(toks[0], (Op::POP, "50".to_string()));
    assert_eq!(toks[1], (Op::VALUE("0x01".to_string()), "0".to_string()));
    assert_eq!(toks[2], (Op::SWAP1, "90".to_string()));
}

#[test]
fn parser_consumes_all_tokens() {
    let mut parser = Parser::new(lex_tokens("pop dup1"));
    assert_eq!(parser.cursor, 0);
    parser.parse().unwrap();
    assert_eq!(parser.cursor, parser.tokens.len());
}

#[test]
fn lex_error_records_a_line() {
    let mut err = LexError::new(LexErrorKind::MissingOperand, "no operand follows");
    assert!(err.line.is_none());
    assert_eq!(err.description, "no operand follows");
    let copy = err.line(7);
    assert_eq!(err.line, Some(7));
    assert_eq!(copy.line, Some(7));
    assert_eq!(copy.kind, LexErrorKind::MissingOperand);
}
