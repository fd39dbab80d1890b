use twn::assembler::{classify_word, parse, resolve, Token, TokenKind};
use twn::OpCode;

fn tokens(source: &str) -> Vec<Token> {
    parse(source.to_string()).unwrap()
}

#[test]
fn mnemonics_are_case_insensitive() {
    assert_eq!(OpCode::from_str("push"), Some(OpCode::Push));
    assert_eq!(OpCode::from_str("Gt"), Some(OpCode::Gt));
    assert_eq!(OpCode::from_str("ge"), Some(OpCode::Ge));
    assert_eq!(OpCode::from_str("StoreI"), Some(OpCode::StoreI));
    assert_eq!(OpCode::from_str("nop"), None);
}

#[test]
fn words_are_classified_in_order() {
    let ts = tokens("push 0x1f 10 loop: loop");
    assert_eq!(ts.len(), 5);
    assert!(matches!(ts[0].kind, TokenKind::Op(OpCode::Push)));
    assert!(matches!(ts[1].kind, TokenKind::Int(31)));
    assert!(matches!(ts[2].kind, TokenKind::Int(10)));
    assert!(matches!(&ts[3].kind, TokenKind::LabelDef(s) if s == "LOOP"));
    assert!(matches!(&ts[4].kind, TokenKind::LabelRef(s) if s == "LOOP"));
}

#[test]
fn comments_and_lines() {
    let ts = tokens("PUSH 1 ; PUSH 2\n\n  ADD;x\r\nFIN");
    assert_eq!(ts.len(), 4);
    assert_eq!(ts[0].line, 1);
    assert_eq!(ts[1].line, 1);
    assert_eq!(ts[2].line, 3);
    assert_eq!(ts[3].line, 4);
    assert!(matches!(ts[3].kind, TokenKind::Op(OpCode::Fin)));
}

#[test]
fn decimal_out_of_range_is_a_label() {
    let ts = tokens("256 +5 -5");
    assert!(matches!(&ts[0].kind, TokenKind::LabelRef(s) if s == "256"));
    assert!(matches!(ts[1].kind, TokenKind::Int(5)));
    assert!(matches!(&ts[2].kind, TokenKind::LabelRef(s) if s == "-5"));
}

#[test]
fn malformed_hex_fails_with_its_line() {
    match parse("PUSH 1\nPUSH 0xZZ".to_string()) {
        Err(e) => assert_eq!(e, "Line 2: Invalid hex number 'ZZ'"),
        Ok(_) => panic!("Expected an invalid hex number"),
    }
    match parse("0x100".to_string()) {
        Err(e) => assert_eq!(e, "Line 1: Invalid hex number '100'"),
        Ok(_) => panic!("Expected an invalid hex number"),
    }
    match parse("0x".to_string()) {
        Err(e) => assert_eq!(e, "Line 1: Invalid hex number ''"),
        Ok(_) => panic!("Expected an invalid hex number"),
    }
}

#[test]
fn classify_word_takes_upper_case_words() {
    assert!(matches!(classify_word("PUSH", 3), Ok(Token { kind: TokenKind::Op(OpCode::Push), line: 3 })));
    assert!(matches!(classify_word("0XFF", 1), Ok(Token { kind: TokenKind::Int(255), .. })));
    assert!(matches!(classify_word("push", 1), Ok(Token { kind: TokenKind::LabelRef(_), .. })));
    assert!(matches!(classify_word("0X1G", 12), Err(ref e) if e == "Line 12: Invalid hex number '1G'"));
}

#[test]
fn resolve_emits_header_and_one_byte_per_token() {
    let bytes = resolve(tokens("PUSH 10 PUSH 20 ADD FIN")).unwrap();
    assert_eq!(bytes, vec![0x00, b'T', b'W', b'N', 0x01, 10, 0x01, 20, 0x10, 0xFF]);
}

#[test]
fn resolve_is_deterministic() {
    let source = "START: PUSH 1\nJZ END\nJMZ START\nEND: FIN";
    let first = resolve(tokens(source)).unwrap();
    let second = resolve(tokens(source)).unwrap();
    assert_eq!(first, second);
}

#[test]
fn forward_and_backward_references_agree() {
    let bytes = resolve(tokens("JMZ END\nEND: JMZ END")).unwrap();
    assert_eq!(bytes[4..].to_vec(), vec![0x21, 2, 0x21, 2]);
}

#[test]
fn last_definition_of_a_label_wins() {
    let bytes = resolve(tokens("L: PUSH L\nL: PUSH L")).unwrap();
    assert_eq!(bytes[4..].to_vec(), vec![0x01, 2, 0x01, 2]);
}

#[test]
fn undefined_label_fails_with_name_and_line() {
    match resolve(tokens("PUSH 1\n\nJMZ nowhere\nJMZ ELSEWHERE")) {
        Err(e) => assert_eq!(e, "Line 3: Unknown label 'NOWHERE'"),
        Ok(_) => panic!("Expected an unknown label"),
    }
}

#[test]
fn token_new_keeps_its_parts() {
    let t = Token::new(TokenKind::Int(7), 9);
    assert!(matches!(t.kind, TokenKind::Int(7)));
    assert_eq!(t.line, 9);
}
