use lax_ast::error::{ScanError, ScanErrorKind};
use lax_ast::scanner::{scan_all, Scanner};
use lax_ast::token::{Object, Token, TokenType};

fn kinds(tokens: &[Token]) -> Vec<TokenType> {
    tokens.iter().map(|t| t.kind()).collect()
}

fn lexemes(tokens: &[Token]) -> Vec<String> {
    tokens.iter().map(|t| t.lexeme().clone()).collect()
}

fn scan_ok(src: &str) -> Vec<Token> {
    match scan_all(src) {
        Ok(tokens) => tokens,
        Err(e) => panic!("unexpected error {:?} for {:?}", e, src),
    }
}

fn scan_err(src: &str) -> ScanError {
    match scan_all(src) {
        Ok(tokens) => panic!("expected an error for {:?}, got {:?}", src, tokens),
        Err(e) => e,
    }
}

#[test]
fn clean_inputs_end_in_exactly_one_eof() {
    for src in ["", "1+1", "var x = 3;\nprint x;", "// only a comment", "  \t\r\n", "a.b(c, d)"] {
        let tokens = scan_ok(src);
        let k = kinds(&tokens);
        assert_eq!(k.last(), Some(&TokenType::Eof));
        assert_eq!(k.iter().filter(|t| **t == TokenType::Eof).count(), 1);
    }
}

#[test]
fn empty_source_gives_eof_on_line_one() {
    let tokens = scan_ok("");
    assert_eq!(tokens.len(), 1);
    assert_eq!(tokens[0].kind(), TokenType::Eof);
    assert_eq!(tokens[0].lexeme().as_str(), "");
    assert!(tokens[0].literal().is_none());
    assert_eq!(tokens[0].line(), 1);
}

#[test]
fn one_plus_one() {
    let tokens = scan_ok("1+1");
    assert_eq!(
        kinds(&tokens),
        vec![TokenType::Number, TokenType::Plus, TokenType::Number, TokenType::Eof]
    );
    assert_eq!(lexemes(&tokens), vec!["1", "+", "1", ""]);
    match tokens[0].literal() {
        Some(Object::Num(text)) => assert_eq!(text.as_str(), "1"),
        other => panic!("expected a number literal, got {:?}", other),
    }
    assert!(tokens[1].literal().is_none());
}

#[test]
fn two_character_operators_are_never_split() {
    let cases = [
        ("!=", TokenType::BangEqual),
        ("!", TokenType::Bang),
        ("==", TokenType::Equals),
        ("=", TokenType::Assign),
        ("<=", TokenType::LessEqual),
        ("<", TokenType::Less),
        (">=", TokenType::GreaterEqual),
        (">", TokenType::Greater),
    ];
    for (src, kind) in cases {
        let tokens = scan_ok(src);
        assert_eq!(kinds(&tokens), vec![kind, TokenType::Eof], "source {:?}", src);
        assert_eq!(tokens[0].lexeme().as_str(), src);
    }
}

#[test]
fn operator_followed_by_other_character() {
    let tokens = scan_ok("!!==");
    assert_eq!(
        kinds(&tokens),
        vec![TokenType::Bang, TokenType::BangEqual, TokenType::Assign, TokenType::Eof]
    );
}

#[test]
fn line_and_nested_block_comments_vanish() {
    for src in ["// comment\n1", "/* a /* b */ c */1"] {
        let tokens = scan_ok(src);
        assert_eq!(kinds(&tokens), vec![TokenType::Number, TokenType::Eof], "source {:?}", src);
        assert_eq!(tokens[0].lexeme().as_str(), "1");
    }
}

#[test]
fn line_comment_advances_line_after_newline() {
    let tokens = scan_ok("// comment\n1");
    assert_eq!(tokens[0].line(), 2);
    assert_eq!(tokens[1].line(), 2);
}

#[test]
fn block_comment_counts_its_newlines() {
    let tokens = scan_ok("/* a\nb\n */x");
    assert_eq!(kinds(&tokens), vec![TokenType::Identifier, TokenType::Eof]);
    assert_eq!(tokens[0].line(), 3);
}

#[test]
fn slash_alone_is_division() {
    let tokens = scan_ok("4/2");
    assert_eq!(
        kinds(&tokens),
        vec![TokenType::Number, TokenType::Slash, TokenType::Number, TokenType::Eof]
    );
}

#[test]
fn unterminated_string_is_reported() {
    let e = scan_err("\"abc");
    assert_eq!(e, ScanError { line: 1, kind: ScanErrorKind::UnterminatedString });
    assert_eq!(e.message().as_str(), "Unterminated string");
}

#[test]
fn unterminated_comment_is_reported() {
    let e = scan_err("/* abc");
    assert_eq!(e, ScanError { line: 1, kind: ScanErrorKind::UnterminatedComment });
    assert_eq!(e.message().as_str(), "Unterminated comment");
}

#[test]
fn unterminated_nested_comment_is_reported() {
    let e = scan_err("/* a /* b */ c");
    assert_eq!(e.kind, ScanErrorKind::UnterminatedComment);
}

#[test]
fn unterminated_string_line_counts_embedded_newlines() {
    let e = scan_err("x\n\"ab\ncd");
    assert_eq!(e, ScanError { line: 3, kind: ScanErrorKind::UnterminatedString });
}

#[test]
fn unexpected_character_is_reported_and_scanning_goes_on() {
    let mut scanner = Scanner::new("1 @ 2 # 3".to_string());
    let result = scanner.scan_tokens();
    match result {
        Err(e) => assert_eq!(e, ScanError { line: 1, kind: ScanErrorKind::UnexpectedCharacter }),
        Ok(_) => panic!("expected an error"),
    }
    assert_eq!(scanner.errors().len(), 2);
    assert_eq!(scanner.errors()[0].message().as_str(), "unexpected character");
    let tokens = scanner.into_tokens();
    assert_eq!(
        kinds(&tokens),
        vec![TokenType::Number, TokenType::Number, TokenType::Number, TokenType::Eof]
    );
}

#[test]
fn last_error_is_returned() {
    let e = scan_err("@\n\"open");
    assert_eq!(e, ScanError { line: 2, kind: ScanErrorKind::UnterminatedString });
}

#[test]
fn forest_is_an_identifier_and_for_a_keyword() {
    let tokens = scan_ok("forest");
    assert_eq!(kinds(&tokens), vec![TokenType::Identifier, TokenType::Eof]);
    assert_eq!(tokens[0].lexeme().as_str(), "forest");
    let tokens = scan_ok("for");
    assert_eq!(kinds(&tokens), vec![TokenType::For, TokenType::Eof]);
    let tokens = scan_ok("forever");
    assert_eq!(kinds(&tokens), vec![TokenType::Identifier, TokenType::Eof]);
}

#[test]
fn every_keyword_is_recognised() {
    let cases = [
        ("and", TokenType::And),
        ("class", TokenType::Class),
        ("else", TokenType::Else),
        ("false", TokenType::False),
        ("for", TokenType::For),
        ("fun", TokenType::Fun),
        ("if", TokenType::If),
        ("nil", TokenType::Nil),
        ("or", TokenType::Or),
        ("print", TokenType::Print),
        ("return", TokenType::Return),
        ("super", TokenType::Super),
        ("this", TokenType::This),
        ("true", TokenType::True),
        ("var", TokenType::Var),
        ("while", TokenType::While),
    ];
    for (src, kind) in cases {
        let tokens = scan_ok(src);
        assert_eq!(kinds(&tokens), vec![kind, TokenType::Eof], "source {:?}", src);
        assert!(tokens[0].literal().is_none());
    }
}

#[test]
fn identifiers_take_underscores_and_digits() {
    let tokens = scan_ok("_a1_b2 x_");
    assert_eq!(lexemes(&tokens), vec!["_a1_b2", "x_", ""]);
    assert_eq!(kinds(&tokens)[0], TokenType::Identifier);
}

#[test]
fn trailing_dot_is_not_part_of_a_number() {
    let tokens = scan_ok("3.");
    assert_eq!(kinds(&tokens), vec![TokenType::Number, TokenType::Dot, TokenType::Eof]);
    assert_eq!(lexemes(&tokens), vec!["3", ".", ""]);
    match tokens[0].literal() {
        Some(Object::Num(text)) => assert_eq!(text.as_str(), "3"),
        other => panic!("expected a number literal, got {:?}", other),
    }
}

#[test]
fn fractional_number_is_one_token() {
    let tokens = scan_ok("12.50;");
    assert_eq!(kinds(&tokens), vec![TokenType::Number, TokenType::SemiColon, TokenType::Eof]);
    match tokens[0].literal() {
        Some(Object::Num(text)) => assert_eq!(text.as_str(), "12.50"),
        other => panic!("expected a number literal, got {:?}", other),
    }
}

#[test]
fn string_literal_keeps_its_interior() {
    let tokens = scan_ok("\"a\\nb\"");
    assert_eq!(kinds(&tokens), vec![TokenType::String, TokenType::Eof]);
    assert_eq!(tokens[0].lexeme().as_str(), "\"a\\nb\"");
    match tokens[0].literal() {
        Some(Object::Str(text)) => assert_eq!(text.as_str(), "a\\nb"),
        other => panic!("expected a string literal, got {:?}", other),
    }
}

#[test]
fn multi_line_string_starts_on_its_first_line() {
    let tokens = scan_ok("\"a\nb\" x");
    assert_eq!(kinds(&tokens), vec![TokenType::String, TokenType::Identifier, TokenType::Eof]);
    assert_eq!(tokens[0].line(), 1);
    assert_eq!(tokens[1].line(), 2);
    assert_eq!(tokens[2].line(), 2);
}

#[test]
fn punctuation() {
    let tokens = scan_ok("(){},.-+;*");
    assert_eq!(
        kinds(&tokens),
        vec![
            TokenType::LeftParen,
            TokenType::RightParen,
            TokenType::LeftBrace,
            TokenType::RightBrace,
            TokenType::Comma,
            TokenType::Dot,
            TokenType::Minus,
            TokenType::Plus,
            TokenType::SemiColon,
            TokenType::Star,
            TokenType::Eof,
        ]
    );
}

#[test]
fn rescanning_gives_identical_tokens() {
    let src = "var a = \"x\";\n/* c */ print a >= 2.5;";
    let first = scan_ok(src);
    let second = scan_ok(src);
    assert_eq!(format!("{:?}", first), format!("{:?}", second));
    let mut scanner = Scanner::new(src.to_string());
    let third = match scanner.scan_tokens() {
        Ok(tokens) => format!("{:?}", tokens),
        Err(e) => panic!("unexpected error {:?}", e),
    };
    assert_eq!(format!("{:?}", first), third);
}

#[test]
fn token_constructors() {
    let t = Token::new(TokenType::Number, "7".to_string(), Some(Object::Num("7".to_string())), 4);
    assert_eq!(t.kind(), TokenType::Number);
    assert_eq!(t.lexeme().as_str(), "7");
    assert_eq!(t.line(), 4);
    let e = Token::eof(9);
    assert_eq!(e.kind(), TokenType::Eof);
    assert_eq!(e.lexeme().as_str(), "");
    assert_eq!(e.line(), 9);
}

#[test]
fn report_lines() {
    let e = ScanError::error(12, ScanErrorKind::UnexpectedCharacter);
    assert_eq!(e.report("").as_str(), "[line 12] Error: unexpected character");
    let e = ScanError::error(7, ScanErrorKind::UnterminatedString);
    assert_eq!(e.report(" at end").as_str(), "[line 7] Error at end: Unterminated string");
    let e = ScanError::error(1090, ScanErrorKind::UnterminatedComment);
    assert_eq!(e.report("").as_str(), "[line 1090] Error: Unterminated comment");
    let e = ScanError::error(0, ScanErrorKind::UnexpectedCharacter);
    assert_eq!(e.report("").as_str(), "[line 0] Error: unexpected character");
}
