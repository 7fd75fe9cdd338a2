use lua_parser::tokenizer::{get_new_position, tokenize, Token, TokenKind, TokenizeError};

fn test_kinds_eq(input: &str, expected: Vec<TokenKind>) {
    let kinds = tokenize(input).unwrap().iter().map(|v| v.kind.clone()).collect::<Vec<_>>();
    assert_eq!(kinds, expected);
}

fn s(text: &str) -> String {
    text.to_string()
}

#[test]
fn literals() {
    test_kinds_eq("true", vec![TokenKind::BoolLiteral(true)]);
    test_kinds_eq("false", vec![TokenKind::BoolLiteral(false)]);
    test_kinds_eq("nil", vec![TokenKind::NilLiteral]);
}

#[test]
fn keyword_vs_identifier() {
    test_kinds_eq("local", vec![TokenKind::Keyword(s("local"))]);
    test_kinds_eq("local_", vec![TokenKind::Identifier(s("local_"))]);
    test_kinds_eq("locale", vec![TokenKind::Identifier(s("locale"))]);
    test_kinds_eq("_local", vec![TokenKind::Identifier(s("_local"))]);
    test_kinds_eq("local _", vec![TokenKind::Keyword(s("local")), TokenKind::Identifier(s("_"))]);
}

#[test]
fn number_literals() {
    test_kinds_eq("6", vec![TokenKind::NumberLiteral(s("6"))]);
    test_kinds_eq("0.231e-6", vec![TokenKind::NumberLiteral(s("0.231e-6"))]);
    test_kinds_eq("-123.7", vec![TokenKind::NumberLiteral(s("-123.7"))]);
    test_kinds_eq("0x12AfEE", vec![TokenKind::NumberLiteral(s("0x12AfEE"))]);
    test_kinds_eq("-0x123FFe", vec![TokenKind::NumberLiteral(s("-0x123FFe"))]);
    test_kinds_eq("1023.47e126", vec![TokenKind::NumberLiteral(s("1023.47e126"))]);
}

#[test]
fn whitespace() {
    let input = "  local";
    let tokenized = tokenize(input).unwrap();
    let first_token = &tokenized[0];

    assert_eq!(first_token.whitespace, "  ");
}

#[test]
fn whitespace_when_none_present() {
    let input = "local";
    let tokenized = tokenize(input).unwrap();
    let first_token = &tokenized[0];

    assert_eq!(first_token.whitespace, "");
}

#[test]
fn get_new_line_info() {
    let (new_line, new_column) = get_new_position("test", 1, 1);
    assert_eq!(new_line, 1);
    assert_eq!(new_column, 5);

    let (new_line, new_column) = get_new_position("testy\ntest", 1, 1);
    assert_eq!(new_line, 2);
    assert_eq!(new_column, 5);
}

#[test]
fn source_tracking() {
    let input = "local
                    test foo
                    bar";
    let tokenized = tokenize(input).unwrap();
    assert_eq!(tokenized, vec![
        Token {
            kind: TokenKind::Keyword(s("local")),
            whitespace: s(""),
            line: 1,
            column: 1,
        },
        Token {
            kind: TokenKind::Identifier(s("test")),
            whitespace: s("\n                    "),
            line: 2,
            column: 21,
        },
        Token {
            kind: TokenKind::Identifier(s("foo")),
            whitespace: s(" "),
            line: 2,
            column: 26,
        },
        Token {
            kind: TokenKind::Identifier(s("bar")),
            whitespace: s("\n                    "),
            line: 3,
            column: 21,
        }
    ]);
}

fn rebuilt(tokens: &[Token]) -> String {
    let mut out = String::new();
    for t in tokens {
        out.push_str(&t.whitespace);
        out.push_str(&lua_parser::parser::token_text(&t.kind));
    }
    out
}

#[test]
fn tokens_rebuild_the_source() {
    let input = "local x, y = f(1, -2.5e3) .. #t\n\tif not a then b() end";
    let tokens = tokenize(input).unwrap();
    assert_eq!(rebuilt(&tokens), input);
}

#[test]
fn trailing_whitespace_is_not_kept() {
    let tokens = tokenize("a  \n").unwrap();
    assert_eq!(tokens.len(), 1);
    assert_eq!(rebuilt(&tokens), "a");
}

#[test]
fn line_and_column_after_blank_lines() {
    let tokens = tokenize("\n\nfoo").unwrap();
    assert_eq!(tokens[0].line, 3);
    assert_eq!(tokens[0].column, 1);
    assert_eq!(tokens[0].whitespace, "\n\n");
}

#[test]
fn keyword_identifier_boundaries() {
    test_kinds_eq("local", vec![TokenKind::Keyword(s("local"))]);
    test_kinds_eq("local1", vec![TokenKind::Identifier(s("local1"))]);
    test_kinds_eq("_local", vec![TokenKind::Identifier(s("_local"))]);
    test_kinds_eq("local _", vec![TokenKind::Keyword(s("local")), TokenKind::Identifier(s("_"))]);
}

#[test]
fn number_literals_keep_their_text() {
    test_kinds_eq("0x1F", vec![TokenKind::NumberLiteral(s("0x1F"))]);
    test_kinds_eq("-12.5e-3", vec![TokenKind::NumberLiteral(s("-12.5e-3"))]);
    test_kinds_eq("7", vec![TokenKind::NumberLiteral(s("7"))]);
    test_kinds_eq(".5", vec![TokenKind::NumberLiteral(s(".5"))]);
    test_kinds_eq("1e", vec![TokenKind::NumberLiteral(s("1")), TokenKind::Identifier(s("e"))]);
    test_kinds_eq("0x", vec![TokenKind::NumberLiteral(s("0")), TokenKind::Identifier(s("x"))]);
}

#[test]
fn unknown_sequence() {
    assert_eq!(
        tokenize("@"),
        Err(TokenizeError::UnknownSequence { remainder: s("@"), line: 1, column: 1 })
    );
    assert_eq!(
        tokenize("local x\n  @ y"),
        Err(TokenizeError::UnknownSequence { remainder: s("@ y"), line: 2, column: 3 })
    );
}

#[test]
fn operators_and_delimiters() {
    test_kinds_eq(
        "a..b - c",
        vec![
            TokenKind::Identifier(s("a")),
            TokenKind::Operator(s("..")),
            TokenKind::Identifier(s("b")),
            TokenKind::Operator(s("-")),
            TokenKind::Identifier(s("c")),
        ],
    );
    test_kinds_eq("(#)", vec![TokenKind::OpenParen, TokenKind::Operator(s("#")), TokenKind::CloseParen]);
}

#[test]
fn empty_source() {
    assert_eq!(tokenize(""), Ok(vec![]));
    assert_eq!(tokenize("   "), Ok(vec![]));
}

#[test]
fn position_after_trailing_newline() {
    assert_eq!(get_new_position("ab\n", 4, 7), (5, 1));
    assert_eq!(get_new_position("", 4, 7), (4, 7));
    assert_eq!(get_new_position("a\nb\ncd", 1, 9), (3, 3));
}

#[test]
fn unicode_whitespace() {
    let tokens = tokenize("\u{A0}x\u{3000}\u{2029}y\u{85}").unwrap();
    assert_eq!(tokens.len(), 2);
    assert_eq!(tokens[0].kind, TokenKind::Identifier(s("x")));
    assert_eq!(tokens[0].whitespace, "\u{A0}");
    assert_eq!((tokens[0].line, tokens[0].column), (1, 2));
    assert_eq!(tokens[1].whitespace, "\u{3000}\u{2029}");
    assert_eq!((tokens[1].line, tokens[1].column), (1, 5));
    assert!(tokenize("\u{200B}x").is_err());
}
