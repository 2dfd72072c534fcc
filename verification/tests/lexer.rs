use minicc::lexer::{
    tokenize, tokenize_constant, tokenize_identifier_or_keyword, tokenize_next, trim_start, Keyword,
    Token,
};

fn ident(name: &str) -> Token {
    Token::Identifier(name.to_string())
}

#[test]
fn lexes_the_smallest_program() {
    let tokens = tokenize("int main(void) { return 2; }").unwrap();
    assert_eq!(
        tokens,
        vec![
            Token::Keyword(Keyword::Int),
            ident("main"),
            Token::OpenParen,
            Token::Keyword(Keyword::Void),
            Token::CloseParen,
            Token::OpenBrace,
            Token::Keyword(Keyword::Return),
            Token::Constant(2),
            Token::Semicolon,
            Token::CloseBrace,
        ]
    );
}

#[test]
fn empty_and_blank_inputs_have_no_tokens() {
    assert_eq!(tokenize("").unwrap(), vec![]);
    assert_eq!(tokenize(" \t\r\n\x0B\x0C").unwrap(), vec![]);
}

#[test]
fn whitespace_is_not_needed_around_punctuation() {
    assert_eq!(
        tokenize("~(-3)%x").unwrap(),
        vec![
            Token::BitwiseComplement,
            Token::OpenParen,
            Token::Subtraction,
            Token::Constant(3),
            Token::CloseParen,
            Token::Remainder,
            ident("x"),
        ]
    );
    assert_eq!(
        tokenize("1+2*3/4").unwrap(),
        vec![
            Token::Constant(1),
            Token::Addition,
            Token::Constant(2),
            Token::Multiplication,
            Token::Constant(3),
            Token::Division,
            Token::Constant(4),
        ]
    );
}

#[test]
fn keywords_are_whole_words() {
    assert_eq!(tokenize("int").unwrap(), vec![Token::Keyword(Keyword::Int)]);
    assert_eq!(tokenize("void").unwrap(), vec![Token::Keyword(Keyword::Void)]);
    assert_eq!(tokenize("return").unwrap(), vec![Token::Keyword(Keyword::Return)]);
    assert_eq!(tokenize("integer").unwrap(), vec![ident("integer")]);
    assert_eq!(tokenize("return2").unwrap(), vec![ident("return2")]);
    assert_eq!(tokenize("_int").unwrap(), vec![ident("_int")]);
    assert_eq!(tokenize("Int").unwrap(), vec![ident("Int")]);
}

#[test]
fn identifier_takes_every_word_character() {
    let (token, rest) = tokenize_next("abc_9Z(rest").unwrap();
    assert_eq!(token, ident("abc_9Z"));
    assert_eq!(rest, "(rest");
    let (token, rest) = tokenize_next("x y").unwrap();
    assert_eq!(token, ident("x"));
    assert_eq!(rest, " y");
    let (token, rest) = tokenize_next("main").unwrap();
    assert_eq!(token, ident("main"));
    assert_eq!(rest, "");
}

#[test]
fn identifier_goes_on_through_letters_outside_ascii() {
    let (token, rest) = tokenize_next("caf\u{e9}+1").unwrap();
    assert_eq!(token, ident("caf\u{e9}"));
    assert_eq!(rest, "+1");
    assert_eq!(tokenize("\u{e9}").unwrap_err(), "Unexpected token: \u{e9}");
}

#[test]
fn constant_must_end_at_a_word_boundary() {
    let (token, rest) = tokenize_next("123;").unwrap();
    assert_eq!(token, Token::Constant(123));
    assert_eq!(rest, ";");
    assert_eq!(tokenize_next("123abc").unwrap_err(), "Unexpected token: 123abc");
    assert_eq!(tokenize_next("1_").unwrap_err(), "Unexpected token: 1_");
    assert_eq!(tokenize("7\u{e9}").unwrap_err(), "Unexpected token: 7\u{e9}");
    assert_eq!(tokenize("return 12x;").unwrap_err(), "Unexpected token: 12x;");
}

#[test]
fn constant_range_is_that_of_i32() {
    assert_eq!(tokenize("2147483647").unwrap(), vec![Token::Constant(2147483647)]);
    assert_eq!(tokenize("0").unwrap(), vec![Token::Constant(0)]);
    assert_eq!(tokenize("007").unwrap(), vec![Token::Constant(7)]);
    assert_eq!(tokenize("2147483648").unwrap_err(), "Invalid constant: 2147483648");
    assert_eq!(
        tokenize("x 99999999999999999999999 y").unwrap_err(),
        "Invalid constant: 99999999999999999999999"
    );
}

#[test]
fn tokenize_constant_reads_a_signed_numeral() {
    assert_eq!(tokenize_constant("42").unwrap(), Token::Constant(42));
    assert_eq!(tokenize_constant("-2147483648").unwrap(), Token::Constant(i32::MIN));
    assert_eq!(tokenize_constant("+5").unwrap(), Token::Constant(5));
    assert_eq!(tokenize_constant("-2147483649").unwrap_err(), "Invalid constant: -2147483649");
    assert_eq!(tokenize_constant("").unwrap_err(), "Invalid constant: ");
    assert_eq!(tokenize_constant("-").unwrap_err(), "Invalid constant: -");
    assert_eq!(tokenize_constant("12a").unwrap_err(), "Invalid constant: 12a");
    assert_eq!(tokenize_constant("1 ").unwrap_err(), "Invalid constant: 1 ");
}

#[test]
fn tokenize_identifier_or_keyword_tells_keywords_apart() {
    assert_eq!(tokenize_identifier_or_keyword("int").unwrap(), Token::Keyword(Keyword::Int));
    assert_eq!(tokenize_identifier_or_keyword("void").unwrap(), Token::Keyword(Keyword::Void));
    assert_eq!(tokenize_identifier_or_keyword("return").unwrap(), Token::Keyword(Keyword::Return));
    assert_eq!(tokenize_identifier_or_keyword("main").unwrap(), ident("main"));
    assert_eq!(tokenize_identifier_or_keyword("").unwrap(), ident(""));
}

#[test]
fn keyword_from_str() {
    assert_eq!(Keyword::from_str("int"), Ok(Keyword::Int));
    assert_eq!(Keyword::from_str("void"), Ok(Keyword::Void));
    assert_eq!(Keyword::from_str("return"), Ok(Keyword::Return));
    assert_eq!(Keyword::from_str("Return"), Err(()));
    assert_eq!(Keyword::from_str(""), Err(()));
    assert_eq!("void".parse::<Keyword>(), Ok(Keyword::Void));
    assert_eq!("voids".parse::<Keyword>(), Err(()));
}

#[test]
fn decrement_is_reserved() {
    let error = tokenize("int main(void) { return 1 -- 2; }").unwrap_err();
    assert!(error.starts_with("Decrement not supported"));
    assert!(error.contains("--"));
    assert_eq!(tokenize("--").unwrap_err(), "Decrement not supported: --");
    assert_eq!(tokenize("a---b").unwrap_err(), "Decrement not supported: --");
}

#[test]
fn separated_minus_signs_are_two_tokens() {
    assert_eq!(
        tokenize("- -5").unwrap(),
        vec![Token::Subtraction, Token::Subtraction, Token::Constant(5)]
    );
}

#[test]
fn unknown_character_reports_the_rest_of_the_text() {
    assert_eq!(tokenize("return @ 1;").unwrap_err(), "Unexpected token: @ 1;");
    assert_eq!(tokenize("a = b").unwrap_err(), "Unexpected token: = b");
    assert_eq!(tokenize_next("").unwrap_err(), "Unexpected token: ");
    assert_eq!(tokenize("x\u{a0}y").unwrap_err(), "Unexpected token: \u{a0}y");
}

fn lexemes() -> Vec<(&'static str, Token)> {
    vec![
        ("main", ident("main")),
        ("x1", ident("x1")),
        ("int", Token::Keyword(Keyword::Int)),
        ("void", Token::Keyword(Keyword::Void)),
        ("return", Token::Keyword(Keyword::Return)),
        ("0", Token::Constant(0)),
        ("42", Token::Constant(42)),
        ("(", Token::OpenParen),
        (")", Token::CloseParen),
        ("{", Token::OpenBrace),
        ("}", Token::CloseBrace),
        (";", Token::Semicolon),
        ("~", Token::BitwiseComplement),
        ("-", Token::Subtraction),
        ("+", Token::Addition),
        ("*", Token::Multiplication),
        ("/", Token::Division),
        ("%", Token::Remainder),
    ]
}

fn is_word(token: &Token) -> bool {
    matches!(token, Token::Identifier(_) | Token::Keyword(_) | Token::Constant(_))
}

#[test]
fn every_lexeme_is_its_token() {
    for (text, token) in lexemes() {
        assert_eq!(tokenize(text).unwrap(), vec![token.clone()]);
        let (first, rest) = tokenize_next(text).unwrap();
        assert_eq!(first, token);
        assert_eq!(rest, "");
    }
}

#[test]
fn adjacent_tokens_are_read_apart_unless_they_run_together() {
    for (first, a) in lexemes() {
        for (second, b) in lexemes() {
            let joined = format!("{}{}", first, second);
            let apart = tokenize(&joined) == Ok(vec![a.clone(), b.clone()]);
            let run_together =
                (is_word(&a) && is_word(&b)) || (a == Token::Subtraction && b == Token::Subtraction);
            assert_eq!(apart, !run_together, "{}", joined);
        }
    }
}

#[test]
fn tokens_apart_by_whitespace_are_always_read_apart() {
    for (first, a) in lexemes() {
        for (second, b) in lexemes() {
            for gap in [" ", "\t", "\n", " \r\n "] {
                let joined = format!("{}{}{}", first, gap, second);
                assert_eq!(tokenize(&joined).unwrap(), vec![a.clone(), b.clone()]);
            }
        }
    }
}

#[test]
fn trimming_drops_ascii_whitespace_only() {
    assert_eq!(trim_start("  \t\n\r\x0B\x0C x "), "x ");
    assert_eq!(trim_start("x"), "x");
    assert_eq!(trim_start(""), "");
    assert_eq!(trim_start("   "), "");
    assert_eq!(trim_start(" \u{a0}x"), "\u{a0}x");
    assert_eq!(trim_start("\u{2003}x"), "\u{2003}x");
}

#[test]
fn tokens_are_described_by_kind_and_content() {
    assert_eq!(ident("main").describe(), "Identifier(\"main\")");
    assert_eq!(Token::Constant(-7).describe(), "Constant(-7)");
    assert_eq!(Token::Keyword(Keyword::Int).describe(), "Keyword(Int)");
    assert_eq!(Token::Keyword(Keyword::Void).describe(), "Keyword(Void)");
    assert_eq!(Token::Keyword(Keyword::Return).describe(), "Keyword(Return)");
    for (_, token) in lexemes() {
        assert_eq!(token.describe(), format!("{:?}", token));
    }
}

#[test]
fn same_token_means_same_kind_and_content() {
    let all: Vec<Token> = lexemes().into_iter().map(|(_, token)| token).collect();
    for a in &all {
        for b in &all {
            assert_eq!(a.same_as(b), a == b);
        }
    }
    assert!(!ident("a").same_as(&ident("b")));
    assert!(!Token::Constant(1).same_as(&Token::Constant(2)));
}
