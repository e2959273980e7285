use loxrs::errors::Diagnostic;
use loxrs::errors::error;
use loxrs::errors::report;
use loxrs::scanner::Scanner;
use loxrs::token::Token;
use loxrs::token::TokenType;
use loxrs::token::keyword_or_identifier;

fn scan(src: &str) -> (Vec<Token>, Vec<Diagnostic>) {
    let mut scanner = Scanner::new(src);
    let tokens = scanner.scan_tokens().clone();
    (tokens, scanner.errors.clone())
}

fn kinds(tokens: &[Token]) -> Vec<TokenType> {
    tokens.iter().map(|t| t.token_type.clone()).collect()
}

#[test]
fn single_punctuation_tokens() {
    let cases: Vec<(&str, TokenType)> = vec![
        ("(", TokenType::LEFT_PAREN),
        (")", TokenType::RIGHT_PAREN),
        ("{", TokenType::LEFT_BRACE),
        ("}", TokenType::RIGHT_BRACE),
        (",", TokenType::COMMA),
        (".", TokenType::DOT),
        ("-", TokenType::MINUS),
        ("+", TokenType::PLUS),
        (";", TokenType::SEMICOLON),
        ("*", TokenType::STAR),
        ("/", TokenType::SLASH),
    ];
    for (src, kind) in cases {
        let (tokens, errors) = scan(src);
        assert_eq!(kinds(&tokens), vec![kind, TokenType::EOF]);
        assert_eq!(tokens[0].lexeme, src);
        assert_eq!(tokens[0].line, 1);
        assert_eq!(tokens[1].lexeme, "");
        assert!(errors.is_empty());
    }
}

#[test]
fn two_character_operators_win() {
    let cases: Vec<(&str, TokenType)> = vec![
        ("!=", TokenType::BANG_EQUAL),
        ("==", TokenType::EQUAL_EQUAL),
        ("<=", TokenType::LESS_EQUAL),
        (">=", TokenType::GREATER_EQUAL),
    ];
    for (src, kind) in cases {
        let (tokens, errors) = scan(src);
        assert_eq!(kinds(&tokens), vec![kind, TokenType::EOF]);
        assert_eq!(tokens[0].lexeme, src);
        assert!(errors.is_empty());
    }
}

#[test]
fn single_character_operators_without_equal() {
    let cases: Vec<(&str, TokenType)> = vec![
        ("!", TokenType::BANG),
        ("=", TokenType::EQUAL),
        ("<", TokenType::LESS),
        (">", TokenType::GREATER),
    ];
    for (src, kind) in cases {
        let (tokens, _) = scan(src);
        assert_eq!(kinds(&tokens), vec![kind.clone(), TokenType::EOF]);
        // Followed by something other than '=', still the single kind first.
        let with_tail = format!("{}(", src);
        let (tokens, errors) = scan(&with_tail);
        assert_eq!(kinds(&tokens), vec![kind, TokenType::LEFT_PAREN, TokenType::EOF]);
        assert!(errors.is_empty());
    }
}

#[test]
fn line_comment_contributes_no_tokens() {
    let (tokens, errors) = scan("// anything\nfoo");
    assert_eq!(tokens.len(), 2);
    assert_eq!(tokens[0].token_type, TokenType::IDENTIFIER);
    assert_eq!(tokens[0].lexeme, "foo");
    assert_eq!(tokens[0].line, 2);
    assert_eq!(tokens[1].token_type, TokenType::EOF);
    assert!(errors.is_empty());
}

#[test]
fn comment_without_newline_reaches_end() {
    let (tokens, errors) = scan("// just a comment");
    assert_eq!(kinds(&tokens), vec![TokenType::EOF]);
    assert_eq!(tokens[0].line, 1);
    assert!(errors.is_empty());
}

#[test]
fn string_round_trip() {
    let (tokens, errors) = scan("\"hello\"");
    assert_eq!(tokens.len(), 2);
    assert_eq!(
        tokens[0].token_type,
        TokenType::STRING { literal: String::from("hello") }
    );
    assert_eq!(tokens[0].lexeme, "\"hello\"");
    assert_eq!(tokens[0].line, 1);
    assert_eq!(tokens[1].token_type, TokenType::EOF);
    assert!(errors.is_empty());
}

#[test]
fn unterminated_string_reports_and_yields_nothing() {
    let (tokens, errors) = scan("\"abc");
    assert_eq!(kinds(&tokens), vec![TokenType::EOF]);
    assert_eq!(errors.len(), 1);
    assert_eq!(errors[0].line, 1);
    assert_eq!(errors[0].message, "Unterminated string.");
    assert_eq!(errors[0].context, "");
}

#[test]
fn number_with_fraction_decodes() {
    let (tokens, errors) = scan("123.45");
    assert_eq!(tokens.len(), 2);
    match &tokens[0].token_type {
        TokenType::NUMBER { literal } => {
            assert_eq!(literal, "123.45");
            let value: f64 = literal.parse().unwrap();
            assert_eq!(value, 123.45);
        }
        other => panic!("expected a number token, got {:?}", other),
    }
    assert_eq!(tokens[0].lexeme, "123.45");
    assert!(errors.is_empty());
}

#[test]
fn trailing_dot_is_not_part_of_number() {
    let (tokens, errors) = scan("123.");
    assert_eq!(tokens.len(), 3);
    assert_eq!(
        tokens[0].token_type,
        TokenType::NUMBER { literal: String::from("123") }
    );
    assert_eq!(tokens[1].token_type, TokenType::DOT);
    assert_eq!(tokens[2].token_type, TokenType::EOF);
    assert!(errors.is_empty());
}

#[test]
fn dot_followed_by_identifier_splits() {
    let (tokens, _) = scan("1.x");
    assert_eq!(
        kinds(&tokens),
        vec![
            TokenType::NUMBER { literal: String::from("1") },
            TokenType::DOT,
            TokenType::IDENTIFIER,
            TokenType::EOF,
        ]
    );
}

#[test]
fn keyword_versus_identifier() {
    let (tokens, _) = scan("for");
    assert_eq!(kinds(&tokens), vec![TokenType::FOR, TokenType::EOF]);
    let (tokens, _) = scan("forEach");
    assert_eq!(kinds(&tokens), vec![TokenType::IDENTIFIER, TokenType::EOF]);
    assert_eq!(tokens[0].lexeme, "forEach");
}

#[test]
fn all_reserved_words_resolve() {
    let cases: Vec<(&str, TokenType)> = vec![
        ("and", TokenType::AND),
        ("class", TokenType::CLASS),
        ("else", TokenType::ELSE),
        ("false", TokenType::FALSE),
        ("for", TokenType::FOR),
        ("fun", TokenType::FUN),
        ("if", TokenType::IF),
        ("nil", TokenType::NIL),
        ("or", TokenType::OR),
        ("print", TokenType::PRINT),
        ("return", TokenType::RETURN),
        ("super", TokenType::SUPER),
        ("this", TokenType::THIS),
        ("true", TokenType::TRUE),
        ("var", TokenType::VAR),
        ("while", TokenType::WHILE),
    ];
    for (src, kind) in cases {
        let (tokens, errors) = scan(src);
        assert_eq!(kinds(&tokens), vec![kind.clone(), TokenType::EOF]);
        assert_eq!(keyword_or_identifier(&String::from(src)), kind);
        assert!(errors.is_empty());
    }
    assert_eq!(
        keyword_or_identifier(&String::from("format")),
        TokenType::IDENTIFIER
    );
}

#[test]
fn multi_line_string_tracks_lines() {
    let (tokens, errors) = scan("\"a\nb\"\nfoo");
    assert_eq!(tokens.len(), 3);
    assert_eq!(
        tokens[0].token_type,
        TokenType::STRING { literal: String::from("a\nb") }
    );
    // The string token reports the line of its first character, the
    // opening quote, however many lines the literal spans.
    assert_eq!(tokens[0].line, 1);
    // The token after the literal reports the post-literal line.
    assert_eq!(tokens[1].token_type, TokenType::IDENTIFIER);
    assert_eq!(tokens[1].lexeme, "foo");
    assert_eq!(tokens[1].line, 3);
    assert!(errors.is_empty());
}

#[test]
fn scanning_twice_is_identical() {
    let src = "var answer = 42; // comment\nprint \"ok\" @";
    let (tokens_a, errors_a) = scan(src);
    let (tokens_b, errors_b) = scan(src);
    assert_eq!(tokens_a, tokens_b);
    assert_eq!(errors_a, errors_b);
}

#[test]
fn unexpected_character_is_reported_and_skipped() {
    let (tokens, errors) = scan("@(");
    assert_eq!(kinds(&tokens), vec![TokenType::LEFT_PAREN, TokenType::EOF]);
    assert_eq!(errors.len(), 1);
    assert_eq!(errors[0].line, 1);
    assert_eq!(errors[0].message, "Unexpected character.");
}

#[test]
fn errors_do_not_abort_the_scan() {
    let (tokens, errors) = scan("@\n#\nfoo");
    assert_eq!(kinds(&tokens), vec![TokenType::IDENTIFIER, TokenType::EOF]);
    assert_eq!(errors.len(), 2);
    assert_eq!(errors[0].line, 1);
    assert_eq!(errors[1].line, 2);
}

#[test]
fn empty_input_yields_only_eof() {
    let (tokens, errors) = scan("");
    assert_eq!(tokens.len(), 1);
    assert_eq!(tokens[0].token_type, TokenType::EOF);
    assert_eq!(tokens[0].lexeme, "");
    assert_eq!(tokens[0].line, 1);
    assert!(errors.is_empty());
}

#[test]
fn whitespace_is_skipped() {
    let (tokens, errors) = scan(" \t\r(");
    assert_eq!(kinds(&tokens), vec![TokenType::LEFT_PAREN, TokenType::EOF]);
    assert_eq!(tokens[0].line, 1);
    assert!(errors.is_empty());
}

#[test]
fn newline_increments_line() {
    let (tokens, _) = scan("(\n)");
    assert_eq!(tokens[0].line, 1);
    assert_eq!(tokens[1].line, 2);
    assert_eq!(tokens[2].line, 2);
}

#[test]
fn identifier_takes_alphanumerics_and_underscores() {
    let (tokens, _) = scan("a_1b c");
    assert_eq!(tokens[0].token_type, TokenType::IDENTIFIER);
    assert_eq!(tokens[0].lexeme, "a_1b");
    assert_eq!(tokens[1].lexeme, "c");
}

#[test]
fn underscore_starts_an_identifier() {
    let (tokens, errors) = scan("_foo");
    assert_eq!(kinds(&tokens), vec![TokenType::IDENTIFIER, TokenType::EOF]);
    assert_eq!(tokens[0].lexeme, "_foo");
    assert!(errors.is_empty());
    let (tokens, errors) = scan("_");
    assert_eq!(kinds(&tokens), vec![TokenType::IDENTIFIER, TokenType::EOF]);
    assert_eq!(tokens[0].lexeme, "_");
    assert!(errors.is_empty());
}

#[test]
fn token_new_keeps_its_arguments() {
    let t = Token::new(TokenType::PLUS, "+", 7);
    assert_eq!(t.token_type, TokenType::PLUS);
    assert_eq!(t.lexeme, "+");
    assert_eq!(t.line, 7);
}

#[test]
fn error_builds_a_contextless_report() {
    let d = error(3, "Unexpected character.");
    assert_eq!(d.line, 3);
    assert_eq!(d.context, "");
    assert_eq!(d.message, "Unexpected character.");
}

#[test]
fn report_keeps_its_context() {
    let d = report(9, "somewhere", "something");
    assert_eq!(d.line, 9);
    assert_eq!(d.context, "somewhere");
    assert_eq!(d.message, "something");
}

#[test]
fn comment_markers_inside_string_are_text() {
    let (tokens, errors) = scan("\"// not a comment\"");
    assert_eq!(tokens.len(), 2);
    assert_eq!(
        tokens[0].token_type,
        TokenType::STRING { literal: String::from("// not a comment") }
    );
    assert!(errors.is_empty());
}

#[test]
fn chained_dots_split_numbers() {
    let (tokens, errors) = scan("1.2.3");
    assert_eq!(
        kinds(&tokens),
        vec![
            TokenType::NUMBER { literal: String::from("1.2") },
            TokenType::DOT,
            TokenType::NUMBER { literal: String::from("3") },
            TokenType::EOF,
        ]
    );
    assert!(errors.is_empty());
}

#[test]
fn small_program_scans_to_expected_kinds() {
    let src = "var half = 10.5;\nif (half >= 2) { print \"big\"; } // note";
    let (tokens, errors) = scan(src);
    assert_eq!(
        kinds(&tokens),
        vec![
            TokenType::VAR,
            TokenType::IDENTIFIER,
            TokenType::EQUAL,
            TokenType::NUMBER { literal: String::from("10.5") },
            TokenType::SEMICOLON,
            TokenType::IF,
            TokenType::LEFT_PAREN,
            TokenType::IDENTIFIER,
            TokenType::GREATER_EQUAL,
            TokenType::NUMBER { literal: String::from("2") },
            TokenType::RIGHT_PAREN,
            TokenType::LEFT_BRACE,
            TokenType::PRINT,
            TokenType::STRING { literal: String::from("big") },
            TokenType::SEMICOLON,
            TokenType::RIGHT_BRACE,
            TokenType::EOF,
        ]
    );
    assert_eq!(tokens.last().unwrap().line, 2);
    assert!(errors.is_empty());
}

#[test]
fn unterminated_multiline_string_reports_final_line() {
    let (tokens, errors) = scan("\"a\nb\nc");
    assert_eq!(kinds(&tokens), vec![TokenType::EOF]);
    assert_eq!(errors.len(), 1);
    assert_eq!(errors[0].line, 3);
    assert_eq!(errors[0].message, "Unterminated string.");
}
