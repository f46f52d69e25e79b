use ween::lexer::{tokenize, Lexer};
use ween::token::{Token, TokenType};

/// The categories of every token of the input, in order.
fn categories(input: &str) -> Vec<TokenType> {
    tokenize(input).into_iter().map(|t| t.token_type).collect()
}

#[test]
fn empty_input_yields_one_end_of_input() {
    let tokens = tokenize("");
    assert_eq!(tokens.len(), 1);
    assert_eq!(
        tokens[0],
        Token { value: String::new(), token_type: TokenType::EndOfInput, line: 1, column: 1 }
    );
}

#[test]
fn last_token_is_end_of_input_exactly_once() {
    for input in [
        "",
        "def header body",
        "1.2.3",
        "\"abc",
        "/* never closed",
        "@#$%",
        "a = 1; b = \"two\";",
        "   \n\t  ",
    ] {
        let tokens = tokenize(input);
        assert!(!tokens.is_empty());
        assert_eq!(tokens.last().unwrap().token_type, TokenType::EndOfInput);
        let ends = tokens
            .iter()
            .filter(|t| t.token_type == TokenType::EndOfInput)
            .count();
        assert_eq!(ends, 1);
    }
}

#[test]
fn keywords_are_recognized() {
    assert_eq!(
        categories("def header body"),
        vec![
            TokenType::Keyword("def".to_string()),
            TokenType::Keyword("header".to_string()),
            TokenType::Keyword("body".to_string()),
            TokenType::EndOfInput,
        ]
    );
}

#[test]
fn other_alphabetic_runs_are_identifiers() {
    assert_eq!(
        categories("font-size defx Body"),
        vec![
            TokenType::Identifier("font-size".to_string()),
            TokenType::Identifier("defx".to_string()),
            TokenType::Identifier("Body".to_string()),
            TokenType::EndOfInput,
        ]
    );
}

#[test]
fn hyphen_continues_but_cannot_start_an_identifier() {
    assert_eq!(
        categories("-x"),
        vec![
            TokenType::Illegal('-'),
            TokenType::Identifier("x".to_string()),
            TokenType::EndOfInput,
        ]
    );
}

#[test]
fn underscore_starts_an_identifier() {
    assert_eq!(
        categories("_private_1"),
        vec![TokenType::Identifier("_private_1".to_string()), TokenType::EndOfInput]
    );
}

#[test]
fn number_stops_at_first_alphabetic_character() {
    let tokens = tokenize("16px");
    assert_eq!(tokens.len(), 3);
    assert_eq!(tokens[0].token_type, TokenType::Number("16".to_string()));
    assert_eq!(tokens[0].value, "16");
    assert_eq!("16".parse::<f64>().unwrap(), 16.0);
    assert_eq!((tokens[0].line, tokens[0].column), (1, 1));
    assert_eq!(tokens[1].token_type, TokenType::Identifier("px".to_string()));
    assert_eq!((tokens[1].line, tokens[1].column), (1, 3));
    assert_eq!(tokens[2].token_type, TokenType::EndOfInput);
}

#[test]
fn second_decimal_point_ends_the_number() {
    let tokens = tokenize("1.2.3");
    assert_eq!(
        tokens.iter().map(|t| t.token_type.clone()).collect::<Vec<_>>(),
        vec![
            TokenType::Number("1.2".to_string()),
            TokenType::Illegal('.'),
            TokenType::Number("3".to_string()),
            TokenType::EndOfInput,
        ]
    );
    assert_eq!("1.2".parse::<f64>().unwrap(), 1.2);
    assert_eq!("3".parse::<f64>().unwrap(), 3.0);
}

#[test]
fn trailing_decimal_point_is_part_of_the_number() {
    let tokens = tokenize("1.");
    assert_eq!(tokens[0].token_type, TokenType::Number("1.".to_string()));
    assert_eq!("1.".parse::<f64>().unwrap(), 1.0);
    assert_eq!(tokens[1].token_type, TokenType::EndOfInput);
}

#[test]
fn string_literal_is_one_token_at_the_opening_quote() {
    let tokens = tokenize("\"Hello, World!\"");
    assert_eq!(tokens.len(), 2);
    assert_eq!(
        tokens[0].token_type,
        TokenType::StringLiteral("Hello, World!".to_string())
    );
    assert_eq!(tokens[0].value, "Hello, World!");
    assert_eq!((tokens[0].line, tokens[0].column), (1, 1));
    assert_eq!(tokens[1].token_type, TokenType::EndOfInput);
}

#[test]
fn string_literal_reports_the_column_of_its_quote() {
    let tokens = tokenize("x \"hi\"");
    assert_eq!(tokens[1].token_type, TokenType::StringLiteral("hi".to_string()));
    assert_eq!((tokens[1].line, tokens[1].column), (1, 3));
}

#[test]
fn empty_string_literal() {
    assert_eq!(
        categories("\"\""),
        vec![TokenType::StringLiteral(String::new()), TokenType::EndOfInput]
    );
}

#[test]
fn backslash_is_literal_content_in_strings() {
    assert_eq!(
        categories("\"a\\nb\""),
        vec![TokenType::StringLiteral("a\\nb".to_string()), TokenType::EndOfInput]
    );
}

#[test]
fn unterminated_string_runs_to_end_of_input() {
    let tokens = tokenize("\"abc");
    assert_eq!(tokens.len(), 2);
    assert_eq!(tokens[0].token_type, TokenType::StringLiteral("abc".to_string()));
    assert_eq!(tokens[1].token_type, TokenType::EndOfInput);
}

#[test]
fn each_operator_is_exactly_one_token() {
    let cases: Vec<(&str, TokenType)> = vec![
        ("==", TokenType::EqualsTo),
        ("=", TokenType::Equals),
        ("!=", TokenType::NotEqualsTo),
        ("!", TokenType::Not),
        ("<=", TokenType::LessOrEqual),
        ("<", TokenType::LessThan),
        (">=", TokenType::GreaterOrEqual),
        (">", TokenType::GreaterThan),
    ];
    for (input, expected) in cases {
        let tokens = tokenize(input);
        assert_eq!(tokens.len(), 2, "input {:?}", input);
        assert_eq!(tokens[0].token_type, expected, "input {:?}", input);
        assert_eq!(tokens[0].value, input);
        assert_eq!(tokens[1].token_type, TokenType::EndOfInput, "input {:?}", input);
    }
}

#[test]
fn spaced_equals_are_two_tokens() {
    assert_eq!(
        categories("= ="),
        vec![TokenType::Equals, TokenType::Equals, TokenType::EndOfInput]
    );
}

#[test]
fn punctuation_maps_directly() {
    assert_eq!(
        categories(",;(){}"),
        vec![
            TokenType::Comma,
            TokenType::Semicolon,
            TokenType::LParen,
            TokenType::RParen,
            TokenType::LBrace,
            TokenType::RBrace,
            TokenType::EndOfInput,
        ]
    );
}

#[test]
fn comment_spanning_lines_leaves_one_token_on_the_right_line() {
    let tokens = tokenize("/* comment \n spanning lines */ x");
    assert_eq!(tokens.len(), 2);
    assert_eq!(tokens[0].token_type, TokenType::Identifier("x".to_string()));
    assert_eq!((tokens[0].line, tokens[0].column), (2, 20));
    assert_eq!(tokens[1].token_type, TokenType::EndOfInput);
}

#[test]
fn comment_between_tokens_separates_them() {
    assert_eq!(
        categories("a/*x*/b"),
        vec![
            TokenType::Identifier("a".to_string()),
            TokenType::Identifier("b".to_string()),
            TokenType::EndOfInput,
        ]
    );
}

#[test]
fn unterminated_comment_is_consumed_silently() {
    assert_eq!(categories("/* abc"), vec![TokenType::EndOfInput]);
}

#[test]
fn lone_slash_is_illegal() {
    assert_eq!(
        categories("/"),
        vec![TokenType::Illegal('/'), TokenType::EndOfInput]
    );
}

#[test]
fn illegal_character_is_reported_and_scanning_continues() {
    let tokens = tokenize("@x");
    assert_eq!(tokens[0].token_type, TokenType::Illegal('@'));
    assert_eq!(tokens[0].value, "@");
    assert_eq!(tokens[1].token_type, TokenType::Identifier("x".to_string()));
}

#[test]
fn newline_resets_column_and_bumps_line() {
    let tokens = tokenize("a\nbb c");
    assert_eq!((tokens[0].line, tokens[0].column), (1, 1));
    assert_eq!((tokens[1].line, tokens[1].column), (2, 1));
    assert_eq!((tokens[2].line, tokens[2].column), (2, 4));
}

#[test]
fn retokenizing_is_deterministic() {
    let input = "def title(TextFamily) { font-size = 16; color = \"Red\"; } /* done */";
    assert_eq!(tokenize(input), tokenize(input));
}

#[test]
fn small_program_tokenizes_as_expected() {
    assert_eq!(
        categories("def title { font-size = 1.5; }"),
        vec![
            TokenType::Keyword("def".to_string()),
            TokenType::Identifier("title".to_string()),
            TokenType::LBrace,
            TokenType::Identifier("font-size".to_string()),
            TokenType::Equals,
            TokenType::Number("1.5".to_string()),
            TokenType::Semicolon,
            TokenType::RBrace,
            TokenType::EndOfInput,
        ]
    );
}

#[test]
fn next_token_keeps_returning_end_of_input() {
    let mut lexer = Lexer::new("x");
    let first = lexer.next_token();
    assert_eq!(first.token_type, TokenType::Identifier("x".to_string()));
    assert!(lexer.is_at_end());
    let end_a = lexer.next_token();
    let end_b = lexer.next_token();
    assert_eq!(end_a.token_type, TokenType::EndOfInput);
    assert_eq!(end_a, end_b);
    assert_eq!((end_b.line, end_b.column), (1, 2));
}

#[test]
fn fresh_lexer_is_only_at_end_for_empty_input() {
    assert!(Lexer::new("").is_at_end());
    assert!(!Lexer::new(" ").is_at_end());
}

#[test]
fn token_equality_is_structural() {
    let a = Token {
        value: "def".to_string(),
        token_type: TokenType::Keyword("def".to_string()),
        line: 1,
        column: 5,
    };
    let b = Token {
        value: "def".to_string(),
        token_type: TokenType::Keyword("def".to_string()),
        line: 1,
        column: 5,
    };
    let c = Token { column: 6, ..a.clone() };
    assert_eq!(a, b);
    assert_ne!(a, c);
}
