use ween::ast::{StyleDefinition, StyleProperty, Value};
use ween::lexer::tokenize;
use ween::token::{u64_to_decimal, Token, TokenType};

#[test]
fn display_names_follow_the_category() {
    assert_eq!(TokenType::Keyword("def".to_string()).display_name(), "Keyword");
    assert_eq!(TokenType::Number("16".to_string()).display_name(), "Number");
    assert_eq!(TokenType::EqualsTo.display_name(), "EqualsTo");
    assert_eq!(TokenType::Illegal('@').display_name(), "Illegal");
    assert_eq!(TokenType::EndOfInput.display_name(), "EndOfInput");
}

#[test]
fn display_string_has_the_documented_shape() {
    let tokens = tokenize("def");
    assert_eq!(tokens[0].display_string(), "[Keyword] 'def' at line 1, column 1");
    assert_eq!(tokens[1].display_string(), "[EndOfInput] '' at line 1, column 4");
}

#[test]
fn display_string_prints_multi_digit_positions() {
    let token = Token {
        value: "total".to_string(),
        token_type: TokenType::Identifier("total".to_string()),
        line: 12,
        column: 340,
    };
    assert_eq!(
        token.display_string(),
        "[Identifier] 'total' at line 12, column 340"
    );
}

#[test]
fn decimal_text_of_integers() {
    assert_eq!(u64_to_decimal(0), "0");
    assert_eq!(u64_to_decimal(7), "7");
    assert_eq!(u64_to_decimal(10), "10");
    assert_eq!(u64_to_decimal(90210), "90210");
    assert_eq!(u64_to_decimal(u64::MAX), u64::MAX.to_string());
}

#[test]
fn style_definition_holds_its_parts() {
    let style = StyleDefinition {
        name: "important-text".to_string(),
        params: vec!["TextFamily".to_string()],
        properties: vec![StyleProperty {
            key: "font-size".to_string(),
            value: Value::Number("16".to_string()),
        }],
    };
    assert_eq!(style.name, "important-text");
    assert_eq!(style.params.len(), 1);
    assert!(matches!(style.properties[0].value, Value::Number(_)));
}
