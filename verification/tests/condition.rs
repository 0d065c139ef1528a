use minilang::ast::{Condition, Expression};
use minilang::tokens::Token;

#[test]
fn test_valid_tokens() {
    let valid_tokens = [
        Token::Less,
        Token::LessEqual,
        Token::Equal,
        Token::GreaterEqual,
        Token::Greater,
    ];
    for token in valid_tokens.iter().cloned() {
        let cond = Condition::new(token.clone(), Expression::Number(0), Expression::Number(0))
            .unwrap();
        assert_eq!(cond.comparator, token);
    }
}

#[test]
fn test_invalid_token() {
    // Constructing a condition from a non-relational token fails with a
    // reportable, typed error — not a panic.
    let r = Condition::new(Token::Plus, Expression::Number(0), Expression::Number(0));
    assert!(r.is_err());
    let e = r.unwrap_err();
    assert_eq!(e.production, "condition");
    assert_eq!(e.found, Some(Token::Plus));
}

#[test]
fn not_equal_is_a_legal_comparator() {
    let cond = Condition::new(
        Token::NotEqual,
        Expression::Identifier("x".to_string()),
        Expression::Number(1),
    )
    .unwrap();
    assert_eq!(cond.comparator, Token::NotEqual);
    assert_eq!(cond.left, Expression::Identifier("x".to_string()));
    assert_eq!(cond.right, Expression::Number(1));
}

#[test]
fn assignment_token_is_not_a_comparator() {
    let r = Condition::new(Token::Assignment, Expression::Number(1), Expression::Number(2));
    assert!(r.is_err());
}
