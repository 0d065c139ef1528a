use minilang::diag::LexError;
use minilang::tokenizer::Tokenizer;
use minilang::tokens::Token;

fn tok(src: &str) -> Token {
    Tokenizer::new(src.to_string()).next_token().unwrap()
}

fn tok_err(src: &str) -> LexError {
    Tokenizer::new(src.to_string()).next_token().unwrap_err()
}

#[test]
fn base_test() {
    assert_eq!(10, 10)
}

#[test]
fn operator_spellings() {
    assert_eq!(tok("<"), Token::Less);
    assert_eq!(tok("<="), Token::LessEqual);
    assert_eq!(tok("<-"), Token::Assignment);
    assert_eq!(tok(">"), Token::Greater);
    assert_eq!(tok(">="), Token::GreaterEqual);
    assert_eq!(tok("=="), Token::Equal);
    assert_eq!(tok("!="), Token::NotEqual);
}

#[test]
fn operator_cursor_stops_after_lexeme() {
    // After each operator the cursor stands right after the lexeme, so
    // the next token is the rest of the input.
    let mut t = Tokenizer::new("<=5".to_string());
    assert_eq!(t.next_token().unwrap(), Token::LessEqual);
    assert_eq!(t.next_token().unwrap(), Token::Number(5));

    let mut t = Tokenizer::new("<5".to_string());
    assert_eq!(t.next_token().unwrap(), Token::Less);
    assert_eq!(t.next_token().unwrap(), Token::Number(5));

    let mut t = Tokenizer::new("<-x".to_string());
    assert_eq!(t.next_token().unwrap(), Token::Assignment);
    assert_eq!(t.next_token().unwrap(), Token::Identifier("x".to_string()));

    let mut t = Tokenizer::new(">=>".to_string());
    assert_eq!(t.next_token().unwrap(), Token::GreaterEqual);
    assert_eq!(t.next_token().unwrap(), Token::Greater);
}

#[test]
fn bare_equal_and_bang_are_lexical_errors() {
    assert_eq!(tok_err("="), LexError::MalformedOperator { op: '=', found: '\0', pos: 1 });
    assert_eq!(tok_err("=x"), LexError::MalformedOperator { op: '=', found: 'x', pos: 1 });
    assert_eq!(tok_err("!"), LexError::MalformedOperator { op: '!', found: '\0', pos: 1 });
    assert_eq!(tok_err("!3"), LexError::MalformedOperator { op: '!', found: '3', pos: 1 });
}

#[test]
fn peek_token_is_idempotent() {
    let mut t = Tokenizer::new("  let x".to_string());
    let p1 = t.peek_token().unwrap();
    let p2 = t.peek_token().unwrap();
    let p3 = t.peek_token().unwrap();
    assert_eq!(p1, Token::Let);
    assert_eq!(p2, Token::Let);
    assert_eq!(p3, Token::Let);
    // The cursor is unchanged: consuming still starts at the first token.
    assert_eq!(t.next_token().unwrap(), Token::Let);
    assert_eq!(t.next_token().unwrap(), Token::Identifier("x".to_string()));
}

#[test]
fn keywords_are_recognized() {
    assert_eq!(tok("if"), Token::If);
    assert_eq!(tok("else"), Token::Else);
    assert_eq!(tok("while"), Token::While);
    assert_eq!(tok("function"), Token::Function);
    assert_eq!(tok("call"), Token::FunctionCall);
    assert_eq!(tok("return"), Token::Return);
    assert_eq!(tok("var"), Token::Variable);
    assert_eq!(tok("void"), Token::Void);
    assert_eq!(tok("then"), Token::Then);
    assert_eq!(tok("fi"), Token::Fi);
    assert_eq!(tok("do"), Token::Do);
    assert_eq!(tok("od"), Token::Od);
    assert_eq!(tok("let"), Token::Let);
    assert_eq!(tok("main"), Token::Main);
}

#[test]
fn keyword_prefixes_are_identifiers() {
    assert_eq!(tok("iffy"), Token::Identifier("iffy".to_string()));
    assert_eq!(tok("whilex"), Token::Identifier("whilex".to_string()));
    assert_eq!(tok("mains"), Token::Identifier("mains".to_string()));
    assert_eq!(tok("x_1"), Token::Identifier("x_1".to_string()));
    assert_eq!(tok("Abc9_z"), Token::Identifier("Abc9_z".to_string()));
}

#[test]
fn punctuation_tokens() {
    assert_eq!(tok("+"), Token::Plus);
    assert_eq!(tok("-"), Token::Minus);
    assert_eq!(tok("*"), Token::Times);
    assert_eq!(tok("/"), Token::Divide);
    assert_eq!(tok(";"), Token::Semicolon);
    assert_eq!(tok(","), Token::Comma);
    assert_eq!(tok("("), Token::OpenParen);
    assert_eq!(tok(")"), Token::CloseParen);
    assert_eq!(tok("{"), Token::OpenBrace);
    assert_eq!(tok("}"), Token::CloseBrace);
    assert_eq!(tok("."), Token::EOF);
}

#[test]
fn numbers_parse_exactly() {
    assert_eq!(tok("0"), Token::Number(0));
    assert_eq!(tok("42"), Token::Number(42));
    assert_eq!(tok("007"), Token::Number(7));
    let max = isize::MAX.to_string();
    assert_eq!(tok(&max), Token::Number(isize::MAX));
}

#[test]
fn number_overflow_is_an_error() {
    let too_big = format!("{}0", isize::MAX);
    assert_eq!(tok_err(&too_big), LexError::NumberOverflow { pos: 0 });
}

#[test]
fn unexpected_characters_are_errors() {
    assert_eq!(tok_err("@"), LexError::UnexpectedChar { ch: '@', pos: 0 });
    assert_eq!(tok_err("_x"), LexError::UnexpectedChar { ch: '_', pos: 0 });
    // At the end of input the scanner reads the sentinel character.
    assert_eq!(tok_err(""), LexError::UnexpectedChar { ch: '\0', pos: 0 });
    assert_eq!(tok_err("   "), LexError::UnexpectedChar { ch: '\0', pos: 3 });
}

#[test]
fn whitespace_is_skipped() {
    let mut t = Tokenizer::new(" \t\n\r  let\n x ".to_string());
    assert_eq!(t.next_token().unwrap(), Token::Let);
    assert_eq!(t.next_token().unwrap(), Token::Identifier("x".to_string()));
}

#[test]
fn peek_char_reads_without_advancing() {
    let t = Tokenizer::new("ab".to_string());
    assert_eq!(t.peek_char(), 'a');
    assert_eq!(t.peek_char(), 'a');
    let t = Tokenizer::new("".to_string());
    assert_eq!(t.peek_char(), '\0');
}

#[test]
fn assignment_statement_token_sequence() {
    let mut t = Tokenizer::new("let x <- 3 + 4 * 2;".to_string());
    let expected = [
        Token::Let,
        Token::Identifier("x".to_string()),
        Token::Assignment,
        Token::Number(3),
        Token::Plus,
        Token::Number(4),
        Token::Times,
        Token::Number(2),
        Token::Semicolon,
    ];
    for want in expected.iter() {
        assert_eq!(&t.next_token().unwrap(), want);
    }
}

#[test]
fn peek_token_repeats_errors_too() {
    let mut t = Tokenizer::new("@x".to_string());
    let e1 = t.peek_token().unwrap_err();
    let e2 = t.peek_token().unwrap_err();
    assert_eq!(e1, LexError::UnexpectedChar { ch: '@', pos: 0 });
    assert_eq!(e2, e1);
    assert_eq!(t.next_token().unwrap_err(), e1);
}

#[test]
fn unicode_whitespace_is_skipped() {
    // Whitespace beyond ASCII — ogham space mark, em space, ideographic
    // space — separates tokens like any blank.
    let mut t = Tokenizer::new("\u{1680}let\u{2003}x\u{3000}".to_string());
    assert_eq!(t.next_token().unwrap(), Token::Let);
    assert_eq!(t.next_token().unwrap(), Token::Identifier("x".to_string()));
    assert_eq!(t.next_token().unwrap_err(), LexError::UnexpectedChar { ch: '\0', pos: 7 });
}
