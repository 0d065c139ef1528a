use minilang::ast::{BinOp, Expression, Statement};
use minilang::diag::{LexError, ParseError};
use minilang::parser::{parse, parse_expression, parse_statement};
use minilang::tokenizer::Tokenizer;
use minilang::tokens::Token;

fn statement_of(src: &str) -> Statement {
    let mut t = Tokenizer::new(src.to_string());
    parse_statement(&mut t).unwrap()
}

fn expression_of(src: &str) -> Expression {
    let mut t = Tokenizer::new(src.to_string());
    parse_expression(&mut t).unwrap()
}

#[test]
fn assignment_respects_precedence() {
    // `*` binds tighter than `+`: 3 + (4 * 2).
    let st = statement_of("let x <- 3 + 4 * 2;");
    let expected = Statement::Assignment {
        target: "x".to_string(),
        value: Expression::Binary {
            op: BinOp::Plus,
            left: Box::new(Expression::Number(3)),
            right: Box::new(Expression::Binary {
                op: BinOp::Times,
                left: Box::new(Expression::Number(4)),
                right: Box::new(Expression::Number(2)),
            }),
        },
    };
    assert_eq!(st, expected);
}

#[test]
fn subtraction_is_left_associative() {
    // (1 - 2) - 3, not 1 - (2 - 3).
    let e = expression_of("1 - 2 - 3");
    let expected = Expression::Binary {
        op: BinOp::Minus,
        left: Box::new(Expression::Binary {
            op: BinOp::Minus,
            left: Box::new(Expression::Number(1)),
            right: Box::new(Expression::Number(2)),
        }),
        right: Box::new(Expression::Number(3)),
    };
    assert_eq!(e, expected);
}

#[test]
fn parentheses_override_precedence() {
    let e = expression_of("(3 + 4) * 2");
    let expected = Expression::Binary {
        op: BinOp::Times,
        left: Box::new(Expression::Binary {
            op: BinOp::Plus,
            left: Box::new(Expression::Number(3)),
            right: Box::new(Expression::Number(4)),
        }),
        right: Box::new(Expression::Number(2)),
    };
    assert_eq!(e, expected);
}

#[test]
fn while_loop_parses_condition_and_body() {
    let st = statement_of("while x <= 10 do let x <- x + 1 od");
    match st {
        Statement::While(w) => {
            assert_eq!(w.condition.comparator, Token::LessEqual);
            assert_eq!(w.condition.left, Expression::Identifier("x".to_string()));
            assert_eq!(w.condition.right, Expression::Number(10));
            assert_eq!(w.body.statements.len(), 1);
            let expected = Statement::Assignment {
                target: "x".to_string(),
                value: Expression::Binary {
                    op: BinOp::Plus,
                    left: Box::new(Expression::Identifier("x".to_string())),
                    right: Box::new(Expression::Number(1)),
                },
            };
            assert_eq!(w.body.statements[0], expected);
        }
        other => panic!("expected a while statement, got {:?}", other),
    }
}

#[test]
fn invalid_statement_start_names_the_statement_production() {
    // Inside the then-branch, `2` may not begin a statement: the error
    // names the statement production and lists the acceptable tokens.
    let mut t = Tokenizer::new("if x == 1 then 2 fi".to_string());
    match parse_statement(&mut t) {
        Err(ParseError::Syntax(se)) => {
            assert_eq!(se.production, "statement");
            assert_eq!(se.expected, "'let', 'call', 'if', 'while' or 'return'");
            assert_eq!(se.found, Some(Token::Number(2)));
        }
        other => panic!("expected a syntax error, got {:?}", other),
    }
}

#[test]
fn condition_without_comparator_is_a_syntax_error() {
    // `if x then ...` has no comparator after the left operand: the
    // condition production reports the token it found instead.
    let mut t = Tokenizer::new("if x then y fi".to_string());
    match parse_statement(&mut t) {
        Err(ParseError::Syntax(se)) => {
            assert_eq!(se.production, "condition");
            assert_eq!(se.found, Some(Token::Then));
        }
        other => panic!("expected a syntax error, got {:?}", other),
    }
}

#[test]
fn minimal_program_parses_empty() {
    let p = parse("main { } .".to_string()).unwrap();
    assert!(p.globals.is_empty());
    assert!(p.functions.is_empty());
    assert!(p.body.statements.is_empty());
}

#[test]
fn missing_terminator_fails_the_program_terminal_check() {
    match parse("main { }".to_string()) {
        Err(ParseError::Syntax(se)) => {
            assert_eq!(se.production, "program");
            assert_eq!(se.expected, "'.'");
            assert_eq!(se.found, None);
        }
        other => panic!("expected a syntax error, got {:?}", other),
    }
}

#[test]
fn full_program_parses() {
    let src = "main \
               var a, b; \
               function add2(x, y) var z; { let z <- x + y; return z } ; \
               function nop() { } ; \
               { let a <- 1; call add2(a, 2); \
                 if a < 2 then let b <- (a + 1) * 2 else let b <- 0 fi } .";
    let p = parse(src.to_string()).unwrap();
    assert_eq!(p.globals.len(), 1);
    assert_eq!(p.globals[0].names, vec!["a".to_string(), "b".to_string()]);
    assert_eq!(p.functions.len(), 2);
    assert_eq!(p.functions[0].name, "add2");
    assert_eq!(p.functions[0].params, vec!["x".to_string(), "y".to_string()]);
    assert_eq!(p.functions[0].locals.len(), 1);
    assert_eq!(p.functions[0].body.statements.len(), 2);
    assert_eq!(p.functions[1].name, "nop");
    assert!(p.functions[1].params.is_empty());
    assert!(p.functions[1].body.statements.is_empty());
    assert_eq!(p.body.statements.len(), 3);
    match &p.body.statements[1] {
        Statement::Call { name, args } => {
            assert_eq!(name, "add2");
            assert_eq!(args.len(), 2);
        }
        other => panic!("expected a call statement, got {:?}", other),
    }
    match &p.body.statements[2] {
        Statement::If { condition, then_branch, else_branch } => {
            assert_eq!(condition.comparator, Token::Less);
            assert_eq!(then_branch.statements.len(), 1);
            assert_eq!(else_branch.as_ref().unwrap().statements.len(), 1);
        }
        other => panic!("expected an if statement, got {:?}", other),
    }
}

#[test]
fn return_with_and_without_value() {
    let st = statement_of("return fi");
    assert_eq!(st, Statement::Return { value: None });
    let st = statement_of("return x + 1 fi");
    match st {
        Statement::Return { value: Some(_) } => {}
        other => panic!("expected a return with a value, got {:?}", other),
    }
}

#[test]
fn call_expression_as_operand() {
    let e = expression_of("1 + call f(2, x)");
    match e {
        Expression::Binary { op: BinOp::Plus, right, .. } => match *right {
            Expression::Call { ref name, ref args } => {
                assert_eq!(name, "f");
                assert_eq!(args.len(), 2);
                assert_eq!(args[0], Expression::Number(2));
                assert_eq!(args[1], Expression::Identifier("x".to_string()));
            }
            ref other => panic!("expected a call operand, got {:?}", other),
        },
        other => panic!("expected a binary expression, got {:?}", other),
    }
}

#[test]
fn not_equal_condition_parses() {
    let st = statement_of("while x != 0 do let x <- 0 od");
    match st {
        Statement::While(w) => assert_eq!(w.condition.comparator, Token::NotEqual),
        other => panic!("expected a while statement, got {:?}", other),
    }
}

#[test]
fn lexical_error_propagates_through_the_parser() {
    match parse("main { let x <- 5 @ } .".to_string()) {
        Err(ParseError::Lexical(LexError::UnexpectedChar { ch, .. })) => assert_eq!(ch, '@'),
        other => panic!("expected a lexical error, got {:?}", other),
    }
}

#[test]
fn number_overflow_propagates_through_the_parser() {
    let src = format!("main {{ let x <- {}0 }} .", isize::MAX);
    match parse(src) {
        Err(ParseError::Lexical(LexError::NumberOverflow { .. })) => {}
        other => panic!("expected an overflow error, got {:?}", other),
    }
}

#[test]
fn statement_separator_errors() {
    // A trailing separator demands another statement.
    match parse("main { let x <- 1; } .".to_string()) {
        Err(ParseError::Syntax(se)) => assert_eq!(se.production, "statement"),
        other => panic!("expected a syntax error, got {:?}", other),
    }
}

#[test]
fn missing_expected_terminals_name_their_production() {
    let mut t = Tokenizer::new("let x 5".to_string());
    match parse_statement(&mut t) {
        Err(ParseError::Syntax(se)) => {
            assert_eq!(se.production, "assignment");
            assert_eq!(se.expected, "'<-'");
            assert_eq!(se.found, Some(Token::Number(5)));
        }
        other => panic!("expected a syntax error, got {:?}", other),
    }
    match parse("main var a } .".to_string()) {
        Err(ParseError::Syntax(se)) => {
            assert_eq!(se.production, "varDecl");
            assert_eq!(se.found, Some(Token::CloseBrace));
        }
        other => panic!("expected a syntax error, got {:?}", other),
    }
}

#[test]
fn expression_must_start_with_a_factor() {
    let mut t = Tokenizer::new("+ 3".to_string());
    match parse_expression(&mut t) {
        Err(ParseError::Syntax(se)) => {
            assert_eq!(se.production, "factor");
            assert_eq!(se.found, Some(Token::Plus));
        }
        other => panic!("expected a syntax error, got {:?}", other),
    }
}

#[test]
fn function_declaration_requires_trailing_semicolon() {
    match parse("main function f() { } { } .".to_string()) {
        Err(ParseError::Syntax(se)) => {
            assert_eq!(se.production, "funcDecl");
            assert_eq!(se.expected, "';'");
            assert_eq!(se.found, Some(Token::OpenBrace));
        }
        other => panic!("expected a syntax error, got {:?}", other),
    }
}

#[test]
fn program_must_start_with_main() {
    match parse("{ } .".to_string()) {
        Err(ParseError::Syntax(se)) => {
            assert_eq!(se.production, "program");
            assert_eq!(se.expected, "'main'");
            assert_eq!(se.found, Some(Token::OpenBrace));
        }
        other => panic!("expected a syntax error, got {:?}", other),
    }
}

#[test]
fn tokens_after_the_terminator_are_an_error() {
    match parse("main { } . junk".to_string()) {
        Err(ParseError::Syntax(se)) => {
            assert_eq!(se.production, "program");
            assert_eq!(se.expected, "end of input");
            assert_eq!(se.found, Some(Token::Identifier("junk".to_string())));
        }
        other => panic!("expected a syntax error, got {:?}", other),
    }
    // an unscannable character after the terminator is a lexical error
    match parse("main { } . @".to_string()) {
        Err(ParseError::Lexical(LexError::UnexpectedChar { ch, .. })) => assert_eq!(ch, '@'),
        other => panic!("expected a lexical error, got {:?}", other),
    }
    // trailing whitespace alone is fine
    assert!(parse("main { } .  \n".to_string()).is_ok());
}

#[test]
fn statement_error_propagates_out_of_a_while_parse() {
    // The body's leading token cannot begin a statement; the statement
    // production's error comes out of the enclosing while parse unchanged.
    let mut t = Tokenizer::new("while x <= 10 do 5 od".to_string());
    match parse_statement(&mut t) {
        Err(ParseError::Syntax(se)) => {
            assert_eq!(se.production, "statement");
            assert_eq!(se.found, Some(Token::Number(5)));
        }
        other => panic!("expected a syntax error, got {:?}", other),
    }
}
