//! The recursive-descent parser: one parsing function per grammar
//! production, consuming tokens strictly left to right through the
//! tokenizer with one token of lookahead.
//!
//! ```text
//! program      := 'main' varDecl* funcDecl* '{' statSeq '}' '.'
//! varDecl      := 'var' ident (',' ident)* ';'
//! funcDecl     := 'function' ident '(' formalParams? ')' funcBody ';'
//! formalParams := ident (',' ident)*
//! funcBody     := varDecl* '{' statSeq? '}'
//! statSeq      := statement (';' statement)*
//! statement    := assignment | call | ifStmt | whileStmt | returnStmt
//! assignment   := 'let' ident '<-' expression
//! call         := 'call' ident '(' (expression (',' expression)*)? ')'
//! ifStmt       := 'if' condition 'then' statSeq ('else' statSeq)? 'fi'
//! whileStmt    := 'while' condition 'do' statSeq 'od'
//! returnStmt   := 'return' expression?
//! condition    := expression relOp expression
//! expression   := term (('+'|'-') term)*
//! term         := factor (('*'|'/') factor)*
//! factor       := ident | number | '(' expression ')' | call
//! ```
//!
//! An error is fatal: no production catches and continues past an error
//! from a sub-production.
//!
//! Each parsing function's contract pins the result in both directions
//! as far as the scan model reaches: well-formedness and cursor progress
//! on every success, the exact dispatch error when the leading token fits
//! no alternative, and — through the `plain_*_at` shape predicates, which
//! spell out token chains over `spec_scan` — the exact tree and end
//! cursor each production owes on those derivations. The expression
//! shapes (`PlainTerm`, `PlainExpr`) cover chains of leaf factors up to
//! three terms of three factors, pinning operator precedence and
//! left-associative accumulation; the statement shapes cover bare
//! returns and assignments of such expressions.

use vstd::prelude::*;
use vstd::string::StringExecFns;
use crate::ast::{
    BinOp, Block, Condition, Expression, FunctionDeclaration, Program, Statement, VarDeclaration,
    WhileLoop,
};
use crate::diag::{LexError, ParseError, SyntaxError};
use crate::tokenizer::{lemma_scan_next_bounds, spec_scan, Scan, Tokenizer};
use crate::tokens::{is_relational, is_relational_view, Token, TokenView};

verus! {

/// The tokens that may begin a statement.
pub open spec fn statement_first(tv: TokenView) -> bool {
    match tv {
        TokenView::Let => true,
        TokenView::FunctionCall => true,
        TokenView::If => true,
        TokenView::While => true,
        TokenView::Return => true,
        _ => false,
    }
}

/// The tokens that may begin an expression.
pub open spec fn expression_first(tv: TokenView) -> bool {
    match tv {
        TokenView::Identifier(_) => true,
        TokenView::Number(_) => true,
        TokenView::OpenParen => true,
        TokenView::FunctionCall => true,
        _ => false,
    }
}

/// Holds when `pe` is exactly the statement production's dispatch
/// error: a syntax error naming the `statement` production whose found
/// token is the offending token `tv`.
pub open spec fn is_statement_dispatch_error(pe: ParseError, tv: TokenView) -> bool {
    match pe {
        ParseError::Syntax(se) => se.production@ == "statement"@
            && se.expected@ == "'let', 'call', 'if', 'while' or 'return'"@ && match se.found {
            Some(f) => f@ == tv,
            None => false,
        },
        _ => false,
    }
}

/// Holds when `r` fails with exactly the statement production's
/// dispatch error for the offending token `tv`.
pub open spec fn statement_dispatch_error(r: Result<Statement, ParseError>, tv: TokenView) -> bool {
    match r {
        Result::Err(pe) => is_statement_dispatch_error(pe, tv),
        _ => false,
    }
}

/// The operators that continue a term.
pub open spec fn term_op(tv: TokenView) -> bool {
    tv matches TokenView::Times || tv matches TokenView::Divide
}

/// The operators that continue an expression.
pub open spec fn sum_op(tv: TokenView) -> bool {
    tv matches TokenView::Plus || tv matches TokenView::Minus
}

/// An expression operand of the simplest kinds: a number or an
/// identifier.
pub enum PlainOperand {
    Num(int),
    Ident(Seq<char>),
}

/// The expression `e` is exactly the leaf that operand `a` describes.
pub open spec fn operand_matches(e: Expression, a: PlainOperand) -> bool {
    match e {
        Expression::Number(v) => a matches PlainOperand::Num(n) && v as int == n,
        Expression::Identifier(x) => a matches PlainOperand::Ident(w) && x@ == w,
    _ => false,
    }
}

/// Where the cursor stands after one scan step at `p` (on either
/// outcome; the scan model fixes it on both).
pub open spec fn next_end(s: Seq<char>, p: int) -> int {
    match spec_scan(s, p) {
        Scan::Next(tv, q) => q,
        Scan::Fail(e, q) => q,
    }
}

/// One scan step at `p` gives exactly token `tv`.
pub open spec fn token_at(s: Seq<char>, p: int, tv: TokenView) -> bool {
    match spec_scan(s, p) {
        Scan::Next(tv2, q) => tv2 == tv,
        Scan::Fail(e, q) => false,
    }
}

/// The token a leaf operand scans as.
pub open spec fn operand_token(a: PlainOperand) -> TokenView {
    match a {
        PlainOperand::Num(n) => TokenView::Number(n),
        PlainOperand::Ident(w) => TokenView::Identifier(w),
    }
}

/// The token a binary operator scans as.
pub open spec fn op_token(op: BinOp) -> TokenView {
    match op {
        BinOp::Plus => TokenView::Plus,
        BinOp::Minus => TokenView::Minus,
        BinOp::Times => TokenView::Times,
        BinOp::Divide => TokenView::Divide,
    }
}

/// `op` continues a term.
pub open spec fn is_mul(op: BinOp) -> bool {
    op == BinOp::Times || op == BinOp::Divide
}

/// `op` continues an expression.
pub open spec fn is_sum(op: BinOp) -> bool {
    op == BinOp::Plus || op == BinOp::Minus
}

/// No term continues at `q`: the token there (if any) is not `*` or `/`.
pub open spec fn term_max_at(s: Seq<char>, q: int) -> bool {
    match spec_scan(s, q) {
        Scan::Next(tv, p2) => !term_op(tv),
        Scan::Fail(e, p2) => true,
    }
}

/// No expression continues at `q`: the token there (if any) is none of
/// the four arithmetic operators.
pub open spec fn expr_max_at(s: Seq<char>, q: int) -> bool {
    match spec_scan(s, q) {
        Scan::Next(tv, p2) => !term_op(tv) && !sum_op(tv),
        Scan::Fail(e, p2) => true,
    }
}

/// A term whose factors are leaves: one leaf, a product of two, or a
/// left-associative chain of three.
pub enum PlainTerm {
    Single(PlainOperand),
    Product(PlainOperand, BinOp, PlainOperand),
    Products(PlainOperand, BinOp, PlainOperand, BinOp, PlainOperand),
}

/// The stream from `p` spells the term `tm`, token by token.
#[verifier::opaque]
pub open spec fn plain_term_tokens_at(s: Seq<char>, p: int, tm: PlainTerm) -> bool {
    match tm {
        PlainTerm::Single(a) => token_at(s, p, operand_token(a)),
        PlainTerm::Product(a, op, b) => {
            let e1 = next_end(s, p);
            let e2 = next_end(s, e1);
            is_mul(op) && token_at(s, p, operand_token(a)) && token_at(s, e1, op_token(op))
                && token_at(s, e2, operand_token(b))
        },
        PlainTerm::Products(a, op, b, op2, c) => {
            let e1 = next_end(s, p);
            let e2 = next_end(s, e1);
            let e3 = next_end(s, e2);
            let e4 = next_end(s, e3);
            is_mul(op) && is_mul(op2) && token_at(s, p, operand_token(a)) && token_at(
                s, e1, op_token(op),
            ) && token_at(s, e2, operand_token(b)) && token_at(s, e3, op_token(op2)) && token_at(
                s, e4, operand_token(c),
            )
        },
    }
}

/// The cursor after the term `tm` read from `p`.
#[verifier::opaque]
pub open spec fn plain_term_end(s: Seq<char>, p: int, tm: PlainTerm) -> int {
    match tm {
        PlainTerm::Single(a) => next_end(s, p),
        PlainTerm::Product(a, op, b) => next_end(s, next_end(s, next_end(s, p))),
        PlainTerm::Products(a, op, b, op2, c) => next_end(
            s, next_end(s, next_end(s, next_end(s, next_end(s, p)))),
        ),
    }
}

/// The tree `e` is exactly the left-associative reading of `tm`.
#[verifier::opaque]
pub open spec fn term_matches(e: Expression, tm: PlainTerm) -> bool {
    match tm {
        PlainTerm::Single(a) => operand_matches(e, a),
        PlainTerm::Product(a, op, b) => match e {
            Expression::Binary { op: eo, left, right } => eo == op && operand_matches(*left, a)
                && operand_matches(*right, b),
            _ => false,
        },
        PlainTerm::Products(a, op, b, op2, c) => match e {
            Expression::Binary { op: eo, left, right } => eo == op2 && operand_matches(*right, c)
                && match *left {
                Expression::Binary { op: eo2, left: l2, right: r2 } => eo2 == op
                    && operand_matches(*l2, a) && operand_matches(*r2, b),
                _ => false,
            },
            _ => false,
        },
    }
}

/// An expression whose terms are plain: one term, a sum of two, or a
/// left-associative chain of three.
pub enum PlainExpr {
    Term(PlainTerm),
    Sum(PlainTerm, BinOp, PlainTerm),
    Sums(PlainTerm, BinOp, PlainTerm, BinOp, PlainTerm),
}

/// The stream from `p` spells the expression `ex`, token by token.
#[verifier::opaque]
pub open spec fn plain_expr_tokens_at(s: Seq<char>, p: int, ex: PlainExpr) -> bool {
    match ex {
        PlainExpr::Term(tm) => plain_term_tokens_at(s, p, tm),
        PlainExpr::Sum(t1, op, t2) => {
            let m1 = plain_term_end(s, p, t1);
            let m2 = next_end(s, m1);
            is_sum(op) && plain_term_tokens_at(s, p, t1) && token_at(s, m1, op_token(op))
                && plain_term_tokens_at(s, m2, t2)
        },
        PlainExpr::Sums(t1, op1, t2, op2, t3) => {
            let m1 = plain_term_end(s, p, t1);
            let m2 = next_end(s, m1);
            let m3 = plain_term_end(s, m2, t2);
            let m4 = next_end(s, m3);
            is_sum(op1) && is_sum(op2) && plain_term_tokens_at(s, p, t1) && token_at(
                s, m1, op_token(op1),
            ) && plain_term_tokens_at(s, m2, t2) && token_at(s, m3, op_token(op2))
                && plain_term_tokens_at(s, m4, t3)
        },
    }
}

/// The cursor after the expression `ex` read from `p`.
#[verifier::opaque]
pub open spec fn plain_expr_end(s: Seq<char>, p: int, ex: PlainExpr) -> int {
    match ex {
        PlainExpr::Term(tm) => plain_term_end(s, p, tm),
        PlainExpr::Sum(t1, op, t2) => plain_term_end(
            s, next_end(s, plain_term_end(s, p, t1)), t2,
        ),
        PlainExpr::Sums(t1, op1, t2, op2, t3) => plain_term_end(
            s,
            next_end(s, plain_term_end(s, next_end(s, plain_term_end(s, p, t1)), t2)),
            t3,
        ),
    }
}

/// The tree `e` is exactly the left-associative, precedence-respecting
/// reading of `ex`: `*` and `/` bind inside the terms, `+` and `-` chain
/// flat to the left.
#[verifier::opaque]
pub open spec fn expr_matches(e: Expression, ex: PlainExpr) -> bool {
    match ex {
        PlainExpr::Term(tm) => term_matches(e, tm),
        PlainExpr::Sum(t1, op, t2) => match e {
            Expression::Binary { op: eo, left, right } => eo == op && term_matches(*left, t1)
                && term_matches(*right, t2),
            _ => false,
        },
        PlainExpr::Sums(t1, op1, t2, op2, t3) => match e {
            Expression::Binary { op: eo, left, right } => eo == op2 && term_matches(*right, t3)
                && match *left {
                Expression::Binary { op: eo2, left: l2, right: r2 } => eo2 == op1 && term_matches(
                    *l2, t1,
                ) && term_matches(*r2, t2),
                _ => false,
            },
            _ => false,
        },
    }
}

/// The states the term loop passes through while reading `tm`: after
/// each factor, `acc` is the left fold of the factors read so far.
#[verifier::opaque]
pub open spec fn term_progress(s: Seq<char>, p0: int, tm: PlainTerm, acc: Expression, cur: int) -> bool {
    match tm {
        PlainTerm::Single(a) => term_matches(acc, tm) && cur == plain_term_end(s, p0, tm),
        PlainTerm::Product(a, op, b) => (operand_matches(acc, a) && cur == next_end(s, p0)) || (
        term_matches(acc, tm) && cur == plain_term_end(s, p0, tm)),
        PlainTerm::Products(a, op, b, op2, c) => {
            let e1 = next_end(s, p0);
            let e3 = next_end(s, next_end(s, e1));
            (operand_matches(acc, a) && cur == e1) || (term_matches(
                acc, PlainTerm::Product(a, op, b),
            ) && cur == e3) || (term_matches(acc, tm) && cur == plain_term_end(s, p0, tm))
        },
    }
}

/// The states the expression loop passes through while reading `ex`:
/// after each term, `acc` is the left fold of the terms read so far.
#[verifier::opaque]
pub open spec fn expr_progress(s: Seq<char>, p0: int, ex: PlainExpr, acc: Expression, cur: int) -> bool {
    match ex {
        PlainExpr::Term(tm) => expr_matches(acc, ex) && cur == plain_expr_end(s, p0, ex),
        PlainExpr::Sum(t1, op, t2) => (term_matches(acc, t1) && cur == plain_term_end(s, p0, t1))
            || (expr_matches(acc, ex) && cur == plain_expr_end(s, p0, ex)),
        PlainExpr::Sums(t1, op1, t2, op2, t3) => {
            let m1 = plain_term_end(s, p0, t1);
            let m3 = plain_term_end(s, next_end(s, m1), t2);
            (term_matches(acc, t1) && cur == m1) || (expr_matches(
                acc, PlainExpr::Sum(t1, op1, t2),
            ) && cur == m3) || (expr_matches(acc, ex) && cur == plain_expr_end(s, p0, ex))
        },
    }
}

/// A single plain statement: a bare `return`, or an assignment of a
/// plain expression.
pub enum PlainStmt {
    BareReturn,
    Assign(Seq<char>, PlainExpr),
}

/// The stream from `p` spells the statement `sh`, token by token (a
/// bare `return` demands that no expression starts after it; an
/// assignment's expression is read maximally).
pub open spec fn plain_stmt_tokens_at(s: Seq<char>, p: int, sh: PlainStmt) -> bool {
    match sh {
        PlainStmt::BareReturn => token_at(s, p, TokenView::Return) && match spec_scan(
            s, next_end(s, p),
        ) {
            Scan::Next(tv, q) => !expression_first(tv),
            Scan::Fail(e, q) => true,
        },
        PlainStmt::Assign(w, x) => {
            let m1 = next_end(s, p);
            let m2 = next_end(s, m1);
            let m3 = next_end(s, m2);
            token_at(s, p, TokenView::Let) && token_at(s, m1, TokenView::Identifier(w))
                && token_at(s, m2, TokenView::Assignment) && plain_expr_tokens_at(s, m3, x)
                && expr_max_at(s, plain_expr_end(s, m3, x))
        },
    }
}

/// The cursor after the statement `sh` read from `p`.
pub open spec fn plain_stmt_end(s: Seq<char>, p: int, sh: PlainStmt) -> int {
    match sh {
        PlainStmt::BareReturn => next_end(s, p),
        PlainStmt::Assign(w, x) => plain_expr_end(
            s, next_end(s, next_end(s, next_end(s, p))), x,
        ),
    }
}

/// The statement `st` is exactly what `sh` describes.
pub open spec fn stmt_matches(st: Statement, sh: PlainStmt) -> bool {
    match sh {
        PlainStmt::BareReturn => st == (Statement::Return { value: None }),
        PlainStmt::Assign(w, x) => match st {
            Statement::Assignment { target, value } => target@ == w && expr_matches(value, x),
            _ => false,
        },
    }
}

/// Holds when `r` is exactly the factor production's dispatch error: a
/// syntax error naming the `factor` production whose found token is the
/// offending token `tv`.
pub open spec fn factor_dispatch_error(r: Result<Expression, ParseError>, tv: TokenView) -> bool {
    match r {
        Result::Err(ParseError::Syntax(se)) => se.production@ == "factor"@
            && se.expected@ == "an identifier, a number, '(' or 'call'"@ && match se.found {
            Some(f) => f@ == tv,
            None => false,
        },
        _ => false,
    }
}

/// One scan step at `p0` gives exactly token `tv`, ending at `p1`.
pub open spec fn scans_to(s: Seq<char>, p0: int, tv: TokenView, p1: int) -> bool {
    spec_scan(s, p0) == Scan::Next(tv, p1)
}

/// A plain condition: expression `x1`, a relational comparator `op`,
/// expression `x2`, with no operator continuing past the right operand.
pub open spec fn plain_comparison_at(
    s: Seq<char>,
    p0: int,
    x1: PlainExpr,
    op: TokenView,
    x2: PlainExpr,
) -> bool {
    let m1 = plain_expr_end(s, p0, x1);
    let m2 = next_end(s, m1);
    &&& plain_expr_tokens_at(s, p0, x1)
    &&& token_at(s, m1, op)
    &&& is_relational_view(op)
    &&& plain_expr_tokens_at(s, m2, x2)
    &&& expr_max_at(s, plain_expr_end(s, m2, x2))
}

/// The cursor after the condition read from `p0`.
pub open spec fn plain_comparison_end(s: Seq<char>, p0: int, x1: PlainExpr, x2: PlainExpr) -> int {
    plain_expr_end(s, next_end(s, plain_expr_end(s, p0, x1)), x2)
}

/// A valued return: `return` and a plain expression, read maximally.
pub open spec fn plain_return_at(s: Seq<char>, p0: int, x: PlainExpr) -> bool {
    let m1 = next_end(s, p0);
    &&& token_at(s, p0, TokenView::Return)
    &&& plain_expr_tokens_at(s, m1, x)
    &&& expr_max_at(s, plain_expr_end(s, m1, x))
}

/// The cursor after the valued return read from `p0`.
pub open spec fn plain_return_end(s: Seq<char>, p0: int, x: PlainExpr) -> int {
    plain_expr_end(s, next_end(s, p0), x)
}

/// A statement sequence of exactly the one statement `sh`: no statement
/// separator follows it.
pub open spec fn plain_stmt_seq_at(s: Seq<char>, p0: int, sh: PlainStmt) -> bool {
    &&& plain_stmt_tokens_at(s, p0, sh)
    &&& match spec_scan(s, plain_stmt_end(s, p0, sh)) {
        Scan::Next(tv2, p2) => !(tv2 matches TokenView::Semicolon),
        Scan::Fail(e2, f2) => true,
    }
}

/// A plain while statement: `while` x1 op x2 `do` sh `od`.
pub open spec fn plain_while_at(
    s: Seq<char>,
    p0: int,
    x1: PlainExpr,
    op: TokenView,
    x2: PlainExpr,
    sh: PlainStmt,
) -> bool {
    let pw = next_end(s, p0);
    let pc = plain_comparison_end(s, pw, x1, x2);
    let pd = next_end(s, pc);
    let pe = plain_stmt_end(s, pd, sh);
    &&& token_at(s, p0, TokenView::While)
    &&& plain_comparison_at(s, pw, x1, op, x2)
    &&& token_at(s, pc, TokenView::Do)
    &&& plain_stmt_seq_at(s, pd, sh)
    &&& token_at(s, pe, TokenView::Od)
}

/// The cursor after the while statement read from `p0`.
pub open spec fn plain_while_end(
    s: Seq<char>,
    p0: int,
    x1: PlainExpr,
    x2: PlainExpr,
    sh: PlainStmt,
) -> int {
    let pw = next_end(s, p0);
    let pc = plain_comparison_end(s, pw, x1, x2);
    let pd = next_end(s, pc);
    let pe = plain_stmt_end(s, pd, sh);
    next_end(s, pe)
}

/// A while head whose body starts with a token that may not begin a
/// statement: `while` x1 op x2 `do` tv ...
pub open spec fn plain_while_bad_body_at(
    s: Seq<char>,
    p0: int,
    x1: PlainExpr,
    op: TokenView,
    x2: PlainExpr,
    tv: TokenView,
) -> bool {
    let pw = next_end(s, p0);
    let pc = plain_comparison_end(s, pw, x1, x2);
    let pd = next_end(s, pc);
    &&& token_at(s, p0, TokenView::While)
    &&& plain_comparison_at(s, pw, x1, op, x2)
    &&& token_at(s, pc, TokenView::Do)
    &&& token_at(s, pd, tv)
    &&& !statement_first(tv)
}

/// A plain if statement without an else clause: `if` x1 op x2 `then` sh
/// `fi`.
pub open spec fn plain_if_at(
    s: Seq<char>,
    p0: int,
    x1: PlainExpr,
    op: TokenView,
    x2: PlainExpr,
    sh: PlainStmt,
) -> bool {
    let pw = next_end(s, p0);
    let pc = plain_comparison_end(s, pw, x1, x2);
    let pd = next_end(s, pc);
    let pe = plain_stmt_end(s, pd, sh);
    &&& token_at(s, p0, TokenView::If)
    &&& plain_comparison_at(s, pw, x1, op, x2)
    &&& token_at(s, pc, TokenView::Then)
    &&& plain_stmt_seq_at(s, pd, sh)
    &&& token_at(s, pe, TokenView::Fi)
}

/// The cursor after the if statement read from `p0`.
pub open spec fn plain_if_end(
    s: Seq<char>,
    p0: int,
    x1: PlainExpr,
    x2: PlainExpr,
    sh: PlainStmt,
) -> int {
    let pw = next_end(s, p0);
    let pc = plain_comparison_end(s, pw, x1, x2);
    let pd = next_end(s, pc);
    let pe = plain_stmt_end(s, pd, sh);
    next_end(s, pe)
}

/// A minimal variable declaration shape at `p0`: `var` w `;`.
pub open spec fn plain_var_decl_at(
    s: Seq<char>,
    p0: int,
    w: Seq<char>,
    p1: int,
    p2: int,
    p3: int,
) -> bool {
    &&& scans_to(s, p0, TokenView::Variable, p1)
    &&& scans_to(s, p1, TokenView::Identifier(w), p2)
    &&& scans_to(s, p2, TokenView::Semicolon, p3)
}

/// A parenthesized plain expression: `(` x `)`.
pub open spec fn plain_paren_at(s: Seq<char>, p0: int, x: PlainExpr) -> bool {
    let m1 = next_end(s, p0);
    let m2 = plain_expr_end(s, m1, x);
    &&& token_at(s, p0, TokenView::OpenParen)
    &&& plain_expr_tokens_at(s, m1, x)
    &&& token_at(s, m2, TokenView::CloseParen)
}

/// The cursor after the parenthesized expression read from `p0`.
pub open spec fn plain_paren_end(s: Seq<char>, p0: int, x: PlainExpr) -> int {
    next_end(s, plain_expr_end(s, next_end(s, p0), x))
}

/// A minimal call shape at `p0`: `call` w `(` `)`.
pub open spec fn plain_call_at(
    s: Seq<char>,
    p0: int,
    w: Seq<char>,
    p1: int,
    p2: int,
    p3: int,
    p4: int,
) -> bool {
    &&& scans_to(s, p0, TokenView::FunctionCall, p1)
    &&& scans_to(s, p1, TokenView::Identifier(w), p2)
    &&& scans_to(s, p2, TokenView::OpenParen, p3)
    &&& scans_to(s, p3, TokenView::CloseParen, p4)
}

/// A minimal function body shape at `p0`: `{` `}`.
pub open spec fn plain_empty_body_at(s: Seq<char>, p0: int, p1: int, p2: int) -> bool {
    &&& scans_to(s, p0, TokenView::OpenBrace, p1)
    &&& scans_to(s, p1, TokenView::CloseBrace, p2)
}

/// A minimal function declaration shape at `p0`: `function` w `(` `)` `{` `}` `;`.
pub open spec fn plain_func_decl_at(
    s: Seq<char>,
    p0: int,
    w: Seq<char>,
    p1: int,
    p2: int,
    p3: int,
    p4: int,
    p5: int,
    p6: int,
    p7: int,
) -> bool {
    &&& scans_to(s, p0, TokenView::Function, p1)
    &&& scans_to(s, p1, TokenView::Identifier(w), p2)
    &&& scans_to(s, p2, TokenView::OpenParen, p3)
    &&& scans_to(s, p3, TokenView::CloseParen, p4)
    &&& plain_empty_body_at(s, p4, p5, p6)
    &&& scans_to(s, p6, TokenView::Semicolon, p7)
}

/// The smallest program: `main` `{` `}` `.` and then only the end of the
/// source text (the scanner's sentinel).
pub open spec fn plain_empty_program_at(
    s: Seq<char>,
    p0: int,
    p1: int,
    p2: int,
    p3: int,
    p4: int,
) -> bool {
    &&& scans_to(s, p0, TokenView::Main, p1)
    &&& scans_to(s, p1, TokenView::OpenBrace, p2)
    &&& scans_to(s, p2, TokenView::CloseBrace, p3)
    &&& scans_to(s, p3, TokenView::EOF, p4)
    &&& match spec_scan(s, p4) {
        Scan::Next(tv, np) => false,
        Scan::Fail(e, f) => e matches LexError::UnexpectedChar { ch: '\0', pos: _ },
    }
}

/// `main` `{` `}` `.` with one more token `tv` after the terminator.
pub open spec fn plain_trailing_program_at(
    s: Seq<char>,
    p0: int,
    p1: int,
    p2: int,
    p3: int,
    p4: int,
    tv: TokenView,
    p5: int,
) -> bool {
    &&& scans_to(s, p0, TokenView::Main, p1)
    &&& scans_to(s, p1, TokenView::OpenBrace, p2)
    &&& scans_to(s, p2, TokenView::CloseBrace, p3)
    &&& scans_to(s, p3, TokenView::EOF, p4)
    &&& scans_to(s, p4, tv, p5)
}

/// `main` `{` `}` with the source ending where `.` was required.
pub open spec fn plain_unterminated_program_at(
    s: Seq<char>,
    p0: int,
    p1: int,
    p2: int,
    p3: int,
) -> bool {
    &&& scans_to(s, p0, TokenView::Main, p1)
    &&& scans_to(s, p1, TokenView::OpenBrace, p2)
    &&& scans_to(s, p2, TokenView::CloseBrace, p3)
    &&& match spec_scan(s, p3) {
        Scan::Next(tv, np) => false,
        Scan::Fail(e, f) => e matches LexError::UnexpectedChar { ch: '\0', pos: _ },
    }
}

/// Builds a syntax error value.
fn syntax_error(production: &str, expected: &str, found: Option<Token>) -> (e: SyntaxError)
    ensures
        e.production@ == production@,
        e.expected@ == expected@,
        e.found == found,
{
    SyntaxError {
        production: String::from_str(production),
        expected: String::from_str(expected),
        found,
    }
}

/// Consumes one token, mapping a scanner error into a parse error.
fn advance(t: &mut Tokenizer) -> (r: Result<Token, ParseError>)
    requires
        old(t).wf(),
    ensures
        final(t).wf(),
        final(t).src() == old(t).src(),
        ({
            let sc = spec_scan(old(t).src(), old(t).cursor());
            match sc {
                Scan::Next(tv, np) => r matches Ok(tok) && tok@ == tv && final(t).cursor() == np
                    && old(t).cursor() < np <= final(t).src().len(),
                Scan::Fail(e, fp) => r matches Err(pe) && pe == ParseError::Lexical(e),
            }
        }),
{
    proof {
        lemma_scan_next_bounds(t.src(), t.cursor());
    }
    match t.next_token() {
        Ok(tok) => Ok(tok),
        Err(e) => Err(ParseError::Lexical(e)),
    }
}

/// Looks at the next token without consuming it.
fn peek(t: &mut Tokenizer) -> (r: Result<Token, ParseError>)
    requires
        old(t).wf(),
    ensures
        final(t).wf(),
        final(t).src() == old(t).src(),
        final(t).cursor() == old(t).cursor(),
        ({
            let sc = spec_scan(old(t).src(), old(t).cursor());
            match sc {
                Scan::Next(tv, np) => r matches Ok(tok) && tok@ == tv,
                Scan::Fail(e, fp) => r matches Err(pe) && pe == ParseError::Lexical(e),
            }
        }),
{
    match t.peek_token() {
        Ok(tok) => Ok(tok),
        Err(e) => Err(ParseError::Lexical(e)),
    }
}

/// factor := ident | number | '(' expression ')' | call
///
/// A leading number or identifier token becomes exactly the matching
/// leaf expression.
pub fn parse_factor(t: &mut Tokenizer) -> (r: Result<Expression, ParseError>)
    requires
        old(t).wf(),
    ensures
        final(t).wf(),
        final(t).src() == old(t).src(),
        r matches Ok(e) ==> old(t).cursor() < final(t).cursor() <= final(t).src().len(),
        ({
            let sc = spec_scan(old(t).src(), old(t).cursor());
            &&& (sc matches Scan::Next(tv, np) ==> (tv matches TokenView::Number(n) ==> (
                r matches Ok(e) && e matches Expression::Number(v) && v as int == n
                && final(t).cursor() == np)))
            &&& (sc matches Scan::Next(tv, np) ==> (tv matches TokenView::Identifier(w) ==> (
                r matches Ok(e) && e matches Expression::Identifier(x) && x@ == w
                && final(t).cursor() == np)))
            &&& (sc matches Scan::Next(tv, np) ==> (!expression_first(tv)
                ==> factor_dispatch_error(r, tv)))
        }),
        forall|x: PlainExpr| #[trigger] plain_paren_at(old(t).src(), old(t).cursor(), x)
            ==> (r matches Ok(e) && expr_matches(e, x)
                && final(t).cursor() == plain_paren_end(old(t).src(), old(t).cursor(), x)),
        forall|w: Seq<char>, p1: int, p2: int, p3: int, p4: int|
            #[trigger] plain_call_at(old(t).src(), old(t).cursor(), w, p1, p2, p3, p4)
            ==> (r matches Ok(e) && e matches Expression::Call { name, args } && name@ == w
                && args@.len() == 0 && final(t).cursor() == p4),
    decreases old(t).src().len() - old(t).cursor(), 2int,
{
    let pk = match peek(t) {
        Ok(tok) => tok,
        Err(e) => return Err(e),
    };
    match pk {
        Token::Number(_) => {
            let tok = match advance(t) {
                Ok(tok) => tok,
                Err(e) => return Err(e),
            };
            match tok {
                Token::Number(v) => Ok(Expression::Number(v)),
                other => Err(ParseError::Syntax(syntax_error("factor", "a number", Some(other)))),
            }
        },
        Token::Identifier(_) => {
            let tok = match advance(t) {
                Ok(tok) => tok,
                Err(e) => return Err(e),
            };
            match tok {
                Token::Identifier(x) => Ok(Expression::Identifier(x)),
                other => Err(
                    ParseError::Syntax(syntax_error("factor", "an identifier", Some(other))),
                ),
            }
        },
        Token::OpenParen => {
            let _ = match advance(t) {
                Ok(tok) => tok,
                Err(e) => return Err(e),
            };
            let e = match parse_expression(t) {
                Ok(e) => e,
                Err(er) => return Err(er),
            };
            let close = match advance(t) {
                Ok(tok) => tok,
                Err(er) => return Err(er),
            };
            match close {
                Token::CloseParen => Ok(e),
                other => Err(ParseError::Syntax(syntax_error("factor", "')'", Some(other)))),
            }
        },
        Token::FunctionCall => {
            let (name, args) = match parse_call_inner(t) {
                Ok(p) => p,
                Err(er) => return Err(er),
            };
            Ok(Expression::Call { name, args })
        },
        other => Err(
            ParseError::Syntax(
                syntax_error("factor", "an identifier, a number, '(' or 'call'", Some(other)),
            ),
        ),
    }
}

/// call := 'call' ident '(' (expression (',' expression)*)? ')'
///
/// Returns the callee name and the argument expressions; shared by the
/// call statement and the call factor.
fn parse_call_inner(t: &mut Tokenizer) -> (r: Result<(String, Vec<Expression>), ParseError>)
    requires
        old(t).wf(),
    ensures
        final(t).wf(),
        final(t).src() == old(t).src(),
        r matches Ok(p) ==> old(t).cursor() < final(t).cursor() <= final(t).src().len(),
        ({
            let s = old(t).src();
            let p0 = old(t).cursor();
            spec_scan(s, p0) matches Scan::Next(tv, p1) ==> (tv matches TokenView::FunctionCall
                ==> (spec_scan(s, p1) matches Scan::Next(tv2, p2) ==> (tv2
                matches TokenView::Identifier(w) ==> (r matches Ok(pair) ==> pair.0@ == w))))
        }),
        forall|w: Seq<char>, p1: int, p2: int, p3: int, p4: int|
            #[trigger] plain_call_at(old(t).src(), old(t).cursor(), w, p1, p2, p3, p4)
            ==> (r matches Ok(pair) && pair.0@ == w && pair.1@.len() == 0
                && final(t).cursor() == p4),
    decreases old(t).src().len() - old(t).cursor(), 1int,
{
    let ghost s0 = t.src();
    let ghost p0 = t.cursor();
    let kw = match advance(t) {
        Ok(tok) => tok,
        Err(e) => return Err(e),
    };
    match kw {
        Token::FunctionCall => {},
        other => return Err(ParseError::Syntax(syntax_error("call", "'call'", Some(other)))),
    }
    let name = match advance(t) {
        Ok(Token::Identifier(x)) => x,
        Ok(other) => return Err(
            ParseError::Syntax(syntax_error("call", "an identifier", Some(other))),
        ),
        Err(e) => return Err(e),
    };
    let open = match advance(t) {
        Ok(tok) => tok,
        Err(e) => return Err(e),
    };
    match open {
        Token::OpenParen => {},
        other => return Err(ParseError::Syntax(syntax_error("call", "'('", Some(other)))),
    }
    let mut args: Vec<Expression> = Vec::new();
    match peek(t) {
        Ok(Token::CloseParen) => {},
        Err(_) => {},
        Ok(_) => {
            let first = match parse_expression(t) {
                Ok(e) => e,
                Err(er) => return Err(er),
            };
            args.push(first);
            let mut done = false;
            while !done
                invariant
                    t.wf(),
                    t.src() == s0,
                    s0 == old(t).src(),
                    p0 == old(t).cursor(),
                    p0 < t.cursor() <= s0.len(),
                    forall|w: Seq<char>, p1: int, p2: int, p3: int, p4: int|
                        !(#[trigger] plain_call_at(s0, p0, w, p1, p2, p3, p4)),
                decreases s0.len() - t.cursor() + (if done { 0int } else { 1int }),
            {
                match peek(t) {
                    Ok(Token::Comma) => {
                        let _ = match advance(t) {
                            Ok(tok) => tok,
                            Err(e) => return Err(e),
                        };
                        let nxt = match parse_expression(t) {
                            Ok(e) => e,
                            Err(er) => return Err(er),
                        };
                        args.push(nxt);
                    },
                    _ => {
                        done = true;
                    },
                }
            }
        },
    }
    let close = match advance(t) {
        Ok(tok) => tok,
        Err(e) => return Err(e),
    };
    match close {
        Token::CloseParen => Ok((name, args)),
        other => return Err(ParseError::Syntax(syntax_error("call", "')' or ','", Some(other)))),
    }
}

/// term := factor (('*'|'/') factor)*
///
/// Built by left-associative iterative accumulation.
#[verifier::rlimit(50)]
pub fn parse_term(t: &mut Tokenizer) -> (r: Result<Expression, ParseError>)
    requires
        old(t).wf(),
    ensures
        final(t).wf(),
        final(t).src() == old(t).src(),
        r matches Ok(e) ==> old(t).cursor() < final(t).cursor() <= final(t).src().len(),
        forall|tm: PlainTerm|
            (#[trigger] plain_term_tokens_at(old(t).src(), old(t).cursor(), tm)) && term_max_at(
                old(t).src(), plain_term_end(old(t).src(), old(t).cursor(), tm),
            ) ==> (r matches Ok(e) && term_matches(e, tm)
                && final(t).cursor() == plain_term_end(old(t).src(), old(t).cursor(), tm)),
    decreases old(t).src().len() - old(t).cursor(), 3int,
{
    proof {
        reveal(plain_term_tokens_at);
        reveal(plain_term_end);
        reveal(term_matches);
        reveal(term_progress);
    }
    let ghost s0 = t.src();
    let ghost p0 = t.cursor();
    let first = match parse_factor(t) {
        Ok(e) => e,
        Err(er) => return Err(er),
    };
    let mut acc = first;
    let mut done = false;
    while !done
        invariant
            t.wf(),
            t.src() == s0,
            s0 == old(t).src(),
            p0 == old(t).cursor(),
            p0 < t.cursor() <= s0.len(),
            forall|tm: PlainTerm| (#[trigger] plain_term_tokens_at(s0, p0, tm)) && term_max_at(
                s0, plain_term_end(s0, p0, tm),
            ) ==> term_progress(s0, p0, tm, acc, t.cursor()),
            forall|tm: PlainTerm| (#[trigger] plain_term_tokens_at(s0, p0, tm)) && term_max_at(
                s0, plain_term_end(s0, p0, tm),
            ) && done ==> (term_matches(acc, tm) && t.cursor() == plain_term_end(s0, p0, tm)),
        decreases s0.len() - t.cursor() + (if done { 0int } else { 1int }),
    {
        proof {
            reveal(plain_term_tokens_at);
            reveal(plain_term_end);
            reveal(term_matches);
            reveal(term_progress);
        }
        match peek(t) {
            Ok(Token::Times) => {
                let _ = match advance(t) {
                    Ok(tok) => tok,
                    Err(e) => return Err(e),
                };
                let rhs = match parse_factor(t) {
                    Ok(e) => e,
                    Err(er) => return Err(er),
                };
                acc = Expression::Binary {
                    op: BinOp::Times,
                    left: Box::new(acc),
                    right: Box::new(rhs),
                };
            },
            Ok(Token::Divide) => {
                let _ = match advance(t) {
                    Ok(tok) => tok,
                    Err(e) => return Err(e),
                };
                let rhs = match parse_factor(t) {
                    Ok(e) => e,
                    Err(er) => return Err(er),
                };
                acc = Expression::Binary {
                    op: BinOp::Divide,
                    left: Box::new(acc),
                    right: Box::new(rhs),
                };
            },
            _ => {
                done = true;
            },
        }
    }
    proof {
        reveal(plain_term_tokens_at);
        reveal(plain_term_end);
        reveal(term_matches);
        reveal(term_progress);
    }
    Ok(acc)
}

/// expression := term (('+'|'-') term)*
///
/// Built by left-associative iterative accumulation, so `*` and `/` bind
/// tighter than `+` and `-`.
#[verifier::rlimit(100)]
pub fn parse_expression(t: &mut Tokenizer) -> (r: Result<Expression, ParseError>)
    requires
        old(t).wf(),
    ensures
        final(t).wf(),
        final(t).src() == old(t).src(),
        r matches Ok(e) ==> old(t).cursor() < final(t).cursor() <= final(t).src().len(),
        forall|ex: PlainExpr|
            (#[trigger] plain_expr_tokens_at(old(t).src(), old(t).cursor(), ex)) && expr_max_at(
                old(t).src(), plain_expr_end(old(t).src(), old(t).cursor(), ex),
            ) ==> (r matches Ok(e) && expr_matches(e, ex)
                && final(t).cursor() == plain_expr_end(old(t).src(), old(t).cursor(), ex)),
    decreases old(t).src().len() - old(t).cursor(), 4int,
{
    proof {
        reveal(plain_expr_tokens_at);
        reveal(plain_expr_end);
        reveal(expr_matches);
        reveal(expr_progress);
    }
    let ghost s0 = t.src();
    let ghost p0 = t.cursor();
    let first = match parse_term(t) {
        Ok(e) => e,
        Err(er) => return Err(er),
    };
    let mut acc = first;
    let mut done = false;
    while !done
        invariant
            t.wf(),
            t.src() == s0,
            s0 == old(t).src(),
            p0 == old(t).cursor(),
            p0 < t.cursor() <= s0.len(),
            forall|ex: PlainExpr| (#[trigger] plain_expr_tokens_at(s0, p0, ex)) && expr_max_at(
                s0, plain_expr_end(s0, p0, ex),
            ) ==> expr_progress(s0, p0, ex, acc, t.cursor()),
            forall|ex: PlainExpr| (#[trigger] plain_expr_tokens_at(s0, p0, ex)) && expr_max_at(
                s0, plain_expr_end(s0, p0, ex),
            ) && done ==> (expr_matches(acc, ex) && t.cursor() == plain_expr_end(s0, p0, ex)),
        decreases s0.len() - t.cursor() + (if done { 0int } else { 1int }),
    {
        proof {
            reveal(plain_expr_tokens_at);
            reveal(plain_expr_end);
            reveal(expr_matches);
            reveal(expr_progress);
        }
        match peek(t) {
            Ok(Token::Plus) => {
                let _ = match advance(t) {
                    Ok(tok) => tok,
                    Err(e) => return Err(e),
                };
                let rhs = match parse_term(t) {
                    Ok(e) => e,
                    Err(er) => return Err(er),
                };
                acc = Expression::Binary {
                    op: BinOp::Plus,
                    left: Box::new(acc),
                    right: Box::new(rhs),
                };
            },
            Ok(Token::Minus) => {
                let _ = match advance(t) {
                    Ok(tok) => tok,
                    Err(e) => return Err(e),
                };
                let rhs = match parse_term(t) {
                    Ok(e) => e,
                    Err(er) => return Err(er),
                };
                acc = Expression::Binary {
                    op: BinOp::Minus,
                    left: Box::new(acc),
                    right: Box::new(rhs),
                };
            },
            _ => {
                done = true;
            },
        }
    }
    proof {
        reveal(plain_expr_tokens_at);
        reveal(plain_expr_end);
        reveal(expr_matches);
        reveal(expr_progress);
    }
    Ok(acc)
}

/// condition := expression relOp expression
///
/// Exactly one relational comparator is consumed between the operands;
/// any other token there is a syntax error of this production.
#[verifier::rlimit(50)]
pub fn parse_condition(t: &mut Tokenizer) -> (r: Result<Condition, ParseError>)
    requires
        old(t).wf(),
    ensures
        final(t).wf(),
        final(t).src() == old(t).src(),
        r matches Ok(c) ==> c.wf() && old(t).cursor() < final(t).cursor()
            <= final(t).src().len(),
        r matches Ok(c) ==> (exists|m: int|
            (#[trigger] spec_scan(old(t).src(), m)) matches Scan::Next(op, m2)
                && old(t).cursor() < m && op == c.comparator@ && is_relational_view(op)),
        forall|x1: PlainExpr, op: TokenView, x2: PlainExpr|
            #[trigger] plain_comparison_at(old(t).src(), old(t).cursor(), x1, op, x2)
            ==> (r matches Ok(c) && c.comparator@ == op && expr_matches(c.left, x1)
                && expr_matches(c.right, x2) && final(t).cursor() == plain_comparison_end(
                old(t).src(), old(t).cursor(), x1, x2)),
    decreases old(t).src().len() - old(t).cursor(), 5int,
{
    let ghost s0 = t.src();
    let ghost p0 = t.cursor();
    let left = match parse_expression(t) {
        Ok(e) => e,
        Err(er) => return Err(er),
    };
    let ghost mid = t.cursor();
    let op = match advance(t) {
        Ok(tok) => tok,
        Err(e) => return Err(e),
    };
    if !is_relational(&op) {
        return Err(
            ParseError::Syntax(syntax_error("condition", "a relational comparator", Some(op))),
        );
    }
    proof {
        assert(spec_scan(s0, mid) matches Scan::Next(op2, m2) && op2 == op@);
    }
    let right = match parse_expression(t) {
        Ok(e) => e,
        Err(er) => return Err(er),
    };
    match Condition::new(op, left, right) {
        Ok(c) => Ok(c),
        Err(e) => Err(ParseError::Syntax(e)),
    }
}

/// assignment := 'let' ident '<-' expression
pub fn parse_assignment(t: &mut Tokenizer) -> (r: Result<Statement, ParseError>)
    requires
        old(t).wf(),
    ensures
        final(t).wf(),
        final(t).src() == old(t).src(),
        r matches Ok(st) ==> st.wf() && old(t).cursor() < final(t).cursor()
            <= final(t).src().len(),
        r matches Ok(st) ==> st matches Statement::Assignment { .. },
        ({
            let s = old(t).src();
            let p0 = old(t).cursor();
            spec_scan(s, p0) matches Scan::Next(tv, p1) ==> (tv matches TokenView::Let ==> (
            spec_scan(s, p1) matches Scan::Next(tv2, p2) ==> (tv2
                matches TokenView::Identifier(w) ==> (r matches Ok(st) ==> (st
                matches Statement::Assignment { target, value } && target@ == w)))))
        }),
        forall|w: Seq<char>, x: PlainExpr|
            #[trigger] plain_stmt_tokens_at(old(t).src(), old(t).cursor(), PlainStmt::Assign(w, x))
            ==> (r matches Ok(st) && stmt_matches(st, PlainStmt::Assign(w, x))
                && final(t).cursor() == plain_stmt_end(
                old(t).src(), old(t).cursor(), PlainStmt::Assign(w, x))),
    decreases old(t).src().len() - old(t).cursor(), 6int,
{
    let kw = match advance(t) {
        Ok(tok) => tok,
        Err(e) => return Err(e),
    };
    match kw {
        Token::Let => {},
        other => return Err(ParseError::Syntax(syntax_error("assignment", "'let'", Some(other)))),
    }
    let target = match advance(t) {
        Ok(Token::Identifier(x)) => x,
        Ok(other) => return Err(
            ParseError::Syntax(syntax_error("assignment", "an identifier", Some(other))),
        ),
        Err(e) => return Err(e),
    };
    let arrow = match advance(t) {
        Ok(tok) => tok,
        Err(e) => return Err(e),
    };
    match arrow {
        Token::Assignment => {},
        other => return Err(ParseError::Syntax(syntax_error("assignment", "'<-'", Some(other)))),
    }
    let value = match parse_expression(t) {
        Ok(e) => e,
        Err(er) => return Err(er),
    };
    Ok(Statement::Assignment { target, value })
}

/// ifStmt := 'if' condition 'then' statSeq ('else' statSeq)? 'fi'
///
/// The `else` clause's absence is decided by peeking; it is a valid
/// zero-width parse, not an error.
#[verifier::rlimit(50)]
pub fn parse_if(t: &mut Tokenizer) -> (r: Result<Statement, ParseError>)
    requires
        old(t).wf(),
    ensures
        final(t).wf(),
        final(t).src() == old(t).src(),
        r matches Ok(st) ==> st.wf() && old(t).cursor() < final(t).cursor()
            <= final(t).src().len(),
        r matches Ok(st) ==> st matches Statement::If { .. },
        forall|x1: PlainExpr, op: TokenView, x2: PlainExpr, sh: PlainStmt|
            #[trigger] plain_if_at(old(t).src(), old(t).cursor(), x1, op, x2, sh)
            ==> (r matches Ok(st) && st matches Statement::If {
                condition,
                then_branch,
                else_branch,
            } && condition.comparator@ == op && expr_matches(condition.left, x1)
                && expr_matches(condition.right, x2) && then_branch.statements@.len() == 1
                && stmt_matches(then_branch.statements@[0], sh) && else_branch is None
                && final(t).cursor() == plain_if_end(old(t).src(), old(t).cursor(), x1, x2, sh)),
    decreases old(t).src().len() - old(t).cursor(), 6int,
{
    let kw = match advance(t) {
        Ok(tok) => tok,
        Err(e) => return Err(e),
    };
    match kw {
        Token::If => {},
        other => return Err(ParseError::Syntax(syntax_error("ifStmt", "'if'", Some(other)))),
    }
    let condition = match parse_condition(t) {
        Ok(c) => c,
        Err(er) => return Err(er),
    };
    let kw_then = match advance(t) {
        Ok(tok) => tok,
        Err(e) => return Err(e),
    };
    match kw_then {
        Token::Then => {},
        other => return Err(ParseError::Syntax(syntax_error("ifStmt", "'then'", Some(other)))),
    }
    let then_branch = match parse_stat_seq(t) {
        Ok(b) => b,
        Err(er) => return Err(er),
    };
    let else_branch = match peek(t) {
        Ok(Token::Else) => {
            let _ = match advance(t) {
                Ok(tok) => tok,
                Err(e) => return Err(e),
            };
            let b = match parse_stat_seq(t) {
                Ok(b) => b,
                Err(er) => return Err(er),
            };
            Some(b)
        },
        _ => None,
    };
    let kw_fi = match advance(t) {
        Ok(tok) => tok,
        Err(e) => return Err(e),
    };
    match kw_fi {
        Token::Fi => {},
        other => return Err(
            ParseError::Syntax(syntax_error("ifStmt", "'else' or 'fi'", Some(other))),
        ),
    }
    Ok(Statement::If { condition, then_branch, else_branch })
}

/// whileStmt := 'while' condition 'do' statSeq 'od'
#[verifier::rlimit(100)]
pub fn parse_while(t: &mut Tokenizer) -> (r: Result<Statement, ParseError>)
    requires
        old(t).wf(),
    ensures
        final(t).wf(),
        final(t).src() == old(t).src(),
        r matches Ok(st) ==> st.wf() && old(t).cursor() < final(t).cursor()
            <= final(t).src().len(),
        r matches Ok(st) ==> st matches Statement::While(_),
        forall|x1: PlainExpr, op: TokenView, x2: PlainExpr, sh: PlainStmt|
            #[trigger] plain_while_at(old(t).src(), old(t).cursor(), x1, op, x2, sh)
            ==> (r matches Ok(st) && st matches Statement::While(w)
                && w.condition.comparator@ == op && expr_matches(w.condition.left, x1)
                && expr_matches(w.condition.right, x2) && w.body.statements@.len() == 1
                && stmt_matches(w.body.statements@[0], sh)
                && final(t).cursor() == plain_while_end(
                old(t).src(), old(t).cursor(), x1, x2, sh)),
        forall|x1: PlainExpr, op: TokenView, x2: PlainExpr, tv: TokenView|
            #[trigger] plain_while_bad_body_at(old(t).src(), old(t).cursor(), x1, op, x2, tv)
            ==> (r matches Err(pe) && is_statement_dispatch_error(pe, tv)),
    decreases old(t).src().len() - old(t).cursor(), 6int,
{
    let kw = match advance(t) {
        Ok(tok) => tok,
        Err(e) => return Err(e),
    };
    match kw {
        Token::While => {},
        other => return Err(ParseError::Syntax(syntax_error("whileStmt", "'while'", Some(other)))),
    }
    let condition = match parse_condition(t) {
        Ok(c) => c,
        Err(er) => return Err(er),
    };
    let kw_do = match advance(t) {
        Ok(tok) => tok,
        Err(e) => return Err(e),
    };
    match kw_do {
        Token::Do => {},
        other => return Err(ParseError::Syntax(syntax_error("whileStmt", "'do'", Some(other)))),
    }
    let body = match parse_stat_seq(t) {
        Ok(b) => b,
        Err(er) => return Err(er),
    };
    let kw_od = match advance(t) {
        Ok(tok) => tok,
        Err(e) => return Err(e),
    };
    match kw_od {
        Token::Od => {},
        other => return Err(ParseError::Syntax(syntax_error("whileStmt", "'od'", Some(other)))),
    }
    Ok(Statement::While(WhileLoop::new(condition, body)))
}

/// returnStmt := 'return' expression?
///
/// The value's absence is decided by peeking for a token that may begin
/// an expression.
pub fn parse_return(t: &mut Tokenizer) -> (r: Result<Statement, ParseError>)
    requires
        old(t).wf(),
    ensures
        final(t).wf(),
        final(t).src() == old(t).src(),
        r matches Ok(st) ==> st.wf() && old(t).cursor() < final(t).cursor()
            <= final(t).src().len(),
        r matches Ok(st) ==> st matches Statement::Return { .. },
        ({
            let s = old(t).src();
            let p0 = old(t).cursor();
            spec_scan(s, p0) matches Scan::Next(tv, p1) ==> (tv matches TokenView::Return ==> ({
                &&& (spec_scan(s, p1) matches Scan::Next(tv2, p2) ==> (!expression_first(tv2)
                    ==> r == Result::<Statement, ParseError>::Ok(Statement::Return { value: None })
                        && final(t).cursor() == p1))
                &&& (spec_scan(s, p1) matches Scan::Fail(e2, f2)
                    ==> r == Result::<Statement, ParseError>::Ok(Statement::Return { value: None })
                        && final(t).cursor() == p1)
                &&& (spec_scan(s, p1) matches Scan::Next(tv2, p2) ==> (expression_first(tv2)
                    ==> (r matches Ok(st) ==> st matches Statement::Return { value: Some(e2) })))
            }))
        }),
        forall|x: PlainExpr| #[trigger] plain_return_at(old(t).src(), old(t).cursor(), x)
            ==> (r matches Ok(st) && st matches Statement::Return { value: Some(e2) }
                && expr_matches(e2, x)
                && final(t).cursor() == plain_return_end(old(t).src(), old(t).cursor(), x)),
    decreases old(t).src().len() - old(t).cursor(), 6int,
{
    proof {
        reveal(plain_expr_tokens_at);
        reveal(plain_term_tokens_at);
    }
    let kw = match advance(t) {
        Ok(tok) => tok,
        Err(e) => return Err(e),
    };
    match kw {
        Token::Return => {},
        other => return Err(
            ParseError::Syntax(syntax_error("returnStmt", "'return'", Some(other))),
        ),
    }
    let value = match peek(t) {
        Ok(Token::Identifier(_)) | Ok(Token::Number(_)) | Ok(Token::OpenParen)
        | Ok(Token::FunctionCall) => {
            let e = match parse_expression(t) {
                Ok(e) => e,
                Err(er) => return Err(er),
            };
            Some(e)
        },
        _ => None,
    };
    Ok(Statement::Return { value })
}

/// statement := assignment | call | ifStmt | whileStmt | returnStmt
///
/// The next token decides the alternative; a token that may not begin a
/// statement is exactly this production's syntax error, which lists the
/// acceptable leading tokens.
#[verifier::rlimit(100)]
pub fn parse_statement(t: &mut Tokenizer) -> (r: Result<Statement, ParseError>)
    requires
        old(t).wf(),
    ensures
        final(t).wf(),
        final(t).src() == old(t).src(),
        r matches Ok(st) ==> st.wf() && old(t).cursor() < final(t).cursor()
            <= final(t).src().len(),
        ({
            let sc = spec_scan(old(t).src(), old(t).cursor());
            sc matches Scan::Next(tv, np) ==> (!statement_first(tv) ==> statement_dispatch_error(
                r,
                tv,
            ))
        }),
        ({
            let sc = spec_scan(old(t).src(), old(t).cursor());
            sc matches Scan::Next(tv, np) ==> ({
                &&& (tv matches TokenView::Let ==> (r matches Ok(st) ==> st
                    matches Statement::Assignment { .. }))
                &&& (tv matches TokenView::FunctionCall ==> (r matches Ok(st) ==> st
                    matches Statement::Call { .. }))
                &&& (tv matches TokenView::If ==> (r matches Ok(st) ==> st
                    matches Statement::If { .. }))
                &&& (tv matches TokenView::While ==> (r matches Ok(st) ==> st
                    matches Statement::While(_)))
                &&& (tv matches TokenView::Return ==> (r matches Ok(st) ==> st
                    matches Statement::Return { .. }))
            })
        }),
        ({
            let s = old(t).src();
            let p0 = old(t).cursor();
            spec_scan(s, p0) matches Scan::Next(tv, p1) ==> (tv matches TokenView::Return ==> ({
                &&& (spec_scan(s, p1) matches Scan::Next(tv2, p2) ==> (!expression_first(tv2)
                    ==> r == Result::<Statement, ParseError>::Ok(Statement::Return { value: None })
                        && final(t).cursor() == p1))
                &&& (spec_scan(s, p1) matches Scan::Fail(e2, f2)
                    ==> r == Result::<Statement, ParseError>::Ok(Statement::Return { value: None })
                        && final(t).cursor() == p1)
            }))
        }),
        forall|x: PlainExpr| #[trigger] plain_return_at(old(t).src(), old(t).cursor(), x)
            ==> (r matches Ok(st) && st matches Statement::Return { value: Some(e2) }
                && expr_matches(e2, x)
                && final(t).cursor() == plain_return_end(old(t).src(), old(t).cursor(), x)),
        forall|sh: PlainStmt| #[trigger] plain_stmt_tokens_at(old(t).src(), old(t).cursor(), sh)
            ==> (r matches Ok(st) && stmt_matches(st, sh)
                && final(t).cursor() == plain_stmt_end(old(t).src(), old(t).cursor(), sh)),
        forall|w: Seq<char>, p1: int, p2: int, p3: int, p4: int|
            #[trigger] plain_call_at(old(t).src(), old(t).cursor(), w, p1, p2, p3, p4)
            ==> (r matches Ok(st) && st matches Statement::Call { name, args } && name@ == w
                && args@.len() == 0 && final(t).cursor() == p4),
    decreases old(t).src().len() - old(t).cursor(), 7int,
{
    let pk = match peek(t) {
        Ok(tok) => tok,
        Err(e) => return Err(e),
    };
    match pk {
        Token::Let => parse_assignment(t),
        Token::FunctionCall => {
            let (name, args) = match parse_call_inner(t) {
                Ok(p) => p,
                Err(er) => return Err(er),
            };
            Ok(Statement::Call { name, args })
        },
        Token::If => parse_if(t),
        Token::While => parse_while(t),
        Token::Return => parse_return(t),
        other => Err(
            ParseError::Syntax(
                syntax_error("statement", "'let', 'call', 'if', 'while' or 'return'", Some(other)),
            ),
        ),
    }
}

/// statSeq := statement (';' statement)*
pub fn parse_stat_seq(t: &mut Tokenizer) -> (r: Result<Block, ParseError>)
    requires
        old(t).wf(),
    ensures
        final(t).wf(),
        final(t).src() == old(t).src(),
        r matches Ok(b) ==> b.wf() && old(t).cursor() < final(t).cursor()
            <= final(t).src().len(),
        forall|sh: PlainStmt| #[trigger] plain_stmt_seq_at(old(t).src(), old(t).cursor(), sh)
            ==> (r matches Ok(b) && b.statements@.len() == 1 && stmt_matches(
                b.statements@[0], sh,
            ) && final(t).cursor() == plain_stmt_end(old(t).src(), old(t).cursor(), sh)),
        ({
            let sc = spec_scan(old(t).src(), old(t).cursor());
            sc matches Scan::Next(tv, np) ==> (!statement_first(tv) ==> (r matches Err(pe)
                && is_statement_dispatch_error(pe, tv)))
        }),
    decreases old(t).src().len() - old(t).cursor(), 8int,
{
    let ghost s0 = t.src();
    let ghost p0 = t.cursor();
    let first = match parse_statement(t) {
        Ok(st) => st,
        Err(er) => return Err(er),
    };
    let mut statements: Vec<Statement> = Vec::new();
    statements.push(first);
    let mut done = false;
    while !done
        invariant
            t.wf(),
            t.src() == s0,
            s0 == old(t).src(),
            p0 == old(t).cursor(),
            p0 < t.cursor() <= s0.len(),
            forall|i: int| 0 <= i < statements@.len() ==> (#[trigger] statements@[i]).wf(),
            forall|sh: PlainStmt| #[trigger] plain_stmt_seq_at(s0, p0, sh) ==> (
                statements@.len() == 1 && stmt_matches(statements@[0], sh) && t.cursor()
                    == plain_stmt_end(s0, p0, sh)),
            ({
                let sc = spec_scan(s0, p0);
                sc matches Scan::Next(tv, np) ==> statement_first(tv)
            }),
        decreases s0.len() - t.cursor() + (if done { 0int } else { 1int }),
    {
        match peek(t) {
            Ok(Token::Semicolon) => {
                let _ = match advance(t) {
                    Ok(tok) => tok,
                    Err(e) => return Err(e),
                };
                let st = match parse_statement(t) {
                    Ok(st) => st,
                    Err(er) => return Err(er),
                };
                statements.push(st);
            },
            _ => {
                done = true;
            },
        }
    }
    Ok(Block { statements })
}

/// varDecl := 'var' ident (',' ident)* ';'
pub fn parse_var_decl(t: &mut Tokenizer) -> (r: Result<VarDeclaration, ParseError>)
    requires
        old(t).wf(),
    ensures
        final(t).wf(),
        final(t).src() == old(t).src(),
        r matches Ok(d) ==> old(t).cursor() < final(t).cursor() <= final(t).src().len(),
        forall|w: Seq<char>, p1: int, p2: int, p3: int|
            #[trigger] plain_var_decl_at(old(t).src(), old(t).cursor(), w, p1, p2, p3)
            ==> (r matches Ok(d) && d.names@.len() == 1 && d.names@[0]@ == w
                && final(t).cursor() == p3),
    decreases old(t).src().len() - old(t).cursor(), 6int,
{
    let ghost s0 = t.src();
    let ghost p0 = t.cursor();
    let kw = match advance(t) {
        Ok(tok) => tok,
        Err(e) => return Err(e),
    };
    match kw {
        Token::Variable => {},
        other => return Err(ParseError::Syntax(syntax_error("varDecl", "'var'", Some(other)))),
    }
    let mut names: Vec<String> = Vec::new();
    let name = match advance(t) {
        Ok(Token::Identifier(x)) => x,
        Ok(other) => return Err(
            ParseError::Syntax(syntax_error("varDecl", "an identifier", Some(other))),
        ),
        Err(e) => return Err(e),
    };
    names.push(name);
    let mut done = false;
    while !done
        invariant
            t.wf(),
            t.src() == s0,
            s0 == old(t).src(),
            p0 == old(t).cursor(),
            p0 < t.cursor() <= s0.len(),
            forall|w: Seq<char>, p1: int, p2: int, p3: int|
                #[trigger] plain_var_decl_at(s0, p0, w, p1, p2, p3) ==> (names@.len() == 1
                    && names@[0]@ == w && t.cursor() == p2),
        decreases s0.len() - t.cursor() + (if done { 0int } else { 1int }),
    {
        match peek(t) {
            Ok(Token::Comma) => {
                let _ = match advance(t) {
                    Ok(tok) => tok,
                    Err(e) => return Err(e),
                };
                let more = match advance(t) {
                    Ok(Token::Identifier(x)) => x,
                    Ok(other) => return Err(
                        ParseError::Syntax(syntax_error("varDecl", "an identifier", Some(other))),
                    ),
                    Err(e) => return Err(e),
                };
                names.push(more);
            },
            _ => {
                done = true;
            },
        }
    }
    let semi = match advance(t) {
        Ok(tok) => tok,
        Err(e) => return Err(e),
    };
    match semi {
        Token::Semicolon => Ok(VarDeclaration { names }),
        other => Err(ParseError::Syntax(syntax_error("varDecl", "',' or ';'", Some(other)))),
    }
}

/// funcBody := varDecl* '{' statSeq? '}'
///
/// Returns the local declarations and the body block.
fn parse_func_body(t: &mut Tokenizer) -> (r: Result<(Vec<VarDeclaration>, Block), ParseError>)
    requires
        old(t).wf(),
    ensures
        final(t).wf(),
        final(t).src() == old(t).src(),
        r matches Ok(p) ==> p.1.wf() && old(t).cursor() < final(t).cursor()
            <= final(t).src().len(),
        forall|p1: int, p2: int|
            #[trigger] plain_empty_body_at(old(t).src(), old(t).cursor(), p1, p2)
            ==> (r matches Ok(pr) && pr.0@.len() == 0 && pr.1.statements@.len() == 0
                && final(t).cursor() == p2),
    decreases old(t).src().len() - old(t).cursor(), 9int,
{
    let ghost s0 = t.src();
    let ghost p0 = t.cursor();
    let mut locals: Vec<VarDeclaration> = Vec::new();
    let mut done = false;
    while !done
        invariant
            t.wf(),
            t.src() == s0,
            s0 == old(t).src(),
            p0 == old(t).cursor(),
            p0 <= t.cursor() <= s0.len(),
            forall|p1: int, p2: int| #[trigger] plain_empty_body_at(s0, p0, p1, p2) ==> (
                locals@.len() == 0 && t.cursor() == p0),
        decreases s0.len() - t.cursor() + (if done { 0int } else { 1int }),
    {
        match peek(t) {
            Ok(Token::Variable) => {
                let d = match parse_var_decl(t) {
                    Ok(d) => d,
                    Err(er) => return Err(er),
                };
                locals.push(d);
            },
            _ => {
                done = true;
            },
        }
    }
    let open = match advance(t) {
        Ok(tok) => tok,
        Err(e) => return Err(e),
    };
    match open {
        Token::OpenBrace => {},
        other => return Err(
            ParseError::Syntax(syntax_error("funcBody", "'var' or '{'", Some(other))),
        ),
    }
    let pk = match peek(t) {
        Ok(tok) => tok,
        Err(e) => return Err(e),
    };
    let body = match pk {
        Token::CloseBrace => Block { statements: Vec::new() },
        _ => {
            match parse_stat_seq(t) {
                Ok(b) => b,
                Err(er) => return Err(er),
            }
        },
    };
    let close = match advance(t) {
        Ok(tok) => tok,
        Err(e) => return Err(e),
    };
    match close {
        Token::CloseBrace => Ok((locals, body)),
        other => return Err(ParseError::Syntax(syntax_error("funcBody", "'}'", Some(other)))),
    }
}

/// funcDecl := 'function' ident '(' formalParams? ')' funcBody ';'
///
/// formalParams := ident (',' ident)* — the formal parameter list is
/// read here; its absence is a valid zero-width parse.
pub fn parse_func_decl(t: &mut Tokenizer) -> (r: Result<FunctionDeclaration, ParseError>)
    requires
        old(t).wf(),
    ensures
        final(t).wf(),
        final(t).src() == old(t).src(),
        r matches Ok(f) ==> f.wf() && old(t).cursor() < final(t).cursor()
            <= final(t).src().len(),
        forall|w: Seq<char>, p1: int, p2: int, p3: int, p4: int, p5: int, p6: int, p7: int|
            #[trigger] plain_func_decl_at(
                old(t).src(), old(t).cursor(), w, p1, p2, p3, p4, p5, p6, p7,
            ) ==> (r matches Ok(f) && f.name@ == w && f.params@.len() == 0
                && f.locals@.len() == 0 && f.body.statements@.len() == 0
                && final(t).cursor() == p7),
    decreases old(t).src().len() - old(t).cursor(), 10int,
{
    let ghost s0 = t.src();
    let ghost p0 = t.cursor();
    let kw = match advance(t) {
        Ok(tok) => tok,
        Err(e) => return Err(e),
    };
    match kw {
        Token::Function => {},
        other => return Err(
            ParseError::Syntax(syntax_error("funcDecl", "'function'", Some(other))),
        ),
    }
    let name = match advance(t) {
        Ok(Token::Identifier(x)) => x,
        Ok(other) => return Err(
            ParseError::Syntax(syntax_error("funcDecl", "an identifier", Some(other))),
        ),
        Err(e) => return Err(e),
    };
    let open = match advance(t) {
        Ok(tok) => tok,
        Err(e) => return Err(e),
    };
    match open {
        Token::OpenParen => {},
        other => return Err(ParseError::Syntax(syntax_error("funcDecl", "'('", Some(other)))),
    }
    let mut params: Vec<String> = Vec::new();
    let pk = match peek(t) {
        Ok(tok) => tok,
        Err(e) => return Err(e),
    };
    match pk {
        Token::Identifier(_) => {
            let first = match advance(t) {
                Ok(Token::Identifier(x)) => x,
                Ok(other) => return Err(
                    ParseError::Syntax(syntax_error("formalParams", "an identifier", Some(other))),
                ),
                Err(e) => return Err(e),
            };
            params.push(first);
            let mut done = false;
            while !done
                invariant
                    t.wf(),
                    t.src() == s0,
                    s0 == old(t).src(),
                    p0 == old(t).cursor(),
                    p0 < t.cursor() <= s0.len(),
                    forall|w: Seq<char>, p1: int, p2: int, p3: int, p4: int, p5: int, p6: int,
                        p7: int|
                        !(#[trigger] plain_func_decl_at(
                            s0, p0, w, p1, p2, p3, p4, p5, p6, p7,
                        )),
                decreases s0.len() - t.cursor() + (if done { 0int } else { 1int }),
            {
                match peek(t) {
                    Ok(Token::Comma) => {
                        let _ = match advance(t) {
                            Ok(tok) => tok,
                            Err(e) => return Err(e),
                        };
                        let more = match advance(t) {
                            Ok(Token::Identifier(x)) => x,
                            Ok(other) => return Err(
                                ParseError::Syntax(
                                    syntax_error("formalParams", "an identifier", Some(other)),
                                ),
                            ),
                            Err(e) => return Err(e),
                        };
                        params.push(more);
                    },
                    _ => {
                        done = true;
                    },
                }
            }
        },
        _ => {},
    }
    let close = match advance(t) {
        Ok(tok) => tok,
        Err(e) => return Err(e),
    };
    match close {
        Token::CloseParen => {},
        other => return Err(ParseError::Syntax(syntax_error("funcDecl", "')'", Some(other)))),
    }
    let (locals, body) = match parse_func_body(t) {
        Ok(p) => p,
        Err(er) => return Err(er),
    };
    let semi = match advance(t) {
        Ok(tok) => tok,
        Err(e) => return Err(e),
    };
    match semi {
        Token::Semicolon => Ok(FunctionDeclaration { name, params, locals, body }),
        other => Err(ParseError::Syntax(syntax_error("funcDecl", "';'", Some(other)))),
    }
}

/// program := 'main' varDecl* funcDecl* '{' statSeq '}' '.'
///
/// An empty statement sequence is allowed: `main { } .` is a valid
/// program. The production ends by consuming the end-of-input token; a
/// source that ends without the terminating `.` fails the
/// program-terminal check with a syntax error whose `found` is `None`.
pub fn parse_program(t: &mut Tokenizer) -> (r: Result<Program, ParseError>)
    requires
        old(t).wf(),
    ensures
        final(t).wf(),
        final(t).src() == old(t).src(),
        r matches Ok(p) ==> p.wf(),
        forall|p1: int, p2: int, p3: int, p4: int|
            #[trigger] plain_empty_program_at(old(t).src(), old(t).cursor(), p1, p2, p3, p4)
            ==> (r matches Ok(p) && p.globals@.len() == 0 && p.functions@.len() == 0
                && p.body.statements@.len() == 0),
        forall|p1: int, p2: int, p3: int|
            #[trigger] plain_unterminated_program_at(old(t).src(), old(t).cursor(), p1, p2, p3)
            ==> (r matches Err(pe) && pe matches ParseError::Syntax(se)
                && se.production@ == "program"@ && se.expected@ == "'.'"@ && se.found is None),
        forall|p1: int, p2: int, p3: int, p4: int, tv: TokenView, p5: int|
            #[trigger] plain_trailing_program_at(
                old(t).src(), old(t).cursor(), p1, p2, p3, p4, tv, p5,
            ) ==> (r matches Err(pe) && pe matches ParseError::Syntax(se)
                && se.found matches Some(f) && se.production@ == "program"@
                && se.expected@ == "end of input"@ && f@ == tv),
    decreases old(t).src().len() - old(t).cursor(), 11int,
{
    let ghost s0 = t.src();
    let ghost p0 = t.cursor();
    let kw = match advance(t) {
        Ok(tok) => tok,
        Err(e) => return Err(e),
    };
    match kw {
        Token::Main => {},
        other => return Err(ParseError::Syntax(syntax_error("program", "'main'", Some(other)))),
    }
    let mut globals: Vec<VarDeclaration> = Vec::new();
    let mut done = false;
    while !done
        invariant
            t.wf(),
            t.src() == s0,
            s0 == old(t).src(),
            p0 == old(t).cursor(),
            p0 < t.cursor() <= s0.len(),
            forall|p1: int, p2: int, p3: int, p4: int|
                #[trigger] plain_empty_program_at(s0, p0, p1, p2, p3, p4) ==> (globals@.len() == 0
                    && t.cursor() == p1),
            forall|p1: int, p2: int, p3: int|
                #[trigger] plain_unterminated_program_at(s0, p0, p1, p2, p3) ==> (globals@.len()
                    == 0 && t.cursor() == p1),
            forall|p1: int, p2: int, p3: int, p4: int, tv: TokenView, p5: int|
                #[trigger] plain_trailing_program_at(s0, p0, p1, p2, p3, p4, tv, p5) ==> (
                globals@.len() == 0 && t.cursor() == p1),
        decreases s0.len() - t.cursor() + (if done { 0int } else { 1int }),
    {
        match peek(t) {
            Ok(Token::Variable) => {
                let d = match parse_var_decl(t) {
                    Ok(d) => d,
                    Err(er) => return Err(er),
                };
                globals.push(d);
            },
            _ => {
                done = true;
            },
        }
    }
    let mut functions: Vec<FunctionDeclaration> = Vec::new();
    let mut done_f = false;
    while !done_f
        invariant
            t.wf(),
            t.src() == s0,
            s0 == old(t).src(),
            p0 == old(t).cursor(),
            p0 < t.cursor() <= s0.len(),
            forall|i: int| 0 <= i < functions@.len() ==> (#[trigger] functions@[i]).wf(),
            forall|p1: int, p2: int, p3: int, p4: int|
                #[trigger] plain_empty_program_at(s0, p0, p1, p2, p3, p4) ==> (functions@.len()
                    == 0 && t.cursor() == p1),
            forall|p1: int, p2: int, p3: int|
                #[trigger] plain_unterminated_program_at(s0, p0, p1, p2, p3) ==> (functions@.len()
                    == 0 && t.cursor() == p1),
            forall|p1: int, p2: int, p3: int, p4: int, tv: TokenView, p5: int|
                #[trigger] plain_trailing_program_at(s0, p0, p1, p2, p3, p4, tv, p5) ==> (
                functions@.len() == 0 && t.cursor() == p1),
        decreases s0.len() - t.cursor() + (if done_f { 0int } else { 1int }),
    {
        match peek(t) {
            Ok(Token::Function) => {
                let f = match parse_func_decl(t) {
                    Ok(f) => f,
                    Err(er) => return Err(er),
                };
                functions.push(f);
            },
            _ => {
                done_f = true;
            },
        }
    }
    let open = match advance(t) {
        Ok(tok) => tok,
        Err(e) => return Err(e),
    };
    match open {
        Token::OpenBrace => {},
        other => return Err(
            ParseError::Syntax(syntax_error("program", "'var', 'function' or '{'", Some(other))),
        ),
    }
    let pk = match peek(t) {
        Ok(tok) => tok,
        Err(e) => return Err(e),
    };
    let body = match pk {
        Token::CloseBrace => Block { statements: Vec::new() },
        _ => {
            match parse_stat_seq(t) {
                Ok(b) => b,
                Err(er) => return Err(er),
            }
        },
    };
    let close = match advance(t) {
        Ok(tok) => tok,
        Err(e) => return Err(e),
    };
    match close {
        Token::CloseBrace => {},
        other => return Err(ParseError::Syntax(syntax_error("program", "'}'", Some(other)))),
    }
    match advance(t) {
        Ok(Token::EOF) => {
            // tokens remaining after the end-of-input token are an error;
            // only the scanner's sentinel at the end of the text may follow
            match peek(t) {
                Err(ParseError::Lexical(LexError::UnexpectedChar { ch: '\0', pos: _ })) => Ok(
                    Program { globals, functions, body },
                ),
                Ok(extra) => Err(
                    ParseError::Syntax(syntax_error("program", "end of input", Some(extra))),
                ),
                Err(other_err) => Err(other_err),
            }
        },
        Ok(other) => Err(ParseError::Syntax(syntax_error("program", "'.'", Some(other)))),
        Err(pe) => match pe {
            ParseError::Lexical(LexError::UnexpectedChar { ch, pos }) => {
                if ch == '\0' {
                    Err(ParseError::Syntax(syntax_error("program", "'.'", None)))
                } else {
                    Err(ParseError::Lexical(LexError::UnexpectedChar { ch, pos }))
                }
            },
            other_err => Err(other_err),
        },
    }
}

/// Parses a complete source text into its program, or reports the single
/// fatal lexical or syntax error.
pub fn parse(input: String) -> (r: Result<Program, ParseError>)
    ensures
        r matches Ok(p) ==> p.wf(),
        forall|p1: int, p2: int, p3: int, p4: int|
            #[trigger] plain_empty_program_at(input@, 0, p1, p2, p3, p4)
            ==> (r matches Ok(p) && p.globals@.len() == 0 && p.functions@.len() == 0
                && p.body.statements@.len() == 0),
        forall|p1: int, p2: int, p3: int|
            #[trigger] plain_unterminated_program_at(input@, 0, p1, p2, p3)
            ==> (r matches Err(pe) && pe matches ParseError::Syntax(se)
                && se.production@ == "program"@ && se.expected@ == "'.'"@ && se.found is None),
        forall|p1: int, p2: int, p3: int, p4: int, tv: TokenView, p5: int|
            #[trigger] plain_trailing_program_at(input@, 0, p1, p2, p3, p4, tv, p5)
            ==> (r matches Err(pe) && pe matches ParseError::Syntax(se)
                && se.found matches Some(f) && se.production@ == "program"@
                && se.expected@ == "end of input"@ && f@ == tv),
{
    let mut t = Tokenizer::new(input);
    parse_program(&mut t)
}

} // verus!


