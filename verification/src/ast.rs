//! The abstract syntax tree: one node type per grammar production. A tree
//! is built once by the parser and never mutated afterwards; every
//! composite node owns its children.

use vstd::prelude::*;
use vstd::string::StringExecFns;
use crate::diag::SyntaxError;
use crate::tokens::{Token, is_relational, is_relational_view};

verus! {

/// The operator of a binary arithmetic expression.
#[derive(Debug, Clone, Copy, PartialEq, Eq)]
pub enum BinOp {
    Plus,
    Minus,
    Times,
    Divide,
}

/// An arithmetic expression.
#[derive(Debug, PartialEq, Eq)]
pub enum Expression {
    /// An integer literal.
    Number(isize),
    /// A reference to a variable.
    Identifier(String),
    /// A function call used as an operand.
    Call { name: String, args: Vec<Expression> },
    /// A binary operation. The parser builds these left-associatively.
    Binary { op: BinOp, left: Box<Expression>, right: Box<Expression> },
}

/// A condition: a relational comparator together with its two operands.
/// All six comparators (`<`, `<=`, `==`, `!=`, `>=`, `>`) are legal;
/// constructing a condition from any other token is refused with a
/// syntax error, never by substituting a default.
#[derive(Debug, PartialEq, Eq)]
pub struct Condition {
    pub comparator: Token,
    pub left: Expression,
    pub right: Expression,
}

impl Condition {
    /// The stored comparator is relational.
    pub open spec fn wf(self) -> bool {
        is_relational_view(self.comparator@)
    }

    /// Builds a condition, refusing any comparator token that is not one
    /// of the six relational comparators.
    pub fn new(conditional_token: Token, left: Expression, right: Expression) -> (r: Result<
        Condition,
        SyntaxError,
    >)
        ensures
            is_relational_view(conditional_token@) ==> (r matches Ok(c) && c == (Condition {
                comparator: conditional_token,
                left,
                right,
            })),
            !is_relational_view(conditional_token@) ==> (r matches Err(e)
                && e.production@ == "condition"@
                && e.expected@ == "a relational comparator"@
                && e.found == Some(conditional_token)),
    {
        if is_relational(&conditional_token) {
            Ok(Condition { comparator: conditional_token, left, right })
        } else {
            Err(SyntaxError {
                production: String::from_str("condition"),
                expected: String::from_str("a relational comparator"),
                found: Some(conditional_token),
            })
        }
    }
}

/// An ordered sequence of statements.
#[derive(Debug, PartialEq, Eq)]
pub struct Block {
    pub statements: Vec<Statement>,
}

impl Block {
    pub open spec fn wf(self) -> bool
        decreases self,
    {
        forall|i: int| 0 <= i < self.statements@.len() ==> (#[trigger] self.statements@[i]).wf()
    }
}

/// One statement.
#[derive(Debug, PartialEq, Eq)]
pub enum Statement {
    /// `let` target `<-` value.
    Assignment { target: String, value: Expression },
    /// `call` name `(` arguments `)`.
    Call { name: String, args: Vec<Expression> },
    /// `if` condition `then` ... (`else` ...)? `fi`.
    If { condition: Condition, then_branch: Block, else_branch: Option<Block> },
    /// `while` condition `do` ... `od`.
    While(WhileLoop),
    /// `return` with an optional value.
    Return { value: Option<Expression> },
}

impl Statement {
    pub open spec fn wf(self) -> bool
        decreases self,
    {
        match self {
            Statement::Assignment { target, value } => true,
            Statement::Call { name, args } => true,
            Statement::If { condition, then_branch, else_branch } => condition.wf()
                && then_branch.wf() && match else_branch {
                Some(b) => b.wf(),
                None => true,
            },
            Statement::While(w) => w.wf(),
            Statement::Return { value } => true,
        }
    }
}

/// A while loop: its condition and its body.
#[derive(Debug, PartialEq, Eq)]
pub struct WhileLoop {
    pub condition: Condition,
    pub body: Block,
}

impl WhileLoop {
    pub open spec fn wf(self) -> bool
        decreases self,
    {
        self.condition.wf() && self.body.wf()
    }

    pub fn new(condition: Condition, body: Block) -> (w: WhileLoop)
        ensures
            w == (WhileLoop { condition, body }),
    {
        WhileLoop { condition, body }
    }
}

/// `var` name (`,` name)* `;` — one variable declaration.
#[derive(Debug, PartialEq, Eq)]
pub struct VarDeclaration {
    pub names: Vec<String>,
}

/// `function` name `(` parameters `)` locals `{` body `}` — one function
/// declaration.
#[derive(Debug, PartialEq, Eq)]
pub struct FunctionDeclaration {
    pub name: String,
    pub params: Vec<String>,
    pub locals: Vec<VarDeclaration>,
    pub body: Block,
}

impl FunctionDeclaration {
    pub open spec fn wf(self) -> bool {
        self.body.wf()
    }
}

/// The root of the tree: `main`, global declarations, function
/// declarations, and the main body.
#[derive(Debug, PartialEq, Eq)]
pub struct Program {
    pub globals: Vec<VarDeclaration>,
    pub functions: Vec<FunctionDeclaration>,
    pub body: Block,
}

impl Program {
    pub open spec fn wf(self) -> bool {
        &&& forall|i: int|
            0 <= i < self.functions@.len() ==> (#[trigger] self.functions@[i]).wf()
        &&& self.body.wf()
    }
}

} // verus!
