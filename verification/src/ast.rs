//! Abstract syntax tree of parsed rule definitions.
//!
//! The parser is an external collaborator: it turns source text into this
//! tree and reports syntax errors on its own. The compiler consumes the
//! tree: namespaces, each with ordered imports and rules, and a condition
//! expression per rule.

use vstd::prelude::*;
use crate::errors::Warning;

verus! {

/// A source span, for diagnostics.
#[derive(Clone, Copy, PartialEq, Eq, Structural, Debug)]
pub struct Span {
    pub start: u32,
    pub end: u32,
}

/// An `import` statement: a module name and where it was written.
#[derive(Clone, Debug)]
pub struct Import {
    pub module_name: String,
    pub span: Span,
}

/// A pattern declared inside a rule, e.g. `$a`. The matching data itself
/// belongs to the pattern-matching subsystem and is opaque here.
#[derive(Clone, Debug)]
pub struct PatternDecl {
    pub identifier: String,
}

/// Arithmetic operator over integer operands.
#[derive(Clone, Copy, PartialEq, Eq, Structural, Debug)]
pub enum ArithOp {
    Add,
    Sub,
    Mul,
}

/// Comparison operator.
#[derive(Clone, Copy, PartialEq, Eq, Structural, Debug)]
pub enum CmpOp {
    Eq,
    Ne,
    Lt,
    Le,
    Gt,
    Ge,
}

/// A condition expression.
#[derive(Debug)]
pub enum Expr {
    /// The boolean literal `true`.
    True,
    /// The boolean literal `false`.
    False,
    /// An integer literal.
    IntLit(i64),
    /// The size of the scanned data.
    Filesize,
    /// A pattern reference, e.g. `$a`; true when the pattern matches.
    Pattern(String),
    /// An identifier: a rule declared earlier, or a module.
    Ident(String),
    /// A field of an imported module, e.g. `pe.entry_point`.
    Field(String, String),
    /// Three-valued negation.
    Not(Box<Expr>),
    /// Three-valued conjunction.
    And(Box<Expr>, Box<Expr>),
    /// Three-valued disjunction.
    Or(Box<Expr>, Box<Expr>),
    /// Integer arithmetic.
    Arith(ArithOp, Box<Expr>, Box<Expr>),
    /// Comparison of two integer expressions.
    Cmp(CmpOp, Box<Expr>, Box<Expr>),
    /// Implicit cast of an integer expression to a boolean: non-zero is
    /// true, zero is false, undefined stays undefined. Inserted by the
    /// semantic checker.
    BoolCast(Box<Expr>),
}

/// A rule: its identifier, its declared patterns in declaration order, and
/// its condition.
#[derive(Debug)]
pub struct Rule {
    pub identifier: String,
    pub patterns: Option<Vec<PatternDecl>>,
    pub condition: Expr,
}

/// A namespace: a lexical grouping of imports and rules.
#[derive(Debug)]
pub struct Namespace {
    pub imports: Vec<Import>,
    pub rules: Vec<Rule>,
}

/// A parsed compilation unit, as handed over by the external parser,
/// together with the warnings the parser collected.
#[derive(Debug)]
pub struct Ast {
    pub namespaces: Vec<Namespace>,
    pub warnings: Vec<Warning>,
}

} // verus!
