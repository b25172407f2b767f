//! Errors and warnings raised while compiling rules.

use vstd::prelude::*;
use crate::types::Type;

verus! {

/// A user-facing compile error. It aborts the current `add_source` call but
/// leaves previously compiled rules intact.
#[derive(Clone, Debug)]
pub enum CompileError {
    /// An imported module name is absent from the registry of built-in
    /// modules.
    UnknownModule { module_name: String, span: crate::ast::Span },
    /// An identifier in a condition does not resolve in the active scopes.
    UnresolvedIdentifier { identifier: String },
    /// A pattern reference names no pattern declared by the current rule.
    UnknownPattern { identifier: String },
    /// A field access names no field of the module's structure.
    UnknownField { identifier: String },
    /// A sub-expression has a type its context does not accept.
    WrongType { expected: Type, actual: Type },
    /// A fixed-capacity compiler table is full.
    CapacityExceeded,
}

/// Any error returned by the compiler.
#[derive(Clone, Debug)]
pub enum Error {
    /// A user-facing compile error.
    CompileError(CompileError),
    /// The generated WebAssembly module was rejected by the native
    /// compilation step. This indicates a code-generation defect, never bad
    /// input.
    InvalidWasm,
}

/// A non-fatal diagnostic; warnings accumulate and never block the build.
#[derive(Clone, Debug)]
pub enum Warning {
    /// The top-level condition of a rule was not a boolean and an implicit
    /// boolean cast was inserted.
    NonBooleanAsBoolean { actual_type: Type },
    /// A warning carried over from the external parser.
    Parser { message: String },
}

} // verus!
