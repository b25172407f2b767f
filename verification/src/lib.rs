//! Compiler for a rule-based pattern-matching language.
//!
//! Rule definitions (namespaces with imports, declared patterns and a
//! condition expression) are resolved against stacked symbol tables,
//! type-checked with implicit integer-to-boolean casts, and lowered to a
//! WebAssembly module that holds the code for every rule condition; a
//! separate scanning engine later loads the compiled artifact to evaluate
//! data.

pub mod pool;
pub mod types;
pub mod symbols;
pub mod ast;
pub mod errors;
pub mod registry;
pub mod semcheck;
pub mod emit;
pub mod backend;
pub mod compiler;

pub use pool::{IdentId, LiteralId, StringPool, BStringPool};
pub use errors::{Error, CompileError, Warning};
pub use compiler::{Compiler, CompiledRules, CompiledRule, Pattern, ImportedModules};
