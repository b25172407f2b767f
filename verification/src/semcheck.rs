//! Semantic checking of condition expressions.
//!
//! The checker resolves identifiers against the active scopes, computes the
//! static type of every sub-expression, and inserts implicit integer-to-
//! boolean casts where a boolean context receives an integer (permissive
//! condition typing). A condition whose top-level type is not boolean gets
//! a non-fatal warning from the orchestrator.

use vstd::prelude::*;
use crate::ast::Expr;
use crate::types::{Type, TypeValue, field_pos};
use crate::symbols::{Symbol, SymbolKind, StackedSymbolTable, stack_lookup};
use crate::errors::CompileError;

verus! {

/// Scopes and the current rule's declared pattern names: everything a
/// condition's identifiers can resolve against.
pub struct SemEnv {
    pub scopes: Seq<Seq<(Seq<char>, Symbol)>>,
    pub patterns: Seq<Seq<char>>,
}

/// Lenient typing judgment, before cast insertion: a boolean context
/// (negation, conjunction, disjunction) accepts an integer operand, which
/// will be cast. `None` means the expression has a type error or an
/// unresolved name.
pub open spec fn lenient_ty(env: SemEnv, e: Expr) -> Option<Type>
    decreases e,
{
    match e {
        Expr::True => Some(Type::Bool),
        Expr::False => Some(Type::Bool),
        Expr::IntLit(_) => Some(Type::Integer),
        Expr::Filesize => Some(Type::Integer),
        Expr::Pattern(n) => if env.patterns.contains(n@) {
            Some(Type::Bool)
        } else {
            None
        },
        Expr::Ident(n) => match stack_lookup(env.scopes, n@) {
            Some(sym) => match sym.kind {
                SymbolKind::Rule(_) => Some(Type::Bool),
                _ => None,
            },
            None => None,
        },
        Expr::Field(m, f) => match stack_lookup(env.scopes, m@) {
            Some(sym) => match (sym.kind, sym.type_value) {
                (SymbolKind::FieldIndex(_), TypeValue::Struct(st)) => {
                    let p = field_pos(st.fields@, f@);
                    if p == -1 {
                        None
                    } else {
                        Some(st.fields@[p].value.spec_ty())
                    }
                },
                _ => None,
            },
            None => None,
        },
        Expr::Not(a) => match lenient_ty(env, *a) {
            Some(Type::Bool) => Some(Type::Bool),
            Some(Type::Integer) => Some(Type::Bool),
            _ => None,
        },
        Expr::And(a, b) => match (lenient_ty(env, *a), lenient_ty(env, *b)) {
            (Some(Type::Bool), Some(Type::Bool)) => Some(Type::Bool),
            (Some(Type::Bool), Some(Type::Integer)) => Some(Type::Bool),
            (Some(Type::Integer), Some(Type::Bool)) => Some(Type::Bool),
            (Some(Type::Integer), Some(Type::Integer)) => Some(Type::Bool),
            _ => None,
        },
        Expr::Or(a, b) => match (lenient_ty(env, *a), lenient_ty(env, *b)) {
            (Some(Type::Bool), Some(Type::Bool)) => Some(Type::Bool),
            (Some(Type::Bool), Some(Type::Integer)) => Some(Type::Bool),
            (Some(Type::Integer), Some(Type::Bool)) => Some(Type::Bool),
            (Some(Type::Integer), Some(Type::Integer)) => Some(Type::Bool),
            _ => None,
        },
        Expr::Arith(_, a, b) => match (lenient_ty(env, *a), lenient_ty(env, *b)) {
            (Some(Type::Integer), Some(Type::Integer)) => Some(Type::Integer),
            _ => None,
        },
        Expr::Cmp(_, a, b) => match (lenient_ty(env, *a), lenient_ty(env, *b)) {
            (Some(Type::Integer), Some(Type::Integer)) => Some(Type::Bool),
            _ => None,
        },
        Expr::BoolCast(a) => match lenient_ty(env, *a) {
            Some(Type::Integer) => Some(Type::Bool),
            _ => None,
        },
    }
}

/// Strict typing judgment, after cast insertion: every boolean context
/// receives a boolean, and `BoolCast` wraps exactly an integer. Code
/// emission requires this judgment.
pub open spec fn strict_ty(env: SemEnv, e: Expr) -> Option<Type>
    decreases e,
{
    match e {
        Expr::True => Some(Type::Bool),
        Expr::False => Some(Type::Bool),
        Expr::IntLit(_) => Some(Type::Integer),
        Expr::Filesize => Some(Type::Integer),
        Expr::Pattern(n) => if env.patterns.contains(n@) {
            Some(Type::Bool)
        } else {
            None
        },
        Expr::Ident(n) => match stack_lookup(env.scopes, n@) {
            Some(sym) => match sym.kind {
                SymbolKind::Rule(_) => Some(Type::Bool),
                _ => None,
            },
            None => None,
        },
        Expr::Field(m, f) => match stack_lookup(env.scopes, m@) {
            Some(sym) => match (sym.kind, sym.type_value) {
                (SymbolKind::FieldIndex(_), TypeValue::Struct(st)) => {
                    let p = field_pos(st.fields@, f@);
                    if p == -1 {
                        None
                    } else {
                        Some(st.fields@[p].value.spec_ty())
                    }
                },
                _ => None,
            },
            None => None,
        },
        Expr::Not(a) => match strict_ty(env, *a) {
            Some(Type::Bool) => Some(Type::Bool),
            _ => None,
        },
        Expr::And(a, b) => match (strict_ty(env, *a), strict_ty(env, *b)) {
            (Some(Type::Bool), Some(Type::Bool)) => Some(Type::Bool),
            _ => None,
        },
        Expr::Or(a, b) => match (strict_ty(env, *a), strict_ty(env, *b)) {
            (Some(Type::Bool), Some(Type::Bool)) => Some(Type::Bool),
            _ => None,
        },
        Expr::Arith(_, a, b) => match (strict_ty(env, *a), strict_ty(env, *b)) {
            (Some(Type::Integer), Some(Type::Integer)) => Some(Type::Integer),
            _ => None,
        },
        Expr::Cmp(_, a, b) => match (strict_ty(env, *a), strict_ty(env, *b)) {
            (Some(Type::Integer), Some(Type::Integer)) => Some(Type::Bool),
            _ => None,
        },
        Expr::BoolCast(a) => match strict_ty(env, *a) {
            Some(Type::Integer) => Some(Type::Bool),
            _ => None,
        },
    }
}

/// `e` with an implicit boolean cast wrapped around it when its type is
/// integer; identity otherwise. What a boolean context does to each of its
/// operands.
pub open spec fn cast_wrap(env: SemEnv, e: Expr) -> Expr
    decreases e, 1int,
{
    if lenient_ty(env, e) == Some(Type::Integer) {
        Expr::BoolCast(Box::new(casted(env, e)))
    } else {
        casted(env, e)
    }
}

/// The expression the checker hands on: `e` with an implicit boolean cast
/// inserted around every integer operand of a boolean context (negation,
/// conjunction, disjunction). The checker's output equals this function of
/// its input.
pub open spec fn casted(env: SemEnv, e: Expr) -> Expr
    decreases e, 0int,
{
    match e {
        Expr::Not(a) => Expr::Not(Box::new(cast_wrap(env, *a))),
        Expr::And(a, b) => Expr::And(
            Box::new(cast_wrap(env, *a)),
            Box::new(cast_wrap(env, *b)),
        ),
        Expr::Or(a, b) => Expr::Or(
            Box::new(cast_wrap(env, *a)),
            Box::new(cast_wrap(env, *b)),
        ),
        Expr::Arith(op, a, b) => Expr::Arith(
            op,
            Box::new(casted(env, *a)),
            Box::new(casted(env, *b)),
        ),
        Expr::Cmp(op, a, b) => Expr::Cmp(
            op,
            Box::new(casted(env, *a)),
            Box::new(casted(env, *b)),
        ),
        Expr::BoolCast(a) => Expr::BoolCast(Box::new(casted(env, *a))),
        _ => e,
    }
}

/// The condition expression as it is emitted: cast-completed, with one more
/// top-level boolean cast when the condition's own type is an integer.
pub open spec fn casted_condition(env: SemEnv, e: Expr) -> Expr {
    if lenient_ty(env, e) == Some(Type::Bool) {
        casted(env, e)
    } else {
        Expr::BoolCast(Box::new(casted(env, e)))
    }
}

/// Whether the current rule declares a pattern called `n`.
fn declares_pattern(pats: &Vec<String>, n: &String) -> (r: bool)
    ensures
        r == pats.deep_view().contains(n@),
{
    let m = pats.len();
    for i in 0..m
        invariant
            m == pats@.len(),
            forall|j: int| 0 <= j < i ==> pats.deep_view()[j] != n@,
    {
        proof {
            assert(pats.deep_view()[i as int] == pats@[i as int]@);
        }
        if pats[i] == *n {
            proof {
                assert(pats.deep_view().contains(n@));
            }
            return true;
        }
    }
    proof {
        if pats.deep_view().contains(n@) {
            let j = choose|j: int| 0 <= j < pats.deep_view().len() && pats.deep_view()[j] == n@;
            assert(false);
        }
    }
    false
}

/// Recursively type-checks `e` against the scopes and the current rule's
/// declared pattern names. On success, returns the lenient type of `e`
/// together with a copy of `e` in which every boolean context that received
/// an integer operand got an implicit boolean cast inserted.
#[verifier::rlimit(100)]
#[verifier::spinoff_prover]
pub fn semcheck(st: &StackedSymbolTable, pats: &Vec<String>, e: &Expr) -> (r: Result<
    (Type, Expr),
    CompileError,
>)
    ensures
        r.is_ok() <==> lenient_ty(
            SemEnv { scopes: st@, patterns: pats.deep_view() },
            *e,
        ) is Some,
        r matches Ok((t, e2)) ==> {
            let env = SemEnv { scopes: st@, patterns: pats.deep_view() };
            &&& lenient_ty(env, *e) == Some(t)
            &&& strict_ty(env, e2) == Some(t)
            &&& e2 == casted(env, *e)
        },
        (*e is Ident && stack_lookup(st@, (*e)->Ident_0@) is None) ==> (r matches Err(ce)
            && ce == CompileError::UnresolvedIdentifier { identifier: (*e)->Ident_0 }),
    decreases *e,
{
    let ghost env = SemEnv { scopes: st@, patterns: pats.deep_view() };
    match e {
        Expr::True => Ok((Type::Bool, Expr::True)),
        Expr::False => Ok((Type::Bool, Expr::False)),
        Expr::IntLit(v) => Ok((Type::Integer, Expr::IntLit(*v))),
        Expr::Filesize => Ok((Type::Integer, Expr::Filesize)),
        Expr::Pattern(n) => {
            if declares_pattern(pats, n) {
                Ok((Type::Bool, Expr::Pattern(n.clone())))
            } else {
                Err(CompileError::UnknownPattern { identifier: n.clone() })
            }
        },
        Expr::Ident(n) => {
            match st.lookup(n) {
                Some(sym) => match &sym.kind {
                    SymbolKind::Rule(_) => Ok((Type::Bool, Expr::Ident(n.clone()))),
                    _ => Err(CompileError::UnresolvedIdentifier { identifier: n.clone() }),
                },
                None => Err(CompileError::UnresolvedIdentifier { identifier: n.clone() }),
            }
        },
        Expr::Field(m, f) => {
            match st.lookup(m) {
                Some(sym) => {
                    let is_field_index = match &sym.kind {
                        SymbolKind::FieldIndex(_) => true,
                        _ => false,
                    };
                    if !is_field_index {
                        return Err(CompileError::UnresolvedIdentifier { identifier: m.clone() });
                    }
                    match &sym.type_value {
                        TypeValue::Struct(stt) => {
                            match stt.field_by_name(f) {
                                Some(fld) => {
                                    let t = fld.value.ty();
                                    Ok((t, Expr::Field(m.clone(), f.clone())))
                                },
                                None => Err(CompileError::UnknownField { identifier: f.clone() }),
                            }
                        },
                        _ => Err(CompileError::UnresolvedIdentifier { identifier: m.clone() }),
                    }
                },
                None => Err(CompileError::UnresolvedIdentifier { identifier: m.clone() }),
            }
        },
        Expr::Not(a) => {
            let (ta, a2) = match semcheck(st, pats, a) {
                Ok(x) => x,
                Err(er) => {
                    return Err(er);
                },
            };
            if ta == Type::Bool {
                let res = Expr::Not(Box::new(a2));
                proof {
                    assert(strict_ty(env, res) == Some(Type::Bool));
                    assert(a2 == cast_wrap(env, **a));
                    assert(res == casted(env, *e));
                }
                Ok((Type::Bool, res))
            } else if ta == Type::Integer {
                let cast = Expr::BoolCast(Box::new(a2));
                proof {
                    assert(strict_ty(env, cast) == Some(Type::Bool));
                    assert(cast == cast_wrap(env, **a));
                }
                let res = Expr::Not(Box::new(cast));
                proof {
                    assert(strict_ty(env, res) == Some(Type::Bool));
                    assert(res == casted(env, *e));
                }
                Ok((Type::Bool, res))
            } else {
                Err(CompileError::WrongType { expected: Type::Bool, actual: ta })
            }
        },
        Expr::And(a, b) => {
            let (ta, a2) = match semcheck(st, pats, a) {
                Ok(x) => x,
                Err(er) => {
                    return Err(er);
                },
            };
            let (tb, b2) = match semcheck(st, pats, b) {
                Ok(x) => x,
                Err(er) => {
                    return Err(er);
                },
            };
            let a3 = if ta == Type::Integer {
                let cast = Expr::BoolCast(Box::new(a2));
                proof {
                    assert(strict_ty(env, cast) == Some(Type::Bool));
                }
                cast
            } else {
                a2
            };
            proof {
                if ta == Type::Bool || ta == Type::Integer {
                    assert(a3 == cast_wrap(env, **a));
                }
            }
            let b3 = if tb == Type::Integer {
                let cast = Expr::BoolCast(Box::new(b2));
                proof {
                    assert(strict_ty(env, cast) == Some(Type::Bool));
                }
                cast
            } else {
                b2
            };
            if (ta == Type::Bool || ta == Type::Integer) && (tb == Type::Bool || tb
                == Type::Integer) {
                let res = Expr::And(Box::new(a3), Box::new(b3));
                proof {
                    assert(strict_ty(env, a3) == Some(Type::Bool));
                    assert(strict_ty(env, b3) == Some(Type::Bool));
                    assert(strict_ty(env, res) == Some(Type::Bool));
                    assert(b3 == cast_wrap(env, **b));
                    assert(res == casted(env, *e));
                }
                Ok((Type::Bool, res))
            } else if ta == Type::Bool || ta == Type::Integer {
                Err(CompileError::WrongType { expected: Type::Bool, actual: tb })
            } else {
                Err(CompileError::WrongType { expected: Type::Bool, actual: ta })
            }
        },
        Expr::Or(a, b) => {
            let (ta, a2) = match semcheck(st, pats, a) {
                Ok(x) => x,
                Err(er) => {
                    return Err(er);
                },
            };
            let (tb, b2) = match semcheck(st, pats, b) {
                Ok(x) => x,
                Err(er) => {
                    return Err(er);
                },
            };
            let a3 = if ta == Type::Integer {
                let cast = Expr::BoolCast(Box::new(a2));
                proof {
                    assert(strict_ty(env, cast) == Some(Type::Bool));
                }
                cast
            } else {
                a2
            };
            proof {
                if ta == Type::Bool || ta == Type::Integer {
                    assert(a3 == cast_wrap(env, **a));
                }
            }
            let b3 = if tb == Type::Integer {
                let cast = Expr::BoolCast(Box::new(b2));
                proof {
                    assert(strict_ty(env, cast) == Some(Type::Bool));
                }
                cast
            } else {
                b2
            };
            if (ta == Type::Bool || ta == Type::Integer) && (tb == Type::Bool || tb
                == Type::Integer) {
                let res = Expr::Or(Box::new(a3), Box::new(b3));
                proof {
                    assert(strict_ty(env, a3) == Some(Type::Bool));
                    assert(strict_ty(env, b3) == Some(Type::Bool));
                    assert(strict_ty(env, res) == Some(Type::Bool));
                    assert(b3 == cast_wrap(env, **b));
                    assert(res == casted(env, *e));
                }
                Ok((Type::Bool, res))
            } else if ta == Type::Bool || ta == Type::Integer {
                Err(CompileError::WrongType { expected: Type::Bool, actual: tb })
            } else {
                Err(CompileError::WrongType { expected: Type::Bool, actual: ta })
            }
        },
        Expr::Arith(op, a, b) => {
            let (ta, a2) = match semcheck(st, pats, a) {
                Ok(x) => x,
                Err(er) => {
                    return Err(er);
                },
            };
            let (tb, b2) = match semcheck(st, pats, b) {
                Ok(x) => x,
                Err(er) => {
                    return Err(er);
                },
            };
            if ta == Type::Integer && tb == Type::Integer {
                let res = Expr::Arith(*op, Box::new(a2), Box::new(b2));
                proof {
                    assert(res == casted(env, *e));
                }
                Ok((Type::Integer, res))
            } else if ta == Type::Integer {
                Err(CompileError::WrongType { expected: Type::Integer, actual: tb })
            } else {
                Err(CompileError::WrongType { expected: Type::Integer, actual: ta })
            }
        },
        Expr::Cmp(op, a, b) => {
            let (ta, a2) = match semcheck(st, pats, a) {
                Ok(x) => x,
                Err(er) => {
                    return Err(er);
                },
            };
            let (tb, b2) = match semcheck(st, pats, b) {
                Ok(x) => x,
                Err(er) => {
                    return Err(er);
                },
            };
            if ta == Type::Integer && tb == Type::Integer {
                let res = Expr::Cmp(*op, Box::new(a2), Box::new(b2));
                proof {
                    assert(res == casted(env, *e));
                }
                Ok((Type::Bool, res))
            } else if ta == Type::Integer {
                Err(CompileError::WrongType { expected: Type::Integer, actual: tb })
            } else {
                Err(CompileError::WrongType { expected: Type::Integer, actual: ta })
            }
        },
        Expr::BoolCast(a) => {
            let (ta, a2) = match semcheck(st, pats, a) {
                Ok(x) => x,
                Err(er) => {
                    return Err(er);
                },
            };
            if ta == Type::Integer {
                let res = Expr::BoolCast(Box::new(a2));
                proof {
                    assert(res == casted(env, *e));
                }
                Ok((Type::Bool, res))
            } else {
                Err(CompileError::WrongType { expected: Type::Integer, actual: ta })
            }
        },
    }
}

/// The warning raised when a rule's top-level condition is not already
/// boolean: an implicit cast at the top level usually signals unintended
/// logic. Returns `None` for a boolean condition.
pub fn warning_if_not_boolean(t: Type) -> (r: Option<crate::errors::Warning>)
    ensures
        t == Type::Bool <==> r is None,
        r matches Some(w) ==> w matches crate::errors::Warning::NonBooleanAsBoolean {
            actual_type,
        } && actual_type == t,
{
    if t == Type::Bool {
        None
    } else {
        Some(crate::errors::Warning::NonBooleanAsBoolean { actual_type: t })
    }
}

} // verus!
