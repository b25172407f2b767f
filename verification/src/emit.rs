//! Code generation for rule conditions.
//!
//! A condition is lowered to straight-line stack-machine instructions that
//! later become the body of one shared WebAssembly function: invoking that
//! function for a given rule id evaluates exactly that rule's condition.
//!
//! Three-valued logic (true / false / undefined) is compiled without
//! control flow: a boolean is an `i32` holding 0 for false, 1 for
//! undefined, 2 for true, so conjunction is minimum, disjunction is
//! maximum, and negation subtracts from 2. An integer expression carries a
//! definedness flag in a local-variable slot beside its `i64` value.
//!
//! Local-variable slots live in a fixed-capacity LIFO region addressed by
//! slot index and mirrored host-side; `Context::new_var` allocates the next
//! slot and `Context::free_vars` releases in strict reverse-allocation
//! order. After a rule's condition is fully emitted the stack top is back
//! at its starting value.

use vstd::prelude::*;
use crate::ast::{Expr, ArithOp, CmpOp};
use crate::types::{Type, TypeValue, field_pos};
use crate::symbols::{Symbol, SymbolKind, StackedSymbolTable, stack_lookup};
use crate::semcheck::{SemEnv, strict_ty};
use crate::pool::StringPool;
use crate::compiler::CompiledRule;

verus! {

/// Capacity, in slots, of the local-variable stack. Guards against
/// unbounded nesting of variable-consuming constructs.
pub const VARS_CAPACITY: i32 = 16;

/// A host function the generated code can call. The scanning engine
/// provides these when it instantiates the module.
#[derive(Clone, Copy, PartialEq, Eq, Structural, Debug)]
pub enum HostFn {
    /// `() -> i64`: size of the scanned data.
    Filesize,
    /// `(pattern_id: i32) -> i32`: 1 when the pattern matches.
    PatternMatch,
    /// `(rule_id: i32) -> i32`: 1 when the rule already matched.
    RuleMatch,
    /// `(module: i32, field: i32) -> i32`: 1 when the field has a value.
    FieldDef,
    /// `(module: i32, field: i32) -> i64`: the field's integer value.
    FieldI64,
    /// `(module: i32, field: i32) -> i32`: the field's boolean value.
    FieldBool,
}

/// A binary WebAssembly operator used by the generated code.
#[derive(Clone, Copy, PartialEq, Eq, Structural, Debug)]
pub enum BinOp {
    I32Eq,
    I32LtS,
    I32Sub,
    I32And,
    I64Add,
    I64Sub,
    I64Mul,
    I64Eq,
    I64LtS,
    I64LeS,
}

/// A local addressed by the generated code.
#[derive(Clone, Copy, PartialEq, Eq, Structural, Debug)]
pub enum Loc {
    /// The rule id argument of the shared function.
    Arg,
    /// The accumulator holding the selected rule's result.
    Acc,
    /// A slot of the local-variable stack.
    Tmp(u32),
}

/// One instruction of the generated code.
#[derive(Clone, Copy, PartialEq, Eq, Structural, Debug)]
pub enum Instr {
    I32Const(i32),
    I64Const(i64),
    Binop(BinOp),
    Select,
    LocalGet(Loc),
    LocalSet(Loc),
    Call(HostFn),
}

/// Represents a local variable returned by [`Context::new_var`].
#[derive(Clone, Copy, Debug)]
pub struct Var {
    pub ty: Type,
    pub index: i32,
}

/// Transient compilation state for one rule's condition.
pub struct Context {
    /// Top of the local-variable stack. Starts at 0 and moves by one with
    /// each allocation.
    pub vars_stack_top: i32,
}

impl Context {
    /// Fresh state for one rule, with an empty variable stack.
    pub fn new() -> (r: Self)
        ensures
            r.vars_stack_top == 0,
    {
        Context { vars_stack_top: 0 }
    }

    /// Allocates space for a new variable in the stack of local variables.
    /// The capacity is fixed; callers establish room beforehand, which
    /// guards against unbounded nesting.
    pub fn new_var(&mut self, ty: Type) -> (v: Var)
        requires
            0 <= old(self).vars_stack_top < VARS_CAPACITY,
        ensures
            final(self).vars_stack_top == old(self).vars_stack_top + 1,
            v.index == old(self).vars_stack_top,
            v.ty == ty,
    {
        let top = self.vars_stack_top;
        self.vars_stack_top = top + 1;
        Var { ty, index: top }
    }

    /// Frees stack space previously allocated with [`Context::new_var`]:
    /// restores the top of the stack to the mark `top`, releasing
    /// everything allocated after it. Callers free in strict
    /// reverse-allocation order.
    pub fn free_vars(&mut self, top: Var)
        requires
            0 <= top.index <= old(self).vars_stack_top,
        ensures
            final(self).vars_stack_top == top.index,
    {
        self.vars_stack_top = top.index;
    }

    /// Given a pattern identifier (e.g. `$a`), searches for it among the
    /// current rule's patterns and returns its pattern id. The caller
    /// guarantees the pattern is declared; the semantic checker has
    /// already rejected conditions naming undeclared patterns.
    pub fn get_pattern_from_current_rule(
        &self,
        pool: &StringPool,
        rule: &CompiledRule,
        ident: &String,
    ) -> (pid: i32)
        requires
            pattern_pos(pool@, rule.patterns@, ident@) != -1,
        ensures
            pid == rule.patterns@[pattern_pos(pool@, rule.patterns@, ident@)].1,
    {
        let ghost ps = rule.patterns@;
        proof {
            lemma_pattern_pos(pool@, ps, ident@);
        }
        let n = rule.patterns.len();
        for i in 0..n
            invariant
                n == rule.patterns@.len(),
                rule.patterns@ == ps,
                pattern_pos(pool@, ps, ident@) != -1,
                ({
                    let p = pattern_pos(pool@, ps, ident@);
                    &&& 0 <= p < ps.len()
                    &&& i <= p
                }),
        {
            proof {
                lemma_pattern_pos(pool@, ps, ident@);
            }
            let entry_id = rule.patterns[i].0;
            if (entry_id.0 as usize) < pool.len() {
                if *pool.get(entry_id) == *ident {
                    proof {
                        let p = pattern_pos(pool@, ps, ident@);
                        if p != i as int {
                            assert(pool@[ps[i as int].0.0 as int] == ident@);
                        }
                    }
                    return rule.patterns[i].1;
                }
            }
        }
        proof {
            assert(false);
        }
        0
    }
}

/// First position among a rule's pattern pairs whose identifier resolves,
/// through the pool, to `name`; -1 when none does.
pub open spec fn pattern_pos(
    pool: Seq<Seq<char>>,
    pairs: Seq<(crate::pool::IdentId, i32)>,
    name: Seq<char>,
) -> int
    decreases pairs.len(),
{
    if pairs.len() == 0 {
        -1
    } else if pairs[0].0.0 < pool.len() && pool[pairs[0].0.0 as int] == name {
        0
    } else {
        let r = pattern_pos(pool, pairs.drop_first(), name);
        if r == -1 {
            -1
        } else {
            r + 1
        }
    }
}

/// `pattern_pos` returns -1 exactly when no pair resolves to the name, and
/// otherwise the first position that does.
pub proof fn lemma_pattern_pos(
    pool: Seq<Seq<char>>,
    pairs: Seq<(crate::pool::IdentId, i32)>,
    name: Seq<char>,
)
    ensures
        pattern_pos(pool, pairs, name) == -1 ==> forall|i: int|
            0 <= i < pairs.len() ==> !(pairs[i].0.0 < pool.len() && pool[pairs[i].0.0 as int]
                == name),
        pattern_pos(pool, pairs, name) != -1 ==> {
            let p = pattern_pos(pool, pairs, name);
            &&& 0 <= p < pairs.len()
            &&& pairs[p].0.0 < pool.len()
            &&& pool[pairs[p].0.0 as int] == name
            &&& forall|i: int|
                0 <= i < p ==> !(pairs[i].0.0 < pool.len() && pool[pairs[i].0.0 as int] == name)
        },
    decreases pairs.len(),
{
    if pairs.len() != 0 {
        if !(pairs[0].0.0 < pool.len() && pool[pairs[0].0.0 as int] == name) {
            let t = pairs.drop_first();
            lemma_pattern_pos(pool, t, name);
            assert(forall|i: int| 0 <= i < t.len() ==> t[i] == pairs[i + 1]);
            let r = pattern_pos(pool, t, name);
            if r == -1 {
                assert forall|i: int| 0 <= i < pairs.len() implies !(pairs[i].0.0 < pool.len()
                    && pool[pairs[i].0.0 as int] == name) by {
                    if i > 0 {
                        assert(pairs[i] == t[i - 1]);
                    }
                }
            } else {
                assert(pairs[r + 1] == t[r]);
                assert forall|i: int| 0 <= i < r + 1 implies !(pairs[i].0.0 < pool.len()
                    && pool[pairs[i].0.0 as int] == name) by {
                    if i > 0 {
                        assert(pairs[i] == t[i - 1]);
                    }
                }
            }
        }
    }
}

/// A symbol the code generator can rely on: a field-offset symbol fits in
/// an `i32` and carries a well-formed structural type.
pub open spec fn sym_wf(s: Symbol) -> bool {
    &&& match s.kind {
        SymbolKind::FieldIndex(mi) => mi < 0x8000_0000,
        _ => true,
    }
    &&& match s.type_value {
        TypeValue::Struct(st) => st.wf(),
        _ => true,
    }
}

/// Every symbol reachable from the stack of scopes is well-formed.
pub open spec fn table_wf(scopes: Seq<Seq<(Seq<char>, Symbol)>>) -> bool {
    forall|i: int, j: int|
        0 <= i < scopes.len() && 0 <= j < scopes[i].len() ==> sym_wf(
            #[trigger] scopes[i][j].1,
        )
}

/// A symbol found in one well-formed scope is well-formed.
pub proof fn lemma_scope_lookup_wf(sc: Seq<(Seq<char>, Symbol)>, name: Seq<char>)
    requires
        forall|j: int| 0 <= j < sc.len() ==> sym_wf(#[trigger] sc[j].1),
    ensures
        match crate::symbols::scope_lookup(sc, name) {
            Some(s) => sym_wf(s),
            None => true,
        },
    decreases sc.len(),
{
    if sc.len() > 0 {
        if sc.last().0 != name {
            let t = sc.drop_last();
            assert(forall|j: int| 0 <= j < t.len() ==> t[j] == sc[j]);
            lemma_scope_lookup_wf(t, name);
        }
    }
}

/// A symbol found in a well-formed stack of scopes is well-formed.
pub proof fn lemma_stack_lookup_wf(scopes: Seq<Seq<(Seq<char>, Symbol)>>, name: Seq<char>)
    requires
        table_wf(scopes),
    ensures
        match stack_lookup(scopes, name) {
            Some(s) => sym_wf(s),
            None => true,
        },
    decreases scopes.len(),
{
    if scopes.len() > 0 {
        lemma_scope_lookup_wf(scopes.last(), name);
        let t = scopes.drop_last();
        assert(forall|i: int| 0 <= i < t.len() ==> t[i] == scopes[i]);
        lemma_stack_lookup_wf(t, name);
    }
}

/// Largest number of local-variable slots live at once while emitting `e`.
pub open spec fn needed(e: Expr) -> nat
    decreases e,
{
    match e {
        Expr::Not(a) => needed(*a),
        Expr::And(a, b) => 2 + if needed(*a) >= needed(*b) {
            needed(*a)
        } else {
            needed(*b)
        },
        Expr::Or(a, b) => 2 + if needed(*a) >= needed(*b) {
            needed(*a)
        } else {
            needed(*b)
        },
        Expr::Arith(_, a, b) => if needed(*a) >= needed(*b) {
            needed(*a)
        } else {
            needed(*b)
        },
        Expr::Cmp(_, a, b) => 1 + if needed(*a) >= needed(*b) {
            needed(*a)
        } else {
            needed(*b)
        },
        Expr::BoolCast(a) => 1 + needed(*a),
        _ => 0,
    }
}

/// Decides whether emitting `e` stays within `budget` free slots of the
/// local-variable stack.
pub fn fits(e: &Expr, budget: i32) -> (r: bool)
    requires
        0 <= budget,
    ensures
        r == (needed(*e) <= budget),
    decreases *e,
{
    match e {
        Expr::Not(a) => fits(a, budget),
        Expr::And(a, b) => budget >= 2 && fits(a, budget - 2) && fits(b, budget - 2),
        Expr::Or(a, b) => budget >= 2 && fits(a, budget - 2) && fits(b, budget - 2),
        Expr::Arith(_, a, b) => fits(a, budget) && fits(b, budget),
        Expr::Cmp(_, a, b) => budget >= 1 && fits(a, budget - 1) && fits(b, budget - 1),
        Expr::BoolCast(a) => budget >= 1 && fits(a, budget - 1),
        _ => true,
    }
}

/// The pattern pairs of a compiled rule resolve, in order, to the declared
/// pattern names the checker saw.
pub open spec fn pats_match(
    pool: Seq<Seq<char>>,
    pairs: Seq<(crate::pool::IdentId, i32)>,
    names: Seq<Seq<char>>,
) -> bool {
    &&& pairs.len() == names.len()
    &&& forall|i: int|
        0 <= i < pairs.len() ==> (#[trigger] pairs[i]).0.0 < pool.len() && pool[pairs[i].0.0
            as int] == names[i]
}

/// A declared pattern name is found by `pattern_pos`.
pub proof fn lemma_declared_pattern_found(
    pool: Seq<Seq<char>>,
    pairs: Seq<(crate::pool::IdentId, i32)>,
    names: Seq<Seq<char>>,
    name: Seq<char>,
)
    requires
        pats_match(pool, pairs, names),
        names.contains(name),
    ensures
        pattern_pos(pool, pairs, name) != -1,
{
    let w = choose|w: int| 0 <= w < names.len() && names[w] == name;
    lemma_pattern_pos(pool, pairs, name);
    if pattern_pos(pool, pairs, name) == -1 {
        assert(!(pairs[w].0.0 < pool.len() && pool[pairs[w].0.0 as int] == name));
        assert(false);
    }
}

/// An instruction the fixed builder setup can accept: a stack slot must
/// name one of the `VARS_CAPACITY` locals.
pub open spec fn instr_ok(i: Instr) -> bool {
    match i {
        Instr::LocalGet(l) => match l {
            Loc::Tmp(t) => t < VARS_CAPACITY as u32,
            _ => true,
        },
        Instr::LocalSet(l) => match l {
            Loc::Tmp(t) => t < VARS_CAPACITY as u32,
            _ => true,
        },
        _ => true,
    }
}

/// Every instruction of the sequence is acceptable.
pub open spec fn code_ok(c: Seq<Instr>) -> bool {
    forall|j: int| 0 <= j < c.len() ==> instr_ok(#[trigger] c[j])
}

/// Everything condition code references beyond the expression itself: the
/// scopes resolving identifiers, the pool resolving interned names, and
/// the current rule's pattern pairs.
pub struct CodeEnv {
    pub scopes: Seq<Seq<(Seq<char>, Symbol)>>,
    pub pool: Seq<Seq<char>>,
    pub pairs: Seq<(crate::pool::IdentId, i32)>,
}

/// The operator an integer arithmetic node lowers to.
pub open spec fn arith_binop(op: ArithOp) -> BinOp {
    match op {
        ArithOp::Add => BinOp::I64Add,
        ArithOp::Sub => BinOp::I64Sub,
        ArithOp::Mul => BinOp::I64Mul,
    }
}

/// The operator a comparison lowers to; the negated and flipped forms are
/// handled by swapping select values and operand order instead.
pub open spec fn cmp_binop(op: CmpOp) -> BinOp {
    match op {
        CmpOp::Eq => BinOp::I64Eq,
        CmpOp::Ne => BinOp::I64Eq,
        CmpOp::Lt => BinOp::I64LtS,
        CmpOp::Gt => BinOp::I64LtS,
        CmpOp::Le => BinOp::I64LeS,
        CmpOp::Ge => BinOp::I64LeS,
    }
}

/// The (module index, field index) pair a field access resolves to, or
/// `None` when it does not resolve to a structure field.
pub open spec fn field_coords(env: CodeEnv, m: Seq<char>, f: Seq<char>) -> Option<(u32, u32)> {
    match stack_lookup(env.scopes, m) {
        Some(sym) => match (sym.kind, sym.type_value) {
            (SymbolKind::FieldIndex(mi), TypeValue::Struct(st)) => {
                let p = field_pos(st.fields@, f);
                if p == -1 {
                    None
                } else {
                    Some((mi, st.fields@[p].index))
                }
            },
            _ => None,
        },
        None => None,
    }
}

/// The instructions emitted for a boolean expression, with the
/// local-variable stack top at `top` when emission starts. This is the
/// exact stream `emit_bool_expr` appends.
pub open spec fn compiled_bool(env: CodeEnv, top: int, e: Expr) -> Seq<Instr>
    decreases e,
{
    match e {
        Expr::True => seq![Instr::I32Const(2)],
        Expr::False => seq![Instr::I32Const(0)],
        Expr::Pattern(n) => {
            let pid = env.pairs[pattern_pos(env.pool, env.pairs, n@)].1;
            seq![
                Instr::I32Const(2),
                Instr::I32Const(0),
                Instr::I32Const(pid),
                Instr::Call(HostFn::PatternMatch),
                Instr::Select,
            ]
        },
        Expr::Ident(n) => match stack_lookup(env.scopes, n@) {
            Some(sym) => match sym.kind {
                SymbolKind::Rule(rid) => seq![
                    Instr::I32Const(2),
                    Instr::I32Const(0),
                    Instr::I32Const(rid),
                    Instr::Call(HostFn::RuleMatch),
                    Instr::Select,
                ],
                _ => Seq::<Instr>::empty(),
            },
            None => Seq::<Instr>::empty(),
        },
        Expr::Field(m, f) => match field_coords(env, m@, f@) {
            Some(c) => seq![
                Instr::I32Const(2),
                Instr::I32Const(0),
                Instr::I32Const(c.0 as i32),
                Instr::I32Const(c.1 as i32),
                Instr::Call(HostFn::FieldBool),
                Instr::Select,
                Instr::I32Const(1),
                Instr::I32Const(c.0 as i32),
                Instr::I32Const(c.1 as i32),
                Instr::Call(HostFn::FieldDef),
                Instr::Select,
            ],
            None => Seq::<Instr>::empty(),
        },
        Expr::Not(a) => seq![Instr::I32Const(2)] + compiled_bool(env, top, *a) + seq![
            Instr::Binop(BinOp::I32Sub),
        ],
        Expr::And(a, b) => compiled_bool(env, top + 2, *a) + seq![
            Instr::LocalSet(Loc::Tmp(top as u32)),
        ] + compiled_bool(env, top + 2, *b) + seq![
            Instr::LocalSet(Loc::Tmp((top + 1) as u32)),
            Instr::LocalGet(Loc::Tmp(top as u32)),
            Instr::LocalGet(Loc::Tmp((top + 1) as u32)),
            Instr::LocalGet(Loc::Tmp(top as u32)),
            Instr::LocalGet(Loc::Tmp((top + 1) as u32)),
            Instr::Binop(BinOp::I32LtS),
            Instr::Select,
        ],
        Expr::Or(a, b) => compiled_bool(env, top + 2, *a) + seq![
            Instr::LocalSet(Loc::Tmp(top as u32)),
        ] + compiled_bool(env, top + 2, *b) + seq![
            Instr::LocalSet(Loc::Tmp((top + 1) as u32)),
            Instr::LocalGet(Loc::Tmp((top + 1) as u32)),
            Instr::LocalGet(Loc::Tmp(top as u32)),
            Instr::LocalGet(Loc::Tmp(top as u32)),
            Instr::LocalGet(Loc::Tmp((top + 1) as u32)),
            Instr::Binop(BinOp::I32LtS),
            Instr::Select,
        ],
        Expr::Cmp(op, a, b) => {
            let vals = if op is Ne {
                seq![Instr::I32Const(0), Instr::I32Const(2)]
            } else {
                seq![Instr::I32Const(2), Instr::I32Const(0)]
            };
            let operands = if op is Gt || op is Ge {
                compiled_int(env, top, *b) + compiled_int(env, top, *a)
            } else {
                compiled_int(env, top, *a) + compiled_int(env, top, *b)
            };
            seq![Instr::I32Const(1), Instr::LocalSet(Loc::Tmp(top as u32))] + vals + operands
                + seq![
                Instr::Binop(cmp_binop(op)),
                Instr::Select,
                Instr::I32Const(1),
                Instr::LocalGet(Loc::Tmp(top as u32)),
                Instr::Select,
            ]
        },
        Expr::BoolCast(a) => seq![
            Instr::I32Const(1),
            Instr::LocalSet(Loc::Tmp(top as u32)),
            Instr::I32Const(0),
            Instr::I32Const(2),
        ] + compiled_int(env, top, *a) + seq![
            Instr::I64Const(0),
            Instr::Binop(BinOp::I64Eq),
            Instr::Select,
            Instr::I32Const(1),
            Instr::LocalGet(Loc::Tmp(top as u32)),
            Instr::Select,
        ],
        Expr::IntLit(_) => Seq::<Instr>::empty(),
        Expr::Filesize => Seq::<Instr>::empty(),
        Expr::Arith(_, _, _) => Seq::<Instr>::empty(),
    }
}

/// The instructions emitted for an integer expression whose definedness
/// flag lives in slot `dv`. This is the exact stream `emit_int_expr`
/// appends.
pub open spec fn compiled_int(env: CodeEnv, dv: int, e: Expr) -> Seq<Instr>
    decreases e,
{
    match e {
        Expr::IntLit(v) => seq![Instr::I64Const(v)],
        Expr::Filesize => seq![Instr::Call(HostFn::Filesize)],
        Expr::Field(m, f) => match field_coords(env, m@, f@) {
            Some(c) => seq![
                Instr::LocalGet(Loc::Tmp(dv as u32)),
                Instr::I32Const(c.0 as i32),
                Instr::I32Const(c.1 as i32),
                Instr::Call(HostFn::FieldDef),
                Instr::Binop(BinOp::I32And),
                Instr::LocalSet(Loc::Tmp(dv as u32)),
                Instr::I32Const(c.0 as i32),
                Instr::I32Const(c.1 as i32),
                Instr::Call(HostFn::FieldI64),
            ],
            None => Seq::<Instr>::empty(),
        },
        Expr::Arith(op, a, b) => compiled_int(env, dv, *a) + compiled_int(env, dv, *b) + seq![
            Instr::Binop(arith_binop(op)),
        ],
        _ => Seq::<Instr>::empty(),
    }
}

/// The instructions emitted for one whole rule: the condition's code, then
/// the accumulator update that takes effect exactly when the function's
/// rule-id argument equals `rid`.
pub open spec fn compiled_rule_code(env: CodeEnv, top: int, rid: i32, cond: Expr) -> Seq<Instr> {
    compiled_bool(env, top, cond) + seq![
        Instr::LocalGet(Loc::Acc),
        Instr::LocalGet(Loc::Arg),
        Instr::I32Const(rid),
        Instr::Binop(BinOp::I32Eq),
        Instr::Select,
        Instr::LocalSet(Loc::Acc),
    ]
}

/// Emits code that leaves the three-valued result of the boolean
/// expression `e` on the operand stack, as a single `i32`: exactly the
/// stream `compiled_bool` states, every instruction within the builder's
/// slot bounds. The local-variable stack top is exactly restored: every
/// slot allocated while emitting is freed.
#[verifier::rlimit(100)]
#[verifier::spinoff_prover]
pub fn emit_bool_expr(
    e: &Expr,
    st: &StackedSymbolTable,
    pool: &StringPool,
    rule: &CompiledRule,
    pat_names: Ghost<Seq<Seq<char>>>,
    ctx: &mut Context,
    code: &mut Vec<Instr>,
)
    requires
        strict_ty(SemEnv { scopes: st@, patterns: pat_names@ }, *e) == Some(Type::Bool),
        table_wf(st@),
        pats_match(pool@, rule.patterns@, pat_names@),
        0 <= old(ctx).vars_stack_top,
        old(ctx).vars_stack_top + needed(*e) <= VARS_CAPACITY,
    ensures
        final(ctx).vars_stack_top == old(ctx).vars_stack_top,
        final(code)@ == old(code)@ + compiled_bool(
            CodeEnv { scopes: st@, pool: pool@, pairs: rule.patterns@ },
            old(ctx).vars_stack_top as int,
            *e,
        ),
        final(code)@.len() > old(code)@.len(),
        forall|j: int|
            old(code)@.len() <= j < final(code)@.len() ==> instr_ok(#[trigger] final(code)@[j]),
    decreases *e,
{
    let ghost env = SemEnv { scopes: st@, patterns: pat_names@ };
    let ghost cenv = CodeEnv { scopes: st@, pool: pool@, pairs: rule.patterns@ };
    let ghost c0 = code@;
    let ghost top0 = ctx.vars_stack_top as int;
    match e {
        Expr::True => {
            code.push(Instr::I32Const(2));
            proof {
                assert(code@ =~= c0 + compiled_bool(cenv, top0, *e));
            }
        },
        Expr::False => {
            code.push(Instr::I32Const(0));
            proof {
                assert(code@ =~= c0 + compiled_bool(cenv, top0, *e));
            }
        },
        Expr::Pattern(n) => {
            proof {
                lemma_declared_pattern_found(pool@, rule.patterns@, pat_names@, n@);
            }
            let pid = ctx.get_pattern_from_current_rule(pool, rule, n);
            code.push(Instr::I32Const(2));
            code.push(Instr::I32Const(0));
            code.push(Instr::I32Const(pid));
            code.push(Instr::Call(HostFn::PatternMatch));
            code.push(Instr::Select);
            proof {
                assert(code@ =~= c0 + compiled_bool(cenv, top0, *e));
            }
        },
        Expr::Ident(n) => {
            match st.lookup(n) {
                Some(sym) => match &sym.kind {
                    SymbolKind::Rule(rid) => {
                        code.push(Instr::I32Const(2));
                        code.push(Instr::I32Const(0));
                        code.push(Instr::I32Const(*rid));
                        code.push(Instr::Call(HostFn::RuleMatch));
                        code.push(Instr::Select);
                        proof {
                            assert(code@ =~= c0 + compiled_bool(cenv, top0, *e));
                        }
                    },
                    _ => {
                        proof {
                            assert(false);
                        }
                    },
                },
                None => {
                    proof {
                        assert(false);
                    }
                },
            }
        },
        Expr::Field(m, f) => {
            proof {
                lemma_stack_lookup_wf(st@, m@);
            }
            match st.lookup(m) {
                Some(sym) => {
                    let mi: u32 = match &sym.kind {
                        SymbolKind::FieldIndex(mi) => *mi,
                        _ => {
                            proof {
                                assert(false);
                            }
                            0
                        },
                    };
                    match &sym.type_value {
                        TypeValue::Struct(stt) => {
                            match stt.field_by_name(f) {
                                Some(fld) => {
                                    let fi: u32 = fld.index;
                                    proof {
                                        assert(field_coords(cenv, m@, f@) == Some((mi, fi)));
                                    }
                                    code.push(Instr::I32Const(2));
                                    code.push(Instr::I32Const(0));
                                    code.push(Instr::I32Const(mi as i32));
                                    code.push(Instr::I32Const(fi as i32));
                                    code.push(Instr::Call(HostFn::FieldBool));
                                    code.push(Instr::Select);
                                    code.push(Instr::I32Const(1));
                                    code.push(Instr::I32Const(mi as i32));
                                    code.push(Instr::I32Const(fi as i32));
                                    code.push(Instr::Call(HostFn::FieldDef));
                                    code.push(Instr::Select);
                                    proof {
                                        assert(code@ =~= c0 + compiled_bool(cenv, top0, *e));
                                    }
                                },
                                None => {
                                    proof {
                                        assert(false);
                                    }
                                },
                            }
                        },
                        _ => {
                            proof {
                                assert(false);
                            }
                        },
                    }
                },
                None => {
                    proof {
                        assert(false);
                    }
                },
            }
        },
        Expr::Not(a) => {
            code.push(Instr::I32Const(2));
            emit_bool_expr(a, st, pool, rule, pat_names, ctx, code);
            code.push(Instr::Binop(BinOp::I32Sub));
            proof {
                assert(code@ =~= c0 + compiled_bool(cenv, top0, *e));
            }
        },
        Expr::And(a, b) => {
            let t0 = ctx.new_var(Type::Bool);
            let t1 = ctx.new_var(Type::Bool);
            emit_bool_expr(a, st, pool, rule, pat_names, ctx, code);
            code.push(Instr::LocalSet(Loc::Tmp(t0.index as u32)));
            emit_bool_expr(b, st, pool, rule, pat_names, ctx, code);
            code.push(Instr::LocalSet(Loc::Tmp(t1.index as u32)));
            code.push(Instr::LocalGet(Loc::Tmp(t0.index as u32)));
            code.push(Instr::LocalGet(Loc::Tmp(t1.index as u32)));
            code.push(Instr::LocalGet(Loc::Tmp(t0.index as u32)));
            code.push(Instr::LocalGet(Loc::Tmp(t1.index as u32)));
            code.push(Instr::Binop(BinOp::I32LtS));
            code.push(Instr::Select);
            ctx.free_vars(t0);
            proof {
                assert(code@ =~= c0 + compiled_bool(cenv, top0, *e));
            }
        },
        Expr::Or(a, b) => {
            let t0 = ctx.new_var(Type::Bool);
            let t1 = ctx.new_var(Type::Bool);
            emit_bool_expr(a, st, pool, rule, pat_names, ctx, code);
            code.push(Instr::LocalSet(Loc::Tmp(t0.index as u32)));
            emit_bool_expr(b, st, pool, rule, pat_names, ctx, code);
            code.push(Instr::LocalSet(Loc::Tmp(t1.index as u32)));
            code.push(Instr::LocalGet(Loc::Tmp(t1.index as u32)));
            code.push(Instr::LocalGet(Loc::Tmp(t0.index as u32)));
            code.push(Instr::LocalGet(Loc::Tmp(t0.index as u32)));
            code.push(Instr::LocalGet(Loc::Tmp(t1.index as u32)));
            code.push(Instr::Binop(BinOp::I32LtS));
            code.push(Instr::Select);
            ctx.free_vars(t0);
            proof {
                assert(code@ =~= c0 + compiled_bool(cenv, top0, *e));
            }
        },
        Expr::Cmp(op, a, b) => {
            let d = ctx.new_var(Type::Integer);
            code.push(Instr::I32Const(1));
            code.push(Instr::LocalSet(Loc::Tmp(d.index as u32)));
            match op {
                CmpOp::Ne => {
                    code.push(Instr::I32Const(0));
                    code.push(Instr::I32Const(2));
                },
                _ => {
                    code.push(Instr::I32Const(2));
                    code.push(Instr::I32Const(0));
                },
            }
            match op {
                CmpOp::Gt | CmpOp::Ge => {
                    emit_int_expr(b, st, pool, rule, pat_names, &d, ctx, code);
                    emit_int_expr(a, st, pool, rule, pat_names, &d, ctx, code);
                },
                _ => {
                    emit_int_expr(a, st, pool, rule, pat_names, &d, ctx, code);
                    emit_int_expr(b, st, pool, rule, pat_names, &d, ctx, code);
                },
            }
            match op {
                CmpOp::Eq | CmpOp::Ne => code.push(Instr::Binop(BinOp::I64Eq)),
                CmpOp::Lt | CmpOp::Gt => code.push(Instr::Binop(BinOp::I64LtS)),
                CmpOp::Le | CmpOp::Ge => code.push(Instr::Binop(BinOp::I64LeS)),
            }
            code.push(Instr::Select);
            code.push(Instr::I32Const(1));
            code.push(Instr::LocalGet(Loc::Tmp(d.index as u32)));
            code.push(Instr::Select);
            ctx.free_vars(d);
            proof {
                assert(code@ =~= c0 + compiled_bool(cenv, top0, *e));
            }
        },
        Expr::BoolCast(a) => {
            let d = ctx.new_var(Type::Integer);
            code.push(Instr::I32Const(1));
            code.push(Instr::LocalSet(Loc::Tmp(d.index as u32)));
            code.push(Instr::I32Const(0));
            code.push(Instr::I32Const(2));
            emit_int_expr(a, st, pool, rule, pat_names, &d, ctx, code);
            code.push(Instr::I64Const(0));
            code.push(Instr::Binop(BinOp::I64Eq));
            code.push(Instr::Select);
            code.push(Instr::I32Const(1));
            code.push(Instr::LocalGet(Loc::Tmp(d.index as u32)));
            code.push(Instr::Select);
            ctx.free_vars(d);
            proof {
                assert(code@ =~= c0 + compiled_bool(cenv, top0, *e));
            }
        },
        _ => {
            proof {
                assert(false);
            }
        },
    }
}

/// Emits code that leaves the `i64` value of the integer expression `e` on
/// the operand stack — exactly the stream `compiled_int` states — and
/// clears the definedness flag held in slot `def_var` whenever a
/// sub-expression's value is absent at scan time.
#[verifier::rlimit(100)]
#[verifier::spinoff_prover]
pub fn emit_int_expr(
    e: &Expr,
    st: &StackedSymbolTable,
    pool: &StringPool,
    rule: &CompiledRule,
    pat_names: Ghost<Seq<Seq<char>>>,
    def_var: &Var,
    ctx: &mut Context,
    code: &mut Vec<Instr>,
)
    requires
        strict_ty(SemEnv { scopes: st@, patterns: pat_names@ }, *e) == Some(Type::Integer),
        table_wf(st@),
        pats_match(pool@, rule.patterns@, pat_names@),
        0 <= def_var.index < VARS_CAPACITY,
        0 <= old(ctx).vars_stack_top,
        old(ctx).vars_stack_top + needed(*e) <= VARS_CAPACITY,
    ensures
        final(ctx).vars_stack_top == old(ctx).vars_stack_top,
        final(code)@ == old(code)@ + compiled_int(
            CodeEnv { scopes: st@, pool: pool@, pairs: rule.patterns@ },
            def_var.index as int,
            *e,
        ),
        final(code)@.len() > old(code)@.len(),
        forall|j: int|
            old(code)@.len() <= j < final(code)@.len() ==> instr_ok(#[trigger] final(code)@[j]),
    decreases *e,
{
    let ghost env = SemEnv { scopes: st@, patterns: pat_names@ };
    let ghost cenv = CodeEnv { scopes: st@, pool: pool@, pairs: rule.patterns@ };
    let ghost c0 = code@;
    let ghost dv = def_var.index as int;
    match e {
        Expr::IntLit(v) => {
            code.push(Instr::I64Const(*v));
            proof {
                assert(code@ =~= c0 + compiled_int(cenv, dv, *e));
            }
        },
        Expr::Filesize => {
            code.push(Instr::Call(HostFn::Filesize));
            proof {
                assert(code@ =~= c0 + compiled_int(cenv, dv, *e));
            }
        },
        Expr::Field(m, f) => {
            proof {
                lemma_stack_lookup_wf(st@, m@);
            }
            match st.lookup(m) {
                Some(sym) => {
                    let mi: u32 = match &sym.kind {
                        SymbolKind::FieldIndex(mi) => *mi,
                        _ => {
                            proof {
                                assert(false);
                            }
                            0
                        },
                    };
                    match &sym.type_value {
                        TypeValue::Struct(stt) => {
                            match stt.field_by_name(f) {
                                Some(fld) => {
                                    let fi: u32 = fld.index;
                                    proof {
                                        assert(field_coords(cenv, m@, f@) == Some((mi, fi)));
                                    }
                                    code.push(Instr::LocalGet(Loc::Tmp(def_var.index as u32)));
                                    code.push(Instr::I32Const(mi as i32));
                                    code.push(Instr::I32Const(fi as i32));
                                    code.push(Instr::Call(HostFn::FieldDef));
                                    code.push(Instr::Binop(BinOp::I32And));
                                    code.push(Instr::LocalSet(Loc::Tmp(def_var.index as u32)));
                                    code.push(Instr::I32Const(mi as i32));
                                    code.push(Instr::I32Const(fi as i32));
                                    code.push(Instr::Call(HostFn::FieldI64));
                                    proof {
                                        assert(code@ =~= c0 + compiled_int(cenv, dv, *e));
                                    }
                                },
                                None => {
                                    proof {
                                        assert(false);
                                    }
                                },
                            }
                        },
                        _ => {
                            proof {
                                assert(false);
                            }
                        },
                    }
                },
                None => {
                    proof {
                        assert(false);
                    }
                },
            }
        },
        Expr::Arith(op, a, b) => {
            emit_int_expr(a, st, pool, rule, pat_names, def_var, ctx, code);
            emit_int_expr(b, st, pool, rule, pat_names, def_var, ctx, code);
            match op {
                ArithOp::Add => code.push(Instr::Binop(BinOp::I64Add)),
                ArithOp::Sub => code.push(Instr::Binop(BinOp::I64Sub)),
                ArithOp::Mul => code.push(Instr::Binop(BinOp::I64Mul)),
            }
            proof {
                assert(code@ =~= c0 + compiled_int(cenv, dv, *e));
            }
        },
        _ => {
            proof {
                assert(false);
            }
        },
    }
}

/// Emits the code for one rule's condition into the shared function body —
/// exactly the stream `compiled_rule_code` states: the condition's
/// three-valued result replaces the accumulator exactly when the
/// function's rule-id argument equals `rule_id`. After the whole condition
/// is emitted, the local-variable stack top is back at its starting value.
pub fn emit_rule_code(
    ctx: &mut Context,
    code: &mut Vec<Instr>,
    rule_id: i32,
    cond: &Expr,
    st: &StackedSymbolTable,
    pool: &StringPool,
    rule: &CompiledRule,
    pat_names: Ghost<Seq<Seq<char>>>,
)
    requires
        strict_ty(SemEnv { scopes: st@, patterns: pat_names@ }, *cond) == Some(Type::Bool),
        table_wf(st@),
        pats_match(pool@, rule.patterns@, pat_names@),
        0 <= old(ctx).vars_stack_top,
        old(ctx).vars_stack_top + needed(*cond) <= VARS_CAPACITY,
    ensures
        final(ctx).vars_stack_top == old(ctx).vars_stack_top,
        final(code)@ == old(code)@ + compiled_rule_code(
            CodeEnv { scopes: st@, pool: pool@, pairs: rule.patterns@ },
            old(ctx).vars_stack_top as int,
            rule_id,
            *cond,
        ),
        final(code)@.len() > old(code)@.len(),
        forall|j: int|
            old(code)@.len() <= j < final(code)@.len() ==> instr_ok(#[trigger] final(code)@[j]),
{
    let ghost cenv = CodeEnv { scopes: st@, pool: pool@, pairs: rule.patterns@ };
    let ghost c0 = code@;
    let ghost top0 = ctx.vars_stack_top as int;
    emit_bool_expr(cond, st, pool, rule, pat_names, ctx, code);
    code.push(Instr::LocalGet(Loc::Acc));
    code.push(Instr::LocalGet(Loc::Arg));
    code.push(Instr::I32Const(rule_id));
    code.push(Instr::Binop(BinOp::I32Eq));
    code.push(Instr::Select);
    code.push(Instr::LocalSet(Loc::Acc));
    proof {
        assert(code@ =~= c0 + compiled_rule_code(cenv, top0, rule_id, *cond));
    }
}

} // verus!
