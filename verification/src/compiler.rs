//! The compiler orchestrator and its build products.
//!
//! `add_source` drives the pipeline for one parsed compilation unit: one
//! symbol-table scope per namespace, import processing, then per rule
//! pattern registration, rule-symbol registration, semantic checking and
//! code emission. State accumulates across calls, so compilation can be
//! split over several units while still cross-referencing rules and
//! modules. `build` finalizes the code module, compiles it natively and
//! returns the immutable artifact.

use vstd::prelude::*;
use vstd::string::StringExecFns;
use crate::pool::{IdentId, StringPool, BStringPool};
use crate::types::{Type, TypeValue, StructType, field_pos, lemma_field_pos};
use crate::symbols::{Symbol, SymbolKind, StackedSymbolTable, stack_lookup, scope_lookup};
use crate::ast::{Ast, Namespace, Import, Rule, Expr};
use crate::errors::{Error, CompileError, Warning};
use crate::registry::builtin_module;
use crate::semcheck::{
    SemEnv, semcheck, strict_ty, lenient_ty, warning_if_not_boolean, casted_condition,
};
use crate::emit::{
    Context, Instr, Loc, HostFn, table_wf, sym_wf, fits, emit_rule_code, VARS_CAPACITY, code_ok,
    instr_ok, needed, CodeEnv, compiled_rule_code,
};
use crate::backend::{
    ModuleBuilder, mb_code, mb_hosts, host_order, wasm_encoding, engine_new, module_from_binary,
};

verus! {

/// Each of the individual rules included in the build product.
pub struct CompiledRule {
    /// The id of the rule identifier in the identifiers pool.
    pub ident: IdentId,

    /// All the patterns declared by this rule, in declaration order: the id
    /// of the pattern's identifier paired with the pattern's id.
    pub patterns: Vec<(IdentId, i32)>,
}

/// A pattern in the compiled rules. Its matching data belongs to the
/// pattern-matching subsystem and is opaque here.
pub struct Pattern {}

/// Builds error and warning reports; only its colour setting matters to
/// the compiler, the rendering itself is external.
pub struct ReportBuilder {
    pub colorize: bool,
}

impl ReportBuilder {
    /// A report builder with colours off.
    pub fn new() -> (r: Self)
        ensures
            r.colorize == false,
    {
        ReportBuilder { colorize: false }
    }

    /// Switches ANSI styling of diagnostics on or off.
    pub fn with_colors(&mut self, b: bool)
        ensures
            final(self).colorize == b,
    {
        self.colorize = b;
    }
}

/// Every id stored in a compiled rule stays resolvable in the pool.
pub open spec fn rule_ids_wf(pool: Seq<Seq<char>>, r: CompiledRule) -> bool {
    &&& r.ident.0 < pool.len()
    &&& forall|j: int| 0 <= j < r.patterns@.len() ==> (#[trigger] r.patterns@[j]).0.0 < pool.len()
}

/// Inserting into the innermost scope resolves the inserted name to the
/// inserted symbol and leaves every other name's resolution unchanged.
pub proof fn lemma_insert_top(
    scopes: Seq<Seq<(Seq<char>, Symbol)>>,
    name: Seq<char>,
    sym: Symbol,
    q: Seq<char>,
)
    requires
        scopes.len() > 0,
    ensures
        stack_lookup(
            scopes.update(scopes.len() - 1, scopes.last().push((name, sym))),
            q,
        ) == if q == name {
            Some(sym)
        } else {
            stack_lookup(scopes, q)
        },
{
    let ns = scopes.update(scopes.len() - 1, scopes.last().push((name, sym)));
    assert(ns.last() == scopes.last().push((name, sym)));
    assert(ns.last().last() == (name, sym));
    assert(ns.last().drop_last() =~= scopes.last());
    assert(ns.drop_last() =~= scopes.drop_last());
    if q == name {
        assert(scope_lookup(ns.last(), q) == Some(sym));
    } else {
        assert(scope_lookup(ns.last(), q) == scope_lookup(scopes.last(), q));
    }
}

/// Inserting a well-formed symbol keeps the whole table well-formed.
pub proof fn lemma_table_wf_insert(
    scopes: Seq<Seq<(Seq<char>, Symbol)>>,
    name: Seq<char>,
    sym: Symbol,
)
    requires
        table_wf(scopes),
        sym_wf(sym),
        scopes.len() > 0,
    ensures
        table_wf(scopes.update(scopes.len() - 1, scopes.last().push((name, sym)))),
{
    let ns = scopes.update(scopes.len() - 1, scopes.last().push((name, sym)));
    assert forall|i: int, j: int|
        0 <= i < ns.len() && 0 <= j < ns[i].len() implies sym_wf(#[trigger] ns[i][j].1) by {
        if i == ns.len() - 1 {
            if j < scopes.last().len() {
                assert(ns[i][j] == scopes[i][j]);
                assert(sym_wf(scopes[i][j].1));
            } else {
                assert(ns[i][j] == (name, sym));
            }
        } else {
            assert(ns[i] == scopes[i]);
            assert(sym_wf(scopes[i][j].1));
        }
    }
}

/// A compiler instance. State accumulates across `add_source` calls.
pub struct Compiler {
    /// Used for generating error and warning reports.
    pub report_builder: ReportBuilder,

    /// The main symbol table used by the compiler.
    pub symbol_table: StackedSymbolTable,

    /// Pool with every identifier used by the rules, each interned once.
    pub ident_pool: StringPool,

    /// Pool with the literal byte strings found in the rules.
    pub lit_pool: BStringPool,

    /// The instructions emitted so far for all rule conditions.
    pub code: Vec<Instr>,

    /// Every compiled rule; a rule id is an index in this vector.
    pub rules: Vec<CompiledRule>,

    /// Every pattern from every rule; a pattern id is an index here.
    pub patterns: Vec<Pattern>,

    /// Identifier ids of every imported module, in import order, duplicates
    /// kept.
    pub imported_modules: Vec<IdentId>,

    /// Structure with one field per imported module, shared by all
    /// namespaces.
    pub modules_struct: StructType,

    /// Warnings generated while compiling.
    pub warnings: Vec<Warning>,
}

impl Compiler {
    /// Internal consistency of the compiler state.
    pub open spec fn wf(&self) -> bool {
        &&& self.ident_pool.wf()
        &&& self.lit_pool.wf()
        &&& table_wf(self.symbol_table@)
        &&& self.modules_struct.wf()
        &&& self.rules@.len() < 0x7fff_ffff
        &&& self.patterns@.len() < 0x7fff_0000
        &&& code_ok(self.code@)
        &&& forall|i: int|
            0 <= i < self.rules@.len() ==> rule_ids_wf(self.ident_pool@, #[trigger] self.rules@[i])
        &&& forall|i: int|
            0 <= i < self.imported_modules@.len() ==> (#[trigger] self.imported_modules@[i]).0
                < self.ident_pool@.len()
    }

    /// Creates a new compiler, with empty pools, no scopes, no rules and no
    /// code.
    pub fn new() -> (r: Self)
        ensures
            r.wf(),
            r.report_builder.colorize == false,
            r.symbol_table@ == Seq::<Seq<(Seq<char>, Symbol)>>::empty(),
            r.ident_pool@ == Seq::<Seq<char>>::empty(),
            r.lit_pool@ == Seq::<Seq<u8>>::empty(),
            r.code@ == Seq::<Instr>::empty(),
            r.modules_struct.fields@.len() == 0,
            r.rules@ == Seq::<CompiledRule>::empty(),
            r.patterns@ == Seq::<Pattern>::empty(),
            r.imported_modules@ == Seq::<IdentId>::empty(),
            r.warnings@ == Seq::<Warning>::empty(),
    {
        let r = Compiler {
            warnings: Vec::new(),
            rules: Vec::new(),
            patterns: Vec::new(),
            imported_modules: Vec::new(),
            modules_struct: StructType::new(),
            report_builder: ReportBuilder::new(),
            ident_pool: StringPool::new(),
            lit_pool: BStringPool::new(),
            code: Vec::new(),
            symbol_table: StackedSymbolTable::new(),
        };
        proof {
            assert(r.code@ =~= Seq::<Instr>::empty());
            assert(r.rules@ =~= Seq::<CompiledRule>::empty());
            assert(r.patterns@ =~= Seq::<Pattern>::empty());
            assert(r.imported_modules@ =~= Seq::<IdentId>::empty());
            assert(r.warnings@ =~= Seq::<Warning>::empty());
        }
        r
    }

    /// Specifies whether the compiler should produce colorful error
    /// messages; the default is off.
    pub fn colorize_errors(self, b: bool) -> (r: Self)
        ensures
            r.report_builder.colorize == b,
            r.symbol_table == self.symbol_table,
            r.ident_pool == self.ident_pool,
            r.lit_pool == self.lit_pool,
            r.code == self.code,
            r.rules == self.rules,
            r.patterns == self.patterns,
            r.imported_modules == self.imported_modules,
            r.modules_struct == self.modules_struct,
            r.warnings == self.warnings,
            self.wf() ==> r.wf(),
    {
        let mut c = self;
        c.report_builder.with_colors(b);
        c
    }

    /// The warnings accumulated so far.
    pub fn warnings(&self) -> (r: &Vec<Warning>)
        ensures
            r@ == self.warnings@,
    {
        &self.warnings
    }
}

/// What importing a module leaves behind: the name resolves in the scopes
/// to a field-offset symbol pointing at the modules-structure field of that
/// name, and the symbol carries the registry's structural type for it.
pub open spec fn module_bound(
    scopes: Seq<Seq<(Seq<char>, Symbol)>>,
    ms: StructType,
    name: Seq<char>,
) -> bool {
    match stack_lookup(scopes, name) {
        Some(sym) => match (sym.kind, sym.type_value) {
            (SymbolKind::FieldIndex(fi), TypeValue::Struct(st)) => {
                &&& (fi as int) < ms.fields@.len()
                &&& ms.fields@[fi as int].name@ == name
                &&& crate::registry::builtin_fields(name) is Some
                &&& crate::registry::matches_layout(
                    *st,
                    crate::registry::builtin_fields(name).unwrap(),
                )
            },
            _ => false,
        },
        None => false,
    }
}

impl Compiler {
    /// Processes the `import` statements of one namespace. Each imported
    /// module must exist in the registry of built-in modules; the first
    /// absent name fails the call with an unknown-module error carrying
    /// that name and its span. On success every module name is interned and
    /// appended to the imported-module list (duplicates kept), the module's
    /// structure is merged into the compilation-wide modules structure, and
    /// a field-offset symbol is bound in the current namespace scope.
    pub(crate) fn process_imports(&mut self, imports: &Vec<Import>) -> (r: Result<(), Error>)
        requires
            old(self).wf(),
            old(self).symbol_table@.len() > 0,
        ensures
            final(self).wf(),
            final(self).symbol_table@.len() == old(self).symbol_table@.len(),
            forall|k: int|
                0 <= k < old(self).symbol_table@.len() - 1 ==> final(self).symbol_table@[k]
                    == old(self).symbol_table@[k],
            final(self).rules@ == old(self).rules@,
            final(self).patterns@ == old(self).patterns@,
            final(self).warnings@ == old(self).warnings@,
            final(self).code@ == old(self).code@,
            final(self).report_builder == old(self).report_builder,
            old(self).ident_pool@.len() <= final(self).ident_pool@.len(),
            forall|j: int|
                0 <= j < old(self).ident_pool@.len() ==> final(self).ident_pool@[j] == old(
                    self,
                ).ident_pool@[j],
            final(self).lit_pool@ == old(self).lit_pool@,
            old(self).imported_modules@.len() <= final(self).imported_modules@.len() <= old(
                self,
            ).imported_modules@.len() + imports@.len(),
            forall|j: int|
                0 <= j < old(self).imported_modules@.len() ==> final(self).imported_modules@[j]
                    == old(self).imported_modules@[j],
            old(self).modules_struct.fields@.len() <= final(self).modules_struct.fields@.len()
                <= old(self).modules_struct.fields@.len() + imports@.len(),
            forall|k: int|
                0 <= k < old(self).modules_struct.fields@.len()
                    ==> (#[trigger] final(self).modules_struct.fields@[k]).name@ == old(
                    self,
                ).modules_struct.fields@[k].name@,
            (r.is_ok() && (forall|i: int|
                0 <= i < imports@.len() ==> field_pos(
                    old(self).modules_struct.fields@,
                    (#[trigger] imports@[i]).module_name@,
                ) != -1)) ==> final(self).modules_struct.fields@.len() == old(
                self,
            ).modules_struct.fields@.len(),
            r.is_ok() ==> (forall|i: int|
                0 <= i < imports@.len() ==> crate::registry::builtin_fields(
                    (#[trigger] imports@[i]).module_name@,
                ) is Some),
            (old(self).ident_pool@.len() + imports@.len() <= 0xffff_0000 && old(
                self,
            ).modules_struct.fields@.len() + imports@.len() <= 0x7fff_0000 && (forall|i: int|
                0 <= i < imports@.len() ==> crate::registry::builtin_fields(
                    (#[trigger] imports@[i]).module_name@,
                ) is Some)) ==> r.is_ok(),
            r.is_ok() ==> {
                &&& final(self).imported_modules@.len() == old(self).imported_modules@.len()
                    + imports@.len()
                &&& forall|i: int|
                    0 <= i < imports@.len() ==> {
                        let id = #[trigger] final(self).imported_modules@[old(
                            self,
                        ).imported_modules@.len() + i];
                        &&& id.0 < final(self).ident_pool@.len()
                        &&& final(self).ident_pool@[id.0 as int] == imports@[i].module_name@
                    }
                &&& forall|i: int|
                    0 <= i < imports@.len() ==> module_bound(
                        final(self).symbol_table@,
                        final(self).modules_struct,
                        (#[trigger] imports@[i]).module_name@,
                    )
            },
            r matches Err(e) ==> (exists|k: int|
                {
                    &&& 0 <= k < imports@.len()
                    &&& (forall|j: int|
                        0 <= j < k ==> crate::registry::builtin_fields(
                            (#[trigger] imports@[j]).module_name@,
                        ) is Some)
                    &&& final(self).imported_modules@.len() == old(
                        self,
                    ).imported_modules@.len() + k
                    &&& ((e == Error::CompileError(CompileError::CapacityExceeded)
                        && crate::registry::builtin_fields(imports@[k].module_name@) is Some
                        && (old(self).ident_pool@.len() + k >= 0xffff_0000 || old(
                        self,
                    ).modules_struct.fields@.len() + k >= 0x7fff_0000)) || (
                    crate::registry::builtin_fields(imports@[k].module_name@) is None && e
                        == Error::CompileError(
                        CompileError::UnknownModule {
                            module_name: imports@[k].module_name,
                            span: imports@[k].span,
                        },
                    )))
                }),
    {
        let ghost old_imported = self.imported_modules@;
        let ghost old_pool = self.ident_pool@;
        let n = imports.len();
        for i in 0..n
            invariant
                n == imports@.len(),
                self.wf(),
                self.symbol_table@.len() == old(self).symbol_table@.len(),
                self.symbol_table@.len() > 0,
                forall|k: int|
                    0 <= k < self.symbol_table@.len() - 1 ==> self.symbol_table@[k] == old(
                        self,
                    ).symbol_table@[k],
                self.rules@ == old(self).rules@,
                self.patterns@ == old(self).patterns@,
                self.warnings@ == old(self).warnings@,
                self.code@ == old(self).code@,
                self.report_builder == old(self).report_builder,
                old_pool == old(self).ident_pool@,
                old_imported == old(self).imported_modules@,
                old_pool.len() <= self.ident_pool@.len() <= old_pool.len() + i,
                old(self).modules_struct.fields@.len() <= self.modules_struct.fields@.len() <= old(
                    self,
                ).modules_struct.fields@.len() + i,
                forall|k: int|
                    0 <= k < old(self).modules_struct.fields@.len()
                        ==> self.modules_struct.fields@[k].name@ == old(
                        self,
                    ).modules_struct.fields@[k].name@,
                (forall|q: int|
                    0 <= q < i ==> field_pos(
                        old(self).modules_struct.fields@,
                        (#[trigger] imports@[q]).module_name@,
                    ) != -1) ==> self.modules_struct.fields@.len() == old(
                    self,
                ).modules_struct.fields@.len(),
                forall|j: int|
                    0 <= j < old_imported.len() ==> self.imported_modules@[j] == old_imported[j],
                self.lit_pool@ == old(self).lit_pool@,
                forall|j: int| 0 <= j < old_pool.len() ==> self.ident_pool@[j] == old_pool[j],
                forall|j: int|
                    0 <= j < i ==> module_bound(
                        self.symbol_table@,
                        self.modules_struct,
                        (#[trigger] imports@[j]).module_name@,
                    ),
                forall|j: int|
                    0 <= j < i ==> crate::registry::builtin_fields(
                        (#[trigger] imports@[j]).module_name@,
                    ) is Some,
                self.imported_modules@.len() == old_imported.len() + i,
                forall|j: int|
                    0 <= j < i ==> {
                        let id = #[trigger] self.imported_modules@[old_imported.len() + j];
                        &&& id.0 < self.ident_pool@.len()
                        &&& self.ident_pool@[id.0 as int] == imports@[j].module_name@
                    },
        {
            let import = &imports[i];
            match builtin_module(&import.module_name) {
                Some(module_struct) => {
                    if self.ident_pool.len() >= 0xffff_0000usize {
                        return Err(Error::CompileError(CompileError::CapacityExceeded));
                    }
                    if self.modules_struct.fields.len() >= 0x7fff_0000usize {
                        return Err(Error::CompileError(CompileError::CapacityExceeded));
                    }
                    let id = self.ident_pool.get_or_intern(&import.module_name);
                    self.imported_modules.push(id);
                    let ghost ms_pre = self.modules_struct;
                    proof {
                        lemma_field_pos(ms_pre.fields@, import.module_name@);
                        if field_pos(old(self).modules_struct.fields@, import.module_name@)
                            != -1 {
                            let p = field_pos(
                                old(self).modules_struct.fields@,
                                import.module_name@,
                            );
                            lemma_field_pos(
                                old(self).modules_struct.fields@,
                                import.module_name@,
                            );
                            assert(ms_pre.fields@[p].name@ == import.module_name@);
                            if field_pos(ms_pre.fields@, import.module_name@) == -1 {
                                assert(false);
                            }
                        }
                    }
                    self.modules_struct.insert(
                        &import.module_name,
                        TypeValue::Struct(Box::new(module_struct)),
                    );
                    let ghost ms_snap = self.modules_struct;
                    let fidx: u32 = match self.modules_struct.field_by_name(&import.module_name) {
                        Some(fld) => fld.index,
                        None => {
                            proof {
                                assert(false);
                            }
                            0
                        },
                    };
                    let module_struct_again = match builtin_module(&import.module_name) {
                        Some(st) => st,
                        None => {
                            proof {
                                assert(false);
                            }
                            StructType::new()
                        },
                    };
                    let mut symbol = Symbol::new(TypeValue::Struct(Box::new(module_struct_again)));
                    symbol.kind = SymbolKind::FieldIndex(fidx);
                    proof {
                        lemma_field_pos(self.modules_struct.fields@, import.module_name@);
                        let p = field_pos(self.modules_struct.fields@, import.module_name@);
                        assert(0 <= p < self.modules_struct.fields@.len());
                        assert(self.modules_struct.fields@[p].index == p);
                        assert(fidx < 0x8000_0000);
                        assert(sym_wf(symbol));
                        lemma_table_wf_insert(self.symbol_table@, import.module_name@, symbol);
                    }
                    let ghost tbl_pre = self.symbol_table@;
                    let ghost sym_snap = symbol;
                    self.symbol_table.insert(&import.module_name, symbol);
                    proof {
                        assert(forall|j: int|
                            0 <= j < self.rules@.len() ==> rule_ids_wf(
                                self.ident_pool@,
                                #[trigger] self.rules@[j],
                            ));
                        lemma_insert_top(tbl_pre, import.module_name@, sym_snap,
                            import.module_name@);
                        lemma_field_pos(ms_snap.fields@, import.module_name@);
                        assert(module_bound(
                            self.symbol_table@,
                            self.modules_struct,
                            import.module_name@,
                        ));
                        assert forall|j: int|
                            0 <= j < i + 1 implies module_bound(
                            self.symbol_table@,
                            self.modules_struct,
                            (#[trigger] imports@[j]).module_name@,
                        ) by {
                            let nm = imports@[j].module_name@;
                            lemma_insert_top(tbl_pre, import.module_name@, sym_snap, nm);
                            if nm != import.module_name@ {
                                assert(module_bound(tbl_pre, ms_pre, nm));
                                lemma_field_pos(ms_pre.fields@, import.module_name@);
                                let sym = stack_lookup(tbl_pre, nm).unwrap();
                                match (sym.kind, sym.type_value) {
                                    (SymbolKind::FieldIndex(fi), TypeValue::Struct(st)) => {
                                        assert(ms_pre.fields@[fi as int].name@ == nm);
                                        let p = field_pos(ms_pre.fields@, import.module_name@);
                                        if p != -1 {
                                            assert(ms_pre.fields@[p].name@
                                                == import.module_name@);
                                            assert(p != fi as int);
                                        }
                                        assert(self.modules_struct.fields@[fi as int]
                                            == ms_pre.fields@[fi as int]);
                                    },
                                    _ => {
                                        assert(false);
                                    },
                                }
                            }
                        }
                    }
                },
                None => {
                    return Err(
                        Error::CompileError(
                            CompileError::UnknownModule {
                                module_name: import.module_name.clone(),
                                span: import.span,
                            },
                        ),
                    );
                },
            }
        }
        Ok(())
    }
}

/// The declared pattern names of a rule, in declaration order.
pub open spec fn rule_decls(rule: Rule) -> Seq<Seq<char>> {
    match rule.patterns {
        Some(ps) => ps@.map_values(|p: crate::ast::PatternDecl| p.identifier@),
        None => Seq::<Seq<char>>::empty(),
    }
}

/// The scopes as a rule's condition sees them: the rule's own boolean
/// symbol bound in the innermost scope, enabling self- and back-references.
pub open spec fn with_rule_symbol(
    scopes: Seq<Seq<(Seq<char>, Symbol)>>,
    name: Seq<char>,
    rid: i32,
) -> Seq<Seq<(Seq<char>, Symbol)>> {
    scopes.update(
        scopes.len() - 1,
        scopes.last().push(
            (name, Symbol { kind: SymbolKind::Rule(rid), type_value: TypeValue::Bool(None) }),
        ),
    )
}

/// The typing environment a rule's condition is checked in, given the
/// compiler state the rule meets.
pub open spec fn rule_sem_env(
    scopes: Seq<Seq<(Seq<char>, Symbol)>>,
    rule: Rule,
    rid: i32,
) -> SemEnv {
    SemEnv { scopes: with_rule_symbol(scopes, rule.identifier@, rid), patterns: rule_decls(rule) }
}

/// The fixed-capacity bounds under which the compiler accepts one more
/// rule; outside them the rule is rejected, never misnumbered.
pub open spec fn rule_caps(c: Compiler, rule: Rule) -> bool {
    &&& c.ident_pool@.len() < 0xfffe_0000
    &&& c.patterns@.len() < 0x7ffe_0000
    &&& c.rules@.len() < 0x7ffe_0000
    &&& rule_decls(rule).len() < 0xffff
}

impl Compiler {
    /// Compiles one rule: interns its pattern identifiers and allocates
    /// dense pattern ids in declaration order, allocates the rule id and
    /// registers a boolean rule symbol in the current namespace scope (so
    /// later rules of the namespace can reference this one), type-checks
    /// the condition, warns when the condition's top-level type required an
    /// implicit boolean cast, and emits the condition's code. The
    /// local-variable stack top ends back at zero. Succeeds exactly when
    /// the capacity bounds hold, the condition type-checks to a boolean or
    /// an integer, and the cast-completed condition fits the variable
    /// stack; every failure is a user-facing compile error. On failure the
    /// already-compiled rules, pools and code remain intact; state added
    /// for this rule before the failure is kept, not rolled back.
    pub(crate) fn process_rule(&mut self, rule: &Rule) -> (r: Result<(), Error>)
        requires
            old(self).wf(),
            old(self).symbol_table@.len() > 0,
        ensures
            final(self).wf(),
            final(self).symbol_table@.len() == old(self).symbol_table@.len(),
            forall|k: int|
                0 <= k < old(self).symbol_table@.len() - 1 ==> final(self).symbol_table@[k]
                    == old(self).symbol_table@[k],
            final(self).report_builder == old(self).report_builder,
            final(self).lit_pool@ == old(self).lit_pool@,
            final(self).imported_modules@ == old(self).imported_modules@,
            final(self).modules_struct == old(self).modules_struct,
            old(self).ident_pool@.len() <= final(self).ident_pool@.len(),
            forall|j: int|
                0 <= j < old(self).ident_pool@.len() ==> final(self).ident_pool@[j] == old(
                    self,
                ).ident_pool@[j],
            old(self).rules@.len() <= final(self).rules@.len() <= old(self).rules@.len() + 1,
            forall|j: int|
                0 <= j < old(self).rules@.len() ==> final(self).rules@[j] == old(self).rules@[j],
            ({
                let p0 = old(self).patterns@.len();
                let p1 = final(self).patterns@.len();
                p1 == p0 || p1 == p0 + rule_decls(*rule).len()
            }),
            old(self).patterns@.len() <= final(self).patterns@.len() <= old(self).patterns@.len()
                + rule_decls(*rule).len(),
            old(self).warnings@.len() <= final(self).warnings@.len() <= old(
                self,
            ).warnings@.len() + 1,
            forall|j: int|
                0 <= j < old(self).warnings@.len() ==> final(self).warnings@[j] == old(
                    self,
                ).warnings@[j],
            old(self).code@.len() <= final(self).code@.len(),
            forall|j: int|
                0 <= j < old(self).code@.len() ==> final(self).code@[j] == old(self).code@[j],
            r matches Err(e) ==> e is CompileError,
            (rule_caps(*old(self), *rule) && rule.condition is Ident && stack_lookup(
                with_rule_symbol(
                    old(self).symbol_table@,
                    rule.identifier@,
                    old(self).rules@.len() as i32,
                ),
                rule.condition->Ident_0@,
            ) is None) ==> (r matches Err(e) && e == Error::CompileError(
                CompileError::UnresolvedIdentifier { identifier: rule.condition->Ident_0 },
            )),
            ({
                let rid = old(self).rules@.len() as i32;
                let env = rule_sem_env(old(self).symbol_table@, *rule, rid);
                r.is_ok() <==> {
                    &&& rule_caps(*old(self), *rule)
                    &&& (lenient_ty(env, rule.condition) == Some(Type::Bool) || lenient_ty(
                        env,
                        rule.condition,
                    ) == Some(Type::Integer))
                    &&& needed(casted_condition(env, rule.condition)) <= VARS_CAPACITY
                }
            }),
            r.is_ok() ==> {
                let decls = rule_decls(*rule);
                let rid = old(self).rules@.len() as i32;
                let env = rule_sem_env(old(self).symbol_table@, *rule, rid);
                let cr = final(self).rules@.last();
                &&& final(self).rules@.len() == old(self).rules@.len() + 1
                &&& cr.ident.0 < final(self).ident_pool@.len()
                &&& final(self).ident_pool@[cr.ident.0 as int] == rule.identifier@
                &&& cr.patterns@.len() == decls.len()
                &&& final(self).patterns@.len() == old(self).patterns@.len() + decls.len()
                &&& forall|j: int|
                    0 <= j < decls.len() ==> {
                        let pair = #[trigger] cr.patterns@[j];
                        &&& pair.0.0 < final(self).ident_pool@.len()
                        &&& final(self).ident_pool@[pair.0.0 as int] == decls[j]
                        &&& pair.1 == old(self).patterns@.len() + j
                    }
                &&& final(self).symbol_table@ == with_rule_symbol(
                    old(self).symbol_table@,
                    rule.identifier@,
                    rid,
                )
                &&& stack_lookup(final(self).symbol_table@, rule.identifier@) == Some(
                    Symbol { kind: SymbolKind::Rule(rid), type_value: TypeValue::Bool(None) },
                )
                &&& final(self).code@ == old(self).code@ + compiled_rule_code(
                    CodeEnv {
                        scopes: final(self).symbol_table@,
                        pool: final(self).ident_pool@,
                        pairs: cr.patterns@,
                    },
                    0,
                    rid,
                    casted_condition(env, rule.condition),
                )
                &&& final(self).code@.len() > old(self).code@.len()
                &&& ({
                    let w0 = old(self).warnings@;
                    let w1 = final(self).warnings@;
                    &&& (lenient_ty(env, rule.condition) == Some(Type::Bool) ==> w1 == w0)
                    &&& (lenient_ty(env, rule.condition) == Some(Type::Integer) ==> w1
                        == w0.push(Warning::NonBooleanAsBoolean { actual_type: Type::Integer }))
                })
            },
    {
        let ghost old_pool = self.ident_pool@;
        let ghost old_patterns = self.patterns@;
        if self.ident_pool.len() >= 0xfffe_0000usize {
            return Err(Error::CompileError(CompileError::CapacityExceeded));
        }
        if self.patterns.len() >= 0x7ffe_0000usize {
            return Err(Error::CompileError(CompileError::CapacityExceeded));
        }
        if self.rules.len() >= 0x7ffe_0000usize {
            return Err(Error::CompileError(CompileError::CapacityExceeded));
        }
        let mut pairs: Vec<(IdentId, i32)> = Vec::new();
        let mut names: Vec<String> = Vec::new();
        match &rule.patterns {
            Some(ps) => {
                if ps.len() >= 0xffffusize {
                    return Err(Error::CompileError(CompileError::CapacityExceeded));
                }
                let n = ps.len();
                for i in 0..n
                    invariant
                        n == ps@.len(),
                        n < 0xffff,
                        self.wf(),
                        old_pool == old(self).ident_pool@,
                        old_patterns == old(self).patterns@,
                        old_pool.len() < 0xfffe_0000,
                        old_patterns.len() < 0x7ffe_0000,
                        self.rules@ == old(self).rules@,
                        self.symbol_table@ == old(self).symbol_table@,
                        self.warnings@ == old(self).warnings@,
                        self.code@ == old(self).code@,
                        self.imported_modules@ == old(self).imported_modules@,
                        self.modules_struct == old(self).modules_struct,
                        self.lit_pool@ == old(self).lit_pool@,
                        self.report_builder == old(self).report_builder,
                        old_pool.len() <= self.ident_pool@.len() <= old_pool.len() + i,
                        forall|j: int|
                            0 <= j < old_pool.len() ==> self.ident_pool@[j] == old_pool[j],
                        self.patterns@.len() == old_patterns.len() + i,
                        pairs@.len() == i,
                        names@.len() == i,
                        forall|j: int|
                            0 <= j < i ==> {
                                let pair = #[trigger] pairs@[j];
                                &&& pair.0.0 < self.ident_pool@.len()
                                &&& self.ident_pool@[pair.0.0 as int] == ps@[j].identifier@
                                &&& pair.1 == old_patterns.len() + j
                            },
                        forall|j: int| 0 <= j < i ==> #[trigger] names@[j]@ == ps@[j].identifier@,
                {
                    let ident_id = self.ident_pool.get_or_intern(&ps[i].identifier);
                    let pattern_id = self.patterns.len() as i32;
                    self.patterns.push(Pattern {  });
                    pairs.push((ident_id, pattern_id));
                    names.push(ps[i].identifier.clone());
                    proof {
                        assert(forall|j: int|
                            0 <= j < self.rules@.len() ==> rule_ids_wf(
                                self.ident_pool@,
                                #[trigger] self.rules@[j],
                            ));
                    }
                }
            },
            None => {},
        }
        let rule_id = self.rules.len() as i32;
        let ident_id = self.ident_pool.get_or_intern(&rule.identifier);
        self.rules.push(CompiledRule { ident: ident_id, patterns: pairs });

        let mut ctx = Context::new();

        // Insert a boolean symbol for the rule itself, so that later rules
        // (and the rule's own condition) can reference it.
        let mut symbol = Symbol::new(TypeValue::Bool(None));
        symbol.kind = SymbolKind::Rule(rule_id);
        proof {
            lemma_table_wf_insert(self.symbol_table@, rule.identifier@, symbol);
            lemma_insert_top(self.symbol_table@, rule.identifier@, symbol, rule.identifier@);
        }
        self.symbol_table.insert(&rule.identifier, symbol);

        proof {
            let decls: Seq<Seq<char>> = if rule.patterns is Some {
                rule.patterns.unwrap()@.map_values(|p: crate::ast::PatternDecl| p.identifier@)
            } else {
                Seq::<Seq<char>>::empty()
            };
            assert(names.deep_view() =~= decls);
        }

        // Type-check the condition; an integer, float or string result is
        // cast to boolean.
        let checked = match semcheck(&self.symbol_table, &names, &rule.condition) {
            Ok(x) => x,
            Err(e) => {
                return Err(Error::CompileError(e));
            },
        };
        let t = checked.0;
        let cond2 = checked.1;

        // If the condition's result is not a boolean and must be cast,
        // raise a warning about it.
        let cond3 = match warning_if_not_boolean(t) {
            None => cond2,
            Some(w) => {
                if t == Type::Integer {
                    self.warnings.push(w);
                    let c = Expr::BoolCast(Box::new(cond2));
                    proof {
                        assert(strict_ty(
                            SemEnv { scopes: self.symbol_table@, patterns: names.deep_view() },
                            c,
                        ) == Some(Type::Bool));
                    }
                    c
                } else {
                    // A float or string condition would also be castable in
                    // principle; no expression of this tree produces one (the
                    // registry's fields are integers and booleans), so such a
                    // type is rejected here rather than cast.
                    return Err(
                        Error::CompileError(
                            CompileError::WrongType { expected: Type::Bool, actual: t },
                        ),
                    );
                }
            },
        };

        // The local-variable stack has a fixed capacity; reject conditions
        // that would nest past it.
        if !fits(&cond3, VARS_CAPACITY) {
            return Err(Error::CompileError(CompileError::CapacityExceeded));
        }

        // Emit the code for the rule's condition.
        let rules_len = self.rules.len();
        emit_rule_code(
            &mut ctx,
            &mut self.code,
            rule_id,
            &cond3,
            &self.symbol_table,
            &self.ident_pool,
            &self.rules[rules_len - 1],
            Ghost(names.deep_view()),
        );

        // After emitting the whole condition, the stack must be back where
        // it started.
        proof {
            assert(ctx.vars_stack_top == 0);
        }

        Ok(())
    }
}

/// Total number of rules a compilation unit declares, over all namespaces.
pub open spec fn total_rules(nss: Seq<Namespace>) -> nat
    decreases nss.len(),
{
    if nss.len() == 0 {
        0
    } else {
        nss[0].rules@.len() + total_rules(nss.drop_first())
    }
}

/// Taking one more namespace adds exactly its rule count.
pub proof fn lemma_total_rules_take(nss: Seq<Namespace>, i: int)
    requires
        0 <= i < nss.len(),
    ensures
        total_rules(nss.take(i + 1)) == total_rules(nss.take(i)) + nss[i].rules@.len(),
    decreases i,
{
    if i == 0 {
        assert(nss.take(0) =~= Seq::<Namespace>::empty());
        assert(nss.take(1)[0] == nss[0]);
        assert(nss.take(1).drop_first() =~= Seq::<Namespace>::empty());
    } else {
        let t = nss.drop_first();
        lemma_total_rules_take(t, i - 1);
        assert(nss.take(i + 1)[0] == nss[0]);
        assert(nss.take(i)[0] == nss[0]);
        assert(nss.take(i + 1).drop_first() =~= t.take(i));
        assert(nss.take(i).drop_first() =~= t.take(i - 1));
        assert(t[i - 1] == nss[i]);
    }
}

/// Total number of imports a compilation unit declares, over all
/// namespaces.
pub open spec fn total_imports(nss: Seq<Namespace>) -> nat
    decreases nss.len(),
{
    if nss.len() == 0 {
        0
    } else {
        nss[0].imports@.len() + total_imports(nss.drop_first())
    }
}

/// Taking one more namespace adds exactly its import count.
pub proof fn lemma_total_imports_take(nss: Seq<Namespace>, i: int)
    requires
        0 <= i < nss.len(),
    ensures
        total_imports(nss.take(i + 1)) == total_imports(nss.take(i)) + nss[i].imports@.len(),
    decreases i,
{
    if i == 0 {
        assert(nss.take(0) =~= Seq::<Namespace>::empty());
        assert(nss.take(1)[0] == nss[0]);
        assert(nss.take(1).drop_first() =~= Seq::<Namespace>::empty());
    } else {
        let t = nss.drop_first();
        lemma_total_imports_take(t, i - 1);
        assert(nss.take(i + 1)[0] == nss[0]);
        assert(nss.take(i)[0] == nss[0]);
        assert(nss.take(i + 1).drop_first() =~= t.take(i));
        assert(nss.take(i).drop_first() =~= t.take(i - 1));
        assert(t[i - 1] == nss[i]);
    }
}

impl Compiler {
    /// Adds one parsed compilation unit to be compiled. May be called
    /// multiple times before `build`; state accumulates across calls. One
    /// symbol-table scope is pushed per namespace and popped when the
    /// namespace's imports and rules have been processed, so the next
    /// namespace cannot see symbols the previous one defined. The parser's
    /// warnings are transferred first; on success one rule was compiled per
    /// rule declared, and everything compiled earlier is preserved. An
    /// unknown module in the first namespace's imports fails the call. On
    /// an error the call aborts; rules compiled by earlier calls remain
    /// intact, but state from the partially processed namespace is not
    /// rolled back.
    pub fn add_source(self, ast: Ast) -> (r: Result<Compiler, Error>)
        requires
            self.wf(),
        ensures
            r matches Ok(c) ==> {
                &&& c.wf()
                &&& c.symbol_table@ == self.symbol_table@
                &&& c.report_builder == self.report_builder
                &&& c.rules@.len() == self.rules@.len() + total_rules(ast.namespaces@)
                &&& forall|j: int|
                    0 <= j < self.rules@.len() ==> c.rules@[j] == self.rules@[j]
                &&& self.ident_pool@.len() <= c.ident_pool@.len()
                &&& forall|j: int|
                    0 <= j < self.ident_pool@.len() ==> c.ident_pool@[j] == self.ident_pool@[j]
                &&& c.lit_pool@ == self.lit_pool@
                &&& self.patterns@.len() <= c.patterns@.len()
                &&& c.warnings@.len() >= self.warnings@.len() + ast.warnings@.len()
                &&& forall|j: int|
                    0 <= j < self.warnings@.len() ==> c.warnings@[j] == self.warnings@[j]
                &&& forall|j: int|
                    0 <= j < ast.warnings@.len() ==> c.warnings@[self.warnings@.len() + j]
                        == ast.warnings@[j]
                &&& self.code@.len() <= c.code@.len()
                &&& forall|j: int| 0 <= j < self.code@.len() ==> c.code@[j] == self.code@[j]
                &&& c.imported_modules@.len() == self.imported_modules@.len() + total_imports(
                    ast.namespaces@,
                )
                &&& forall|j: int|
                    0 <= j < self.imported_modules@.len() ==> c.imported_modules@[j]
                        == self.imported_modules@[j]
                &&& forall|j: int|
                    self.warnings@.len() + ast.warnings@.len() <= j < c.warnings@.len()
                        ==> (#[trigger] c.warnings@[j]) is NonBooleanAsBoolean
                &&& forall|t: int, j: int|
                    self.rules@.len() <= t < c.rules@.len() && 0 <= j
                        < c.rules@[t].patterns@.len() ==> (#[trigger] c.rules@[t].patterns@[j]).1
                        == c.rules@[t].patterns@[0].1 + j
            },
            ast.namespaces@.len() == 0 ==> r is Ok,
            (forall|i: int|
                0 <= i < ast.namespaces@.len() ==> (#[trigger] ast.namespaces@[i]).imports@.len()
                    == 0 && ast.namespaces@[i].rules@.len() == 0) ==> r is Ok,
            (ast.namespaces@.len() > 0 && (exists|k: int|
                0 <= k < ast.namespaces@[0].imports@.len()
                    && crate::registry::builtin_fields(
                    ast.namespaces@[0].imports@[k].module_name@,
                ) is None)) ==> r is Err,
    {
        let mut s = self;
        let Ast { namespaces: nss, warnings: parser_warnings } = ast;
        let mut parser_warnings = parser_warnings;
        let ghost aw = parser_warnings@;
        proof {
            assert(nss@ == ast.namespaces@);
            assert(aw == ast.warnings@);
        }

        // Transfer the warnings generated by the parser to the compiler.
        while parser_warnings.len() > 0
            invariant
                s.wf(),
                s.symbol_table@ == self.symbol_table@,
                s.report_builder == self.report_builder,
                s.rules@ == self.rules@,
                s.ident_pool@ == self.ident_pool@,
                s.lit_pool@ == self.lit_pool@,
                s.patterns@ == self.patterns@,
                s.code@ == self.code@,
                s.imported_modules@ == self.imported_modules@,
                parser_warnings@.len() <= aw.len(),
                parser_warnings@ == aw.skip(aw.len() - parser_warnings@.len()),
                s.warnings@ == self.warnings@ + aw.take(aw.len() - parser_warnings@.len()),
            decreases parser_warnings.len(),
        {
            let ghost taken = aw.len() - parser_warnings@.len();
            let w = parser_warnings.remove(0);
            s.warnings.push(w);
            proof {
                assert(aw.skip(taken).remove(0) =~= aw.skip(taken + 1));
                assert(w == aw[taken]);
                assert(aw.take(taken + 1) =~= aw.take(taken).push(aw[taken]));
                assert(s.warnings@ =~= self.warnings@ + aw.take(taken + 1));
            }
        }
        proof {
            assert(aw.take(aw.len() as int) =~= aw);
            assert(s.warnings@ == self.warnings@ + aw);
        }
        let ghost w_base = self.warnings@ + aw;
        proof {
            assert(nss@.take(0) =~= Seq::<Namespace>::empty());
        }

        let n = nss.len();
        for i in 0..n
            invariant
                n == nss@.len(),
                nss@ == ast.namespaces@,
                s.wf(),
                s.symbol_table@ == self.symbol_table@,
                s.report_builder == self.report_builder,
                s.rules@.len() == self.rules@.len() + total_rules(nss@.take(i as int)),
                forall|j: int| 0 <= j < self.rules@.len() ==> s.rules@[j] == self.rules@[j],
                self.ident_pool@.len() <= s.ident_pool@.len(),
                forall|j: int|
                    0 <= j < self.ident_pool@.len() ==> s.ident_pool@[j] == self.ident_pool@[j],
                s.lit_pool@ == self.lit_pool@,
                self.patterns@.len() <= s.patterns@.len(),
                s.warnings@.len() >= w_base.len(),
                forall|j: int| 0 <= j < w_base.len() ==> s.warnings@[j] == w_base[j],
                self.code@.len() <= s.code@.len(),
                forall|j: int| 0 <= j < self.code@.len() ==> s.code@[j] == self.code@[j],
                s.imported_modules@.len() == self.imported_modules@.len() + total_imports(
                    nss@.take(i as int),
                ),
                forall|j: int|
                    0 <= j < self.imported_modules@.len() ==> s.imported_modules@[j]
                        == self.imported_modules@[j],
                forall|j: int|
                    w_base.len() <= j < s.warnings@.len() ==> (#[trigger] s.warnings@[j])
                        is NonBooleanAsBoolean,
                forall|t: int, j: int|
                    self.rules@.len() <= t < s.rules@.len() && 0 <= j
                        < s.rules@[t].patterns@.len() ==> (#[trigger] s.rules@[t].patterns@[j]).1
                        == s.rules@[t].patterns@[0].1 + j,
                i > 0 ==> (forall|k: int|
                    0 <= k < nss@[0].imports@.len() ==> crate::registry::builtin_fields(
                        (#[trigger] nss@[0].imports@[k]).module_name@,
                    ) is Some),
                aw == ast.warnings@,
                w_base == self.warnings@ + aw,
        {
            // Create the scope that will hold the symbols defined by this
            // namespace, such as modules and rules.
            s.symbol_table.push_new();
            proof {
                assert(s.symbol_table@.take(self.symbol_table@.len() as int)
                    =~= self.symbol_table@);
                assert forall|a: int, b: int|
                    0 <= a < s.symbol_table@.len() && 0 <= b < s.symbol_table@[a].len() implies
                    sym_wf(#[trigger] s.symbol_table@[a][b].1) by {
                    assert(s.symbol_table@[a] == self.symbol_table@[a]);
                }
            }
            let ghost after_push = s.symbol_table@;
            let ghost s_before_ns = s;

            // Process the import statements: every imported module must
            // exist.
            match s.process_imports(&nss[i].imports) {
                Ok(()) => {},
                Err(e) => {
                    return Err(e);
                },
            }
            proof {
                assert forall|k: int|
                    0 <= k < self.symbol_table@.len() implies s.symbol_table@[k]
                    == self.symbol_table@[k] by {
                    assert(s.symbol_table@[k] == after_push[k]);
                    assert(after_push[k] == self.symbol_table@[k]);
                }
            }

            proof {
                lemma_total_imports_take(nss@, i as int);
            }

            // Compile the declared rules, in order.
            let ghost rules_at_ns = s.rules@.len();
            let m = nss[i].rules.len();
            for j in 0..m
                invariant
                    m == nss@[i as int].rules@.len(),
                    i < n == nss@.len(),
                    nss@ == ast.namespaces@,
                    s.wf(),
                    s.symbol_table@.len() == self.symbol_table@.len() + 1,
                    forall|k: int|
                        0 <= k < self.symbol_table@.len() ==> s.symbol_table@[k]
                            == self.symbol_table@[k],
                    s.report_builder == self.report_builder,
                    rules_at_ns == self.rules@.len() + total_rules(nss@.take(i as int)),
                    s.rules@.len() == rules_at_ns + j,
                    forall|k: int| 0 <= k < self.rules@.len() ==> s.rules@[k] == self.rules@[k],
                    self.ident_pool@.len() <= s.ident_pool@.len(),
                    forall|k: int|
                        0 <= k < self.ident_pool@.len() ==> s.ident_pool@[k]
                            == self.ident_pool@[k],
                    s.lit_pool@ == self.lit_pool@,
                    self.patterns@.len() <= s.patterns@.len(),
                    s.warnings@.len() >= w_base.len(),
                    forall|k: int| 0 <= k < w_base.len() ==> s.warnings@[k] == w_base[k],
                    self.code@.len() <= s.code@.len(),
                    forall|k: int| 0 <= k < self.code@.len() ==> s.code@[k] == self.code@[k],
                    s.imported_modules@.len() == self.imported_modules@.len() + total_imports(
                        nss@.take(i as int + 1),
                    ),
                    forall|k: int|
                        0 <= k < self.imported_modules@.len() ==> s.imported_modules@[k]
                            == self.imported_modules@[k],
                    forall|k: int|
                        w_base.len() <= k < s.warnings@.len() ==> (#[trigger] s.warnings@[k])
                            is NonBooleanAsBoolean,
                    forall|t: int, k: int|
                        self.rules@.len() <= t < s.rules@.len() && 0 <= k
                            < s.rules@[t].patterns@.len() ==> (
                        #[trigger] s.rules@[t].patterns@[k]).1 == s.rules@[t].patterns@[0].1
                            + k,
            {
                let ghost before_rule = s;
                match s.process_rule(&nss[i].rules[j]) {
                    Ok(()) => {},
                    Err(e) => {
                        return Err(e);
                    },
                }
                proof {
                    assert forall|k: int|
                        0 <= k < self.symbol_table@.len() implies s.symbol_table@[k]
                        == before_rule.symbol_table@[k] by {}
                    assert forall|k: int|
                        0 <= k < self.rules@.len() implies s.rules@[k] == self.rules@[k] by {
                        assert(s.rules@[k] == before_rule.rules@[k]);
                    }
                    assert forall|k: int|
                        0 <= k < self.ident_pool@.len() implies s.ident_pool@[k]
                        == self.ident_pool@[k] by {
                        assert(s.ident_pool@[k] == before_rule.ident_pool@[k]);
                    }
                    assert forall|k: int|
                        0 <= k < w_base.len() implies s.warnings@[k] == w_base[k] by {
                        assert(s.warnings@[k] == before_rule.warnings@[k]);
                    }
                    assert forall|k: int|
                        0 <= k < self.code@.len() implies s.code@[k] == self.code@[k] by {
                        assert(s.code@[k] == before_rule.code@[k]);
                    }
                }
            }
            proof {
                lemma_total_rules_take(nss@, i as int);
            }

            // Remove this namespace's scope: the next namespace cannot
            // access the symbols it defined.
            s.symbol_table.pop();
            proof {
                assert(s.symbol_table@ =~= self.symbol_table@);
            }
        }
        proof {
            assert(nss@.take(n as int) =~= nss@);
            assert forall|j: int|
                0 <= j < self.warnings@.len() implies s.warnings@[j] == self.warnings@[j] by {
                assert(s.warnings@[j] == w_base[j]);
            }
            assert forall|j: int|
                0 <= j < aw.len() implies s.warnings@[self.warnings@.len() + j] == aw[j] by {
                assert(s.warnings@[self.warnings@.len() + j] == w_base[self.warnings@.len()
                    + j]);
            }
        }
        Ok(s)
    }
}

/// The prologue of the shared function: the accumulator starts at false.
pub open spec fn code_prologue() -> Seq<Instr> {
    seq![Instr::I32Const(0), Instr::LocalSet(Loc::Acc)]
}

/// The epilogue of the shared function: the accumulator is the result.
pub open spec fn code_epilogue() -> Seq<Instr> {
    seq![Instr::LocalGet(Loc::Acc)]
}

impl Compiler {
    /// Serializes the emitted code into a WebAssembly module: the host
    /// imports, then one exported function whose body is the accumulator
    /// prologue, the emitted code of every rule, and the accumulator
    /// result. The bytes are a function of the emitted code alone, so
    /// compiling the same source yields the same module.
    fn build_wasm(&self) -> (r: Vec<u8>)
        requires
            code_ok(self.code@),
        ensures
            r@ == wasm_encoding(code_prologue() + self.code@ + code_epilogue()),
    {
        let mut mb = ModuleBuilder::new();
        mb.declare_host(HostFn::Filesize);
        mb.declare_host(HostFn::PatternMatch);
        mb.declare_host(HostFn::RuleMatch);
        mb.declare_host(HostFn::FieldDef);
        mb.declare_host(HostFn::FieldI64);
        mb.declare_host(HostFn::FieldBool);
        proof {
            assert(mb_hosts(mb) =~= host_order());
        }
        mb.i32_const(0);
        mb.local_set(Loc::Acc);
        proof {
            assert(mb_code(mb) =~= code_prologue());
        }
        let n = self.code.len();
        for i in 0..n
            invariant
                n == self.code@.len(),
                code_ok(self.code@),
                mb_hosts(mb) == host_order(),
                mb_code(mb) == code_prologue() + self.code@.take(i as int),
        {
            proof {
                assert(instr_ok(self.code@[i as int]));
            }
            let ghost before = mb_code(mb);
            match self.code[i] {
                Instr::I32Const(v) => mb.i32_const(v),
                Instr::I64Const(v) => mb.i64_const(v),
                Instr::Binop(op) => mb.binop(op),
                Instr::Select => mb.select(),
                Instr::LocalGet(l) => mb.local_get(l),
                Instr::LocalSet(l) => mb.local_set(l),
                Instr::Call(f) => mb.call_host(f),
            }
            proof {
                assert(mb_code(mb) == before.push(self.code@[i as int]));
                assert(mb_code(mb) =~= code_prologue() + self.code@.take(i as int + 1));
            }
        }
        mb.local_get(Loc::Acc);
        proof {
            assert(self.code@.take(n as int) =~= self.code@);
            assert(mb_code(mb) =~= code_prologue() + self.code@ + code_epilogue());
        }
        mb.finish()
    }

    /// Builds the rules previously added to the compiler, consuming it.
    /// The serialized code module is compiled to native code for the
    /// current platform; if that step rejects the module, the code
    /// generator itself is defective and the error says so. The returned
    /// artifact carries over the rules, patterns, pools and imported
    /// modules unchanged.
    pub fn build(self) -> (r: Result<CompiledRules, Error>)
        requires
            self.wf(),
        ensures
            r matches Err(e) ==> e == Error::InvalidWasm,
            r matches Ok(cr) ==> {
                &&& (forall|i: int|
                    0 <= i < cr.imported_modules@.len() ==> (#[trigger] cr.imported_modules@[i]).0
                        < cr.ident_pool@.len())
                &&& cr.rules@ == self.rules@
                &&& cr.patterns@ == self.patterns@
                &&& cr.ident_pool@ == self.ident_pool@
                &&& cr.lit_pool@ == self.lit_pool@
                &&& cr.imported_modules@ == self.imported_modules@
                &&& cr.wasm_mod@ == wasm_encoding(
                    code_prologue() + self.code@ + code_epilogue(),
                )
            },
    {
        // Finish building the WebAssembly module.
        let wasm_mod = self.build_wasm();

        // Compile the WebAssembly module for the current platform. The
        // module was generated by this compiler, so a rejection here is a
        // code-generation defect, never bad input.
        let engine = engine_new();
        let compiled_wasm_mod = match module_from_binary(&engine, &wasm_mod) {
            Some(m) => m,
            None => {
                return Err(Error::InvalidWasm);
            },
        };

        Ok(
            CompiledRules {
                compiled_wasm_mod,
                wasm_mod,
                ident_pool: self.ident_pool,
                lit_pool: self.lit_pool,
                imported_modules: self.imported_modules,
                patterns: self.patterns,
                rules: self.rules,
            },
        )
    }

    /// Serializes the WebAssembly module generated for the rules, so that
    /// it can be written to a file and inspected or disassembled with
    /// third-party tooling.
    pub fn emit_wasm(self) -> (r: Vec<u8>)
        requires
            self.wf(),
        ensures
            r@ == wasm_encoding(code_prologue() + self.code@ + code_epilogue()),
    {
        self.build_wasm()
    }
}

/// A set of rules in compiled form: the result of [`Compiler::build`].
/// Immutable and self-contained.
pub struct CompiledRules {
    /// Pool with every identifier used by the rules.
    pub ident_pool: StringPool,

    /// Pool with the literal byte strings used by the rules.
    pub lit_pool: BStringPool,

    /// The serialized WebAssembly module holding the code for all rule
    /// conditions.
    pub wasm_mod: Vec<u8>,

    /// The WebAssembly module already compiled into native code for the
    /// current platform.
    pub compiled_wasm_mod: wasmtime::Module,

    /// Identifier ids of every imported module, duplicates kept.
    pub imported_modules: Vec<IdentId>,

    /// Every compiled rule; a rule id is an index in this vector.
    pub rules: Vec<CompiledRule>,

    /// Every pattern of every rule; a pattern id is an index here.
    pub patterns: Vec<Pattern>,
}

impl CompiledRules {
    /// The individual rules that were compiled.
    pub fn rules(&self) -> (r: &Vec<CompiledRule>)
        ensures
            r@ == self.rules@,
    {
        &self.rules
    }

    /// The individual patterns that were compiled.
    pub fn patterns(&self) -> (r: &Vec<Pattern>)
        ensures
            r@ == self.patterns@,
    {
        &self.patterns
    }

    /// An iterator over the names of the modules imported by the rules.
    pub fn imported_modules(&self) -> (r: ImportedModules<'_>)
        ensures
            r.ids@ == self.imported_modules@,
            r.pool@ == self.ident_pool@,
            r.pos == 0,
    {
        ImportedModules { ids: &self.imported_modules, pool: &self.ident_pool, pos: 0 }
    }

    /// The pool with the literal byte strings used by the rules.
    pub fn lit_pool(&self) -> (r: &BStringPool)
        ensures
            r@ == self.lit_pool@,
    {
        &self.lit_pool
    }

    /// The pool with the identifiers used by the rules.
    pub fn ident_pool(&self) -> (r: &StringPool)
        ensures
            r@ == self.ident_pool@,
    {
        &self.ident_pool
    }

    /// The natively compiled WebAssembly module.
    pub fn compiled_wasm_mod(&self) -> &wasmtime::Module {
        &self.compiled_wasm_mod
    }
}

/// Yields the name of each module imported by the rules, in import order,
/// duplicates kept.
pub struct ImportedModules<'a> {
    /// The imported modules' identifier ids, in import order.
    pub ids: &'a Vec<IdentId>,
    /// The pool resolving each id to its name.
    pub pool: &'a StringPool,
    /// How many names were yielded already.
    pub pos: usize,
}

impl<'a> ImportedModules<'a> {
    /// The next imported module's name, or `None` when all names were
    /// yielded. An id that does not resolve in the pool ends the iteration
    /// early; ids handed out by the compiler always resolve.
    pub fn next(&mut self) -> (r: Option<String>)
        ensures
            old(self).pos >= old(self).ids@.len() ==> r is None && *final(self) == *old(self),
            old(self).pos < old(self).ids@.len() ==> {
                &&& final(self).pos == old(self).pos + 1
                &&& final(self).ids@ == old(self).ids@
                &&& final(self).pool@ == old(self).pool@
                &&& ((old(self).ids@[old(self).pos as int].0 as int) < old(self).pool@.len()
                    ==> (r matches Some(name) && name@ == old(self).pool@[old(self).ids@[old(
                    self,
                ).pos as int].0 as int]))
                &&& ((old(self).ids@[old(self).pos as int].0 as int) >= old(self).pool@.len()
                    ==> r is None)
            },
    {
        if self.pos < self.ids.len() {
            let id = self.ids[self.pos];
            self.pos = self.pos + 1;
            if (id.0 as usize) < self.pool.len() {
                Some(self.pool.get(id).clone())
            } else {
                None
            }
        } else {
            None
        }
    }
}

} // verus!
