use rulec::ast::{Ast, Expr, Import, Namespace, PatternDecl, Rule, Span, CmpOp, ArithOp};
use rulec::{Compiler, CompileError, Error, StringPool, BStringPool, Warning};

fn ns(imports: Vec<Import>, rules: Vec<Rule>) -> Namespace {
    Namespace { imports, rules }
}

fn ast(namespaces: Vec<Namespace>) -> Ast {
    Ast { namespaces, warnings: Vec::new() }
}

fn rule(name: &str, patterns: Option<Vec<&str>>, condition: Expr) -> Rule {
    Rule {
        identifier: name.to_string(),
        patterns: patterns.map(|ps| {
            ps.into_iter().map(|p| PatternDecl { identifier: p.to_string() }).collect()
        }),
        condition,
    }
}

fn import(name: &str, start: u32, end: u32) -> Import {
    Import { module_name: name.to_string(), span: Span { start, end } }
}

#[test]
fn interning_is_idempotent() {
    let mut pool = StringPool::new();
    let a1 = pool.get_or_intern(&"$a".to_string());
    let b1 = pool.get_or_intern(&"$b".to_string());
    let a2 = pool.get_or_intern(&"$a".to_string());
    let b2 = pool.get_or_intern(&"$b".to_string());
    assert_eq!(a1, a2);
    assert_eq!(b1, b2);
    assert_ne!(a1, b1);
    assert_eq!(pool.get(a1), "$a");
    assert_eq!(pool.get(b1), "$b");
    assert_eq!(pool.len(), 2);
}

#[test]
fn byte_interning_is_idempotent() {
    let mut pool = BStringPool::new();
    let x1 = pool.get_or_intern(&vec![0u8, 159, 146]);
    let y1 = pool.get_or_intern(&vec![1u8]);
    let x2 = pool.get_or_intern(&vec![0u8, 159, 146]);
    assert_eq!(x1, x2);
    assert_ne!(x1, y1);
    assert_eq!(pool.get(x1), &vec![0u8, 159, 146]);
    assert_eq!(pool.len(), 2);
}

#[test]
fn pattern_pairing() {
    let c = Compiler::new()
        .add_source(ast(vec![ns(
            vec![],
            vec![rule(
                "r",
                Some(vec!["$a", "$b"]),
                Expr::Or(
                    Box::new(Expr::Pattern("$a".to_string())),
                    Box::new(Expr::Pattern("$b".to_string())),
                ),
            )],
        )]))
        .unwrap();
    let rules = c.build().unwrap();
    assert_eq!(rules.rules().len(), 1);
    assert_eq!(rules.patterns().len(), 2);
    let r = &rules.rules()[0];
    assert_eq!(rules.ident_pool().get(r.ident), "r");
    assert_eq!(r.patterns.len(), 2);
    assert_eq!(r.patterns[0].1, 0);
    assert_eq!(r.patterns[1].1, 1);
    assert_ne!(r.patterns[0].1, r.patterns[1].1);
    assert_eq!(rules.ident_pool().get(r.patterns[0].0), "$a");
    assert_eq!(rules.ident_pool().get(r.patterns[1].0), "$b");
}

#[test]
fn determinism() {
    let make = || {
        ast(vec![ns(
            vec![import("pe", 0, 9)],
            vec![
                rule("first", Some(vec!["$a"]), Expr::Pattern("$a".to_string())),
                rule(
                    "second",
                    None,
                    Expr::And(
                        Box::new(Expr::Ident("first".to_string())),
                        Box::new(Expr::Cmp(
                            CmpOp::Gt,
                            Box::new(Expr::Filesize),
                            Box::new(Expr::IntLit(1024)),
                        )),
                    ),
                ),
            ],
        )])
    };
    let a = Compiler::new().add_source(make()).unwrap().build().unwrap();
    let b = Compiler::new().add_source(make()).unwrap().build().unwrap();
    assert_eq!(a.rules().len(), b.rules().len());
    for (ra, rb) in a.rules().iter().zip(b.rules().iter()) {
        assert_eq!(a.ident_pool().get(ra.ident), b.ident_pool().get(rb.ident));
        assert_eq!(ra.patterns.len(), rb.patterns.len());
        for (pa, pb) in ra.patterns.iter().zip(rb.patterns.iter()) {
            assert_eq!(pa.1, pb.1);
            assert_eq!(a.ident_pool().get(pa.0), b.ident_pool().get(pb.0));
        }
    }
    assert_eq!(a.ident_pool().len(), b.ident_pool().len());
    assert_eq!(a.patterns().len(), b.patterns().len());
    assert_eq!(a.wasm_mod, b.wasm_mod);
}

#[test]
fn scope_isolation() {
    // A rule symbol defined in the first namespace is not resolvable from
    // the second namespace.
    let r = Compiler::new().add_source(ast(vec![
        ns(vec![], vec![rule("secret", None, Expr::True)]),
        ns(vec![], vec![rule("probe", None, Expr::Ident("secret".to_string()))]),
    ]));
    match r {
        Err(Error::CompileError(CompileError::UnresolvedIdentifier { identifier })) => {
            assert_eq!(identifier, "secret");
        }
        other => panic!("expected unresolved identifier, got {:?}", other.map(|_| ())),
    }
}

#[test]
fn forward_rule_reference() {
    // Referencing a rule declared earlier in the same namespace works.
    let ok = Compiler::new().add_source(ast(vec![ns(
        vec![],
        vec![
            rule("earlier", None, Expr::True),
            rule("later", None, Expr::Ident("earlier".to_string())),
        ],
    )]));
    assert!(ok.is_ok());

    // Referencing a rule not yet declared fails as unresolved.
    let r = Compiler::new().add_source(ast(vec![ns(
        vec![],
        vec![rule("early", None, Expr::Ident("not_yet".to_string()))],
    )]));
    match r {
        Err(Error::CompileError(CompileError::UnresolvedIdentifier { identifier })) => {
            assert_eq!(identifier, "not_yet");
        }
        other => panic!("expected unresolved identifier, got {:?}", other.map(|_| ())),
    }
}

#[test]
fn unknown_module() {
    let r = Compiler::new().add_source(ast(vec![ns(
        vec![import("nonexistent", 7, 27)],
        vec![],
    )]));
    match r {
        Err(Error::CompileError(CompileError::UnknownModule { module_name, span })) => {
            assert_eq!(module_name, "nonexistent");
            assert_eq!(span, Span { start: 7, end: 27 });
        }
        other => panic!("expected unknown module, got {:?}", other.map(|_| ())),
    }
}

#[test]
fn known_modules_import() {
    let c = Compiler::new()
        .add_source(ast(vec![
            ns(vec![import("pe", 0, 9), import("time", 10, 21)], vec![]),
            ns(vec![import("pe", 0, 9)], vec![]),
        ]))
        .unwrap();
    let rules = c.build().unwrap();
    let mut names = Vec::new();
    let mut it = rules.imported_modules();
    while let Some(n) = it.next() {
        names.push(n);
    }
    // Duplicates are kept, in import order.
    assert_eq!(names, vec!["pe".to_string(), "time".to_string(), "pe".to_string()]);
}

#[test]
fn duplicate_import_is_idempotent() {
    // Re-importing the same module in another namespace binds it again and
    // appends another imported-module entry, but the compilation-wide
    // modules structure keeps a single field per distinct module name.
    let c = Compiler::new()
        .add_source(ast(vec![
            ns(vec![import("pe", 0, 9)], vec![]),
            ns(vec![import("pe", 0, 9)], vec![]),
        ]))
        .unwrap();
    assert_eq!(c.modules_struct.fields.len(), 1);
    let rules = c.build().unwrap();
    let mut names = Vec::new();
    let mut it = rules.imported_modules();
    while let Some(n) = it.next() {
        names.push(n);
    }
    assert_eq!(names, vec!["pe".to_string(), "pe".to_string()]);
}

#[test]
fn cast_warning_for_integer_condition() {
    // A bare integer condition compiles with exactly one implicit-cast
    // warning.
    let c = Compiler::new()
        .add_source(ast(vec![ns(vec![], vec![rule("int_cond", None, Expr::Filesize)])]))
        .unwrap();
    assert_eq!(c.warnings().len(), 1);
    assert!(matches!(c.warnings()[0], Warning::NonBooleanAsBoolean { .. }));
    assert!(c.build().is_ok());

    // A boolean condition compiles with no warning.
    let c = Compiler::new()
        .add_source(ast(vec![ns(vec![], vec![rule("bool_cond", None, Expr::True)])]))
        .unwrap();
    assert_eq!(c.warnings().len(), 0);
}

#[test]
fn stack_balance_deep_nesting() {
    // Conjunctions and comparisons allocate and free local-variable slots;
    // a nested condition compiles and builds, and the emitted module
    // validates.
    let cond = Expr::And(
        Box::new(Expr::Or(
            Box::new(Expr::Not(Box::new(Expr::True))),
            Box::new(Expr::Cmp(
                CmpOp::Le,
                Box::new(Expr::Arith(
                    ArithOp::Add,
                    Box::new(Expr::Filesize),
                    Box::new(Expr::IntLit(7)),
                )),
                Box::new(Expr::IntLit(4096)),
            )),
        )),
        Box::new(Expr::And(Box::new(Expr::True), Box::new(Expr::False))),
    );
    let c = Compiler::new()
        .add_source(ast(vec![ns(vec![], vec![rule("nested", None, cond)])]))
        .unwrap();
    assert!(c.build().is_ok());
}

#[test]
fn over_deep_nesting_is_rejected() {
    // Nesting past the fixed local-variable stack capacity fails instead
    // of corrupting the stack discipline.
    let mut cond = Expr::True;
    for _ in 0..20 {
        cond = Expr::And(Box::new(cond), Box::new(Expr::False));
    }
    let r = Compiler::new().add_source(ast(vec![ns(vec![], vec![rule("deep", None, cond)])]));
    match r {
        Err(Error::CompileError(CompileError::CapacityExceeded)) => {}
        other => panic!("expected capacity error, got {:?}", other.map(|_| ())),
    }
}

#[test]
fn module_field_condition() {
    let c = Compiler::new()
        .add_source(ast(vec![ns(
            vec![import("pe", 0, 9)],
            vec![rule(
                "uses_fields",
                None,
                Expr::And(
                    Box::new(Expr::Field("pe".to_string(), "is_signed".to_string())),
                    Box::new(Expr::Cmp(
                        CmpOp::Eq,
                        Box::new(Expr::Field("pe".to_string(), "entry_point".to_string())),
                        Box::new(Expr::IntLit(0x1000)),
                    )),
                ),
            )],
        )]))
        .unwrap();
    assert!(c.build().is_ok());
}

#[test]
fn unknown_field_is_rejected() {
    let r = Compiler::new().add_source(ast(vec![ns(
        vec![import("pe", 0, 9)],
        vec![rule("bad", None, Expr::Field("pe".to_string(), "no_such".to_string()))],
    )]));
    match r {
        Err(Error::CompileError(CompileError::UnknownField { identifier })) => {
            assert_eq!(identifier, "no_such");
        }
        other => panic!("expected unknown field, got {:?}", other.map(|_| ())),
    }
}

#[test]
fn undeclared_pattern_is_rejected() {
    let r = Compiler::new().add_source(ast(vec![ns(
        vec![],
        vec![rule("bad", Some(vec!["$a"]), Expr::Pattern("$b".to_string()))],
    )]));
    match r {
        Err(Error::CompileError(CompileError::UnknownPattern { identifier })) => {
            assert_eq!(identifier, "$b");
        }
        other => panic!("expected unknown pattern, got {:?}", other.map(|_| ())),
    }
}

#[test]
fn type_error_is_rejected() {
    // A module name alone is a structure, not a boolean.
    let r = Compiler::new().add_source(ast(vec![ns(
        vec![import("pe", 0, 9)],
        vec![rule("bad", None, Expr::Ident("pe".to_string()))],
    )]));
    match r {
        Err(Error::CompileError(CompileError::UnresolvedIdentifier { identifier })) => {
            assert_eq!(identifier, "pe");
        }
        other => panic!("expected a compile error, got {:?}", other.map(|_| ())),
    }
}

#[test]
fn sources_accumulate_across_calls() {
    let c = Compiler::new()
        .add_source(ast(vec![ns(vec![], vec![rule("one", None, Expr::True)])]))
        .unwrap()
        .add_source(ast(vec![ns(vec![], vec![rule("two", None, Expr::False)])]))
        .unwrap();
    let rules = c.build().unwrap();
    assert_eq!(rules.rules().len(), 2);
    assert_eq!(rules.ident_pool().get(rules.rules()[0].ident), "one");
    assert_eq!(rules.ident_pool().get(rules.rules()[1].ident), "two");
}

#[test]
fn colorize_errors_is_cosmetic() {
    let c = Compiler::new().colorize_errors(true);
    let c = c
        .add_source(ast(vec![ns(vec![], vec![rule("r", None, Expr::True)])]))
        .unwrap();
    assert!(c.build().is_ok());
}

#[test]
fn emitted_wasm_runs() {
    // Instantiate the compiled module with host functions and check the
    // three-valued evaluation of each rule's condition.
    let c = Compiler::new()
        .add_source(ast(vec![ns(
            vec![],
            vec![
                rule("t", None, Expr::True),
                rule("f", None, Expr::False),
                rule(
                    "size_gt",
                    None,
                    Expr::Cmp(CmpOp::Gt, Box::new(Expr::Filesize), Box::new(Expr::IntLit(100))),
                ),
            ],
        )]))
        .unwrap();
    let rules = c.build().unwrap();

    let engine = wasmtime::Engine::default();
    let module = wasmtime::Module::from_binary(&engine, &rules.wasm_mod).unwrap();
    let mut linker: wasmtime::Linker<()> = wasmtime::Linker::new(&engine);
    linker.func_wrap("host", "filesize", || -> i64 { 512 }).unwrap();
    linker.func_wrap("host", "pattern_match", |_: i32| -> i32 { 0 }).unwrap();
    linker.func_wrap("host", "rule_match", |_: i32| -> i32 { 0 }).unwrap();
    linker.func_wrap("host", "field_def", |_: i32, _: i32| -> i32 { 0 }).unwrap();
    linker.func_wrap("host", "field_i64", |_: i32, _: i32| -> i64 { 0 }).unwrap();
    linker.func_wrap("host", "field_bool", |_: i32, _: i32| -> i32 { 0 }).unwrap();
    let mut store = wasmtime::Store::new(&engine, ());
    let instance = linker.instantiate(&mut store, &module).unwrap();
    let main = instance
        .get_typed_func::<i32, i32>(&mut store, "main")
        .unwrap();
    // 2 encodes true, 0 false, 1 undefined.
    assert_eq!(main.call(&mut store, 0).unwrap(), 2);
    assert_eq!(main.call(&mut store, 1).unwrap(), 0);
    assert_eq!(main.call(&mut store, 2).unwrap(), 2);
}

#[test]
fn undefined_field_propagates() {
    // An absent module field makes the comparison undefined, not false.
    let c = Compiler::new()
        .add_source(ast(vec![ns(
            vec![import("pe", 0, 9)],
            vec![rule(
                "undef",
                None,
                Expr::Cmp(
                    CmpOp::Eq,
                    Box::new(Expr::Field("pe".to_string(), "entry_point".to_string())),
                    Box::new(Expr::IntLit(0)),
                ),
            )],
        )]))
        .unwrap();
    let rules = c.build().unwrap();

    let engine = wasmtime::Engine::default();
    let module = wasmtime::Module::from_binary(&engine, &rules.wasm_mod).unwrap();
    let mut linker: wasmtime::Linker<()> = wasmtime::Linker::new(&engine);
    linker.func_wrap("host", "filesize", || -> i64 { 0 }).unwrap();
    linker.func_wrap("host", "pattern_match", |_: i32| -> i32 { 0 }).unwrap();
    linker.func_wrap("host", "rule_match", |_: i32| -> i32 { 0 }).unwrap();
    // The field has no value: definedness is 0 even though the raw value
    // would compare equal.
    linker.func_wrap("host", "field_def", |_: i32, _: i32| -> i32 { 0 }).unwrap();
    linker.func_wrap("host", "field_i64", |_: i32, _: i32| -> i64 { 0 }).unwrap();
    linker.func_wrap("host", "field_bool", |_: i32, _: i32| -> i32 { 0 }).unwrap();
    let mut store = wasmtime::Store::new(&engine, ());
    let instance = linker.instantiate(&mut store, &module).unwrap();
    let main = instance
        .get_typed_func::<i32, i32>(&mut store, "main")
        .unwrap();
    assert_eq!(main.call(&mut store, 0).unwrap(), 1);
}
