//! Trusted boundary to the WebAssembly backend.
//!
//! The generated instruction stream is handed, one instruction at a time,
//! to walrus, which builds and serializes the WebAssembly module; wasmtime
//! then compiles the serialized module to native code. Verus believes the
//! contracts stated here; the bodies only transport instructions and
//! values, they decide nothing.

use vstd::prelude::*;
use crate::emit::{Instr, BinOp, Loc, HostFn, VARS_CAPACITY};

verus! {

/// Builder for the WebAssembly module holding the shared rule-condition
/// function. Wraps a walrus module and function builder, the function's
/// argument local, the accumulator local, the fixed local-variable-stack
/// slots, and the imported host functions; all of it opaque here.
#[verifier::external_body]
pub struct ModuleBuilder {
    module: walrus::Module,
    builder: walrus::FunctionBuilder,
    arg: walrus::LocalId,
    acc: walrus::LocalId,
    tmps: Vec<walrus::LocalId>,
    host: Vec<walrus::FunctionId>,
}

/// The instructions pushed so far into the module's shared function body.
pub uninterp spec fn mb_code(m: ModuleBuilder) -> Seq<Instr>;

/// The host functions declared so far, in declaration order.
pub uninterp spec fn mb_hosts(m: ModuleBuilder) -> Seq<HostFn>;

/// The one declaration order the library uses: every host function once,
/// in the order of [`HostFn`]'s variants.
pub open spec fn host_order() -> Seq<HostFn> {
    seq![
        HostFn::Filesize,
        HostFn::PatternMatch,
        HostFn::RuleMatch,
        HostFn::FieldDef,
        HostFn::FieldI64,
        HostFn::FieldBool,
    ]
}

/// The serialized WebAssembly module that a given instruction stream
/// yields, under the fixed builder setup (the locals of `new` and the host
/// declarations of `host_order`): the bytes then depend on the
/// instructions alone.
pub uninterp spec fn wasm_encoding(code: Seq<Instr>) -> Seq<u8>;

impl ModuleBuilder {
    /// Relies on walrus::Module::default, walrus::FunctionBuilder::new and
    /// walrus::ModuleLocals::add. The module's fixed setup lives here: an
    /// empty module, a builder for one function taking an `i32` rule id
    /// and returning an `i32`, and `i32` locals for the argument, the
    /// accumulator and each of the `VARS_CAPACITY` local-variable-stack
    /// slots. No host function is declared yet.
    #[verifier::external_body]
    pub fn new() -> (r: ModuleBuilder)
        ensures
            mb_code(r) == Seq::<Instr>::empty(),
            mb_hosts(r) == Seq::<HostFn>::empty(),
    {
        let mut module = walrus::Module::default();
        let builder = walrus::FunctionBuilder::new(
            &mut module.types,
            &[walrus::ValType::I32],
            &[walrus::ValType::I32],
        );
        let arg = module.locals.add(walrus::ValType::I32);
        let acc = module.locals.add(walrus::ValType::I32);
        let mut tmps = Vec::new();
        for _ in 0..crate::emit::VARS_CAPACITY {
            tmps.push(module.locals.add(walrus::ValType::I32));
        }
        ModuleBuilder { module, builder, arg, acc, tmps, host: Vec::new() }
    }

    /// Relies on walrus::ModuleTypes::add and
    /// walrus::Module::add_import_func: declares the one imported host
    /// function the variant names, with the signature [`HostFn`]'s doc
    /// comments state; the match only spells those signatures out.
    #[verifier::external_body]
    pub fn declare_host(&mut self, f: HostFn)
        ensures
            mb_code(*final(self)) == mb_code(*old(self)),
            mb_hosts(*final(self)) == mb_hosts(*old(self)).push(f),
    {
        let (name, n, r64): (&str, usize, bool) = match f {
            HostFn::Filesize => ("filesize", 0, true),
            HostFn::PatternMatch => ("pattern_match", 1, false),
            HostFn::RuleMatch => ("rule_match", 1, false),
            HostFn::FieldDef => ("field_def", 2, false),
            HostFn::FieldI64 => ("field_i64", 2, true),
            HostFn::FieldBool => ("field_bool", 2, false),
        };
        let params = vec![walrus::ValType::I32; n];
        let results = [if r64 { walrus::ValType::I64 } else { walrus::ValType::I32 }];
        let ty = self.module.types.add(&params, &results);
        let (fid, _) = self.module.add_import_func("host", name, ty);
        self.host.push(fid);
    }

    /// Relies on walrus::InstrSeqBuilder::i32_const.
    #[verifier::external_body]
    pub fn i32_const(&mut self, v: i32)
        ensures
            mb_code(*final(self)) == mb_code(*old(self)).push(Instr::I32Const(v)),
            mb_hosts(*final(self)) == mb_hosts(*old(self)),
    {
        self.builder.func_body().i32_const(v);
    }

    /// Relies on walrus::InstrSeqBuilder::i64_const.
    #[verifier::external_body]
    pub fn i64_const(&mut self, v: i64)
        ensures
            mb_code(*final(self)) == mb_code(*old(self)).push(Instr::I64Const(v)),
            mb_hosts(*final(self)) == mb_hosts(*old(self)),
    {
        self.builder.func_body().i64_const(v);
    }

    /// Relies on walrus::InstrSeqBuilder::instr with walrus::ir::Binop; the
    /// match only renames each operator.
    #[verifier::external_body]
    pub fn binop(&mut self, op: BinOp)
        ensures
            mb_code(*final(self)) == mb_code(*old(self)).push(Instr::Binop(op)),
            mb_hosts(*final(self)) == mb_hosts(*old(self)),
    {
        let w = match op {
            BinOp::I32Eq => walrus::ir::BinaryOp::I32Eq,
            BinOp::I32LtS => walrus::ir::BinaryOp::I32LtS,
            BinOp::I32Sub => walrus::ir::BinaryOp::I32Sub,
            BinOp::I32And => walrus::ir::BinaryOp::I32And,
            BinOp::I64Add => walrus::ir::BinaryOp::I64Add,
            BinOp::I64Sub => walrus::ir::BinaryOp::I64Sub,
            BinOp::I64Mul => walrus::ir::BinaryOp::I64Mul,
            BinOp::I64Eq => walrus::ir::BinaryOp::I64Eq,
            BinOp::I64LtS => walrus::ir::BinaryOp::I64LtS,
            BinOp::I64LeS => walrus::ir::BinaryOp::I64LeS,
        };
        self.builder.func_body().instr(walrus::ir::Binop { op: w });
    }

    /// Relies on walrus::InstrSeqBuilder::instr with walrus::ir::Select.
    #[verifier::external_body]
    pub fn select(&mut self)
        ensures
            mb_code(*final(self)) == mb_code(*old(self)).push(Instr::Select),
            mb_hosts(*final(self)) == mb_hosts(*old(self)),
    {
        self.builder.func_body().instr(walrus::ir::Select { ty: None });
    }

    /// Relies on walrus::InstrSeqBuilder::instr with walrus::ir::LocalGet;
    /// the match only picks the local the location names. A stack slot
    /// must name one of the `VARS_CAPACITY` locals the builder holds.
    #[verifier::external_body]
    pub fn local_get(&mut self, l: Loc)
        requires
            l matches Loc::Tmp(i) ==> i < VARS_CAPACITY as u32,
        ensures
            mb_code(*final(self)) == mb_code(*old(self)).push(Instr::LocalGet(l)),
            mb_hosts(*final(self)) == mb_hosts(*old(self)),
    {
        let local = match l {
            Loc::Arg => self.arg,
            Loc::Acc => self.acc,
            Loc::Tmp(i) => self.tmps[i as usize],
        };
        self.builder.func_body().instr(walrus::ir::LocalGet { local });
    }

    /// Relies on walrus::InstrSeqBuilder::instr with walrus::ir::LocalSet;
    /// the match only picks the local the location names. A stack slot
    /// must name one of the `VARS_CAPACITY` locals the builder holds.
    #[verifier::external_body]
    pub fn local_set(&mut self, l: Loc)
        requires
            l matches Loc::Tmp(i) ==> i < VARS_CAPACITY as u32,
        ensures
            mb_code(*final(self)) == mb_code(*old(self)).push(Instr::LocalSet(l)),
            mb_hosts(*final(self)) == mb_hosts(*old(self)),
    {
        let local = match l {
            Loc::Arg => self.arg,
            Loc::Acc => self.acc,
            Loc::Tmp(i) => self.tmps[i as usize],
        };
        self.builder.func_body().instr(walrus::ir::LocalSet { local });
    }

    /// Relies on walrus::InstrSeqBuilder::instr with walrus::ir::Call; the
    /// match only picks the host function the variant names. Every host
    /// function must have been declared, in the fixed order, so every
    /// variant has an entry at its own position.
    #[verifier::external_body]
    pub fn call_host(&mut self, f: HostFn)
        requires
            mb_hosts(*old(self)) == host_order(),
        ensures
            mb_code(*final(self)) == mb_code(*old(self)).push(Instr::Call(f)),
            mb_hosts(*final(self)) == mb_hosts(*old(self)),
    {
        let i: usize = match f {
            HostFn::Filesize => 0,
            HostFn::PatternMatch => 1,
            HostFn::RuleMatch => 2,
            HostFn::FieldDef => 3,
            HostFn::FieldI64 => 4,
            HostFn::FieldBool => 5,
        };
        let func = self.host[i];
        self.builder.func_body().instr(walrus::ir::Call { func });
    }

    /// Relies on walrus::FunctionBuilder::finish,
    /// walrus::ModuleExports::add and walrus::Module::emit_wasm: closes the
    /// shared function over its rule-id argument, exports it as `main`,
    /// and serializes the module. The bytes are a function of the pushed
    /// instructions once the host declarations are the fixed ones, since
    /// walrus serializes deterministically and everything else about the
    /// builder is the same on every run.
    #[verifier::external_body]
    pub fn finish(self) -> (r: Vec<u8>)
        ensures
            mb_hosts(self) == host_order() ==> r@ == wasm_encoding(mb_code(self)),
    {
        let mut module = self.module;
        let f = self.builder.finish(vec![self.arg], &mut module.funcs);
        module.exports.add("main", f);
        module.emit_wasm()
    }
}

#[verifier::external_type_specification]
#[verifier::external_body]
pub struct ExWasmtimeEngine(wasmtime::Engine);

#[verifier::external_type_specification]
#[verifier::external_body]
pub struct ExWasmtimeModule(wasmtime::Module);

/// Relies on wasmtime::Engine::default: an engine with default settings.
/// It aborts only on a host whose default configuration is unsupported,
/// which no input of this library controls.
#[verifier::external_body]
pub fn engine_new() -> (r: wasmtime::Engine) {
    wasmtime::Engine::default()
}

/// Relies on wasmtime::Module::from_binary: validates the serialized
/// WebAssembly module and compiles it to native code for the current
/// platform; `None` when validation or compilation rejects the bytes.
#[verifier::external_body]
pub fn module_from_binary(engine: &wasmtime::Engine, bytes: &Vec<u8>) -> (r: Option<
    wasmtime::Module,
>) {
    wasmtime::Module::from_binary(engine, bytes.as_slice()).ok()
}

} // verus!
