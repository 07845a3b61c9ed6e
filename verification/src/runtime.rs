//! The wasmtime runtime as the kernel sees it: the handle types, what the
//! store holds, the bytes of a linear memory, and one trusted wrapper per
//! wasmtime function the kernel calls.

use vstd::prelude::*;
use wasmtime::{Caller, Config, Engine, Extern, ExternType, Func, Instance, Linker, Memory, Module, Store, Val, ValType};

verus! {

#[verifier::external_type_specification]
#[verifier::external_body]
#[verifier::reject_recursive_types(T)]
pub struct ExStore<T: 'static>(Store<T>);

#[verifier::external_type_specification]
#[verifier::external_body]
pub struct ExEngine(Engine);

#[verifier::external_type_specification]
#[verifier::external_body]
pub struct ExConfig(Config);

#[verifier::external_type_specification]
#[verifier::external_body]
pub struct ExModule(Module);

#[verifier::external_type_specification]
#[verifier::external_body]
#[verifier::reject_recursive_types(T)]
pub struct ExLinker<T>(Linker<T>);

#[verifier::external_type_specification]
#[verifier::external_body]
pub struct ExInstance(Instance);

#[verifier::external_type_specification]
#[verifier::external_body]
pub struct ExMemory(Memory);

#[verifier::external_type_specification]
#[verifier::external_body]
pub struct ExFunc(Func);

#[verifier::external_type_specification]
#[verifier::external_body]
#[verifier::reject_recursive_types(T)]
pub struct ExCaller<'a, T: 'static>(Caller<'a, T>);

#[verifier::external_type_specification]
#[verifier::external_body]
pub struct ExError(wasmtime::Error);

#[verifier::external_type_specification]
#[verifier::external_body]
pub struct ExValType(ValType);

#[verifier::external_type_specification]
#[verifier::external_body]
pub struct ExVal(Val);

/// The kind of a WebAssembly value type.
#[derive(Clone, Copy, Debug, PartialEq, Eq, Structural)]
pub enum ValueKind {
    I32,
    I64,
    F32,
    F64,
    V128,
    Ref,
}

/// A WebAssembly value as the host reads it; floating-point values are
/// carried as their IEEE-754 bit patterns.
#[derive(Clone, Copy, Debug, PartialEq, Eq, Structural)]
pub enum WasmValue {
    I32(i32),
    I64(i64),
    F32(u32),
    F64(u64),
    Other,
}

/// The kind of a value.
pub open spec fn kind_of(v: WasmValue) -> Option<ValueKind> {
    match v {
        WasmValue::I32(_) => Some(ValueKind::I32),
        WasmValue::I64(_) => Some(ValueKind::I64),
        WasmValue::F32(_) => Some(ValueKind::F32),
        WasmValue::F64(_) => Some(ValueKind::F64),
        WasmValue::Other => None,
    }
}

/// The parameter and result kinds of a function type.
pub struct Signature {
    pub params: Vec<ValueKind>,
    pub results: Vec<ValueKind>,
}

/// The bytes of a linear memory in a store.
pub uninterp spec fn memory_bytes(store: Store<()>, memory: Memory) -> Seq<u8>;

/// The bytes of a linear memory, seen from inside a host call.
pub uninterp spec fn caller_memory_bytes(caller: Caller<'_, ()>, memory: Memory) -> Seq<u8>;

/// The store owns the instance.
pub uninterp spec fn holds_instance(store: Store<()>, instance: Instance) -> bool;

/// The store owns the memory.
pub uninterp spec fn holds_memory(store: Store<()>, memory: Memory) -> bool;

/// The store owns the function.
pub uninterp spec fn holds_func(store: Store<()>, func: Func) -> bool;

/// The memory the calling instance exports as `"memory"`, if it exports one.
pub uninterp spec fn caller_exported_memory(caller: Caller<'_, ()>) -> Option<Memory>;

/// The store behind a host call owns the memory.
pub uninterp spec fn caller_holds_memory(caller: Caller<'_, ()>, memory: Memory) -> bool;

/// The parameter kinds of a function, as `Func::ty` reports them.
pub uninterp spec fn func_params(store: Store<()>, func: Func) -> Seq<ValueKind>;

/// The result kinds of a function, as `Func::ty` reports them.
pub uninterp spec fn func_results(store: Store<()>, func: Func) -> Seq<ValueKind>;

/// `Store::engine`: the engine the store was made for. Handles to one
/// engine are equal.
pub uninterp spec fn store_engine_of(store: Store<()>) -> Engine;

/// The store runs without an epoch-deadline callback (wasmtime's default):
/// a call that reaches the deadline traps, and the deadline stays as it
/// was.
pub uninterp spec fn deadline_traps(store: Store<()>) -> bool;

/// The deadline of `after` is that of `before`, where `before` traps on its
/// deadline.
pub open spec fn deadline_kept(before: Store<()>, after: Store<()>) -> bool {
    deadline_traps(before) ==> epoch_deadline(after) == epoch_deadline(before)
}

/// The function, called with `args`, answered `values`: a record of what a
/// call returned. Nothing follows from it about what another call of the
/// same function answers.
pub uninterp spec fn func_answered(func: Func, args: Seq<i32>, values: Seq<WasmValue>) -> bool;

/// The calls made in the store through `Func::call`, in order: each
/// function with its arguments. A record the wrappers keep: a store starts
/// with none, `func_call` appends its call, and no other wrapper adds one.
pub uninterp spec fn store_calls(store: Store<()>) -> Seq<(Func, Seq<i32>)>;

/// No call was made between `before` and `after`.
pub open spec fn calls_kept(before: Store<()>, after: Store<()>) -> bool {
    store_calls(after) == store_calls(before)
}

/// The text of a wasmtime error, as its `Display` renders it.
pub uninterp spec fn error_text(e: wasmtime::Error) -> Seq<char>;

/// The error is wasmtime's `OutOfMemory`: an allocation failed.
pub uninterp spec fn is_out_of_memory(e: wasmtime::Error) -> bool;

/// Everything `before` owns, `after` still owns, with the same function
/// types, the store is made for the same engine, and it keeps trapping on
/// its deadline: a store never drops an instance, a memory or a function,
/// never changes its engine, and no call here installs a deadline callback.
pub open spec fn store_grows(before: Store<()>, after: Store<()>) -> bool {
    &&& store_engine_of(after) == store_engine_of(before)
    &&& deadline_traps(before) ==> deadline_traps(after)
    &&& forall|i: Instance| #[trigger] holds_instance(before, i) ==> holds_instance(after, i)
    &&& forall|m: Memory| #[trigger] holds_memory(before, m) ==> holds_memory(after, m)
    &&& forall|f: Func| #[trigger] holds_func(before, f) ==> {
        &&& holds_func(after, f)
        &&& func_params(after, f) == func_params(before, f)
        &&& func_results(after, f) == func_results(before, f)
    }
}

/// Nothing but ownership may have changed: every memory keeps its bytes.
pub open spec fn store_memories_unchanged(before: Store<()>, after: Store<()>) -> bool {
    forall|m: Memory| #[trigger] memory_bytes(after, m) == memory_bytes(before, m)
}

/// Ownership grows along a sequence of stores.
pub proof fn lemma_store_grows_trans(a: Store<()>, b: Store<()>, c: Store<()>)
    requires
        store_grows(a, b),
        store_grows(b, c),
    ensures
        store_grows(a, c),
{
    assert forall|f: Func| #[trigger] holds_func(a, f) implies {
        &&& holds_func(c, f)
        &&& func_params(c, f) == func_params(a, f)
        &&& func_results(c, f) == func_results(a, f)
    } by {
        assert(holds_func(b, f));
    }
    assert forall|m: Memory| #[trigger] holds_memory(a, m) implies holds_memory(c, m) by {
        assert(holds_memory(b, m));
    }
    assert forall|i: Instance| #[trigger] holds_instance(a, i) implies holds_instance(c, i) by {
        assert(holds_instance(b, i));
    }
}

/// Memory contents stay put along a sequence of stores that keep them.
pub proof fn lemma_memories_unchanged_trans(a: Store<()>, b: Store<()>, c: Store<()>)
    requires
        store_memories_unchanged(a, b),
        store_memories_unchanged(b, c),
    ensures
        store_memories_unchanged(a, c),
{
    assert forall|m: Memory| #[trigger] memory_bytes(c, m) == memory_bytes(a, m) by {
        assert(memory_bytes(c, m) == memory_bytes(b, m));
    }
}

/// `wasmtime::Config::new`: a configuration with wasmtime's defaults.
#[verifier::external_body]
pub(crate) fn config_new() -> (c: Config) {
    Config::new()
}

/// Whether the configuration asks for the SIMD proposal, as
/// `Config::wasm_simd` last set it.
pub uninterp spec fn config_simd(c: Config) -> bool;

/// Whether the configuration asks for the tail-call proposal, as
/// `Config::wasm_tail_call` last set it.
pub uninterp spec fn config_tail_call(c: Config) -> bool;

/// Whether the configuration asks for the exception-handling proposal, as
/// `Config::wasm_exceptions` last set it.
pub uninterp spec fn config_exceptions(c: Config) -> bool;

/// Whether the configuration asks for epoch interruption, as
/// `Config::epoch_interruption` last set it.
pub uninterp spec fn config_epoch_interruption_on(c: Config) -> bool;

/// `Engine::config`: the configuration an engine runs with.
pub uninterp spec fn engine_settings(e: Engine) -> Config;

/// The four settings of `a` and `b` agree.
pub open spec fn same_settings(a: Config, b: Config) -> bool {
    &&& config_simd(a) == config_simd(b)
    &&& config_tail_call(a) == config_tail_call(b)
    &&& config_exceptions(a) == config_exceptions(b)
    &&& config_epoch_interruption_on(a) == config_epoch_interruption_on(b)
}

/// `Config::wasm_simd`: switch the SIMD proposal on or off. The setter
/// touches its own feature flag and nothing else.
#[verifier::external_body]
pub(crate) fn config_wasm_simd(config: &mut Config, enable: bool)
    ensures
        config_simd(*final(config)) == enable,
        config_tail_call(*final(config)) == config_tail_call(*old(config)),
        config_exceptions(*final(config)) == config_exceptions(*old(config)),
        config_epoch_interruption_on(*final(config)) == config_epoch_interruption_on(*old(config)),
{
    config.wasm_simd(enable);
}

/// `Config::wasm_tail_call`: switch the tail-call proposal on or off. The
/// setter touches its own feature flag and nothing else.
#[verifier::external_body]
pub(crate) fn config_wasm_tail_call(config: &mut Config, enable: bool)
    ensures
        config_tail_call(*final(config)) == enable,
        config_simd(*final(config)) == config_simd(*old(config)),
        config_exceptions(*final(config)) == config_exceptions(*old(config)),
        config_epoch_interruption_on(*final(config)) == config_epoch_interruption_on(*old(config)),
{
    config.wasm_tail_call(enable);
}

/// `Config::wasm_exceptions`: switch the exception-handling proposal on or
/// off. The setter touches its own feature flag and nothing else.
#[verifier::external_body]
pub(crate) fn config_wasm_exceptions(config: &mut Config, enable: bool)
    ensures
        config_exceptions(*final(config)) == enable,
        config_simd(*final(config)) == config_simd(*old(config)),
        config_tail_call(*final(config)) == config_tail_call(*old(config)),
        config_epoch_interruption_on(*final(config)) == config_epoch_interruption_on(*old(config)),
{
    config.wasm_exceptions(enable);
}

/// `Config::epoch_interruption`: switch epoch-based interruption on or off.
/// The setter touches its own tunable and no feature flag.
#[verifier::external_body]
pub(crate) fn config_epoch_interruption(config: &mut Config, enable: bool)
    ensures
        config_epoch_interruption_on(*final(config)) == enable,
        config_simd(*final(config)) == config_simd(*old(config)),
        config_tail_call(*final(config)) == config_tail_call(*old(config)),
        config_exceptions(*final(config)) == config_exceptions(*old(config)),
{
    config.epoch_interruption(enable);
}

/// `Engine::new` refused the configuration with `e`: a record of one
/// refusal.
pub uninterp spec fn engine_refused(c: Config, e: wasmtime::Error) -> bool;

/// `Engine::new`: an engine for the configuration, or the reason the
/// configuration is refused. Nothing is claimed of which. The contract
/// claims that an engine runs with the configuration's four settings
/// above: `Engine::new` keeps a clone of the configuration, changing only
/// its compiler settings.
#[verifier::external_body]
pub(crate) fn engine_new(config: &Config) -> (r: Result<Engine, wasmtime::Error>)
    ensures
        r matches Ok(e) ==> same_settings(engine_settings(e), *config),
        r matches Err(e) ==> engine_refused(*config, e),
{
    Engine::new(config)
}

/// Precompiling `bytes` was refused with `e`: a record of one refusal.
pub uninterp spec fn precompile_refused(bytes: Seq<u8>, e: wasmtime::Error) -> bool;

/// The bytes open with the ELF magic number, `0x7f` then `ELF`.
pub open spec fn elf_image(b: Seq<u8>) -> bool {
    b.len() >= 4 && b[0] == 0x7f && b[1] == 0x45 && b[2] == 0x4c && b[3] == 0x46
}

/// `Engine::precompile_module`: the serialized compiled artifact, or the
/// reason the bytes are refused, recorded. Wasmtime writes the artifact as
/// an ELF object whatever the target (`Compiler::object` in
/// wasmtime-environ, "always an ELF file"; `Module::deserialize` checks
/// for the ELF magic), and that is all the contract claims of it: the rest
/// depends on the host.
#[verifier::external_body]
pub(crate) fn engine_precompile_module(engine: &Engine, bytes: &[u8]) -> (r: Result<Vec<u8>, wasmtime::Error>)
    ensures
        r matches Err(e) ==> precompile_refused(bytes@, e),
        r matches Ok(a) ==> elf_image(a@),
{
    engine.precompile_module(bytes)
}

/// `Module::engine`: the engine a module was compiled for.
pub uninterp spec fn module_engine(m: Module) -> Engine;

/// `Linker::engine`: the engine a linker defines functions for.
pub uninterp spec fn linker_engine(l: Linker<()>) -> Engine;

/// What a linker runs for a function the kernel defines in it.
pub enum HostFunction {
    /// `host::clock_time_get_import`.
    Clock,
    /// `host::fd_write_import`.
    FdWrite,
    /// A function of the given parameter and result kinds that ignores its
    /// arguments and answers as `host::answer_stub` does with `plan`.
    Stub { params: Seq<ValueKind>, results: Seq<ValueKind>, plan: Result<Seq<WasmValue>, Seq<char>> },
}

/// The definitions a linker holds, by `(module, name)`: what each runs.
pub uninterp spec fn linker_defines(l: Linker<()>) -> Map<(Seq<char>, Seq<char>), HostFunction>;

/// The module was compiled from `bytes`: a record of one compilation.
pub uninterp spec fn module_compiled_from(m: Module, bytes: Seq<u8>) -> bool;

/// Compiling `bytes` was refused with `e`: a record of one refusal.
pub uninterp spec fn compile_refused(bytes: Seq<u8>, e: wasmtime::Error) -> bool;

/// `Module::new`: the compiled module, or the reason the bytes are refused.
/// The contract claims the module is compiled from the bytes for the given
/// engine, and records a refusal of the bytes.
#[verifier::external_body]
pub(crate) fn module_new(engine: &Engine, bytes: &[u8]) -> (r: Result<Module, wasmtime::Error>)
    ensures
        r matches Ok(m) ==> module_engine(m) == *engine && module_compiled_from(m, bytes@),
        r matches Err(e) ==> compile_refused(bytes@, e),
{
    Module::new(engine, bytes)
}

/// `Store::new`: an empty store with unit host data.
#[verifier::external_body]
pub(crate) fn store_new(engine: &Engine) -> (s: Store<()>)
    ensures
        store_engine_of(s) == *engine,
        deadline_traps(s),
        store_calls(s).len() == 0,
{
    Store::new(engine, ())
}

/// The store's epoch deadline: code running in the store traps once the
/// engine's epoch reaches it.
pub uninterp spec fn epoch_deadline(store: Store<()>) -> u64;

/// The engine's epoch counter read `now`: a record of one reading. The
/// counter starts at 0 and other threads advance it, so nothing follows
/// from it about another reading.
pub uninterp spec fn epoch_read(engine: Engine, now: u64) -> bool;

/// The largest number of ticks the library arms a deadline with, 2^63 - 1.
pub const MAX_DEADLINE_TICKS: u64 = 0x7fff_ffff_ffff_ffff;

/// `Store::set_epoch_deadline`: set the deadline to the engine's current
/// epoch plus `ticks`. Wasmtime adds the two without overflow handling
/// (store.rs, `set_epoch_deadline`), which panics in a build with overflow
/// checks when the sum passes `u64::MAX`. The epoch counter starts at 0 and
/// grows by one per `Engine::increment_epoch`; the contract takes it to stay
/// below 2^63, so with `ticks` at most 2^63 - 1 the sum fits. It claims the
/// deadline is `ticks` past the epoch reading the call took, and that
/// ownership and memory contents are untouched.
#[verifier::external_body]
pub(crate) fn store_set_epoch_deadline(store: &mut Store<()>, ticks: u64)
    requires
        ticks <= MAX_DEADLINE_TICKS,
    ensures
        exists|now: u64| #[trigger] epoch_read(store_engine_of(*old(store)), now)
            && epoch_deadline(*final(store)) == now + ticks,
        store_grows(*old(store), *final(store)),
        store_memories_unchanged(*old(store), *final(store)),
        calls_kept(*old(store), *final(store)),
{
    store.set_epoch_deadline(ticks);
}

/// `Store::engine`, cloned: a handle to the store's engine.
#[verifier::external_body]
pub(crate) fn store_engine(store: &Store<()>) -> (e: Engine)
    ensures
        e == store_engine_of(*store),
{
    store.engine().clone()
}

/// `Linker::new`: a linker for the engine, with no definitions.
#[verifier::external_body]
pub(crate) fn linker_new(engine: &Engine) -> (l: Linker<()>)
    ensures
        linker_engine(l) == *engine,
        linker_defines(l).is_empty(),
{
    Linker::new(engine)
}

/// `Instance::module`: the module an instance was made from.
pub uninterp spec fn instance_module(i: Instance) -> Module;

/// Whether the module exports a (not shared) memory called `name`, as
/// `Instance::get_memory` finds it in an instance of the module.
pub uninterp spec fn module_memory_export(m: Module, name: Seq<char>) -> bool;

/// The parameter and result kinds of the function the module exports as
/// `name`, if it exports a function by that name.
pub uninterp spec fn module_func_export(m: Module, name: Seq<char>) -> Option<(Seq<ValueKind>, Seq<ValueKind>)>;

/// The function was obtained as the export `name` of the instance: a
/// record of one lookup.
pub uninterp spec fn func_is_export(f: Func, i: Instance, name: Seq<char>) -> bool;

/// Instantiating the module was refused with `e`: a record of one refusal.
pub uninterp spec fn instantiate_refused(m: Module, e: wasmtime::Error) -> bool;

/// `Linker::instantiate`: instantiate the module in the store. The linker
/// panics on a store of another engine, which `requires` leaves out. The
/// contract claims that on success the store owns the new instance, made
/// from the module, that a failure is recorded as a refusal of the module,
/// and that the store keeps everything it owned. Whether instantiation
/// succeeds is left unsaid: it resolves imports, runs the module's start
/// function and allocates.
#[verifier::external_body]
pub(crate) fn linker_instantiate(linker: &Linker<()>, store: &mut Store<()>, module: &Module) -> (r: Result<Instance, wasmtime::Error>)
    requires
        store_engine_of(*old(store)) == linker_engine(*linker),
    ensures
        store_grows(*old(store), *final(store)),
        deadline_kept(*old(store), *final(store)),
        r matches Ok(i) ==> holds_instance(*final(store), i) && instance_module(i) == *module,
        r matches Err(e) ==> instantiate_refused(*module, e),
        calls_kept(*old(store), *final(store)),
{
    linker.instantiate(&mut *store, module)
}

/// `Instance::get_memory`: the exported memory called `name`, if any. The
/// contract claims it is found exactly when the instance's module exports
/// such a memory, that the store owns it, and that lookup changes no
/// memory.
#[verifier::external_body]
pub(crate) fn instance_get_memory(instance: &Instance, store: &mut Store<()>, name: &str) -> (r: Option<Memory>)
    requires
        holds_instance(*old(store), *instance),
    ensures
        store_grows(*old(store), *final(store)),
        store_memories_unchanged(*old(store), *final(store)),
        deadline_kept(*old(store), *final(store)),
        calls_kept(*old(store), *final(store)),
        r is Some <==> module_memory_export(instance_module(*instance), name@),
        r matches Some(m) ==> holds_memory(*final(store), m),
{
    instance.get_memory(&mut *store, name)
}

/// `Instance::get_func`: the exported function called `name`, if any. The
/// contract claims it is found exactly when the instance's module exports a
/// function by that name, with that function's type, that the store owns
/// it, and that lookup changes no memory.
#[verifier::external_body]
pub(crate) fn instance_get_func(instance: &Instance, store: &mut Store<()>, name: &str) -> (r: Option<Func>)
    requires
        holds_instance(*old(store), *instance),
    ensures
        store_grows(*old(store), *final(store)),
        store_memories_unchanged(*old(store), *final(store)),
        deadline_kept(*old(store), *final(store)),
        calls_kept(*old(store), *final(store)),
        r is Some <==> module_func_export(instance_module(*instance), name@) is Some,
        r matches Some(f) ==> {
            &&& holds_func(*final(store), f)
            &&& func_is_export(f, *instance, name@)
            &&& func_params(*final(store), f) == module_func_export(instance_module(*instance), name@)->Some_0.0
            &&& func_results(*final(store), f) == module_func_export(instance_module(*instance), name@)->Some_0.1
        },
{
    instance.get_func(&mut *store, name)
}

/// The kind of a wasmtime value type.
#[verifier::external_body]
pub(crate) fn value_kind(t: &ValType) -> (k: ValueKind) {
    match t {
        ValType::I32 => ValueKind::I32,
        ValType::I64 => ValueKind::I64,
        ValType::F32 => ValueKind::F32,
        ValType::F64 => ValueKind::F64,
        ValType::V128 => ValueKind::V128,
        ValType::Ref(_) => ValueKind::Ref,
    }
}

/// A wasmtime value as the host reads it.
#[verifier::external_body]
pub(crate) fn wasm_value(v: &Val) -> (w: WasmValue) {
    match v {
        Val::I32(x) => WasmValue::I32(*x),
        Val::I64(x) => WasmValue::I64(*x),
        Val::F32(x) => WasmValue::F32(*x),
        Val::F64(x) => WasmValue::F64(*x),
        Val::V128(_) | Val::FuncRef(_) | Val::ExternRef(_) => WasmValue::Other,
        Val::AnyRef(_) | Val::ExnRef(_) | Val::ContRef(_) => WasmValue::Other,
    }
}

/// The wasmtime value a host value stands for: `Val::I32` of an `I32`,
/// and so on; `Other` stands for an `i32` zero.
pub uninterp spec fn val_of(v: WasmValue) -> Val;

/// The wasmtime value of a host value, built with the `Val` variant of its
/// kind.
#[verifier::external_body]
pub(crate) fn to_val(v: &WasmValue) -> (r: Val)
    ensures
        r == val_of(*v),
{
    match v {
        WasmValue::I32(x) => Val::I32(*x),
        WasmValue::I64(x) => Val::I64(*x),
        WasmValue::F32(x) => Val::F32(*x),
        WasmValue::F64(x) => Val::F64(*x),
        WasmValue::Other => Val::I32(0),
    }
}

/// `Func::ty`: the parameter and result kinds of the function.
#[verifier::external_body]
pub(crate) fn func_signature(func: &Func, store: &Store<()>) -> (s: Signature)
    requires
        holds_func(*store, *func),
    ensures
        s.params@ == func_params(*store, *func),
        s.results@ == func_results(*store, *func),
{
    let ty = func.ty(store);
    Signature {
        params: ty.params().map(|t| value_kind(&t)).collect(),
        results: ty.results().map(|t| value_kind(&t)).collect(),
    }
}

/// The value answers a result of kind `k`: a numeric result comes back as
/// a value of its kind, a vector or reference result as `Other`.
pub open spec fn answers_kind(v: WasmValue, k: ValueKind) -> bool {
    match k {
        ValueKind::V128 | ValueKind::Ref => v == WasmValue::Other,
        _ => kind_of(v) == Some(k),
    }
}

/// The call of the function with `args` failed with `e`: a record of one
/// call.
pub uninterp spec fn func_failed(func: Func, args: Seq<i32>, e: wasmtime::Error) -> bool;

/// A call of the function with `args` returned, leaving the store in the
/// state `after`: a record of one call.
pub uninterp spec fn call_left(func: Func, args: Seq<i32>, after: Store<()>) -> bool;

/// `Func::call` with `i32` arguments: run the function. The contract claims
/// that a call that returns normally yields one value per result of the
/// function's type (a numeric one as a value of its kind, any other as
/// `Other`), that the function answered those values to those arguments or
/// that the call failed, and that the store keeps everything it owned. What
/// the function computes, and what it writes to memory, is left unsaid: it
/// is the guest's code; the store it left, and the call among the store's
/// calls, are recorded.
#[verifier::external_body]
pub(crate) fn func_call(func: &Func, store: &mut Store<()>, args: &[i32], result_count: usize) -> (r: Result<Vec<WasmValue>, wasmtime::Error>)
    requires
        holds_func(*old(store), *func),
    ensures
        store_grows(*old(store), *final(store)),
        deadline_kept(*old(store), *final(store)),
        r matches Ok(v) ==> {
            &&& v@.len() == result_count
            &&& result_count == func_results(*old(store), *func).len()
            &&& forall|k: int| 0 <= k < v@.len() ==> answers_kind(#[trigger] v@[k], func_results(*old(store), *func)[k])
            &&& func_answered(*func, args@, v@)
        },
        r matches Err(e) ==> func_failed(*func, args@, e),
        call_left(*func, args@, *final(store)),
        store_calls(*final(store)) == store_calls(*old(store)).push((*func, args@)),
{
    let params: Vec<Val> = args.iter().map(|a| Val::I32(*a)).collect();
    let mut results = vec![Val::I32(0); result_count];
    func.call(&mut *store, &params, &mut results)?;
    Ok(results.iter().map(wasm_value).collect())
}

/// The memory was `n` bytes long when its size was read: a record of one
/// reading.
pub uninterp spec fn memory_length_seen(memory: Memory, n: int) -> bool;

/// The memory held `bytes` from `start` on when it was read: a record of
/// one reading.
pub uninterp spec fn memory_held(memory: Memory, start: int, bytes: Seq<u8>) -> bool;

/// `Memory::data_size`: the length of the memory in bytes, recorded.
#[verifier::external_body]
pub(crate) fn memory_size(memory: &Memory, store: &Store<()>) -> (n: usize)
    requires
        holds_memory(*store, *memory),
    ensures
        n == memory_bytes(*store, *memory).len(),
        memory_length_seen(*memory, n as int),
{
    memory.data_size(store)
}

/// `Memory::data`: a copy of the bytes from `start` up to `end`, recorded.
#[verifier::external_body]
pub(crate) fn memory_read(memory: &Memory, store: &Store<()>, start: usize, end: usize) -> (r: Vec<u8>)
    requires
        holds_memory(*store, *memory),
        start <= end <= memory_bytes(*store, *memory).len(),
    ensures
        r@ == memory_bytes(*store, *memory).subrange(start as int, end as int),
        memory_held(*memory, start as int, r@),
{
    memory.data(store)[start..end].to_vec()
}

/// `Memory::data_mut`: copy `data` to the range from `start` up to `end`,
/// which is as long as `data`.
#[verifier::external_body]
pub(crate) fn memory_write(memory: &Memory, store: &mut Store<()>, start: usize, end: usize, data: &[u8])
    requires
        holds_memory(*old(store), *memory),
        end == start + data@.len(),
        end <= memory_bytes(*old(store), *memory).len(),
    ensures
        store_grows(*old(store), *final(store)),
        calls_kept(*old(store), *final(store)),
        memory_bytes(*final(store), *memory) == memory_bytes(*old(store), *memory).subrange(0, start as int)
            + data@ + memory_bytes(*old(store), *memory).subrange(end as int, memory_bytes(*old(store), *memory).len() as int),
{
    memory.data_mut(&mut *store)[start..end].copy_from_slice(data);
}

/// `Display` of a wasmtime error: its message.
#[verifier::external_body]
pub(crate) fn error_message(e: &wasmtime::Error) -> (s: String)
    ensures
        s@ == error_text(*e),
{
    e.to_string()
}

/// `Caller::get_export("memory")`: the calling instance's exported memory,
/// if it exports one. The contract claims the store behind the call owns it.
#[verifier::external_body]
pub(crate) fn caller_memory(caller: &mut Caller<'_, ()>) -> (r: Option<Memory>)
    ensures
        r == caller_exported_memory(*old(caller)),
        r matches Some(m) ==> caller_holds_memory(*final(caller), m) && caller_holds_memory(*old(caller), m)
            && caller_memory_bytes(*final(caller), m).len() <= usize::MAX,
        forall|m: Memory| #[trigger] caller_memory_bytes(*final(caller), m) == caller_memory_bytes(*old(caller), m),
        forall|m: Memory| #[trigger] caller_holds_memory(*old(caller), m) ==> caller_holds_memory(*final(caller), m),
{
    match caller.get_export("memory") {
        Some(Extern::Memory(memory)) => Some(memory),
        Some(_) => None,
        None => None,
    }
}

/// `Memory::read` from inside a host call: fill `buffer` with the bytes at
/// `offset`, or leave it and answer `false` where they run past the end of
/// the memory.
#[verifier::external_body]
pub(crate) fn caller_memory_read(memory: &Memory, caller: &Caller<'_, ()>, offset: usize, buffer: &mut [u8]) -> (r: bool)
    requires
        caller_holds_memory(*caller, *memory),
    ensures
        final(buffer)@.len() == old(buffer)@.len(),
        r <==> offset + old(buffer)@.len() <= caller_memory_bytes(*caller, *memory).len(),
        r ==> final(buffer)@ == caller_memory_bytes(*caller, *memory).subrange(offset as int, offset + old(buffer)@.len()),
        !r ==> final(buffer)@ == old(buffer)@,
{
    memory.read(caller, offset, buffer).is_ok()
}

/// `Memory::write` from inside a host call: copy `data` to `offset`, or
/// change nothing and answer `false` where it would run past the end.
#[verifier::external_body]
pub(crate) fn caller_memory_write(memory: &Memory, caller: &mut Caller<'_, ()>, offset: usize, data: &[u8]) -> (r: bool)
    requires
        caller_holds_memory(*old(caller), *memory),
    ensures
        forall|m: Memory| #[trigger] caller_holds_memory(*old(caller), m) ==> caller_holds_memory(*final(caller), m),
        r <==> offset + data@.len() <= caller_memory_bytes(*old(caller), *memory).len(),
        r ==> caller_memory_bytes(*final(caller), *memory) == caller_memory_bytes(*old(caller), *memory).subrange(0, offset as int)
            + data@ + caller_memory_bytes(*old(caller), *memory).subrange(offset + data@.len(), caller_memory_bytes(*old(caller), *memory).len() as int),
        !r ==> caller_memory_bytes(*final(caller), *memory) == caller_memory_bytes(*old(caller), *memory),
{
    memory.write(&mut *caller, offset, data).is_ok()
}

} // verus!
