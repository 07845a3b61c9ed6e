//! The host functions the kernel module imports.
//!
//! The module is mostly WASI-free, but its toolchain leaves a handful of
//! `wasi_snapshot_preview1` and `env` imports. Two need real behaviour:
//! `clock_time_get` (the kernel's date handling rejects a zero clock) and
//! `fd_write` (the writer loop spins forever unless `nwritten` is set).
//! Every other function import is stubbed to return zeros.

use std::time::Duration;
use vstd::prelude::*;
use wasmtime::{Caller, Engine, ExternType, FuncType, Linker, Memory, Module, Val};

use crate::error::{OcctError, OcctResult};
use crate::codegen::strings_view;
use crate::runtime::{
    HostFunction, linker_defines, linker_engine, module_engine, caller_holds_memory, caller_memory, caller_memory_bytes, caller_memory_read, caller_memory_write,
    error_message, error_text, is_out_of_memory, to_val, val_of, value_kind, ValueKind, WasmValue,
};
use crate::text::chars_of;
use crate::words::{encode_u32, encode_u64, le_u32, le_u64, read_le_u32, u32_le_bytes, u64_le_bytes};
use crate::runtime::caller_exported_memory;

verus! {

/// WASI errno `badf`: the caller exports no memory.
pub const ERRNO_BADF: i32 = 8;
/// WASI errno `fault`: an address outside memory or not representable.
pub const ERRNO_FAULT: i32 = 21;

/// `mem` with `data` written at `at`.
pub open spec fn splice(mem: Seq<u8>, at: int, data: Seq<u8>) -> Seq<u8> {
    mem.subrange(0, at) + data + mem.subrange(at + data.len(), mem.len() as int)
}

/// The length fields of the first `count` iovecs at `base` lie in `mem`.
pub open spec fn iovec_lengths_in(mem: Seq<u8>, base: int, count: int) -> bool {
    forall|i: int| 0 <= i < count ==> #[trigger] (base + 8 * i) + 8 <= mem.len()
}

/// The sum, wrapping at 2^32, of the length fields of the first `count`
/// iovecs at `base`; each iovec is 8 bytes, its length the second word.
pub open spec fn iovec_total(mem: Seq<u8>, base: int, count: nat) -> u32
    decreases count,
{
    if count == 0 {
        0
    } else {
        vstd::wrapping::u32_specs::wrapping_add(
            iovec_total(mem, base, (count - 1) as nat),
            le_u32(mem, base + 8 * (count - 1) + 4),
        )
    }
}

/// What `fd_write` answers for memory `mem`, and the memory it leaves: it
/// reports every byte of every iovec as written by storing the total length
/// at `nwritten`.
pub open spec fn fd_write_outcome(mem: Seq<u8>, iovs: i32, iovs_len: i32, nwritten: i32) -> (i32, Seq<u8>) {
    if iovs < 0 || iovs_len < 0 || nwritten < 0 {
        (ERRNO_FAULT, mem)
    } else if !iovec_lengths_in(mem, iovs as int, iovs_len as int) {
        (ERRNO_FAULT, mem)
    } else if nwritten + 4 <= mem.len() {
        (0, splice(mem, nwritten as int, u32_le_bytes(iovec_total(mem, iovs as int, iovs_len as nat))))
    } else {
        (ERRNO_FAULT, mem)
    }
}

/// What `clock_time_get` answers for memory `mem` and clock reading `now`,
/// and the memory it leaves.
pub open spec fn clock_outcome(mem: Seq<u8>, now: u64, out: i32) -> (i32, Seq<u8>) {
    if out < 0 {
        (ERRNO_FAULT, mem)
    } else if out + 8 <= mem.len() {
        (0, splice(mem, out as int, u64_le_bytes(now)))
    } else {
        (ERRNO_FAULT, mem)
    }
}

/// The nanoseconds a `Duration` spans, as `Duration::as_nanos` gives them.
pub uninterp spec fn duration_nanos(d: Duration) -> u128;

/// The system clock gave the reading `r` (the time since the Unix epoch, or
/// `None` before it): a record of one reading.
pub uninterp spec fn clock_reading(r: Option<Duration>) -> bool;

/// The time since the Unix epoch by the system clock, or `None` where the
/// clock reads earlier than the epoch (`SystemTime::elapsed` on
/// `UNIX_EPOCH`). The contract records the reading and claims nothing of
/// its value.
#[verifier::external_body]
fn time_since_epoch() -> (r: Option<Duration>)
    ensures
        clock_reading(r),
{
    std::time::UNIX_EPOCH.elapsed().ok()
}

/// `Duration::as_nanos`.
#[verifier::external_body]
fn duration_as_nanos(d: &Duration) -> (n: u128)
    ensures
        n == duration_nanos(*d),
{
    d.as_nanos()
}

/// The nanoseconds of a clock reading since the epoch, saturated to `u64`;
/// zero before the epoch.
pub open spec fn nanos_of(elapsed: Option<Duration>) -> u64 {
    match elapsed {
        Some(d) => if duration_nanos(d) > u64::MAX { u64::MAX } else { duration_nanos(d) as u64 },
        None => 0,
    }
}

/// The time `clock_time_get` reports for a clock reading is its
/// `Duration::as_nanos`: exactly that count of nanoseconds where it fits in
/// 64 bits, `u64::MAX` beyond, and 0 for a clock before the epoch; a later
/// reading never reports an earlier time.
pub proof fn law_clock_reports_nanoseconds(d: Duration, e: Duration)
    ensures
        duration_nanos(d) <= u64::MAX ==> nanos_of(Some(d)) as int == duration_nanos(d) as int,
        duration_nanos(d) > u64::MAX ==> nanos_of(Some(d)) == u64::MAX,
        nanos_of(None) == 0,
        duration_nanos(d) <= duration_nanos(e) ==> nanos_of(Some(d)) <= nanos_of(Some(e)),
{
}

/// Where the clock's answer is 0, the eight bytes at `out` are the
/// little-endian form of the reported time, and every other byte is
/// unchanged.
pub proof fn law_clock_stores_the_time_at_out(mem: Seq<u8>, now: u64, out: i32)
    ensures
        clock_outcome(mem, now, out).0 == 0 ==> {
            &&& 0 <= out && out + 8 <= mem.len()
            &&& clock_outcome(mem, now, out).1.len() == mem.len()
            &&& clock_outcome(mem, now, out).1.subrange(out as int, out + 8) == u64_le_bytes(now)
            &&& le_u64(clock_outcome(mem, now, out).1, out as int) == now
            &&& forall|k: int| 0 <= k < mem.len() && !(out <= k < out + 8) ==> #[trigger] clock_outcome(mem, now, out).1[k] == mem[k]
        },
        clock_outcome(mem, now, out).0 != 0 ==> clock_outcome(mem, now, out).1 == mem,
{
    if clock_outcome(mem, now, out).0 == 0 {
        let m = clock_outcome(mem, now, out).1;
        assert(u64_le_bytes(now).len() == 8);
        let b = u64_le_bytes(now);
        assert(m.subrange(out as int, out + 8) =~= b);
        crate::words::law_u64_round_trip(now);
        assert forall|j: int| 0 <= j < 8 implies #[trigger] m[out + j] == b[j] by {
            assert(m.subrange(out as int, out + 8)[j] == m[out + j]);
        }
        assert(m[out + 0] == b[0]);
        assert(m[out + 4] == b[4]);
        assert(le_u32(m, out as int) == le_u32(b, 0));
        assert(le_u32(m, out + 4) == le_u32(b, 4));
    }
}

/// The clock reading in nanoseconds since the epoch, saturated to `u64`;
/// zero before the epoch.
fn clock_nanos(elapsed: Option<Duration>) -> (now: u64)
    ensures
        now == nanos_of(elapsed),
{
    match elapsed {
        Some(d) => {
            let n = duration_as_nanos(&d);
            if n > u64::MAX as u128 {
                u64::MAX
            } else {
                n as u64
            }
        },
        None => 0,
    }
}

/// The `clock_time_get` import: store the system time, in nanoseconds
/// since the epoch, little-endian at `out`. The clock id and precision are
/// ignored.
pub fn clock_time_get_import(caller: &mut Caller<'_, ()>, out: i32) -> (r: i32)
    ensures
        match caller_exported_memory(*old(caller)) {
            None => r == ERRNO_BADF,
            Some(m) => exists|d: Option<Duration>| #[trigger] clock_reading(d) && {
                let (code, mem) = clock_outcome(caller_memory_bytes(*old(caller), m), nanos_of(d), out);
                r == code && caller_memory_bytes(*final(caller), m) == mem
            },
        },
{
    let reading = time_since_epoch();
    let now = clock_nanos(reading);
    let memory = match caller_memory(caller) {
        Some(m) => m,
        None => return ERRNO_BADF,
    };
    let ghost before = caller_memory_bytes(*caller, memory);
    if out < 0 {
        assert(clock_outcome(before, now, out) == (ERRNO_FAULT, before));
        return ERRNO_FAULT;
    }
    let bytes = encode_u64(now);
    let ok = caller_memory_write(&memory, caller, out as usize, bytes.as_slice());
    if ok {
        assert(caller_memory_bytes(*caller, memory) =~= splice(before, out as int, u64_le_bytes(now)));
        assert(clock_outcome(before, now, out).0 == 0);
        0
    } else {
        assert(clock_outcome(before, now, out).0 == ERRNO_FAULT);
        ERRNO_FAULT
    }
}

/// The `fd_write` import: report every byte of every iovec as written by
/// storing the wrapping sum of the iovec lengths, little-endian, at
/// `nwritten`.
pub fn fd_write_import(caller: &mut Caller<'_, ()>, iovs: i32, iovs_len: i32, nwritten: i32) -> (r: i32)
    ensures
        match caller_exported_memory(*old(caller)) {
            None => r == ERRNO_BADF,
            Some(m) => {
                let (code, mem) = fd_write_outcome(caller_memory_bytes(*old(caller), m), iovs, iovs_len, nwritten);
                r == code && caller_memory_bytes(*final(caller), m) == mem
            },
        },
{
    let memory = match caller_memory(caller) {
        Some(m) => m,
        None => return ERRNO_BADF,
    };
    let ghost mem = caller_memory_bytes(*caller, memory);
    if iovs < 0 || iovs_len < 0 || nwritten < 0 {
        return ERRNO_FAULT;
    }
    let count = iovs_len as u64;
    let mut total: u32 = 0;
    let mut index: u64 = 0;
    while index < count
        invariant
            index <= count,
            count == iovs_len,
            0 <= iovs,
            0 <= nwritten,
            caller_exported_memory(*old(caller)) == Some(memory),
            mem == caller_memory_bytes(*old(caller), memory),
            caller_holds_memory(*caller, memory),
            caller_memory_bytes(*caller, memory) == mem,
            mem.len() <= usize::MAX,
            iovec_lengths_in(mem, iovs as int, index as int),
            total == iovec_total(mem, iovs as int, index as nat),
        decreases count - index,
    {
        let offset = iovs as u64 + index * 8 + 4;
        if offset > usize::MAX as u64 {
            assert(!iovec_lengths_in(mem, iovs as int, iovs_len as int)) by {
                assert((iovs + 8 * index) + 8 > mem.len());
            }
            return ERRNO_FAULT;
        }
        let mut bytes: Vec<u8> = vec![0u8; 4];
        if !caller_memory_read(&memory, caller, offset as usize, bytes.as_mut_slice()) {
            assert(!iovec_lengths_in(mem, iovs as int, iovs_len as int)) by {
                assert((iovs + 8 * index) + 8 > mem.len());
            }
            return ERRNO_FAULT;
        }
        assert(le_u32(bytes@, 0) == le_u32(mem, iovs + 8 * index + 4));
        total = total.wrapping_add(read_le_u32(bytes.as_slice(), 0));
        assert(iovec_lengths_in(mem, iovs as int, index + 1)) by {
            assert forall|i: int| 0 <= i < index + 1 implies #[trigger] (iovs + 8 * i) + 8 <= mem.len() by {
                if i < index {
                    assert((iovs + 8 * i) + 8 <= mem.len());
                }
            }
        }
        index = index + 1;
    }
    let encoded = encode_u32(total);
    let ok = caller_memory_write(&memory, caller, nwritten as usize, encoded.as_slice());
    if ok {
        assert(caller_memory_bytes(*caller, memory) =~= splice(mem, nwritten as int, u32_le_bytes(total)));
        0
    } else {
        ERRNO_FAULT
    }
}


#[verifier::external_type_specification]
#[verifier::external_body]
pub struct ExFuncType(FuncType);

/// One import of a module: its module and field names, and, for a
/// function import, its type, its result kinds and the text of each result
/// type.
pub struct ImportEntry {
    pub module: String,
    pub name: String,
    pub func: Option<(FuncType, Vec<ValueKind>, Vec<String>)>,
}

/// A function import's parameter kinds, result kinds and result type texts.
pub type ImportSignature = (Seq<ValueKind>, Seq<ValueKind>, Seq<Seq<char>>);

/// The imports the kernel defines with real behaviour.
pub open spec fn is_predefined(module: Seq<char>, name: Seq<char>) -> bool {
    module == "wasi_snapshot_preview1"@ && (name == "clock_time_get"@ || name == "fd_write"@)
}

/// The zero value of a numeric kind.
pub open spec fn zero_of(k: ValueKind) -> Option<WasmValue> {
    match k {
        ValueKind::I32 => Some(WasmValue::I32(0)),
        ValueKind::I64 => Some(WasmValue::I64(0)),
        ValueKind::F32 => Some(WasmValue::F32(0)),
        ValueKind::F64 => Some(WasmValue::F64(0)),
        _ => None,
    }
}

/// `FuncType::engine`: the engine a function type belongs to.
pub uninterp spec fn func_type_engine(t: FuncType) -> Engine;

/// `FuncType::params`: the parameter kinds of a function type.
pub uninterp spec fn func_type_params(t: FuncType) -> Seq<ValueKind>;

/// `FuncType::results`: the result kinds of a function type.
pub uninterp spec fn func_type_results(t: FuncType) -> Seq<ValueKind>;

/// `Module::imports`: the module and field name of every import of the
/// module, in declaration order, and for a function import its parameter
/// and result kinds and the text (`Display`) of each result type.
pub uninterp spec fn module_import_names(m: Module) -> Seq<(Seq<char>, Seq<char>, Option<ImportSignature>)>;

/// The entry records the import `v`: the same names, and a function type,
/// result kinds and texts exactly for a function import, matching it.
pub open spec fn entry_records(e: ImportEntry, v: (Seq<char>, Seq<char>, Option<ImportSignature>)) -> bool {
    &&& e.module@ == v.0
    &&& e.name@ == v.1
    &&& (e.func is Some) == (v.2 is Some)
    &&& (e.func matches Some((_, kinds, texts)) ==> kinds@ == v.2->Some_0.1 && strings_view(texts@) == v.2->Some_0.2
        && texts@.len() == kinds@.len())
}

/// `Module::imports`: every import of the module, in declaration order,
/// with the type of each function import, its result kinds and the text of
/// each result type. The contract claims these are the module's, and that
/// each function type belongs to the module's engine.
#[verifier::external_body]
pub(crate) fn module_imports(module: &Module) -> (r: Vec<ImportEntry>)
    ensures
        r@.len() == module_import_names(*module).len(),
        forall|i: int| 0 <= i < r@.len() ==> #[trigger] entry_records(r@[i], module_import_names(*module)[i]),
        forall|i: int| 0 <= i < r@.len() ==> (#[trigger] r@[i].func matches Some((t, _, _)) ==> {
            &&& func_type_engine(t) == module_engine(*module)
            &&& func_type_params(t) == module_import_names(*module)[i].2->Some_0.0
            &&& func_type_results(t) == module_import_names(*module)[i].2->Some_0.1
        }),
{
    module.imports().map(|import| ImportEntry {
        module: import.module().to_owned(),
        name: import.name().to_owned(),
        func: match import.ty() {
            ExternType::Func(ty) => Some((
                ty.clone(),
                ty.results().map(|t| value_kind(&t)).collect(),
                ty.results().map(|t| t.to_string()).collect(),
            )),
            _ => None,
        },
    }).collect()
}

/// The definitions already hold one of the two WASI functions with
/// behaviour.
pub open spec fn wasi_defined(defs: Map<(Seq<char>, Seq<char>), HostFunction>) -> bool {
    defs.dom().contains(("wasi_snapshot_preview1"@, "clock_time_get"@))
        || defs.dom().contains(("wasi_snapshot_preview1"@, "fd_write"@))
}

/// The two WASI functions the kernel defines with behaviour, and what they
/// run.
pub open spec fn wasi_definitions() -> Map<(Seq<char>, Seq<char>), HostFunction> {
    map![
        ("wasi_snapshot_preview1"@, "clock_time_get"@) => HostFunction::Clock,
        ("wasi_snapshot_preview1"@, "fd_write"@) => HostFunction::FdWrite,
    ]
}

/// `Linker::func_wrap` for the two WASI functions with behaviour:
/// `clock_time_get` runs [`clock_time_get_import`] and `fd_write` runs
/// [`fd_write_import`]. `func_wrap` fails only where the name is defined
/// already or an allocation fails (`OutOfMemory`). The contract claims that
/// on success the linker defines both, running those functions, besides
/// what it defined, and that a failure, for one of those two reasons, adds
/// at most the first.
#[verifier::external_body]
pub(crate) fn linker_define_wasi(linker: &mut Linker<()>) -> (r: Result<(), wasmtime::Error>)
    ensures
        linker_engine(*final(linker)) == linker_engine(*old(linker)),
        r is Ok ==> linker_defines(*final(linker)) == linker_defines(*old(linker)).union_prefer_right(wasi_definitions()),
        r is Err ==> linker_defines(*final(linker)) == linker_defines(*old(linker))
            || linker_defines(*final(linker)) == linker_defines(*old(linker)).insert(
                ("wasi_snapshot_preview1"@, "clock_time_get"@),
                HostFunction::Clock,
            ),
        r matches Err(e) ==> is_out_of_memory(e) || wasi_defined(linker_defines(*old(linker))),
{
    linker.func_wrap("wasi_snapshot_preview1", "clock_time_get",
        |mut caller: Caller<'_, ()>, _clock_id: i32, _precision: i64, out: i32| -> i32 {
            clock_time_get_import(&mut caller, out)
        })?;
    linker.func_wrap("wasi_snapshot_preview1", "fd_write",
        |mut caller: Caller<'_, ()>, _fd: i32, iovs: i32, iovs_len: i32, nwritten: i32| -> i32 {
            fd_write_import(&mut caller, iovs, iovs_len, nwritten)
        })?;
    Ok(())
}

/// Answer a call of a stub: the values of `plan` go to the result slots in
/// order, as far as both reach, or the call fails with the plan's message.
pub fn answer_stub(out: &mut [Val], plan: &Result<Vec<WasmValue>, String>) -> (r: Result<(), String>)
    ensures
        final(out)@.len() == old(out)@.len(),
        match plan {
            Ok(values) => {
                &&& r is Ok
                &&& forall|i: int| 0 <= i < old(out)@.len() ==> #[trigger] final(out)@[i] == if i < values@.len() {
                    val_of(values@[i])
                } else {
                    old(out)@[i]
                }
            },
            Err(m) => r matches Err(e) && e@ == m@ && final(out)@ == old(out)@,
        },
{
    match plan {
        Ok(values) => {
            let mut i: usize = 0;
            while i < out.len() && i < values.len()
                invariant
                    i <= out@.len(),
                    i <= values@.len(),
                    out@.len() == old(out)@.len(),
                    forall|k: int| 0 <= k < old(out)@.len() ==> #[trigger] out@[k] == if k < i {
                        val_of(values@[k])
                    } else {
                        old(out)@[k]
                    },
                decreases out@.len() - i,
            {
                out[i] = to_val(&values[i]);
                i = i + 1;
            }
            assert(i == out@.len() || i == values@.len());
            Ok(())
        },
        Err(message) => Err(message.clone()),
    }
}

/// The plan of a stub as values.
pub open spec fn plan_view(plan: Result<Vec<WasmValue>, String>) -> Result<Seq<WasmValue>, Seq<char>> {
    match plan {
        Ok(v) => Ok(v@),
        Err(m) => Err(m@),
    }
}

/// `Linker::func_new`: define `module::name` with type `ty` as a function
/// that ignores its arguments and answers as [`answer_stub`] does with
/// `plan`. `func_new` panics on a type of another engine, which `requires`
/// leaves out, and fails only where the name is defined already or an
/// allocation fails (`OutOfMemory`). The contract claims that on success
/// the linker defines `module::name` as that stub besides what it defined,
/// and that a failure, for one of those two reasons, leaves its definitions
/// as they were.
#[verifier::external_body]
pub(crate) fn linker_define_stub(linker: &mut Linker<()>, module: &str, name: &str, ty: FuncType, plan: Result<Vec<WasmValue>, String>) -> (r: Result<(), wasmtime::Error>)
    requires
        func_type_engine(ty) == linker_engine(*old(linker)),
    ensures
        linker_engine(*final(linker)) == linker_engine(*old(linker)),
        r is Ok ==> linker_defines(*final(linker)) == linker_defines(*old(linker)).insert(
            (module@, name@),
            (HostFunction::Stub { params: func_type_params(ty), results: func_type_results(ty), plan: plan_view(plan) }),
        ),
        r is Err ==> linker_defines(*final(linker)) == linker_defines(*old(linker)),
        r matches Err(e) ==> is_out_of_memory(e) || linker_defines(*old(linker)).dom().contains((module@, name@)),
{
    linker.func_new(module, name, ty, move |_caller, _params, out| {
        answer_stub(out, &plan).map_err(wasmtime::Error::msg)
    })?;
    Ok(())
}

/// Every kind has a zero.
pub open spec fn all_zeroable(kinds: Seq<ValueKind>) -> bool {
    forall|i: int| 0 <= i < kinds.len() ==> #[trigger] zero_of(kinds[i]) is Some
}

/// `i` is the first kind without a zero.
pub open spec fn first_unzeroable(kinds: Seq<ValueKind>, i: int) -> bool {
    &&& 0 <= i < kinds.len()
    &&& zero_of(kinds[i]) is None
    &&& forall|j: int| 0 <= j < i ==> #[trigger] zero_of(kinds[j]) is Some
}

/// What a stub with result kinds `kinds`, whose types read `texts`,
/// answers: a zero of each kind, or, for the first kind that has no zero,
/// the message naming its type.
pub open spec fn zero_plan(kinds: Seq<ValueKind>, texts: Seq<Seq<char>>) -> Result<Seq<WasmValue>, Seq<char>> {
    if all_zeroable(kinds) {
        Ok(Seq::new(kinds.len(), |i: int| zero_of(kinds[i])->Some_0))
    } else {
        let i = choose|i: int| first_unzeroable(kinds, i);
        Err("unstubable import result type "@ + texts[i])
    }
}

/// What a stub with result kinds `kinds`, whose types read `texts`,
/// answers, as [`zero_plan`] defines it.
pub fn stub_plan(kinds: &Vec<ValueKind>, texts: &Vec<String>) -> (r: Result<Vec<WasmValue>, String>)
    requires
        texts@.len() == kinds@.len(),
    ensures
        plan_view(r) == zero_plan(kinds@, strings_view(texts@)),
{
    let mut values: Vec<WasmValue> = Vec::new();
    let mut i: usize = 0;
    while i < kinds.len()
        invariant
            i <= kinds@.len(),
            texts@.len() == kinds@.len(),
            values@.len() == i,
            forall|k: int| 0 <= k < i ==> Some(#[trigger] values@[k]) == zero_of(kinds@[k]),
        decreases kinds@.len() - i,
    {
        let zero = match kinds[i] {
            ValueKind::I32 => WasmValue::I32(0),
            ValueKind::I64 => WasmValue::I64(0),
            ValueKind::F32 => WasmValue::F32(0),
            ValueKind::F64 => WasmValue::F64(0),
            _ => {
                let message = crate::text::concat3("unstubable import result type ", texts[i].as_str(), "");
                proof {
                    reveal_strlit("");
                    assert(zero_of(kinds@[i as int]) is None);
                    assert forall|j: int| 0 <= j < i implies #[trigger] zero_of(kinds@[j]) is Some by {
                        assert(Some(values@[j]) == zero_of(kinds@[j]));
                    }
                    assert(first_unzeroable(kinds@, i as int));
                    assert forall|j: int| first_unzeroable(kinds@, j) implies j == i by {
                        if j < i {
                            assert(Some(values@[j]) == zero_of(kinds@[j]));
                        } else if j > i {
                            assert(zero_of(kinds@[i as int]) is Some);
                        }
                    }
                    assert(!all_zeroable(kinds@));
                    assert(strings_view(texts@)[i as int] == texts@[i as int]@);
                    assert(message@ =~= "unstubable import result type "@ + strings_view(texts@)[i as int]);
                }
                return Err(message);
            },
        };
        values.push(zero);
        i = i + 1;
    }
    assert forall|k: int| 0 <= k < kinds@.len() implies #[trigger] zero_of(kinds@[k]) is Some by {
        assert(Some(values@[k]) == zero_of(kinds@[k]));
    }
    assert(values@ =~= Seq::new(kinds@.len(), |k: int| zero_of(kinds@[k])->Some_0));
    Ok(values)
}

/// Whether an import is one the kernel defines with real behaviour.
pub fn import_is_predefined(module: &str, name: &str) -> (r: bool)
    ensures
        r == is_predefined(module@, name@),
{
    let m = chars_of(module);
    let n = chars_of(name);
    let wasi = chars_of("wasi_snapshot_preview1");
    let clock = chars_of("clock_time_get");
    let fd = chars_of("fd_write");
    crate::text::chars_eq(m.as_slice(), wasi.as_slice())
        && (crate::text::chars_eq(n.as_slice(), clock.as_slice()) || crate::text::chars_eq(n.as_slice(), fd.as_slice()))
}

/// The `(module, name)` pairs of the function imports among `imports` that
/// the kernel answers with stubs: every function import but the two WASI
/// functions with behaviour.
pub open spec fn stubbed_imports(imports: Seq<(Seq<char>, Seq<char>, Option<ImportSignature>)>) -> Set<(Seq<char>, Seq<char>)>
    decreases imports.len(),
{
    if imports.len() == 0 {
        Set::empty()
    } else {
        let last = imports.last();
        let rest = stubbed_imports(imports.drop_last());
        if last.2 is Some && !is_predefined(last.0, last.1) {
            rest.insert((last.0, last.1))
        } else {
            rest
        }
    }
}

/// The stub the kernel defines for each of those imports: of the import's
/// type, answering its zero plan.
pub open spec fn stub_definitions(imports: Seq<(Seq<char>, Seq<char>, Option<ImportSignature>)>) -> Map<(Seq<char>, Seq<char>), HostFunction>
    decreases imports.len(),
{
    if imports.len() == 0 {
        Map::empty()
    } else {
        let last = imports.last();
        let rest = stub_definitions(imports.drop_last());
        match last.2 {
            Some(sig) => if !is_predefined(last.0, last.1) {
                rest.insert(
                    (last.0, last.1),
                    HostFunction::Stub { params: sig.0, results: sig.1, plan: zero_plan(sig.1, sig.2) },
                )
            } else {
                rest
            },
            None => rest,
        }
    }
}

/// The stubs of a prefix of the imports are among the stubs of all of them.
proof fn lemma_stubbed_prefix(imports: Seq<(Seq<char>, Seq<char>, Option<ImportSignature>)>, k: int)
    requires
        0 <= k <= imports.len(),
    ensures
        stubbed_imports(imports.take(k)).subset_of(stubbed_imports(imports)),
    decreases imports.len() - k,
{
    if k == imports.len() {
        assert(imports.take(k) =~= imports);
    } else {
        lemma_stubbed_prefix(imports, k + 1);
        assert(imports.take(k + 1).drop_last() =~= imports.take(k));
    }
}

/// The import is answered with a stub: a function import other than the
/// two WASI functions with behaviour.
pub open spec fn is_stubbed(imp: (Seq<char>, Seq<char>, Option<ImportSignature>)) -> bool {
    imp.2 is Some && !is_predefined(imp.0, imp.1)
}

/// No two stubbed imports share a module and name.
pub open spec fn stubs_distinct(imports: Seq<(Seq<char>, Seq<char>, Option<ImportSignature>)>) -> bool {
    forall|i: int, j: int|
        0 <= i < j < imports.len() && #[trigger] is_stubbed(imports[i]) && #[trigger] is_stubbed(imports[j])
            ==> (imports[i].0, imports[i].1) != (imports[j].0, imports[j].1)
}

/// Why defining the host imports of `imports` in a linker that held `defs`
/// failed with `e`: an allocation failed, the linker held one of the names
/// already, or two stubbed imports share a name.
pub open spec fn host_imports_refused(
    defs: Map<(Seq<char>, Seq<char>), HostFunction>,
    imports: Seq<(Seq<char>, Seq<char>, Option<ImportSignature>)>,
    e: OcctError,
) -> bool {
    e matches OcctError::Runtime(m) && {
        ||| exists|x: wasmtime::Error| #[trigger] is_out_of_memory(x) && m@ == error_text(x)
        ||| wasi_defined(defs)
        ||| exists|i: int| 0 <= i < imports.len() && #[trigger] is_stubbed(imports[i])
            && defs.dom().contains((imports[i].0, imports[i].1))
        ||| !stubs_distinct(imports)
    }
}

/// A name the stubs define is that of a stubbed import.
proof fn lemma_stub_key(imports: Seq<(Seq<char>, Seq<char>, Option<ImportSignature>)>, key: (Seq<char>, Seq<char>))
    requires
        stub_definitions(imports).dom().contains(key),
    ensures
        exists|j: int| 0 <= j < imports.len() && #[trigger] is_stubbed(imports[j]) && key == (imports[j].0, imports[j].1),
    decreases imports.len(),
{
    let last = imports.last();
    let rest = imports.drop_last();
    if is_stubbed(last) && key == (last.0, last.1) {
        assert(imports[imports.len() - 1] == last);
    } else {
        assert(stub_definitions(rest).dom().contains(key));
        lemma_stub_key(rest, key);
        let j = choose|j: int| 0 <= j < rest.len() && #[trigger] is_stubbed(rest[j]) && key == (rest[j].0, rest[j].1);
        assert(imports[j] == rest[j]);
    }
}

/// Satisfy the module's imports so that it instantiates under a bare
/// linker: the two WASI functions with behaviour, and a zero-answering stub
/// of the import's own type for every other function import, in
/// declaration order. On success the linker defines exactly those besides
/// what it defined before. Defining a stub with a type of another engine
/// panics, so a module compiled for another engine than the linker's must
/// need no stub. It fails only where an allocation fails or a name would be
/// defined twice: the linker held one already, or two stubbed imports share
/// one.
pub fn define_host_imports(linker: &mut Linker<()>, module: &Module) -> (r: OcctResult<()>)
    requires
        linker_engine(*old(linker)) == module_engine(*module)
            || stubbed_imports(module_import_names(*module)).is_empty(),
    ensures
        linker_engine(*final(linker)) == linker_engine(*old(linker)),
        r is Ok ==> linker_defines(*final(linker)) == linker_defines(*old(linker)).union_prefer_right(
            wasi_definitions(),
        ).union_prefer_right(stub_definitions(module_import_names(*module))),
        r matches Err(e) ==> host_imports_refused(linker_defines(*old(linker)), module_import_names(*module), e),
{
    let ghost old_defs = linker_defines(*linker);
    if let Err(e) = linker_define_wasi(linker) {
        return Err(OcctError::Runtime(error_message(&e)));
    }
    let ghost start = linker_defines(*linker);
    let ghost names = module_import_names(*module);
    let ghost engine = module_engine(*module);
    let mut imports = module_imports(module);
    let ghost all = imports@;
    let ghost n = all.len() as int;
    let mut reversed: Vec<ImportEntry> = Vec::new();
    while imports.len() > 0
        invariant
            n == all.len(),
            imports@ == all.take(imports@.len() as int),
            reversed@.len() + imports@.len() == n,
            forall|j: int| 0 <= j < reversed@.len() ==> #[trigger] reversed@[j] == all[n - 1 - j],
        decreases imports@.len(),
    {
        match imports.pop() {
            Some(entry) => {
                assert(imports@ =~= all.take(imports@.len() as int));
                reversed.push(entry);
            },
            None => {},
        }
    }
    let ghost mut done: int = 0;
    while reversed.len() > 0
        invariant
            n == all.len(),
            n == names.len(),
            forall|i: int| 0 <= i < n ==> #[trigger] entry_records(all[i], names[i]),
            forall|i: int| 0 <= i < n ==> (#[trigger] all[i].func matches Some((t, _, _)) ==> {
                &&& func_type_engine(t) == engine
                &&& func_type_params(t) == names[i].2->Some_0.0
                &&& func_type_results(t) == names[i].2->Some_0.1
            }),
            linker_engine(*linker) == linker_engine(*old(linker)),
            engine == linker_engine(*old(linker)) || stubbed_imports(names).is_empty(),
            done + reversed@.len() == n,
            0 <= done <= n,
            forall|j: int| 0 <= j < reversed@.len() ==> #[trigger] reversed@[j] == all[n - 1 - j],
            linker_defines(*linker) == start.union_prefer_right(stub_definitions(names.take(done))),
            start == old_defs.union_prefer_right(wasi_definitions()),
            old_defs == linker_defines(*old(linker)),
            names == module_import_names(*module),
        decreases reversed@.len(),
    {
        let entry = match reversed.pop() {
            Some(entry) => entry,
            None => return Ok(()),
        };
        proof {
            assert(entry == all[done]);
            assert(entry_records(all[done], names[done]));
            assert(names.take(done + 1).drop_last() =~= names.take(done));
            assert(names.take(done + 1).last() == names[done]);
        }
        if !import_is_predefined(entry.module.as_str(), entry.name.as_str()) {
            if let Some((ty, kinds, texts)) = entry.func {
                proof {
                    lemma_stubbed_prefix(names, done + 1);
                    assert(stubbed_imports(names.take(done + 1)).contains((names[done].0, names[done].1)));
                }
                let plan = stub_plan(&kinds, &texts);
                let ghost key = (names[done].0, names[done].1);
                let ghost defs = linker_defines(*linker);
                if let Err(e) = linker_define_stub(linker, entry.module.as_str(), entry.name.as_str(), ty, plan) {
                    let message = error_message(&e);
                    proof {
                        assert(is_stubbed(names[done]));
                        if is_out_of_memory(e) {
                            assert(host_imports_refused(old_defs, names, OcctError::Runtime(message)));
                        } else {
                            assert(defs.dom().contains(key));
                            if old_defs.dom().contains(key) {
                                assert(host_imports_refused(old_defs, names, OcctError::Runtime(message)));
                            } else if wasi_definitions().dom().contains(key) {
                                assert(is_predefined(key.0, key.1));
                            } else {
                                assert(stub_definitions(names.take(done)).dom().contains(key));
                                lemma_stub_key(names.take(done), key);
                                let j = choose|j: int| 0 <= j < names.take(done).len() && #[trigger] is_stubbed(names.take(done)[j])
                                    && key == (names.take(done)[j].0, names.take(done)[j].1);
                                assert(names.take(done)[j] == names[j]);
                                assert(!stubs_distinct(names));
                            }
                        }
                    }
                    return Err(OcctError::Runtime(message));
                }
            }
        }
        proof {
            assert(linker_defines(*linker) =~= start.union_prefer_right(stub_definitions(names.take(done + 1))));
            done = done + 1;
        }
    }
    proof {
        assert(names.take(n) =~= names);
    }
    Ok(())
}

} // verus!
