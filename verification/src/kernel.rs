//! The OCCT kernel host: a wasmtime store holding one instance of the
//! kernel module, and the memory protocol used to move data across the
//! WASM boundary.
//!
//! The lifecycle and error-protocol exports and the result accessors of the
//! core result groups are bound when the kernel is created: a build without
//! one of them does not load. The accessors of the optional projection and
//! label-info results are looked up when they are used, so that a build
//! without them loads and reports `MissingCapability` only when one is
//! needed.

use vstd::prelude::*;
use vstd::utf8::{decode_utf8, valid_utf8};
use wasmtime::{Config, Engine, Func, Instance, Memory, Module, Store};

use crate::codegen::{all_accessor_exports_upto, lifecycle_exports, minimal_exports, strs_view, law_lifecycle_always_exported, MethodSpecView};
use crate::error::{is_memory_error, OcctError, OcctResult};
use crate::host::{define_host_imports, host_imports_refused, module_import_names, splice, stubbed_imports};
use crate::runtime::{
    config_epoch_interruption, config_new, config_wasm_exceptions, config_wasm_simd,
    config_wasm_tail_call, engine_new, engine_precompile_module, func_signature, instance_get_func,
    instance_get_memory, linker_instantiate, linker_new, module_new, store_engine, store_grows,
    store_memories_unchanged, store_new, store_set_epoch_deadline, lemma_store_grows_trans,
    lemma_memories_unchanged_trans, config_epoch_interruption_on, config_exceptions, config_simd,
    config_tail_call, engine_settings, epoch_deadline, epoch_read, module_engine, module_compiled_from,
    module_func_export, module_memory_export, instance_module, func_is_export, func_failed,
    MAX_DEADLINE_TICKS, call_left, compile_refused, precompile_refused, elf_image, calls_kept, store_calls, error_text, linker_defines, engine_refused, instantiate_refused, memory_held, memory_length_seen, deadline_kept, store_engine_of, func_answered, func_call, holds_func, holds_instance, holds_memory, func_params,
    func_results, kind_of, memory_bytes, memory_read, memory_size, memory_write, error_message,
    ValueKind, WasmValue,
};
use crate::text::{concat3, string_from_utf8, string_from_utf8_lossy, utf8_error_text};
use crate::types::{
    EvolutionData, ProjectionData, RawBoundingBox, RawEdgeData, RawLabelInfo, RawMesh, RawMeshBatch,
    RawNurbsCurve, ShapeHandle,
};
use crate::words::{
    decode_i32_words, decode_u32_words, decode_u64_words, law_u32_words_round_trip, le_i32_words, le_u32_words,
    le_u64_words, le_u32, le_u64, to_i32, u32_words_le,
};

verus! {

/// Number of exports bound when the kernel is created.
pub const BOUND_COUNT: usize = 57;

/// Index of `occt_alloc` among the bound exports.
pub const ALLOC: usize = 0;
/// Index of `occt_free`.
pub const FREE: usize = 1;
/// Index of `occt_has_error`.
pub const HAS_ERROR: usize = 2;
/// Index of `occt_get_error`.
pub const GET_ERROR: usize = 3;
/// Index of `occt_get_error_len`.
pub const GET_ERROR_LEN: usize = 4;
/// Index of `occt_get_string_result`; its length accessor follows.
pub const STRING_RESULT: usize = 5;
/// Index of `occt_get_vec_u32_result`; its length accessor follows.
pub const VEC_U32_RESULT: usize = 7;
/// Index of `occt_get_vec_f64_result`; its length accessor follows.
pub const VEC_F64_RESULT: usize = 9;
/// Index of `occt_get_vec_i32_result`; its length accessor follows.
pub const VEC_I32_RESULT: usize = 11;
/// Index of `occt_get_bbox_xmin`, the first of the six `f64` box accessors.
pub const BBOX: usize = 13;
/// Index of the first of the eight mesh accessors.
pub const MESH: usize = 19;
/// Index of the first of the eight mesh batch accessors.
pub const MESH_BATCH: usize = 27;
/// Index of the first of the four edge accessors.
pub const EDGES: usize = 35;
/// Index of the first of the eleven NURBS accessors.
pub const NURBS: usize = 39;
/// Index of the first of the seven evolution accessors.
pub const EVOLUTION: usize = 50;

/// The exports bound when the kernel is created, by index: the lifecycle
/// exports but `occt_init` and `occt_destroy`, then the accessors of the
/// core result groups.
pub open spec fn bound_exports() -> Seq<Seq<char>> {
    seq![
        "occt_alloc"@, "occt_free"@, "occt_has_error"@, "occt_get_error"@, "occt_get_error_len"@,
        "occt_get_string_result"@, "occt_get_string_result_len"@,
        "occt_get_vec_u32_result"@, "occt_get_vec_u32_result_len"@,
        "occt_get_vec_f64_result"@, "occt_get_vec_f64_result_len"@,
        "occt_get_vec_i32_result"@, "occt_get_vec_i32_result_len"@,
        "occt_get_bbox_xmin"@, "occt_get_bbox_ymin"@, "occt_get_bbox_zmin"@,
        "occt_get_bbox_xmax"@, "occt_get_bbox_ymax"@, "occt_get_bbox_zmax"@,
        "occt_get_mesh_positions"@, "occt_get_mesh_positions_len"@,
        "occt_get_mesh_normals"@, "occt_get_mesh_normals_len"@,
        "occt_get_mesh_indices"@, "occt_get_mesh_indices_len"@,
        "occt_get_mesh_face_groups"@, "occt_get_mesh_face_groups_len"@,
        "occt_get_mesh_batch_positions"@, "occt_get_mesh_batch_positions_len"@,
        "occt_get_mesh_batch_normals"@, "occt_get_mesh_batch_normals_len"@,
        "occt_get_mesh_batch_indices"@, "occt_get_mesh_batch_indices_len"@,
        "occt_get_mesh_batch_shape_offsets"@, "occt_get_mesh_batch_shape_count"@,
        "occt_get_edge_points"@, "occt_get_edge_points_len"@,
        "occt_get_edge_groups"@, "occt_get_edge_groups_len"@,
        "occt_get_nurbs_degree"@, "occt_get_nurbs_rational"@, "occt_get_nurbs_periodic"@,
        "occt_get_nurbs_knots"@, "occt_get_nurbs_knots_len"@,
        "occt_get_nurbs_multiplicities"@, "occt_get_nurbs_multiplicities_len"@,
        "occt_get_nurbs_poles"@, "occt_get_nurbs_poles_len"@,
        "occt_get_nurbs_weights"@, "occt_get_nurbs_weights_len"@,
        "occt_get_evo_result_id"@, "occt_get_evo_modified"@, "occt_get_evo_modified_len"@,
        "occt_get_evo_generated"@, "occt_get_evo_generated_len"@,
        "occt_get_evo_deleted"@, "occt_get_evo_deleted_len"@,
    ]
}

/// The parameter kinds the bound export at `i` must have.
pub open spec fn bound_params(i: int) -> Seq<ValueKind> {
    if i == ALLOC || i == FREE {
        seq![ValueKind::I32]
    } else {
        Seq::empty()
    }
}

/// The result kinds the bound export at `i` must have: none for
/// `occt_free`, an `f64` for the box accessors, an `i32` otherwise.
pub open spec fn bound_results(i: int) -> Seq<ValueKind> {
    if i == FREE {
        Seq::empty()
    } else if BBOX <= i < BBOX + 6 {
        seq![ValueKind::F64]
    } else {
        seq![ValueKind::I32]
    }
}

/// The exports bound when the kernel is created are the lifecycle exports
/// the host calls, then every accessor of the result groups before the two
/// optional ones (projection and label info), in the emitter's order.
pub proof fn law_bound_exports_are_lifecycle_and_core_accessors()
    ensures
        bound_exports() == lifecycle_exports().subrange(2, 7) + all_accessor_exports_upto(10),
{
    reveal_with_fuel(all_accessor_exports_upto, 11);
    assert(bound_exports() =~= lifecycle_exports().subrange(2, 7) + all_accessor_exports_upto(10));
}

/// The lifecycle exports bound when the kernel is created are in the export
/// set of every minimal profile, whatever its specifications and policy.
pub proof fn law_bound_exports_in_every_profile(
    specs: Seq<MethodSpecView>,
    cats: Seq<Seq<char>>,
    names: Seq<Seq<char>>,
    i: int,
)
    requires
        0 <= i < STRING_RESULT,
    ensures
        minimal_exports(specs, cats, names).contains(bound_exports()[i]),
{
    assert(lifecycle_exports()[i + 2] == bound_exports()[i]);
    law_lifecycle_always_exported(specs, cats, names, bound_exports()[i]);
}

/// The bytes of `mem` from `ptr` on, `len` of them, if they lie inside.
pub open spec fn region(mem: Seq<u8>, ptr: int, len: int) -> Option<Seq<u8>> {
    if 0 <= ptr && 0 <= len && ptr + len <= mem.len() {
        Some(mem.subrange(ptr, ptr + len))
    } else {
        None
    }
}

/// `r` is what reading `len` bytes at `ptr` from `mem` gives: the bytes, or
/// a bounds error when they do not all lie inside.
pub open spec fn bytes_read(mem: Seq<u8>, ptr: u32, len: u32, r: OcctResult<Vec<u8>>) -> bool {
    match r {
        Ok(v) => region(mem, ptr as int, len as int) == Some(v@),
        Err(e) => region(mem, ptr as int, len as int) is None && is_memory_error(e, "read out of bounds"@),
    }
}

/// `data` lies at the non-null pointer `ptr` of `mem`.
pub open spec fn bytes_written(mem: Seq<u8>, ptr: u32, data: Seq<u8>) -> bool {
    ptr != 0 && region(mem, ptr as int, data.len() as int) == Some(data)
}

/// The byte length of `count` 4-byte words, as the kernel computes it in
/// 32-bit arithmetic.
pub open spec fn words4(count: u32) -> u32 {
    vstd::wrapping::u32_specs::wrapping_mul(count, 4)
}

/// The byte length of `count` 8-byte words, in 32-bit arithmetic.
pub open spec fn words8(count: u32) -> u32 {
    vstd::wrapping::u32_specs::wrapping_mul(count, 8)
}

/// The outcome of reading `count` little-endian `u32` words at `ptr`.
pub open spec fn u32_array_at(mem: Seq<u8>, ptr: u32, count: u32) -> Option<Seq<u32>> {
    match region(mem, ptr as int, words4(count) as int) {
        Some(b) => Some(le_u32_words(b)),
        None => None,
    }
}

/// The outcome of reading `count` little-endian `i32` words at `ptr`.
pub open spec fn i32_array_at(mem: Seq<u8>, ptr: u32, count: u32) -> Option<Seq<i32>> {
    match region(mem, ptr as int, words4(count) as int) {
        Some(b) => Some(le_i32_words(b)),
        None => None,
    }
}

/// The outcome of reading `count` little-endian `u64` words at `ptr`.
pub open spec fn u64_array_at(mem: Seq<u8>, ptr: u32, count: u32) -> Option<Seq<u64>> {
    match region(mem, ptr as int, words8(count) as int) {
        Some(b) => Some(le_u64_words(b)),
        None => None,
    }
}

/// The text of the kernel's last error, given the pointer and length its
/// error accessors reported: the bytes there if they are in bounds and
/// UTF-8, `"unknown error"` otherwise.
pub open spec fn stored_error_text(mem: Seq<u8>, ptr: i32, len: u32) -> Seq<char> {
    if ptr != 0 && len > 0 {
        match region(mem, (ptr as u32) as int, len as int) {
            Some(b) => if valid_utf8(b) { decode_utf8(b) } else { "unknown error"@ },
            None => "unknown error"@,
        }
    } else {
        "unknown error"@
    }
}

/// `r` is what reading `count` `u32` words at `ptr` from `mem` gives.
pub open spec fn u32_read(mem: Seq<u8>, ptr: u32, count: u32, r: OcctResult<Vec<u32>>) -> bool {
    match r {
        Ok(v) => u32_array_at(mem, ptr, count) == Some(v@),
        Err(e) => u32_array_at(mem, ptr, count) is None && is_memory_error(e, "read out of bounds"@),
    }
}

/// `r` is what reading `count` `i32` words at `ptr` from `mem` gives.
pub open spec fn i32_read(mem: Seq<u8>, ptr: u32, count: u32, r: OcctResult<Vec<i32>>) -> bool {
    match r {
        Ok(v) => i32_array_at(mem, ptr, count) == Some(v@),
        Err(e) => i32_array_at(mem, ptr, count) is None && is_memory_error(e, "read out of bounds"@),
    }
}

/// `r` is what reading `count` `u64` words at `ptr` from `mem` gives.
pub open spec fn u64_read(mem: Seq<u8>, ptr: u32, count: u32, r: OcctResult<Vec<u64>>) -> bool {
    match r {
        Ok(v) => u64_array_at(mem, ptr, count) == Some(v@),
        Err(e) => u64_array_at(mem, ptr, count) is None && is_memory_error(e, "read out of bounds"@),
    }
}

/// `r` is what reading the UTF-8 text of `len` bytes at `ptr` from `mem`
/// gives: the decoded text, a bounds error, or the decoder's message.
pub open spec fn text_read(mem: Seq<u8>, ptr: u32, len: u32, r: OcctResult<String>) -> bool {
    match region(mem, ptr as int, len as int) {
        None => r matches Err(e) && is_memory_error(e, "read out of bounds"@),
        Some(b) => if valid_utf8(b) {
            r matches Ok(s) && s@ == decode_utf8(b)
        } else {
            r matches Err(e) && is_memory_error(e, crate::text::utf8_error_text(b))
        },
    }
}

/// `name` is the UTF-8 text of the `len` bytes at `ptr` in `mem`.
pub open spec fn text_at(mem: Seq<u8>, ptr: u32, len: u32, name: Seq<char>) -> bool {
    region(mem, ptr as int, len as int) matches Some(b) && valid_utf8(b) && decode_utf8(b) == name
}

/// Reinterpreting an `i32` as `u32` and back gives it back.
proof fn lemma_i32_u32_i32(x: i32)
    ensures
        (x as u32) as i32 == x,
{
    assert((x as u32) as i32 == x) by (bit_vector);
}

/// Where an array lies in the kernel's memory: a pointer and an element
/// count, as the kernel's accessors report them.
#[derive(Clone, Copy, Debug)]
pub struct ArrayAt {
    pub ptr: u32,
    pub count: u32,
}

/// `r` is what reading a mesh with the given arrays from `mem` gives.
pub open spec fn mesh_read(
    mem: Seq<u8>,
    positions: ArrayAt,
    normals: ArrayAt,
    indices: ArrayAt,
    face_groups: ArrayAt,
    r: OcctResult<RawMesh>,
) -> bool {
    let p = u32_array_at(mem, positions.ptr, positions.count);
    let n = u32_array_at(mem, normals.ptr, normals.count);
    let i = u32_array_at(mem, indices.ptr, indices.count);
    let f = i32_array_at(mem, face_groups.ptr, face_groups.count);
    match r {
        Ok(m) => p == Some(m.positions@) && n == Some(m.normals@) && i == Some(m.indices@)
            && f == Some(m.face_groups@),
        Err(e) => is_memory_error(e, "read out of bounds"@) && (p is None || n is None || i is None || f is None),
    }
}

/// `r` is what reading a mesh batch with the given arrays from `mem` gives.
pub open spec fn mesh_batch_read(
    mem: Seq<u8>,
    positions: ArrayAt,
    normals: ArrayAt,
    indices: ArrayAt,
    shape_offsets: ArrayAt,
    r: OcctResult<RawMeshBatch>,
) -> bool {
    let p = u32_array_at(mem, positions.ptr, positions.count);
    let n = u32_array_at(mem, normals.ptr, normals.count);
    let i = u32_array_at(mem, indices.ptr, indices.count);
    let o = i32_array_at(mem, shape_offsets.ptr, shape_offsets.count);
    match r {
        Ok(m) => p == Some(m.positions@) && n == Some(m.normals@) && i == Some(m.indices@)
            && o == Some(m.shape_offsets@),
        Err(e) => is_memory_error(e, "read out of bounds"@) && (p is None || n is None || i is None || o is None),
    }
}

/// `r` is what reading edge data with the given arrays from `mem` gives.
pub open spec fn edges_read(mem: Seq<u8>, points: ArrayAt, groups: ArrayAt, r: OcctResult<RawEdgeData>) -> bool {
    let p = u32_array_at(mem, points.ptr, points.count);
    let g = i32_array_at(mem, groups.ptr, groups.count);
    match r {
        Ok(d) => p == Some(d.points@) && g == Some(d.edge_groups@),
        Err(e) => is_memory_error(e, "read out of bounds"@) && (p is None || g is None),
    }
}

/// `r` is what reading a NURBS curve with the given header and arrays from
/// `mem` gives.
pub open spec fn nurbs_read(
    mem: Seq<u8>,
    degree: i32,
    rational: bool,
    periodic: bool,
    knots: ArrayAt,
    multiplicities: ArrayAt,
    poles: ArrayAt,
    weights: ArrayAt,
    r: OcctResult<RawNurbsCurve>,
) -> bool {
    let k = u64_array_at(mem, knots.ptr, knots.count);
    let m = i32_array_at(mem, multiplicities.ptr, multiplicities.count);
    let p = u64_array_at(mem, poles.ptr, poles.count);
    let w = u64_array_at(mem, weights.ptr, weights.count);
    match r {
        Ok(c) => c.degree == degree && c.rational == rational && c.periodic == periodic
            && k == Some(c.knots@) && m == Some(c.multiplicities@) && p == Some(c.poles@)
            && w == Some(c.weights@),
        Err(e) => is_memory_error(e, "read out of bounds"@) && (k is None || m is None || p is None || w is None),
    }
}

/// `r` is what reading evolution data with the given arrays from `mem`
/// gives.
pub open spec fn evolution_read(
    mem: Seq<u8>,
    result_id: u32,
    modified: ArrayAt,
    generated: ArrayAt,
    deleted: ArrayAt,
    r: OcctResult<EvolutionData>,
) -> bool {
    let m = i32_array_at(mem, modified.ptr, modified.count);
    let g = i32_array_at(mem, generated.ptr, generated.count);
    let d = i32_array_at(mem, deleted.ptr, deleted.count);
    match r {
        Ok(e) => e.result_id == result_id && m == Some(e.modified@) && g == Some(e.generated@)
            && d == Some(e.deleted@),
        Err(e) => is_memory_error(e, "read out of bounds"@) && (m is None || g is None || d is None),
    }
}

/// `r` is what reading the BREP IR streams at the given places from `mem`
/// gives: the `u32` topology stream and the `f64` geometry stream (as bit
/// patterns).
pub open spec fn brep_ir_read(mem: Seq<u8>, topology: ArrayAt, geometry: ArrayAt, r: OcctResult<(Vec<u32>, Vec<u64>)>) -> bool {
    let t = u32_array_at(mem, topology.ptr, topology.count);
    let g = u64_array_at(mem, geometry.ptr, geometry.count);
    match r {
        Ok((tv, gv)) => t == Some(tv@) && g == Some(gv@),
        Err(e) => is_memory_error(e, "read out of bounds"@) && (t is None || g is None),
    }
}

/// `e` is the error the BREP IR lift reports from the message at `ptr`,
/// `len` bytes long: the message decoded leniently, or a bounds error.
pub open spec fn brep_ir_error_read(mem: Seq<u8>, ptr: u32, len: u32, e: OcctError) -> bool {
    match region(mem, ptr as int, len as int) {
        Some(b) => e matches OcctError::Operation { operation: o, message: m }
            && o@ == "to_brep_ir"@ && m@ == crate::text::utf8_lossy_text(b),
        None => is_memory_error(e, "read out of bounds"@),
    }
}

/// Bytes that `write_bytes` placed at the pointer it returned read back
/// unchanged with `read_bytes` from the same memory.
pub proof fn law_written_bytes_read_back(mem: Seq<u8>, ptr: u32, data: Seq<u8>, r: OcctResult<Vec<u8>>)
    requires
        bytes_written(mem, ptr, data),
        data.len() <= u32::MAX,
        bytes_read(mem, ptr, data.len() as u32, r),
    ensures
        r matches Ok(v) && v@ == data,
{
}

/// A `u32` array that the kernel lays out as consecutive little-endian
/// words reads back as the same words.
pub proof fn law_u32_array_reads_back(mem: Seq<u8>, ptr: u32, words: Seq<u32>)
    requires
        4 * words.len() <= u32::MAX,
        region(mem, ptr as int, 4 * words.len() as int) == Some(u32_words_le(words)),
    ensures
        u32_array_at(mem, ptr, words.len() as u32) == Some(words),
{
    let count = words.len() as u32;
    assert(words4(count) == 4 * words.len()) by (nonlinear_arith)
        requires
            4 * words.len() <= u32::MAX,
            count == words.len(),
            words4(count) == ((count as nat * 4nat) % 0x1_0000_0000nat) as u32,
    ;
    law_u32_words_round_trip(words);
}

/// `v` is the `count` little-endian 32-bit words of `mem` from `ptr` on.
pub open spec fn u32_words_at(mem: Seq<u8>, ptr: u32, count: u32, v: Seq<u32>) -> bool {
    &&& v.len() == count
    &&& forall|k: int| 0 <= k < count ==> #[trigger] v[k] == le_u32(mem, ptr + 4 * k)
}

/// `v` is the `count` little-endian 32-bit words of `mem` from `ptr` on,
/// read as two's-complement `i32`.
pub open spec fn i32_words_at(mem: Seq<u8>, ptr: u32, count: u32, v: Seq<i32>) -> bool {
    &&& v.len() == count
    &&& forall|k: int| 0 <= k < count ==> #[trigger] v[k] == to_i32(le_u32(mem, ptr + 4 * k))
}

/// `v` is the `count` little-endian 64-bit words of `mem` from `ptr` on.
pub open spec fn u64_words_at(mem: Seq<u8>, ptr: u32, count: u32, v: Seq<u64>) -> bool {
    &&& v.len() == count
    &&& forall|k: int| 0 <= k < count ==> #[trigger] v[k] == le_u64(mem, ptr + 8 * k)
}

/// The `a.count` words of `width` bytes at `a.ptr` lie inside `mem`.
pub open spec fn lies_in(mem: Seq<u8>, a: ArrayAt, width: int) -> bool {
    a.ptr + width * a.count <= mem.len()
}

/// The byte length of the array at `a`, with words of `width` bytes, fits
/// in 32 bits, so that no length wraps.
pub open spec fn unwrapped(a: ArrayAt, width: int) -> bool {
    width * a.count <= u32::MAX
}

/// Reading `count` 4-byte words at `ptr` succeeds exactly when they lie in
/// `mem`, and gives those words.
proof fn lemma_words4_at(mem: Seq<u8>, ptr: u32, count: u32)
    requires
        4 * count <= u32::MAX,
    ensures
        (u32_array_at(mem, ptr, count) is Some) == (ptr + 4 * count <= mem.len()),
        (i32_array_at(mem, ptr, count) is Some) == (ptr + 4 * count <= mem.len()),
        u32_array_at(mem, ptr, count) matches Some(v) ==> u32_words_at(mem, ptr, count, v),
        i32_array_at(mem, ptr, count) matches Some(v) ==> i32_words_at(mem, ptr, count, v),
{
    assert(words4(count) == 4 * count) by (nonlinear_arith)
        requires
            4 * count <= u32::MAX,
            words4(count) == ((count as nat * 4nat) % 0x1_0000_0000nat) as u32,
    ;
    if ptr + 4 * count <= mem.len() {
        let b = mem.subrange(ptr as int, ptr + 4 * count);
        assert(b.len() / 4 == count);
        assert forall|k: int| 0 <= k < count implies #[trigger] le_u32(b, 4 * k) == le_u32(mem, ptr + 4 * k) by {
            assert(b[4 * k] == mem[ptr + 4 * k]);
            assert(b[4 * k + 1] == mem[ptr + 4 * k + 1]);
            assert(b[4 * k + 2] == mem[ptr + 4 * k + 2]);
            assert(b[4 * k + 3] == mem[ptr + 4 * k + 3]);
        }
        let u = le_u32_words(b);
        let i = le_i32_words(b);
        assert forall|k: int| 0 <= k < count implies #[trigger] u[k] == le_u32(mem, ptr + 4 * k) by {
            assert(le_u32(b, 4 * k) == le_u32(mem, ptr + 4 * k));
        }
        assert forall|k: int| 0 <= k < count implies #[trigger] i[k] == to_i32(le_u32(mem, ptr + 4 * k)) by {
            assert(le_u32(b, 4 * k) == le_u32(mem, ptr + 4 * k));
        }
    }
}

/// Reading `count` 8-byte words at `ptr` succeeds exactly when they lie in
/// `mem`, and gives those words.
proof fn lemma_words8_at(mem: Seq<u8>, ptr: u32, count: u32)
    requires
        8 * count <= u32::MAX,
    ensures
        (u64_array_at(mem, ptr, count) is Some) == (ptr + 8 * count <= mem.len()),
        u64_array_at(mem, ptr, count) matches Some(v) ==> u64_words_at(mem, ptr, count, v),
{
    assert(words8(count) == 8 * count) by (nonlinear_arith)
        requires
            8 * count <= u32::MAX,
            words8(count) == ((count as nat * 8nat) % 0x1_0000_0000nat) as u32,
    ;
    if ptr + 8 * count <= mem.len() {
        let b = mem.subrange(ptr as int, ptr + 8 * count);
        assert(b.len() / 8 == count);
        let u = le_u64_words(b);
        assert forall|k: int| 0 <= k < count implies #[trigger] u[k] == le_u64(mem, ptr + 8 * k) by {
            assert(b[8 * k] == mem[ptr + 8 * k]);
            assert(b[8 * k + 1] == mem[ptr + 8 * k + 1]);
            assert(b[8 * k + 2] == mem[ptr + 8 * k + 2]);
            assert(b[8 * k + 3] == mem[ptr + 8 * k + 3]);
            assert(b[8 * k + 4] == mem[ptr + 8 * k + 4]);
            assert(b[8 * k + 5] == mem[ptr + 8 * k + 5]);
            assert(b[8 * k + 6] == mem[ptr + 8 * k + 6]);
            assert(b[8 * k + 7] == mem[ptr + 8 * k + 7]);
        }
    }
}

/// A mesh read from memory holds in each of its arrays exactly the words
/// at the place and with the count its accessors answered for that array;
/// the read fails only when one of them runs past the end of memory.
pub proof fn law_mesh_arrays_come_from_their_places(
    mem: Seq<u8>,
    positions: ArrayAt,
    normals: ArrayAt,
    indices: ArrayAt,
    face_groups: ArrayAt,
    r: OcctResult<RawMesh>,
)
    requires
        mesh_read(mem, positions, normals, indices, face_groups, r),
        unwrapped(positions, 4),
        unwrapped(normals, 4),
        unwrapped(indices, 4),
        unwrapped(face_groups, 4),
    ensures
        r matches Ok(m) ==> {
            &&& u32_words_at(mem, positions.ptr, positions.count, m.positions@)
            &&& u32_words_at(mem, normals.ptr, normals.count, m.normals@)
            &&& u32_words_at(mem, indices.ptr, indices.count, m.indices@)
            &&& i32_words_at(mem, face_groups.ptr, face_groups.count, m.face_groups@)
        },
        r is Ok <==> lies_in(mem, positions, 4) && lies_in(mem, normals, 4) && lies_in(mem, indices, 4)
            && lies_in(mem, face_groups, 4),
{
    lemma_words4_at(mem, positions.ptr, positions.count);
    lemma_words4_at(mem, normals.ptr, normals.count);
    lemma_words4_at(mem, indices.ptr, indices.count);
    lemma_words4_at(mem, face_groups.ptr, face_groups.count);
}

/// A mesh batch read from memory holds in each of its arrays exactly the
/// words at the place and with the count answered for that array (the
/// indices with the indices count, whatever the positions count); the read
/// fails only when one of them runs past the end of memory.
pub proof fn law_mesh_batch_arrays_come_from_their_places(
    mem: Seq<u8>,
    positions: ArrayAt,
    normals: ArrayAt,
    indices: ArrayAt,
    shape_offsets: ArrayAt,
    r: OcctResult<RawMeshBatch>,
)
    requires
        mesh_batch_read(mem, positions, normals, indices, shape_offsets, r),
        unwrapped(positions, 4),
        unwrapped(normals, 4),
        unwrapped(indices, 4),
        unwrapped(shape_offsets, 4),
    ensures
        r matches Ok(m) ==> {
            &&& u32_words_at(mem, positions.ptr, positions.count, m.positions@)
            &&& u32_words_at(mem, normals.ptr, normals.count, m.normals@)
            &&& u32_words_at(mem, indices.ptr, indices.count, m.indices@)
            &&& i32_words_at(mem, shape_offsets.ptr, shape_offsets.count, m.shape_offsets@)
        },
        r is Ok <==> lies_in(mem, positions, 4) && lies_in(mem, normals, 4) && lies_in(mem, indices, 4)
            && lies_in(mem, shape_offsets, 4),
{
    lemma_words4_at(mem, positions.ptr, positions.count);
    lemma_words4_at(mem, normals.ptr, normals.count);
    lemma_words4_at(mem, indices.ptr, indices.count);
    lemma_words4_at(mem, shape_offsets.ptr, shape_offsets.count);
}

/// Edge data read from memory holds exactly the words at the places and
/// with the counts answered for its points and its groups; the read fails
/// only when one of them runs past the end of memory.
pub proof fn law_edge_arrays_come_from_their_places(mem: Seq<u8>, points: ArrayAt, groups: ArrayAt, r: OcctResult<RawEdgeData>)
    requires
        edges_read(mem, points, groups, r),
        unwrapped(points, 4),
        unwrapped(groups, 4),
    ensures
        r matches Ok(d) ==> u32_words_at(mem, points.ptr, points.count, d.points@)
            && i32_words_at(mem, groups.ptr, groups.count, d.edge_groups@),
        r is Ok <==> lies_in(mem, points, 4) && lies_in(mem, groups, 4),
{
    lemma_words4_at(mem, points.ptr, points.count);
    lemma_words4_at(mem, groups.ptr, groups.count);
}

/// A NURBS curve read from memory carries the header it was given, and in
/// each array exactly the words at the place and with the count answered
/// for that array (the poles with the poles count, whatever the knots
/// count); the read fails only when an array runs past the end of memory.
pub proof fn law_nurbs_arrays_come_from_their_places(
    mem: Seq<u8>,
    degree: i32,
    rational: bool,
    periodic: bool,
    knots: ArrayAt,
    multiplicities: ArrayAt,
    poles: ArrayAt,
    weights: ArrayAt,
    r: OcctResult<RawNurbsCurve>,
)
    requires
        nurbs_read(mem, degree, rational, periodic, knots, multiplicities, poles, weights, r),
        unwrapped(knots, 8),
        unwrapped(multiplicities, 4),
        unwrapped(poles, 8),
        unwrapped(weights, 8),
    ensures
        r matches Ok(c) ==> {
            &&& c.degree == degree && c.rational == rational && c.periodic == periodic
            &&& u64_words_at(mem, knots.ptr, knots.count, c.knots@)
            &&& i32_words_at(mem, multiplicities.ptr, multiplicities.count, c.multiplicities@)
            &&& u64_words_at(mem, poles.ptr, poles.count, c.poles@)
            &&& u64_words_at(mem, weights.ptr, weights.count, c.weights@)
        },
        r is Ok <==> lies_in(mem, knots, 8) && lies_in(mem, multiplicities, 4) && lies_in(mem, poles, 8)
            && lies_in(mem, weights, 8),
{
    lemma_words8_at(mem, knots.ptr, knots.count);
    lemma_words4_at(mem, multiplicities.ptr, multiplicities.count);
    lemma_words8_at(mem, poles.ptr, poles.count);
    lemma_words8_at(mem, weights.ptr, weights.count);
}

/// Evolution data read from memory carries the result id it was given,
/// and in each list exactly the words at the place and with the count
/// answered for that list; the read fails only when a list runs past the
/// end of memory.
pub proof fn law_evolution_arrays_come_from_their_places(
    mem: Seq<u8>,
    result_id: u32,
    modified: ArrayAt,
    generated: ArrayAt,
    deleted: ArrayAt,
    r: OcctResult<EvolutionData>,
)
    requires
        evolution_read(mem, result_id, modified, generated, deleted, r),
        unwrapped(modified, 4),
        unwrapped(generated, 4),
        unwrapped(deleted, 4),
    ensures
        r matches Ok(e) ==> {
            &&& e.result_id == result_id
            &&& i32_words_at(mem, modified.ptr, modified.count, e.modified@)
            &&& i32_words_at(mem, generated.ptr, generated.count, e.generated@)
            &&& i32_words_at(mem, deleted.ptr, deleted.count, e.deleted@)
        },
        r is Ok <==> lies_in(mem, modified, 4) && lies_in(mem, generated, 4) && lies_in(mem, deleted, 4),
{
    lemma_words4_at(mem, modified.ptr, modified.count);
    lemma_words4_at(mem, generated.ptr, generated.count);
    lemma_words4_at(mem, deleted.ptr, deleted.count);
}

/// The BREP IR streams read from memory are exactly the `u32` words and
/// the `f64` words at the places and with the counts answered for them;
/// the read fails only when one runs past the end of memory.
pub proof fn law_brep_ir_streams_come_from_their_places(
    mem: Seq<u8>,
    topology: ArrayAt,
    geometry: ArrayAt,
    r: OcctResult<(Vec<u32>, Vec<u64>)>,
)
    requires
        brep_ir_read(mem, topology, geometry, r),
        unwrapped(topology, 4),
        unwrapped(geometry, 8),
    ensures
        r matches Ok((t, g)) ==> u32_words_at(mem, topology.ptr, topology.count, t@)
            && u64_words_at(mem, geometry.ptr, geometry.count, g@),
        r is Ok <==> lies_in(mem, topology, 4) && lies_in(mem, geometry, 8),
{
    lemma_words4_at(mem, topology.ptr, topology.count);
    lemma_words8_at(mem, geometry.ptr, geometry.count);
}

/// What brotli decompression makes of `compressed`: the decompressed
/// bytes, or the message of the error that stopped it.
pub uninterp spec fn brotli_decompressed(compressed: Seq<u8>) -> Result<Seq<u8>, Seq<char>>;

/// `brotli::BrotliDecompress` into a fresh buffer: the decompressed bytes,
/// or the error's message. Decompression is a function of the input, and
/// the contract says no more than that.
#[verifier::external_body]
fn brotli_decompress(compressed: &[u8]) -> (r: Result<Vec<u8>, String>)
    ensures
        match (r, brotli_decompressed(compressed@)) {
            (Ok(v), Ok(d)) => v@ == d,
            (Err(m), Err(d)) => m@ == d,
            _ => false,
        },
{
    let mut output = Vec::new();
    let mut input = compressed;
    match brotli::BrotliDecompress(&mut input, &mut output) {
        Ok(()) => Ok(output),
        Err(e) => Err(e.to_string()),
    }
}

/// The export `name` of the instance, called with `args`, answered
/// `values`.
pub open spec fn export_answered(i: Instance, name: Seq<char>, args: Seq<i32>, values: Seq<WasmValue>) -> bool {
    exists|f: Func| #[trigger] func_is_export(f, i, name) && func_answered(f, args, values)
}

/// A call of the export `name` of the instance with `args` failed.
pub open spec fn export_failed(i: Instance, name: Seq<char>, args: Seq<i32>) -> bool {
    exists|f: Func, e: wasmtime::Error|
        #![trigger func_is_export(f, i, name), func_failed(f, args, e)]
        func_is_export(f, i, name) && func_failed(f, args, e)
}

/// The bound exports are owned by the store and have the types the host
/// calls them with.
pub open spec fn bound_typed(store: Store<()>, bound: Seq<Func>) -> bool {
    &&& bound.len() == BOUND_COUNT
    &&& forall|i: int| 0 <= i < BOUND_COUNT ==> {
        &&& #[trigger] holds_func(store, bound[i])
        &&& func_params(store, bound[i]) == bound_params(i)
        &&& func_results(store, bound[i]) == bound_results(i)
    }
}

/// A store that keeps what it owned keeps the bound exports typed.
proof fn lemma_bound_typed_kept(before: Store<()>, after: Store<()>, bound: Seq<Func>)
    requires
        store_grows(before, after),
        bound_typed(before, bound),
    ensures
        bound_typed(after, bound),
{
    assert forall|i: int| 0 <= i < BOUND_COUNT implies {
        &&& #[trigger] holds_func(after, bound[i])
        &&& func_params(after, bound[i]) == bound_params(i)
        &&& func_results(after, bound[i]) == bound_results(i)
    } by {
        assert(holds_func(before, bound[i]));
    }
}

/// Whether a value kind comes back from a call as a value of its own.
pub open spec fn is_numeric(k: ValueKind) -> bool {
    k == ValueKind::I32 || k == ValueKind::I64 || k == ValueKind::F32 || k == ValueKind::F64
}

/// The kernel's export `name`, called with `args`, answered the single
/// value `v`.
pub open spec fn answered_with(i: Instance, name: Seq<char>, args: Seq<i32>, v: WasmValue) -> bool {
    export_answered(i, name, args, seq![v])
}

/// The export `name` answered the `i32` whose bit pattern is `v`.
pub open spec fn answered_u32(i: Instance, name: Seq<char>, v: u32) -> bool {
    answered(i, name, WasmValue::I32(v as i32))
}

/// The export `name` answered an `i32` that is nonzero exactly when `b`
/// holds.
pub open spec fn answered_flag(i: Instance, name: Seq<char>, b: bool) -> bool {
    exists|x: i32| #[trigger] answered(i, name, WasmValue::I32(x)) && b == (x != 0)
}

/// The kernel's export `name`, called without arguments, answered `v`.
pub open spec fn answered(i: Instance, name: Seq<char>, v: WasmValue) -> bool {
    answered_with(i, name, Seq::empty(), v)
}

/// A call of the kernel's export `name` with `args` failed.
pub open spec fn failed(i: Instance, name: Seq<char>, args: Seq<i32>) -> bool {
    export_failed(i, name, args)
}

/// The array at `a` is where the exports `ptr_name` and `len_name`
/// answered it to be.
pub open spec fn array_answered(i: Instance, ptr_name: Seq<char>, len_name: Seq<char>, a: ArrayAt) -> bool {
    exists|p: i32, l: i32|
        #![trigger answered(i, ptr_name, WasmValue::I32(p)), answered(i, len_name, WasmValue::I32(l))]
        answered(i, ptr_name, WasmValue::I32(p)) && answered(i, len_name, WasmValue::I32(l))
            && a.ptr == p as u32 && a.count == l as u32
}

/// The accessor `name` answering a `kind` failed with `e`: the module
/// lacks it (`MissingCapability`), exports it with another type, or its
/// call failed.
pub open spec fn accessor_failed(i: Instance, name: Seq<char>, kind: ValueKind, e: OcctError) -> bool {
    ||| e matches OcctError::MissingCapability(n) && n@ == name && module_func_export(instance_module(i), name) is None
    ||| e is Runtime && module_func_export(instance_module(i), name) is Some
        && module_func_export(instance_module(i), name) != Some((Seq::<ValueKind>::empty(), seq![kind]))
    ||| e is Runtime && failed(i, name, Seq::empty())
}

/// One of the accessors named in `accessors`, each with the kind it
/// answers, failed with `e`.
pub open spec fn lazy_failed(i: Instance, accessors: Set<(Seq<char>, ValueKind)>, e: OcctError) -> bool {
    exists|n: Seq<char>, k: ValueKind| accessors.contains((n, k)) && #[trigger] accessor_failed(i, n, k, e)
}

/// The accessors of the optional projection result, each answering an
/// `i32`.
pub open spec fn projection_accessors() -> Set<(Seq<char>, ValueKind)> {
    set![
        ("occt_get_proj_visible_outline"@, ValueKind::I32), ("occt_get_proj_visible_smooth"@, ValueKind::I32),
        ("occt_get_proj_visible_sharp"@, ValueKind::I32), ("occt_get_proj_hidden_outline"@, ValueKind::I32),
        ("occt_get_proj_hidden_smooth"@, ValueKind::I32), ("occt_get_proj_hidden_sharp"@, ValueKind::I32),
    ]
}

/// The accessors of the optional label-info result, with the kinds they
/// answer.
pub open spec fn label_info_accessors() -> Set<(Seq<char>, ValueKind)> {
    set![
        ("occt_get_label_info_label_id"@, ValueKind::I32), ("occt_get_label_info_name"@, ValueKind::I32),
        ("occt_get_label_info_name_len"@, ValueKind::I32), ("occt_get_label_info_has_color"@, ValueKind::I32),
        ("occt_get_label_info_r"@, ValueKind::F64), ("occt_get_label_info_g"@, ValueKind::F64),
        ("occt_get_label_info_b"@, ValueKind::F64), ("occt_get_label_info_is_assembly"@, ValueKind::I32),
        ("occt_get_label_info_is_component"@, ValueKind::I32), ("occt_get_label_info_shape_id"@, ValueKind::I32),
    ]
}

/// A call of one of the bound exports from index `lo` up to `hi` failed,
/// and `e` is the runtime's error.
pub open spec fn bound_failed(i: Instance, lo: int, hi: int, e: OcctError) -> bool {
    e is Runtime && exists|k: int| lo <= k < hi && #[trigger] failed(i, bound_exports()[k], Seq::empty())
}

/// A call of the export `name` with `args` returned and left `memory`
/// holding `bytes`.
pub open spec fn export_left(i: Instance, name: Seq<char>, args: Seq<i32>, memory: Memory, bytes: Seq<u8>) -> bool {
    exists|f: Func, s: Store<()>|
        #![trigger func_is_export(f, i, name), call_left(f, args, s)]
        func_is_export(f, i, name) && call_left(f, args, s) && memory_bytes(s, memory) == bytes
}

/// The calls `after` are the calls `before` followed by calls without
/// arguments of the exports `names` of the instance, in order.
pub open spec fn calls_of(i: Instance, before: Seq<(Func, Seq<i32>)>, after: Seq<(Func, Seq<i32>)>, names: Seq<Seq<char>>) -> bool {
    &&& after.len() == before.len() + names.len()
    &&& after.subrange(0, before.len() as int) == before
    &&& forall|k: int| 0 <= k < names.len() ==> {
        &&& #[trigger] func_is_export(after[before.len() + k].0, i, names[k])
        &&& after[before.len() + k].1 == Seq::<i32>::empty()
    }
}

/// Calls of `n1` then calls of `n2` are calls of `n1 + n2`.
proof fn lemma_calls_of_trans(
    i: Instance,
    a: Seq<(Func, Seq<i32>)>,
    b: Seq<(Func, Seq<i32>)>,
    c: Seq<(Func, Seq<i32>)>,
    n1: Seq<Seq<char>>,
    n2: Seq<Seq<char>>,
)
    requires
        calls_of(i, a, b, n1),
        calls_of(i, b, c, n2),
    ensures
        calls_of(i, a, c, n1 + n2),
{
    assert forall|k: int| 0 <= k < b.len() implies #[trigger] c[k] == b[k] by {
        assert(c.subrange(0, b.len() as int)[k] == c[k]);
    }
    assert forall|k: int| 0 <= k < a.len() implies #[trigger] b[k] == a[k] by {
        assert(b.subrange(0, a.len() as int)[k] == b[k]);
    }
    assert(c.subrange(0, a.len() as int) =~= a);
    assert forall|k: int| 0 <= k < (n1 + n2).len() implies {
        &&& #[trigger] func_is_export(c[a.len() + k].0, i, (n1 + n2)[k])
        &&& c[a.len() + k].1 == Seq::<i32>::empty()
    } by {
        if k < n1.len() {
            assert(c[a.len() + k] == b[a.len() + k]);
            assert(func_is_export(b[a.len() + k].0, i, n1[k]));
        } else {
            let j = k - n1.len();
            assert(a.len() + k == b.len() + j);
            assert(func_is_export(c[b.len() + j].0, i, n2[j]));
        }
    }
}

/// `name` is the UTF-8 text of `len` bytes read at `ptr` from the memory
/// `m`.
pub open spec fn text_seen(m: Memory, ptr: u32, len: u32, name: Seq<char>) -> bool {
    exists|b: Seq<u8>| #[trigger] memory_held(m, ptr as int, b) && b.len() == len && valid_utf8(b) && decode_utf8(b) == name
}

/// `e` is what reading `len` bytes of text at `ptr` from the memory `m`
/// refused with: a bounds error, the memory being shorter when its length
/// was read, or the decoder's message for bytes read there.
pub open spec fn text_refused(m: Memory, ptr: u32, len: u32, e: OcctError) -> bool {
    ||| is_memory_error(e, "read out of bounds"@) && exists|n: int| #[trigger] memory_length_seen(m, n) && ptr + len > n
    ||| exists|b: Seq<u8>| #[trigger] memory_held(m, ptr as int, b) && b.len() == len && !valid_utf8(b)
        && is_memory_error(e, utf8_error_text(b))
}

/// The error text `m` was read at the place the error accessors
/// answered, in `mem`; an accessor whose call failed counts as 0.
pub open spec fn error_text_reported(i: Instance, mem: Seq<u8>, m: Seq<char>) -> bool {
    exists|p: i32, l: u32| {
        &&& answered(i, "occt_get_error"@, WasmValue::I32(p)) || (p == 0 && failed(i, "occt_get_error"@, Seq::empty()))
        &&& answered_u32(i, "occt_get_error_len"@, l) || (l == 0 && failed(i, "occt_get_error_len"@, Seq::empty()))
        &&& m == #[trigger] stored_error_text(mem, p, l)
    }
}

/// The place of the shape offsets of a mesh batch is where its accessors
/// answered it to be: four `i32` per shape, the count computed in 32-bit
/// arithmetic.
pub open spec fn offsets_answered(i: Instance, a: ArrayAt) -> bool {
    exists|p: i32, c: i32|
        #![trigger answered(i, "occt_get_mesh_batch_shape_offsets"@, WasmValue::I32(p)), answered(i, "occt_get_mesh_batch_shape_count"@, WasmValue::I32(c))]
        answered(i, "occt_get_mesh_batch_shape_offsets"@, WasmValue::I32(p))
            && answered(i, "occt_get_mesh_batch_shape_count"@, WasmValue::I32(c))
            && a.ptr == p as u32 && a.count == vstd::wrapping::i32_specs::wrapping_mul(c, 4) as u32
}

/// The runtime refused the BREP IR lift of shape `id`: the module lacks
/// one of its exports or has it with another type, or one of its calls
/// failed.
pub open spec fn brep_refused(i: Instance, id: u32) -> bool {
    ||| module_func_export(instance_module(i), "occt_to_brep_ir"@) != Some((seq![ValueKind::I32], seq![ValueKind::I32]))
    ||| failed(i, "occt_to_brep_ir"@, seq![id as i32])
    ||| exists|n: Seq<char>| #[trigger] brep_accessor(n) && (
        module_func_export(instance_module(i), n) != Some((Seq::<ValueKind>::empty(), seq![ValueKind::I32]))
        || failed(i, n, Seq::empty()))
}

/// What the BREP IR lift of shape `id` gives, read from `mem`: the
/// runtime refused; or the lift answered a nonzero status and `r` is
/// the error its message makes; or it answered 0 and `r` is what the
/// streams at the places their accessors answered decode to.
pub open spec fn brep_outcome(i: Instance, mem: Seq<u8>, id: u32, r: OcctResult<(Vec<u32>, Vec<u64>)>) -> bool {
    ||| r matches Err(e) && e is Runtime && brep_refused(i, id)
    ||| r matches Err(e) && module_func_export(instance_module(i), "occt_to_brep_ir"@) == Some((seq![ValueKind::I32], seq![ValueKind::I32]))
        && exists|s: i32, p: i32, l: u32|
        #![trigger answered_with(i, "occt_to_brep_ir"@, seq![id as i32], WasmValue::I32(s)), answered(i, "occt_rmesh_ir_error"@, WasmValue::I32(p)), answered_u32(i, "occt_rmesh_ir_error_len"@, l)]
    {
        &&& s != 0
        &&& answered_with(i, "occt_to_brep_ir"@, seq![id as i32], WasmValue::I32(s))
        &&& answered(i, "occt_rmesh_ir_error"@, WasmValue::I32(p))
        &&& answered_u32(i, "occt_rmesh_ir_error_len"@, l)
        &&& brep_ir_error_read(mem, p as u32, l, e)
    }
    ||| module_func_export(instance_module(i), "occt_to_brep_ir"@) == Some((seq![ValueKind::I32], seq![ValueKind::I32]))
        && answered_with(i, "occt_to_brep_ir"@, seq![id as i32], WasmValue::I32(0)) && exists|a: ArrayAt, b: ArrayAt| {
        &&& array_answered(i, "occt_rmesh_ir_u32"@, "occt_rmesh_ir_u32_len"@, a)
        &&& array_answered(i, "occt_rmesh_ir_f64"@, "occt_rmesh_ir_f64_len"@, b)
        &&& #[trigger] brep_ir_read(mem, a, b, r)
    }
}

/// The OCCT CAD kernel, backed by a sandboxed WASM module.
pub struct OcctKernel {
    store: Store<()>,
    instance: Instance,
    memory: Memory,
    bound: Vec<Func>,
}

impl OcctKernel {
    /// The kernel's store owns its instance and its memory; the bound
    /// exports are the instance's exports of the names in
    /// `bound_exports()`, owned by the store, with the types the host calls
    /// them with.
    pub closed spec fn wf(&self) -> bool {
        &&& holds_instance(self.store, self.instance)
        &&& holds_memory(self.store, self.memory)
        &&& bound_typed(self.store, self.bound@)
        &&& forall|i: int| 0 <= i < BOUND_COUNT ==> #[trigger] func_is_export(self.bound@[i], self.instance, bound_exports()[i])
    }

    /// The bytes of the kernel's linear memory.
    pub closed spec fn memory(&self) -> Seq<u8> {
        memory_bytes(self.store, self.memory)
    }

    /// The kernel's linear memory.
    pub closed spec fn memory_handle(&self) -> Memory {
        self.memory
    }

    /// The kernel's instance of its module.
    pub closed spec fn instance(&self) -> Instance {
        self.instance
    }

    /// The module the kernel was instantiated from.
    pub open spec fn module(&self) -> Module {
        instance_module(self.instance())
    }

    /// The calls made in the kernel's store, in order: each function with
    /// its arguments.
    pub closed spec fn calls(&self) -> Seq<(Func, Seq<i32>)> {
        store_calls(self.store)
    }

    /// The epoch at which calls into the kernel trap.
    pub closed spec fn deadline(&self) -> u64 {
        epoch_deadline(self.store)
    }

    /// The engine the kernel runs on.
    pub closed spec fn engine(&self) -> Engine {
        store_engine_of(self.store)
    }

    /// Both states belong to the same kernel: the same engine, instance,
    /// memory and bound exports.
    pub closed spec fn same_kernel(&self, other: &OcctKernel) -> bool {
        &&& store_engine_of(self.store) == store_engine_of(other.store)
        &&& self.instance == other.instance
        &&& self.memory == other.memory
        &&& self.bound@ == other.bound@
    }










    // === Calls ===

    /// Call the bound export at `index` with `args`.
    fn call_bound(&mut self, index: usize, args: &[i32]) -> (r: OcctResult<Vec<WasmValue>>)
        requires
            old(self).wf(),
            index < BOUND_COUNT,
            args@.len() == bound_params(index as int).len(),
        ensures
            final(self).wf(),
            final(self).same_kernel(old(self)),
            r matches Ok(v) ==> {
                &&& v@.len() == bound_results(index as int).len()
                &&& forall|k: int| 0 <= k < v@.len() ==> kind_of(#[trigger] v@[k]) == Some(bound_results(index as int)[k])
                &&& export_answered(old(self).instance(), bound_exports()[index as int], args@, v@)
            },
            r matches Err(e) ==> e is Runtime && export_failed(old(self).instance(), bound_exports()[index as int], args@),
            export_left(old(self).instance(), bound_exports()[index as int], args@, final(self).memory_handle(), final(self).memory()),
            exists|f: Func| #[trigger] func_is_export(f, old(self).instance(), bound_exports()[index as int])
                && final(self).calls() == old(self).calls().push((f, args@)),
    {
        let ghost before = self.store;
        let count = if index == FREE { 0 } else { 1 };
        let func = self.bound[index];
        assert(holds_func(before, self.bound@[index as int]));
        assert(func_is_export(self.bound@[index as int], self.instance, bound_exports()[index as int]));
        let result = func_call(&func, &mut self.store, args, count);
        proof {
            lemma_bound_typed_kept(before, self.store, self.bound@);
        }
        match result {
            Ok(values) => {
                assert forall|k: int| 0 <= k < values@.len() implies kind_of(#[trigger] values@[k]) == Some(bound_results(index as int)[k]) by {
                    assert(crate::runtime::answers_kind(values@[k], func_results(before, func)[k]));
                }
                Ok(values)
            },
            Err(e) => Err(OcctError::Runtime(error_message(&e))),
        }
    }

    /// Call a bound `() -> i32` export.
    fn call_i32(&mut self, index: usize) -> (r: OcctResult<i32>)
        requires
            old(self).wf(),
            index < BOUND_COUNT,
            bound_params(index as int).len() == 0,
            bound_results(index as int) == seq![ValueKind::I32],
        ensures
            final(self).wf(),
            final(self).same_kernel(old(self)),
            r matches Ok(x) ==> answered(old(self).instance(), bound_exports()[index as int], WasmValue::I32(x)),
            r matches Err(e) ==> e is Runtime && failed(old(self).instance(), bound_exports()[index as int], Seq::empty()),
    {
        let no_args: Vec<i32> = Vec::new();
        let values = self.call_bound(index, no_args.as_slice())?;
        match values[0] {
            WasmValue::I32(x) => {
                assert(values@ =~= seq![WasmValue::I32(x)]);
                Ok(x)
            },
            _ => {
                assert(kind_of(values@[0]) == Some(ValueKind::I32));
                Err(OcctError::Runtime("unexpected result type".to_owned()))
            },
        }
    }

    /// Call a bound `() -> f64` export; the result is its bit pattern.
    fn call_f64(&mut self, index: usize) -> (r: OcctResult<u64>)
        requires
            old(self).wf(),
            index < BOUND_COUNT,
            bound_params(index as int).len() == 0,
            bound_results(index as int) == seq![ValueKind::F64],
        ensures
            final(self).wf(),
            final(self).same_kernel(old(self)),
            r matches Ok(x) ==> answered(old(self).instance(), bound_exports()[index as int], WasmValue::F64(x)),
            r matches Err(e) ==> e is Runtime && failed(old(self).instance(), bound_exports()[index as int], Seq::empty()),
    {
        let no_args: Vec<i32> = Vec::new();
        let values = self.call_bound(index, no_args.as_slice())?;
        match values[0] {
            WasmValue::F64(x) => {
                assert(values@ =~= seq![WasmValue::F64(x)]);
                Ok(x)
            },
            _ => {
                assert(kind_of(values@[0]) == Some(ValueKind::F64));
                Err(OcctError::Runtime("unexpected result type".to_owned()))
            },
        }
    }

    /// The place of an array, from the bound accessors of its pointer, at
    /// `index`, and of its length, right after.
    fn bound_array(&mut self, index: usize) -> (r: OcctResult<ArrayAt>)
        requires
            old(self).wf(),
            index + 1 < BOUND_COUNT,
            bound_params(index as int).len() == 0,
            bound_params(index + 1).len() == 0,
            bound_results(index as int) == seq![ValueKind::I32],
            bound_results(index + 1) == seq![ValueKind::I32],
        ensures
            final(self).wf(),
            final(self).same_kernel(old(self)),
            r matches Ok(a) ==> array_answered(old(self).instance(), bound_exports()[index as int], bound_exports()[index + 1], a),
            r matches Err(e) ==> bound_failed(old(self).instance(), index as int, index + 2, e),
    {
        let ptr = self.call_i32(index)?;
        let len = self.call_i32(index + 1)?;
        Ok(ArrayAt { ptr: ptr as u32, count: len as u32 })
    }

    /// Call a function of the kernel that answers one value of the numeric
    /// kind `kind`.
    fn call_one(&mut self, func: &Func, args: &[i32], kind: ValueKind) -> (r: OcctResult<WasmValue>)
        requires
            old(self).wf(),
            holds_func(old(self).store, *func),
            func_params(old(self).store, *func).len() == args@.len(),
            func_results(old(self).store, *func) == seq![kind],
            is_numeric(kind),
        ensures
            final(self).wf(),
            final(self).same_kernel(old(self)),
            store_grows(old(self).store, final(self).store),
            final(self).calls() == old(self).calls().push((*func, args@)),
            r matches Ok(v) ==> kind_of(v) == Some(kind) && func_answered(*func, args@, seq![v]),
            r matches Err(e) ==> e is Runtime && exists|e2: wasmtime::Error| func_failed(*func, args@, e2),
    {
        let ghost before = self.store;
        let result = func_call(func, &mut self.store, args, 1);
        proof {
            lemma_bound_typed_kept(before, self.store, self.bound@);
            assert(holds_memory(before, self.memory));
            assert(holds_instance(before, self.instance));
        }
        match result {
            Ok(values) => {
                assert(crate::runtime::answers_kind(values@[0], kind));
                assert(values@ =~= seq![values@[0]]);
                Ok(values[0])
            },
            Err(e) => Err(runtime_error(e)),
        }
    }

    /// The export `name` as an accessor answering one value of `kind`, looked
    /// up now: `MissingCapability` when the module lacks it.
    fn accessor(&mut self, name: &str, kind: ValueKind) -> (r: OcctResult<Func>)
        requires
            old(self).wf(),
        ensures
            final(self).wf(),
            final(self).same_kernel(old(self)),
            final(self).memory() == old(self).memory(),
            store_grows(old(self).store, final(self).store),
            final(self).calls() == old(self).calls(),
            r matches Ok(f) ==> {
                &&& holds_func(final(self).store, f)
                &&& func_is_export(f, old(self).instance(), name@)
                &&& func_params(final(self).store, f) == Seq::<ValueKind>::empty()
                &&& func_results(final(self).store, f) == seq![kind]
            },
            r matches Err(e) ==> accessor_failed(old(self).instance(), name@, kind, e),
    {
        let unit: Vec<ValueKind> = Vec::new();
        let one = vec![kind];
        assert(one@ =~= seq![kind]);
        let ghost before = self.store;
        let found = find_typed(&self.instance, &mut self.store, name, &unit, &one);
        proof {
            lemma_bound_typed_kept(before, self.store, self.bound@);
            assert(holds_memory(before, self.memory));
        }
        match found {
            Ok(f) => Ok(f),
            Err(true) => Err(OcctError::MissingCapability(name.to_owned())),
            Err(false) => Err(OcctError::Runtime(concat3("failed to convert function `", name, "` to given type"))),
        }
    }

    /// Call the accessor `name` answering an `i32`.
    fn accessor_i32(&mut self, name: &str) -> (r: OcctResult<i32>)
        requires
            old(self).wf(),
        ensures
            final(self).wf(),
            final(self).same_kernel(old(self)),
            r matches Ok(x) ==> answered(old(self).instance(), name@, WasmValue::I32(x)),
            r matches Err(e) ==> accessor_failed(old(self).instance(), name@, ValueKind::I32, e),
            r is Ok ==> calls_of(old(self).instance(), old(self).calls(), final(self).calls(), seq![name@]),
    {
        let f = self.accessor(name, ValueKind::I32)?;
        let no_args: Vec<i32> = Vec::new();
        let ghost mid = self.calls();
        let answer = self.call_one(&f, no_args.as_slice(), ValueKind::I32);
        proof {
            assert(self.calls().subrange(0, mid.len() as int) =~= mid);
            assert(no_args@ =~= Seq::<i32>::empty());
            assert(func_is_export(self.calls()[mid.len() as int].0, old(self).instance(), seq![name@][0]));
        }
        match answer {
            Ok(WasmValue::I32(x)) => Ok(x),
            Ok(_) => Err(OcctError::Runtime("unexpected result type".to_owned())),
            Err(e) => Err(e),
        }
    }

    /// Call the accessor `name` answering an `f64`; the result is its bit
    /// pattern.
    fn accessor_f64(&mut self, name: &str) -> (r: OcctResult<u64>)
        requires
            old(self).wf(),
        ensures
            final(self).wf(),
            final(self).same_kernel(old(self)),
            r matches Ok(x) ==> answered(old(self).instance(), name@, WasmValue::F64(x)),
            r matches Err(e) ==> accessor_failed(old(self).instance(), name@, ValueKind::F64, e),
    {
        let f = self.accessor(name, ValueKind::F64)?;
        let no_args: Vec<i32> = Vec::new();
        match self.call_one(&f, no_args.as_slice(), ValueKind::F64) {
            Ok(WasmValue::F64(x)) => Ok(x),
            Ok(_) => Err(OcctError::Runtime("unexpected result type".to_owned())),
            Err(e) => Err(e),
        }
    }

    /// Call the accessor `name` and read its `i32` answer as a `u32`.
    fn accessor_u32(&mut self, name: &str) -> (r: OcctResult<u32>)
        requires
            old(self).wf(),
        ensures
            final(self).wf(),
            final(self).same_kernel(old(self)),
            r matches Ok(v) ==> answered_u32(old(self).instance(), name@, v),
            r matches Err(e) ==> accessor_failed(old(self).instance(), name@, ValueKind::I32, e),
    {
        let x = self.accessor_i32(name)?;
        proof {
            lemma_i32_u32_i32(x);
        }
        Ok(x as u32)
    }

    /// Call the accessor `name` and read its `i32` answer as a flag:
    /// nonzero is `true`.
    fn accessor_flag(&mut self, name: &str) -> (r: OcctResult<bool>)
        requires
            old(self).wf(),
        ensures
            final(self).wf(),
            final(self).same_kernel(old(self)),
            r matches Ok(b) ==> answered_flag(old(self).instance(), name@, b),
            r matches Err(e) ==> accessor_failed(old(self).instance(), name@, ValueKind::I32, e),
    {
        let x = self.accessor_i32(name)?;
        Ok(x != 0)
    }

    /// The place of an array, from its pointer and length accessors.
    fn accessor_array(&mut self, ptr_name: &str, len_name: &str) -> (r: OcctResult<ArrayAt>)
        requires
            old(self).wf(),
        ensures
            final(self).wf(),
            final(self).same_kernel(old(self)),
            r matches Ok(a) ==> array_answered(old(self).instance(), ptr_name@, len_name@, a),
            r matches Err(e) ==> accessor_failed(old(self).instance(), ptr_name@, ValueKind::I32, e)
                || accessor_failed(old(self).instance(), len_name@, ValueKind::I32, e),
            r is Ok ==> calls_of(old(self).instance(), old(self).calls(), final(self).calls(), seq![ptr_name@, len_name@]),
    {
        let ptr = self.accessor_i32(ptr_name)?;
        let ghost mid = self.calls();
        let len = self.accessor_i32(len_name)?;
        proof {
            lemma_calls_of_trans(old(self).instance(), old(self).calls(), mid, self.calls(), seq![ptr_name@], seq![len_name@]);
            assert(seq![ptr_name@] + seq![len_name@] =~= seq![ptr_name@, len_name@]);
        }
        Ok(ArrayAt { ptr: ptr as u32, count: len as u32 })
    }

    /// Read `len` bytes at `ptr` from the kernel's memory.
    pub fn read_bytes(&self, ptr: u32, len: u32) -> (r: OcctResult<Vec<u8>>)
        requires
            self.wf(),
        ensures
            bytes_read(self.memory(), ptr, len, r),
            r matches Ok(b) ==> memory_held(self.memory_handle(), ptr as int, b@),
            r is Err ==> exists|n: int| #[trigger] memory_length_seen(self.memory_handle(), n) && ptr + len > n,
    {
        let mem_len = memory_size(&self.memory, &self.store);
        if ptr as usize > mem_len || len as usize > mem_len - ptr as usize {
            assert(memory_length_seen(self.memory_handle(), mem_len as int));
            return Err(OcctError::Memory("read out of bounds".to_owned()));
        }
        let start = ptr as usize;
        Ok(memory_read(&self.memory, &self.store, start, start + len as usize))
    }

    /// Read `count` little-endian `u32` words at `ptr`. The byte length is
    /// `count * 4` in 32-bit arithmetic.
    pub fn read_u32_slice(&self, ptr: u32, count: u32) -> (r: OcctResult<Vec<u32>>)
        requires
            self.wf(),
        ensures
            u32_read(self.memory(), ptr, count, r),
    {
        let bytes = self.read_bytes(ptr, count.wrapping_mul(4))?;
        Ok(decode_u32_words(bytes.as_slice()))
    }

    /// Read `count` little-endian `i32` words at `ptr`.
    pub fn read_i32_slice(&self, ptr: u32, count: u32) -> (r: OcctResult<Vec<i32>>)
        requires
            self.wf(),
        ensures
            i32_read(self.memory(), ptr, count, r),
    {
        let bytes = self.read_bytes(ptr, count.wrapping_mul(4))?;
        Ok(decode_i32_words(bytes.as_slice()))
    }

    /// Read `count` `f32` values at `ptr`, as their bit patterns.
    pub fn read_f32_slice(&self, ptr: u32, count: u32) -> (r: OcctResult<Vec<u32>>)
        requires
            self.wf(),
        ensures
            u32_read(self.memory(), ptr, count, r),
    {
        self.read_u32_slice(ptr, count)
    }

    /// Read `count` `f64` values at `ptr`, as their bit patterns.
    pub fn read_f64_slice(&self, ptr: u32, count: u32) -> (r: OcctResult<Vec<u64>>)
        requires
            self.wf(),
        ensures
            u64_read(self.memory(), ptr, count, r),
    {
        let bytes = self.read_bytes(ptr, count.wrapping_mul(8))?;
        Ok(decode_u64_words(bytes.as_slice()))
    }


    /// The error text at `ptr`, `len` bytes long, as `stored_error_text`
    /// defines it.
    pub fn error_text_at(&self, ptr: i32, len: u32) -> (m: String)
        requires
            self.wf(),
        ensures
            m@ == stored_error_text(self.memory(), ptr, len),
    {
        if ptr != 0 && len > 0 {
            match self.read_bytes(ptr as u32, len) {
                Ok(bytes) => match string_from_utf8(bytes) {
                    Ok(text) => text,
                    Err(_) => "unknown error".to_owned(),
                },
                Err(_) => "unknown error".to_owned(),
            }
        } else {
            "unknown error".to_owned()
        }
    }

    // === Result buffer readers ===

    /// Read `len` bytes of UTF-8 text at `ptr`; bytes that are not UTF-8
    /// give a `Memory` error with the decoder's message.
    pub fn read_text(&self, ptr: u32, len: u32) -> (r: OcctResult<String>)
        requires
            self.wf(),
        ensures
            text_read(self.memory(), ptr, len, r),
            r matches Ok(s) ==> text_seen(self.memory_handle(), ptr, len, s@),
            r matches Err(e) ==> text_refused(self.memory_handle(), ptr, len, e),
    {
        let bytes = self.read_bytes(ptr, len)?;
        match string_from_utf8(bytes) {
            Ok(text) => Ok(text),
            Err(message) => Err(OcctError::Memory(message)),
        }
    }


    /// Read a mesh whose arrays lie at the given places.
    pub fn read_mesh_at(
        &self,
        positions: ArrayAt,
        normals: ArrayAt,
        indices: ArrayAt,
        face_groups: ArrayAt,
    ) -> (r: OcctResult<RawMesh>)
        requires
            self.wf(),
        ensures
            mesh_read(self.memory(), positions, normals, indices, face_groups, r),
    {
        let positions = self.read_f32_slice(positions.ptr, positions.count)?;
        let normals = self.read_f32_slice(normals.ptr, normals.count)?;
        let indices = self.read_u32_slice(indices.ptr, indices.count)?;
        let face_groups = self.read_i32_slice(face_groups.ptr, face_groups.count)?;
        Ok(RawMesh { positions, normals, indices, face_groups })
    }


    /// Read a mesh batch whose arrays lie at the given places.
    pub fn read_mesh_batch_at(
        &self,
        positions: ArrayAt,
        normals: ArrayAt,
        indices: ArrayAt,
        shape_offsets: ArrayAt,
    ) -> (r: OcctResult<RawMeshBatch>)
        requires
            self.wf(),
        ensures
            mesh_batch_read(self.memory(), positions, normals, indices, shape_offsets, r),
    {
        let positions = self.read_f32_slice(positions.ptr, positions.count)?;
        let normals = self.read_f32_slice(normals.ptr, normals.count)?;
        let indices = self.read_u32_slice(indices.ptr, indices.count)?;
        let shape_offsets = self.read_i32_slice(shape_offsets.ptr, shape_offsets.count)?;
        Ok(RawMeshBatch { positions, normals, indices, shape_offsets })
    }


    /// Read edge data whose arrays lie at the given places.
    pub fn read_edge_at(&self, points: ArrayAt, groups: ArrayAt) -> (r: OcctResult<RawEdgeData>)
        requires
            self.wf(),
        ensures
            edges_read(self.memory(), points, groups, r),
    {
        let points = self.read_f32_slice(points.ptr, points.count)?;
        let edge_groups = self.read_i32_slice(groups.ptr, groups.count)?;
        Ok(RawEdgeData { points, edge_groups })
    }


    /// Read a NURBS curve with the given header whose arrays lie at the
    /// given places.
    pub fn read_nurbs_at(
        &self,
        degree: i32,
        rational: bool,
        periodic: bool,
        knots: ArrayAt,
        multiplicities: ArrayAt,
        poles: ArrayAt,
        weights: ArrayAt,
    ) -> (r: OcctResult<RawNurbsCurve>)
        requires
            self.wf(),
        ensures
            nurbs_read(self.memory(), degree, rational, periodic, knots, multiplicities, poles, weights, r),
    {
        let knots = self.read_f64_slice(knots.ptr, knots.count)?;
        let multiplicities = self.read_i32_slice(multiplicities.ptr, multiplicities.count)?;
        let poles = self.read_f64_slice(poles.ptr, poles.count)?;
        let weights = self.read_f64_slice(weights.ptr, weights.count)?;
        Ok(RawNurbsCurve { degree, rational, periodic, knots, multiplicities, poles, weights })
    }


    /// Read evolution data with the given result id whose arrays lie at the
    /// given places.
    pub fn read_evolution_at(
        &self,
        result_id: u32,
        modified: ArrayAt,
        generated: ArrayAt,
        deleted: ArrayAt,
    ) -> (r: OcctResult<EvolutionData>)
        requires
            self.wf(),
        ensures
            evolution_read(self.memory(), result_id, modified, generated, deleted, r),
    {
        let modified = self.read_i32_slice(modified.ptr, modified.count)?;
        let generated = self.read_i32_slice(generated.ptr, generated.count)?;
        let deleted = self.read_i32_slice(deleted.ptr, deleted.count)?;
        Ok(EvolutionData { result_id, modified, generated, deleted })
    }


    /// Read the BREP IR streams at the given places.
    pub fn read_brep_ir_at(&self, topology: ArrayAt, geometry: ArrayAt) -> (r: OcctResult<(Vec<u32>, Vec<u64>)>)
        requires
            self.wf(),
        ensures
            brep_ir_read(self.memory(), topology, geometry, r),
    {
        let topology = self.read_u32_slice(topology.ptr, topology.count)?;
        let geometry = self.read_f64_slice(geometry.ptr, geometry.count)?;
        Ok((topology, geometry))
    }

    /// The error the BREP IR lift reports from its message at `ptr`, `len`
    /// bytes long.
    pub fn brep_ir_error_at(&self, ptr: u32, len: u32) -> (e: OcctError)
        requires
            self.wf(),
        ensures
            brep_ir_error_read(self.memory(), ptr, len, e),
    {
        match self.read_bytes(ptr, len) {
            Ok(bytes) => OcctError::Operation {
                operation: "to_brep_ir".to_owned(),
                message: string_from_utf8_lossy(bytes.as_slice()),
            },
            Err(e) => e,
        }
    }

    /// Allocate `data.len()` bytes in the kernel with `occt_alloc` and copy
    /// `data` there; the allocation size is the length truncated to 32 bits.
    /// An answer of 0 is a failed allocation; a place that runs past the end
    /// of memory is refused before anything is written. Every byte but those
    /// written keeps the value the allocation left it with.
    pub fn write_bytes(&mut self, data: &[u8]) -> (r: OcctResult<u32>)
        requires
            old(self).wf(),
        ensures
            final(self).wf(),
            final(self).same_kernel(old(self)),
            r matches Ok(p) ==> {
                &&& p != 0
                &&& answered_with(old(self).instance(), "occt_alloc"@, seq![(data@.len() as u32) as i32], WasmValue::I32(p as i32))
                &&& bytes_written(final(self).memory(), p, data@)
                &&& exists|mid: Seq<u8>|
                    #[trigger] export_left(old(self).instance(), "occt_alloc"@, seq![(data@.len() as u32) as i32], old(self).memory_handle(), mid)
                    && p + data@.len() <= mid.len() && final(self).memory() == splice(mid, p as int, data@)
            },
            r matches Err(e) ==> {
                ||| e is Runtime && failed(old(self).instance(), "occt_alloc"@, seq![(data@.len() as u32) as i32])
                ||| is_memory_error(e, "allocation failed"@)
                    && answered_with(old(self).instance(), "occt_alloc"@, seq![(data@.len() as u32) as i32], WasmValue::I32(0))
                ||| is_memory_error(e, "write out of bounds"@) && exists|x: i32| x != 0
                    && #[trigger] answered_with(old(self).instance(), "occt_alloc"@, seq![(data@.len() as u32) as i32], WasmValue::I32(x))
                    && (x as u32) + data@.len() > final(self).memory().len()
            },
            exists|f: Func| #[trigger] func_is_export(f, old(self).instance(), "occt_alloc"@)
                && final(self).calls() == old(self).calls().push((f, seq![(data@.len() as u32) as i32])),
            r matches Err(e) && !(e is Runtime) ==> export_left(
                old(self).instance(),
                "occt_alloc"@,
                seq![(data@.len() as u32) as i32],
                old(self).memory_handle(),
                final(self).memory(),
            ),
    {
        #[verifier::truncate]
        let size = data.len() as u32;
        let args: Vec<i32> = vec![size as i32];
        assert(args@ =~= seq![(data@.len() as u32) as i32]);
        let values = self.call_bound(ALLOC, args.as_slice())?;
        let ghost mid = self.memory();
        assert(export_left(old(self).instance(), "occt_alloc"@, seq![(data@.len() as u32) as i32], old(self).memory_handle(), mid));
        let answer = match values[0] {
            WasmValue::I32(p) => p,
            _ => {
                assert(kind_of(values@[0]) == Some(ValueKind::I32));
                return Err(OcctError::Runtime("unexpected result type".to_owned()));
            },
        };
        assert(values@ =~= seq![WasmValue::I32(answer)]);
        let ptr = answer as u32;
        proof {
            lemma_i32_u32_i32(answer);
            assert(bound_exports()[ALLOC as int] == "occt_alloc"@);
            assert(answered_with(old(self).instance(), "occt_alloc"@, seq![(data@.len() as u32) as i32], WasmValue::I32(answer)));
        }
        if ptr == 0 {
            return Err(OcctError::Memory("allocation failed".to_owned()));
        }
        let mem_len = memory_size(&self.memory, &self.store);
        let start = ptr as usize;
        if start > mem_len || data.len() > mem_len - start {
            return Err(OcctError::Memory("write out of bounds".to_owned()));
        }
        let ghost before = self.store;
        memory_write(&self.memory, &mut self.store, start, start + data.len(), data);
        proof {
            lemma_bound_typed_kept(before, self.store, self.bound@);
            let m = memory_bytes(self.store, self.memory);
            assert(m.subrange(ptr as int, ptr + data@.len()) =~= data@);
            assert(m =~= splice(mid, ptr as int, data@));
        }
        Ok(ptr)
    }

    /// Free memory the kernel allocated, with `occt_free`.
    pub fn free_bytes(&mut self, ptr: u32) -> (r: OcctResult<()>)
        requires
            old(self).wf(),
        ensures
            final(self).wf(),
            final(self).same_kernel(old(self)),
            r is Ok ==> export_answered(old(self).instance(), "occt_free"@, seq![ptr as i32], Seq::empty()),
            r matches Err(e) ==> e is Runtime && failed(old(self).instance(), "occt_free"@, seq![ptr as i32]),
    {
        let args: Vec<i32> = vec![ptr as i32];
        assert(args@ =~= seq![ptr as i32]);
        let values = self.call_bound(FREE, args.as_slice())?;
        assert(values@ =~= Seq::<WasmValue>::empty());
        Ok(())
    }

    // === Error handling ===

    /// Check whether the kernel has a pending error after `operation`, and
    /// return it as an `Operation` error.
    pub fn check_error(&mut self, operation: &str) -> (r: OcctResult<()>)
        requires
            old(self).wf(),
        ensures
            final(self).wf(),
            final(self).same_kernel(old(self)),
            r is Ok ==> answered(old(self).instance(), "occt_has_error"@, WasmValue::I32(0)),
            r matches Err(e) ==> {
                ||| e is Runtime && failed(old(self).instance(), "occt_has_error"@, Seq::empty())
                ||| e matches OcctError::Operation { operation: o, message: m } && o@ == operation@
                    && answered_flag(old(self).instance(), "occt_has_error"@, true)
                    && error_text_reported(old(self).instance(), final(self).memory(), m@)
            },
    {
        let has_error = self.call_i32(HAS_ERROR)?;
        if has_error != 0 {
            return Err(self.read_last_error(operation));
        }
        Ok(())
    }

    /// Read the kernel's last error message as an `Operation` error for
    /// `operation`. A failing accessor counts as a null pointer or a zero
    /// length; text that cannot be read is `"unknown error"`.
    pub fn read_last_error(&mut self, operation: &str) -> (e: OcctError)
        requires
            old(self).wf(),
        ensures
            final(self).wf(),
            final(self).same_kernel(old(self)),
            e matches OcctError::Operation { operation: o, message: m } && o@ == operation@
                && error_text_reported(old(self).instance(), final(self).memory(), m@),
    {
        let ptr = match self.call_i32(GET_ERROR) {
            Ok(p) => p,
            Err(_) => 0,
        };
        let len = match self.call_i32(GET_ERROR_LEN) {
            Ok(l) => {
                proof {
                    lemma_i32_u32_i32(l);
                }
                l as u32
            },
            Err(_) => 0,
        };
        let message = self.error_text_at(ptr, len);
        OcctError::Operation { operation: operation.to_owned(), message }
    }

    // === Result buffer readers ===

    /// Read a string result from the kernel's string buffer.
    pub fn read_string_result(&mut self) -> (r: OcctResult<String>)
        requires
            old(self).wf(),
        ensures
            final(self).wf(),
            final(self).same_kernel(old(self)),
            (r matches Err(e) && bound_failed(old(self).instance(), STRING_RESULT as int, STRING_RESULT + 2, e)) || exists|a: ArrayAt|
                #[trigger] array_answered(old(self).instance(), "occt_get_string_result"@, "occt_get_string_result_len"@, a)
                && text_read(final(self).memory(), a.ptr, a.count, r),
    {
        let at = self.bound_array(STRING_RESULT)?;
        self.read_text(at.ptr, at.count)
    }

    /// Read a `Vec<u32>` result.
    pub fn read_vec_u32_result(&mut self) -> (r: OcctResult<Vec<u32>>)
        requires
            old(self).wf(),
        ensures
            final(self).wf(),
            final(self).same_kernel(old(self)),
            (r matches Err(e) && bound_failed(old(self).instance(), VEC_U32_RESULT as int, VEC_U32_RESULT + 2, e)) || exists|a: ArrayAt|
                #[trigger] array_answered(old(self).instance(), "occt_get_vec_u32_result"@, "occt_get_vec_u32_result_len"@, a)
                && u32_read(final(self).memory(), a.ptr, a.count, r),
    {
        let at = self.bound_array(VEC_U32_RESULT)?;
        self.read_u32_slice(at.ptr, at.count)
    }

    /// Read a `Vec<f64>` result, as bit patterns.
    pub fn read_vec_f64_result(&mut self) -> (r: OcctResult<Vec<u64>>)
        requires
            old(self).wf(),
        ensures
            final(self).wf(),
            final(self).same_kernel(old(self)),
            (r matches Err(e) && bound_failed(old(self).instance(), VEC_F64_RESULT as int, VEC_F64_RESULT + 2, e)) || exists|a: ArrayAt|
                #[trigger] array_answered(old(self).instance(), "occt_get_vec_f64_result"@, "occt_get_vec_f64_result_len"@, a)
                && u64_read(final(self).memory(), a.ptr, a.count, r),
    {
        let at = self.bound_array(VEC_F64_RESULT)?;
        self.read_f64_slice(at.ptr, at.count)
    }

    /// Read a `Vec<i32>` result.
    pub fn read_vec_i32_result(&mut self) -> (r: OcctResult<Vec<i32>>)
        requires
            old(self).wf(),
        ensures
            final(self).wf(),
            final(self).same_kernel(old(self)),
            (r matches Err(e) && bound_failed(old(self).instance(), VEC_I32_RESULT as int, VEC_I32_RESULT + 2, e)) || exists|a: ArrayAt|
                #[trigger] array_answered(old(self).instance(), "occt_get_vec_i32_result"@, "occt_get_vec_i32_result_len"@, a)
                && i32_read(final(self).memory(), a.ptr, a.count, r),
    {
        let at = self.bound_array(VEC_I32_RESULT)?;
        self.read_i32_slice(at.ptr, at.count)
    }

    /// Read a bounding box result; the coordinates are `f64` bit patterns,
    /// each the answer of its own accessor.
    pub fn read_bbox_result(&mut self) -> (r: OcctResult<RawBoundingBox>)
        requires
            old(self).wf(),
        ensures
            final(self).wf(),
            final(self).same_kernel(old(self)),
            r matches Ok(b) ==> {
                &&& answered(old(self).instance(), "occt_get_bbox_xmin"@, WasmValue::F64(b.xmin))
                &&& answered(old(self).instance(), "occt_get_bbox_ymin"@, WasmValue::F64(b.ymin))
                &&& answered(old(self).instance(), "occt_get_bbox_zmin"@, WasmValue::F64(b.zmin))
                &&& answered(old(self).instance(), "occt_get_bbox_xmax"@, WasmValue::F64(b.xmax))
                &&& answered(old(self).instance(), "occt_get_bbox_ymax"@, WasmValue::F64(b.ymax))
                &&& answered(old(self).instance(), "occt_get_bbox_zmax"@, WasmValue::F64(b.zmax))
            },
            r matches Err(e) ==> bound_failed(old(self).instance(), BBOX as int, BBOX + 6, e),
    {
        let xmin = self.call_f64(BBOX)?;
        let ymin = self.call_f64(BBOX + 1)?;
        let zmin = self.call_f64(BBOX + 2)?;
        let xmax = self.call_f64(BBOX + 3)?;
        let ymax = self.call_f64(BBOX + 4)?;
        let zmax = self.call_f64(BBOX + 5)?;
        Ok(RawBoundingBox { xmin, ymin, zmin, xmax, ymax, zmax })
    }

    /// Read a mesh result.
    pub fn read_mesh_result(&mut self) -> (r: OcctResult<RawMesh>)
        requires
            old(self).wf(),
        ensures
            final(self).wf(),
            final(self).same_kernel(old(self)),
            (r matches Err(e) && bound_failed(old(self).instance(), MESH as int, MESH + 8, e)) || exists|a: ArrayAt, b: ArrayAt, c: ArrayAt, d: ArrayAt| {
                &&& array_answered(old(self).instance(), "occt_get_mesh_positions"@, "occt_get_mesh_positions_len"@, a)
                &&& array_answered(old(self).instance(), "occt_get_mesh_normals"@, "occt_get_mesh_normals_len"@, b)
                &&& array_answered(old(self).instance(), "occt_get_mesh_indices"@, "occt_get_mesh_indices_len"@, c)
                &&& array_answered(old(self).instance(), "occt_get_mesh_face_groups"@, "occt_get_mesh_face_groups_len"@, d)
                &&& #[trigger] mesh_read(final(self).memory(), a, b, c, d, r)
            },
    {
        let a = self.bound_array(MESH)?;
        let b = self.bound_array(MESH + 2)?;
        let c = self.bound_array(MESH + 4)?;
        let d = self.bound_array(MESH + 6)?;
        self.read_mesh_at(a, b, c, d)
    }

    /// Read a mesh batch result.
    pub fn read_mesh_batch_result(&mut self) -> (r: OcctResult<RawMeshBatch>)
        requires
            old(self).wf(),
        ensures
            final(self).wf(),
            final(self).same_kernel(old(self)),
            (r matches Err(e) && bound_failed(old(self).instance(), MESH_BATCH as int, MESH_BATCH + 8, e)) || exists|a: ArrayAt, b: ArrayAt, c: ArrayAt, d: ArrayAt| {
                &&& array_answered(old(self).instance(), "occt_get_mesh_batch_positions"@, "occt_get_mesh_batch_positions_len"@, a)
                &&& array_answered(old(self).instance(), "occt_get_mesh_batch_normals"@, "occt_get_mesh_batch_normals_len"@, b)
                &&& array_answered(old(self).instance(), "occt_get_mesh_batch_indices"@, "occt_get_mesh_batch_indices_len"@, c)
                &&& offsets_answered(old(self).instance(), d)
                &&& #[trigger] mesh_batch_read(final(self).memory(), a, b, c, d, r)
            },
    {
        let a = self.bound_array(MESH_BATCH)?;
        let b = self.bound_array(MESH_BATCH + 2)?;
        let c = self.bound_array(MESH_BATCH + 4)?;
        let off_ptr = self.call_i32(MESH_BATCH + 6)?;
        let shape_count = self.call_i32(MESH_BATCH + 7)?;
        let d = ArrayAt { ptr: off_ptr as u32, count: shape_count.wrapping_mul(4) as u32 };
        self.read_mesh_batch_at(a, b, c, d)
    }

    /// Read an edge data result.
    pub fn read_edge_result(&mut self) -> (r: OcctResult<RawEdgeData>)
        requires
            old(self).wf(),
        ensures
            final(self).wf(),
            final(self).same_kernel(old(self)),
            (r matches Err(e) && bound_failed(old(self).instance(), EDGES as int, EDGES + 4, e)) || exists|a: ArrayAt, b: ArrayAt| {
                &&& array_answered(old(self).instance(), "occt_get_edge_points"@, "occt_get_edge_points_len"@, a)
                &&& array_answered(old(self).instance(), "occt_get_edge_groups"@, "occt_get_edge_groups_len"@, b)
                &&& #[trigger] edges_read(final(self).memory(), a, b, r)
            },
    {
        let a = self.bound_array(EDGES)?;
        let b = self.bound_array(EDGES + 2)?;
        self.read_edge_at(a, b)
    }

    /// Read a NURBS curve data result.
    pub fn read_nurbs_result(&mut self) -> (r: OcctResult<RawNurbsCurve>)
        requires
            old(self).wf(),
        ensures
            final(self).wf(),
            final(self).same_kernel(old(self)),
            (r matches Err(e) && bound_failed(old(self).instance(), NURBS as int, NURBS + 11, e))
                || exists|d: i32, ra: bool, pe: bool, a: ArrayAt, b: ArrayAt, c: ArrayAt, w: ArrayAt| {
                &&& answered(old(self).instance(), "occt_get_nurbs_degree"@, WasmValue::I32(d))
                &&& answered_flag(old(self).instance(), "occt_get_nurbs_rational"@, ra)
                &&& answered_flag(old(self).instance(), "occt_get_nurbs_periodic"@, pe)
                &&& array_answered(old(self).instance(), "occt_get_nurbs_knots"@, "occt_get_nurbs_knots_len"@, a)
                &&& array_answered(old(self).instance(), "occt_get_nurbs_multiplicities"@, "occt_get_nurbs_multiplicities_len"@, b)
                &&& array_answered(old(self).instance(), "occt_get_nurbs_poles"@, "occt_get_nurbs_poles_len"@, c)
                &&& array_answered(old(self).instance(), "occt_get_nurbs_weights"@, "occt_get_nurbs_weights_len"@, w)
                &&& #[trigger] nurbs_read(final(self).memory(), d, ra, pe, a, b, c, w, r)
            },
    {
        let degree = self.call_i32(NURBS)?;
        let rational = self.call_i32(NURBS + 1)?;
        let periodic = self.call_i32(NURBS + 2)?;
        let a = self.bound_array(NURBS + 3)?;
        let b = self.bound_array(NURBS + 5)?;
        let c = self.bound_array(NURBS + 7)?;
        let w = self.bound_array(NURBS + 9)?;
        self.read_nurbs_at(degree, rational != 0, periodic != 0, a, b, c, w)
    }

    /// Read an evolution data result.
    pub fn read_evolution_result(&mut self) -> (r: OcctResult<EvolutionData>)
        requires
            old(self).wf(),
        ensures
            final(self).wf(),
            final(self).same_kernel(old(self)),
            (r matches Err(e) && bound_failed(old(self).instance(), EVOLUTION as int, EVOLUTION + 7, e))
                || exists|id: u32, a: ArrayAt, b: ArrayAt, c: ArrayAt| {
                &&& answered_u32(old(self).instance(), "occt_get_evo_result_id"@, id)
                &&& array_answered(old(self).instance(), "occt_get_evo_modified"@, "occt_get_evo_modified_len"@, a)
                &&& array_answered(old(self).instance(), "occt_get_evo_generated"@, "occt_get_evo_generated_len"@, b)
                &&& array_answered(old(self).instance(), "occt_get_evo_deleted"@, "occt_get_evo_deleted_len"@, c)
                &&& #[trigger] evolution_read(final(self).memory(), id, a, b, c, r)
            },
    {
        let result_id = self.call_i32(EVOLUTION)?;
        proof {
            lemma_i32_u32_i32(result_id);
        }
        let a = self.bound_array(EVOLUTION + 1)?;
        let b = self.bound_array(EVOLUTION + 3)?;
        let c = self.bound_array(EVOLUTION + 5)?;
        self.read_evolution_at(result_id as u32, a, b, c)
    }

    /// Read a projection data result, through accessors looked up now:
    /// `MissingCapability` where the module lacks one.
    pub fn read_projection_result(&mut self) -> (r: OcctResult<ProjectionData>)
        requires
            old(self).wf(),
        ensures
            final(self).wf(),
            final(self).same_kernel(old(self)),
            r matches Ok(p) ==> {
                &&& answered_u32(old(self).instance(), "occt_get_proj_visible_outline"@, p.visible_outline.0)
                &&& answered_u32(old(self).instance(), "occt_get_proj_visible_smooth"@, p.visible_smooth.0)
                &&& answered_u32(old(self).instance(), "occt_get_proj_visible_sharp"@, p.visible_sharp.0)
                &&& answered_u32(old(self).instance(), "occt_get_proj_hidden_outline"@, p.hidden_outline.0)
                &&& answered_u32(old(self).instance(), "occt_get_proj_hidden_smooth"@, p.hidden_smooth.0)
                &&& answered_u32(old(self).instance(), "occt_get_proj_hidden_sharp"@, p.hidden_sharp.0)
            },
            r matches Err(e) ==> lazy_failed(old(self).instance(), projection_accessors(), e),
    {
        let visible_outline = ShapeHandle(self.accessor_u32("occt_get_proj_visible_outline")?);
        let visible_smooth = ShapeHandle(self.accessor_u32("occt_get_proj_visible_smooth")?);
        let visible_sharp = ShapeHandle(self.accessor_u32("occt_get_proj_visible_sharp")?);
        let hidden_outline = ShapeHandle(self.accessor_u32("occt_get_proj_hidden_outline")?);
        let hidden_smooth = ShapeHandle(self.accessor_u32("occt_get_proj_hidden_smooth")?);
        let hidden_sharp = ShapeHandle(self.accessor_u32("occt_get_proj_hidden_sharp")?);
        Ok(ProjectionData { visible_outline, visible_smooth, visible_sharp, hidden_outline, hidden_smooth, hidden_sharp })
    }

    /// Read a label info result, through accessors looked up now; the
    /// colour channels are `f64` bit patterns, and a name that is not UTF-8
    /// is a `Memory` error, after which no further accessor is called.
    pub fn read_label_info_result(&mut self) -> (r: OcctResult<RawLabelInfo>)
        requires
            old(self).wf(),
        ensures
            final(self).wf(),
            final(self).same_kernel(old(self)),
            r matches Ok(info) ==> {
                &&& answered(old(self).instance(), "occt_get_label_info_label_id"@, WasmValue::I32(info.label_id))
                &&& exists|a: ArrayAt|
                    #[trigger] array_answered(old(self).instance(), "occt_get_label_info_name"@, "occt_get_label_info_name_len"@, a)
                    && text_seen(old(self).memory_handle(), a.ptr, a.count, info.name@)
                &&& answered_flag(old(self).instance(), "occt_get_label_info_has_color"@, info.has_color)
                &&& answered(old(self).instance(), "occt_get_label_info_r"@, WasmValue::F64(info.r))
                &&& answered(old(self).instance(), "occt_get_label_info_g"@, WasmValue::F64(info.g))
                &&& answered(old(self).instance(), "occt_get_label_info_b"@, WasmValue::F64(info.b))
                &&& answered_flag(old(self).instance(), "occt_get_label_info_is_assembly"@, info.is_assembly)
                &&& answered_flag(old(self).instance(), "occt_get_label_info_is_component"@, info.is_component)
                &&& answered_u32(old(self).instance(), "occt_get_label_info_shape_id"@, info.shape_id)
            },
            r matches Err(e) ==> lazy_failed(old(self).instance(), label_info_accessors(), e) || exists|a: ArrayAt|
                #[trigger] array_answered(old(self).instance(), "occt_get_label_info_name"@, "occt_get_label_info_name_len"@, a)
                && text_refused(old(self).memory_handle(), a.ptr, a.count, e),
            r matches Err(e) && e is Memory ==> calls_of(
                old(self).instance(),
                old(self).calls(),
                final(self).calls(),
                seq!["occt_get_label_info_label_id"@, "occt_get_label_info_name"@, "occt_get_label_info_name_len"@],
            ),
    {
        let label_id = self.accessor_i32("occt_get_label_info_label_id")?;
        let ghost mid = self.calls();
        let at = self.accessor_array("occt_get_label_info_name", "occt_get_label_info_name_len")?;
        proof {
            lemma_calls_of_trans(
                old(self).instance(),
                old(self).calls(),
                mid,
                self.calls(),
                seq!["occt_get_label_info_label_id"@],
                seq!["occt_get_label_info_name"@, "occt_get_label_info_name_len"@],
            );
            assert(seq!["occt_get_label_info_label_id"@] + seq!["occt_get_label_info_name"@, "occt_get_label_info_name_len"@]
                =~= seq!["occt_get_label_info_label_id"@, "occt_get_label_info_name"@, "occt_get_label_info_name_len"@]);
        }
        let name = self.read_text(at.ptr, at.count)?;
        let has_color = self.accessor_flag("occt_get_label_info_has_color")?;
        let r = self.accessor_f64("occt_get_label_info_r")?;
        let g = self.accessor_f64("occt_get_label_info_g")?;
        let b = self.accessor_f64("occt_get_label_info_b")?;
        let is_assembly = self.accessor_flag("occt_get_label_info_is_assembly")?;
        let is_component = self.accessor_flag("occt_get_label_info_is_component")?;
        let shape_id = self.accessor_u32("occt_get_label_info_shape_id")?;
        Ok(RawLabelInfo { label_id, name, has_color, r, g, b, is_assembly, is_component, shape_id })
    }
}

/// The names of the exports bound when the kernel is created, by index.
fn bound_export_names() -> (v: Vec<&'static str>)
    ensures
        strs_view(v@) == bound_exports(),
{
    let v = vec![
        "occt_alloc", "occt_free", "occt_has_error", "occt_get_error", "occt_get_error_len",
        "occt_get_string_result", "occt_get_string_result_len",
        "occt_get_vec_u32_result", "occt_get_vec_u32_result_len",
        "occt_get_vec_f64_result", "occt_get_vec_f64_result_len",
        "occt_get_vec_i32_result", "occt_get_vec_i32_result_len",
        "occt_get_bbox_xmin", "occt_get_bbox_ymin", "occt_get_bbox_zmin",
        "occt_get_bbox_xmax", "occt_get_bbox_ymax", "occt_get_bbox_zmax",
        "occt_get_mesh_positions", "occt_get_mesh_positions_len",
        "occt_get_mesh_normals", "occt_get_mesh_normals_len",
        "occt_get_mesh_indices", "occt_get_mesh_indices_len",
        "occt_get_mesh_face_groups", "occt_get_mesh_face_groups_len",
        "occt_get_mesh_batch_positions", "occt_get_mesh_batch_positions_len",
        "occt_get_mesh_batch_normals", "occt_get_mesh_batch_normals_len",
        "occt_get_mesh_batch_indices", "occt_get_mesh_batch_indices_len",
        "occt_get_mesh_batch_shape_offsets", "occt_get_mesh_batch_shape_count",
        "occt_get_edge_points", "occt_get_edge_points_len",
        "occt_get_edge_groups", "occt_get_edge_groups_len",
        "occt_get_nurbs_degree", "occt_get_nurbs_rational", "occt_get_nurbs_periodic",
        "occt_get_nurbs_knots", "occt_get_nurbs_knots_len",
        "occt_get_nurbs_multiplicities", "occt_get_nurbs_multiplicities_len",
        "occt_get_nurbs_poles", "occt_get_nurbs_poles_len",
        "occt_get_nurbs_weights", "occt_get_nurbs_weights_len",
        "occt_get_evo_result_id", "occt_get_evo_modified", "occt_get_evo_modified_len",
        "occt_get_evo_generated", "occt_get_evo_generated_len",
        "occt_get_evo_deleted", "occt_get_evo_deleted_len",
    ];
    assert(strs_view(v@) =~= bound_exports());
    v
}

/// The parameter and result kinds the bound export at `i` must have.
fn bound_signature(i: usize) -> (r: (Vec<ValueKind>, Vec<ValueKind>))
    ensures
        r.0@ == bound_params(i as int),
        r.1@ == bound_results(i as int),
{
    let params = if i == ALLOC || i == FREE { vec![ValueKind::I32] } else { Vec::new() };
    let results = if i == FREE {
        Vec::new()
    } else if BBOX <= i && i < BBOX + 6 {
        vec![ValueKind::F64]
    } else {
        vec![ValueKind::I32]
    };
    assert(params@ =~= bound_params(i as int));
    assert(results@ =~= bound_results(i as int));
    (params, results)
}

/// Whether two kind lists are equal.
fn kinds_eq(a: &Vec<ValueKind>, b: &Vec<ValueKind>) -> (r: bool)
    ensures
        r == (a@ == b@),
{
    if a.len() != b.len() {
        return false;
    }
    let mut i: usize = 0;
    while i < a.len()
        invariant
            a@.len() == b@.len(),
            i <= a@.len(),
            forall|k: int| 0 <= k < i ==> a@[k] == b@[k],
        decreases a@.len() - i,
    {
        if a[i] != b[i] {
            return false;
        }
        i = i + 1;
    }
    assert(a@ =~= b@);
    true
}

/// The export `name` of the instance as a function of the given type; or
/// `Err(true)` where the module exports no function by that name, and
/// `Err(false)` where it exports one of another type.
fn find_typed(
    instance: &Instance,
    store: &mut Store<()>,
    name: &str,
    params: &Vec<ValueKind>,
    results: &Vec<ValueKind>,
) -> (r: Result<Func, bool>)
    requires
        holds_instance(*old(store), *instance),
    ensures
        store_grows(*old(store), *final(store)),
        store_memories_unchanged(*old(store), *final(store)),
        deadline_kept(*old(store), *final(store)),
        calls_kept(*old(store), *final(store)),
        r matches Ok(f) ==> {
            &&& holds_func(*final(store), f)
            &&& func_is_export(f, *instance, name@)
            &&& func_params(*final(store), f) == params@
            &&& func_results(*final(store), f) == results@
            &&& module_func_export(instance_module(*instance), name@) == Some((params@, results@))
        },
        r matches Err(missing) ==> (missing <==> module_func_export(instance_module(*instance), name@) is None)
            && module_func_export(instance_module(*instance), name@) != Some((params@, results@)),
{
    let func = match instance_get_func(instance, store, name) {
        Some(f) => f,
        None => return Err(true),
    };
    let signature = func_signature(&func, store);
    if kinds_eq(&signature.params, params) && kinds_eq(&signature.results, results) {
        Ok(func)
    } else {
        Err(false)
    }
}

/// The export `name` of the instance as a function of the given type, or
/// the error the typed lookup reports: a missing export, or a type that
/// does not match.
fn lookup_typed(
    instance: &Instance,
    store: &mut Store<()>,
    name: &str,
    params: &Vec<ValueKind>,
    results: &Vec<ValueKind>,
) -> (r: OcctResult<Func>)
    requires
        holds_instance(*old(store), *instance),
    ensures
        store_grows(*old(store), *final(store)),
        store_memories_unchanged(*old(store), *final(store)),
        deadline_kept(*old(store), *final(store)),
        calls_kept(*old(store), *final(store)),
        r matches Ok(f) ==> {
            &&& holds_func(*final(store), f)
            &&& func_is_export(f, *instance, name@)
            &&& func_params(*final(store), f) == params@
            &&& func_results(*final(store), f) == results@
            &&& module_func_export(instance_module(*instance), name@) == Some((params@, results@))
        },
        r matches Err(e) ==> e is Runtime && module_func_export(instance_module(*instance), name@) != Some((params@, results@)),
{
    match find_typed(instance, store, name, params, results) {
        Ok(f) => Ok(f),
        Err(true) => Err(OcctError::Runtime(concat3("failed to find function export `", name, "`"))),
        Err(false) => Err(OcctError::Runtime(concat3("failed to convert function `", name, "` to given type"))),
    }
}

/// Bind every export the host calls through, in index order.
fn bind_exports(instance: &Instance, store: &mut Store<()>) -> (r: OcctResult<Vec<Func>>)
    requires
        holds_instance(*old(store), *instance),
    ensures
        store_grows(*old(store), *final(store)),
        store_memories_unchanged(*old(store), *final(store)),
        deadline_kept(*old(store), *final(store)),
        calls_kept(*old(store), *final(store)),
        r matches Ok(bound) ==> {
            &&& bound_typed(*final(store), bound@)
            &&& forall|i: int| 0 <= i < BOUND_COUNT ==> #[trigger] func_is_export(bound@[i], *instance, bound_exports()[i])
            &&& forall|i: int| 0 <= i < BOUND_COUNT ==> #[trigger] module_func_export(instance_module(*instance), bound_exports()[i])
                == Some((bound_params(i), bound_results(i)))
        },
        r matches Err(e) ==> e is Runtime && exists|k: int| 0 <= k < BOUND_COUNT
            && #[trigger] module_func_export(instance_module(*instance), bound_exports()[k]) != Some((bound_params(k), bound_results(k))),
{
    let names = bound_export_names();
    assert(bound_exports().len() == BOUND_COUNT);
    assert(names@.len() == strs_view(names@).len());
    let ghost start = *old(store);
    let mut bound: Vec<Func> = Vec::new();
    let mut i: usize = 0;
    while i < BOUND_COUNT
        invariant
            i <= BOUND_COUNT,
            names@.len() == BOUND_COUNT,
            strs_view(names@) == bound_exports(),
            bound@.len() == i,
            holds_instance(*store, *instance),
            start == *old(store),
            store_grows(start, *store),
            store_memories_unchanged(start, *store),
            deadline_kept(start, *store),
            calls_kept(start, *store),
            forall|k: int| 0 <= k < i ==> {
                &&& #[trigger] holds_func(*store, bound@[k])
                &&& func_params(*store, bound@[k]) == bound_params(k)
                &&& func_results(*store, bound@[k]) == bound_results(k)
                &&& func_is_export(bound@[k], *instance, bound_exports()[k])
                &&& module_func_export(instance_module(*instance), bound_exports()[k]) == Some((bound_params(k), bound_results(k)))
            },
        decreases BOUND_COUNT - i,
    {
        let (params, results) = bound_signature(i);
        let ghost before = *store;
        assert(strs_view(names@)[i as int] == names@[i as int]@);
        let looked_up = lookup_typed(instance, store, names[i], &params, &results);
        proof {
            lemma_store_grows_trans(start, before, *store);
            lemma_memories_unchanged_trans(start, before, *store);
            assert(holds_instance(before, *instance));
        }
        let func = match looked_up {
            Ok(f) => f,
            Err(e) => {
                assert(names@[i as int]@ == bound_exports()[i as int]);
                return Err(e);
            },
        };
        let ghost prev = bound@;
        bound.push(func);
        proof {
            assert(names@[i as int]@ == bound_exports()[i as int]);
            assert forall|k: int| 0 <= k < i + 1 implies {
                &&& #[trigger] holds_func(*store, bound@[k])
                &&& func_params(*store, bound@[k]) == bound_params(k)
                &&& func_results(*store, bound@[k]) == bound_results(k)
                &&& func_is_export(bound@[k], *instance, bound_exports()[k])
                &&& module_func_export(instance_module(*instance), bound_exports()[k]) == Some((bound_params(k), bound_results(k)))
            } by {
                if k < i {
                    assert(bound@[k] == prev[k]);
                    assert(holds_func(before, prev[k]));
                }
            }
        }
        i = i + 1;
    }
    proof {
        assert forall|k: int| 0 <= k < BOUND_COUNT implies #[trigger] func_is_export(bound@[k], *instance, bound_exports()[k]) by {
            assert(holds_func(*store, bound@[k]));
        }
        assert forall|k: int| 0 <= k < BOUND_COUNT implies #[trigger] module_func_export(instance_module(*instance), bound_exports()[k])
            == Some((bound_params(k), bound_results(k))) by {
            assert(holds_func(*store, bound@[k]));
        }
    }
    Ok(bound)
}

/// The ticks a deadline request arms: the request, at most
/// `MAX_DEADLINE_TICKS`.
pub open spec fn armed_ticks(ticks: u64) -> u64 {
    if ticks > MAX_DEADLINE_TICKS { MAX_DEADLINE_TICKS } else { ticks }
}

/// The settings the kernel's engine needs: SIMD, tail calls, exception
/// handling and epoch interruption, all on.
pub open spec fn kernel_settings(c: Config) -> bool {
    &&& config_simd(c)
    &&& config_tail_call(c)
    &&& config_exceptions(c)
    &&& config_epoch_interruption_on(c)
}

/// The wasmtime configuration of the kernel: SIMD, tail calls, exception
/// handling (the module uses the exnref encoding) and epoch interruption,
/// so that a host can stop a runaway operation by ticking the engine.
fn engine_config() -> (c: Config)
    ensures
        kernel_settings(c),
{
    let mut config = config_new();
    config_wasm_simd(&mut config, true);
    config_wasm_tail_call(&mut config, true);
    config_wasm_exceptions(&mut config, true);
    config_epoch_interruption(&mut config, true);
    config
}

/// A `Runtime` error carrying the runtime's message.
fn runtime_error(e: wasmtime::Error) -> (r: OcctError)
    ensures
        r matches OcctError::Runtime(m) && m@ == crate::runtime::error_text(e),
{
    OcctError::Runtime(error_message(&e))
}

/// What a successful load of `module` on `engine` establishes of the kernel
/// `k`: it runs on the engine, instantiates the module, which exports its
/// memory, every bound export with its type and, where it exports
/// `_initialize`, one of type `() -> ()` that ran to completion; and
/// `occt_init` answered 0, after `_initialize` and with no other call
/// before it.
pub open spec fn loaded(k: OcctKernel, engine: Engine, module: Module) -> bool {
    &&& k.wf()
    &&& k.engine() == engine
    &&& k.module() == module
    &&& module_memory_export(module, "memory"@)
    &&& forall|i: int| 0 <= i < BOUND_COUNT ==> #[trigger] module_func_export(module, bound_exports()[i])
        == Some((bound_params(i), bound_results(i)))
    &&& module_func_export(module, "_initialize"@) is Some ==> {
        &&& module_func_export(module, "_initialize"@) == Some((Seq::<ValueKind>::empty(), Seq::<ValueKind>::empty()))
        &&& export_answered(k.instance(), "_initialize"@, Seq::empty(), Seq::empty())
    }
    &&& answered(k.instance(), "occt_init"@, WasmValue::I32(0))
    &&& initialized_in_order(k)
}

/// The calls made in the kernel's store are, in order: the module's
/// `_initialize`, where it exports one, then `occt_init`, once each and
/// without arguments.
pub open spec fn initialized_in_order(k: OcctKernel) -> bool {
    let c = k.calls();
    let init_last = c.len() >= 1 && func_is_export(c.last().0, k.instance(), "occt_init"@) && c.last().1 == Seq::<i32>::empty();
    if module_func_export(k.module(), "_initialize"@) is Some {
        &&& c.len() == 2
        &&& func_is_export(c[0].0, k.instance(), "_initialize"@)
        &&& c[0].1 == Seq::<i32>::empty()
        &&& init_last
    } else {
        c.len() == 1 && init_last
    }
}

/// The runtime refused the module before any of its exports was looked
/// up, with `e`: defining the host imports failed, or instantiation did.
pub open spec fn instantiation_refused(module: Module, e: OcctError) -> bool {
    ||| host_imports_refused(Map::empty(), module_import_names(module), e)
    ||| e matches OcctError::Runtime(m) && exists|x: wasmtime::Error| #[trigger] instantiate_refused(module, x) && m@ == error_text(x)
}

/// The runtime refused loading the module with `e`, for one of the named
/// reasons: before any export was looked up; `_initialize` exported with
/// another type than `() -> ()`, or failing; `occt_init` missing, of
/// another type than `() -> i32`, or failing; or a bound export missing or
/// of another type.
pub open spec fn load_refused(module: Module, e: OcctError) -> bool {
    ||| instantiation_refused(module, e)
    ||| e is Runtime && module_func_export(module, "_initialize"@) is Some
        && module_func_export(module, "_initialize"@) != Some((Seq::<ValueKind>::empty(), Seq::<ValueKind>::empty()))
    ||| e is Runtime && exists|i: Instance| instance_module(i) == module && #[trigger] failed(i, "_initialize"@, Seq::empty())
    ||| e is Runtime && module_func_export(module, "occt_init"@) != Some((Seq::<ValueKind>::empty(), seq![ValueKind::I32]))
    ||| e is Runtime && exists|i: Instance| instance_module(i) == module && #[trigger] failed(i, "occt_init"@, Seq::empty())
    ||| e is Runtime && exists|k: int| 0 <= k < BOUND_COUNT
        && #[trigger] module_func_export(module, bound_exports()[k]) != Some((bound_params(k), bound_results(k)))
}

/// Why loading `module` failed with `e`: the runtime refused it for a
/// named reason; the module exports no memory; or `occt_init` answered
/// nonzero.
pub open spec fn load_failed(module: Module, e: OcctError) -> bool {
    ||| load_refused(module, e)
    ||| is_memory_error(e, "no memory export"@) && !module_memory_export(module, "memory"@)
    ||| is_memory_error(e, "occt_init failed"@) && module_memory_export(module, "memory"@)
        && exists|i: Instance, x: i32| instance_module(i) == module && x != 0
            && #[trigger] export_answered(i, "occt_init"@, Seq::empty(), seq![WasmValue::I32(x)])
}

/// The runtime refused to make an engine with the kernel's settings, with
/// `e`.
pub open spec fn engine_unavailable(e: OcctError) -> bool {
    e matches OcctError::Runtime(m) && exists|c: Config, x: wasmtime::Error|
        kernel_settings(c) && #[trigger] engine_refused(c, x) && m@ == error_text(x)
}

/// What loading the module bytes `bytes` on a fresh engine gives: a kernel
/// that loaded the module compiled from them, on an engine with the
/// kernel's settings; or the engine refused; or compiling the bytes was
/// refused; or the load of the compiled module failed, with the memory
/// error where the module exports no memory and the runtime did not refuse
/// it first.
pub open spec fn bytes_load_outcome(bytes: Seq<u8>, r: OcctResult<OcctKernel>) -> bool {
    match r {
        Ok(k) => loaded(k, k.engine(), k.module()) && module_compiled_from(k.module(), bytes)
            && kernel_settings(engine_settings(k.engine())),
        Err(e) => {
            ||| engine_unavailable(e)
            ||| e matches OcctError::Runtime(m) && exists|x: wasmtime::Error| #[trigger] compile_refused(bytes, x) && m@ == error_text(x)
            ||| exists|m: Module| #[trigger] module_compiled_from(m, bytes) && load_failed(m, e)
                && (!module_memory_export(m, "memory"@) ==> is_memory_error(e, "no memory export"@)
                    || instantiation_refused(m, e))
        },
    }
}

/// What loading the brotli-compressed module bytes `compressed` gives: a
/// `Memory` error naming the decompressor's failure, or what loading the
/// decompressed bytes gives.
pub open spec fn compressed_load_outcome(compressed: Seq<u8>, r: OcctResult<OcctKernel>) -> bool {
    match brotli_decompressed(compressed) {
        Ok(d) => bytes_load_outcome(d, r),
        Err(m) => r matches Err(e) && is_memory_error(e, "brotli decompression failed: "@ + m),
    }
}

/// Loading brotli-compressed bytes has the outcome of loading the bytes
/// they decompress to.
pub proof fn law_compressed_loads_as_decompressed(compressed: Seq<u8>, r: OcctResult<OcctKernel>)
    requires
        brotli_decompressed(compressed) is Ok,
    ensures
        compressed_load_outcome(compressed, r) == bytes_load_outcome(brotli_decompressed(compressed)->Ok_0, r),
{
}

/// The kernel's memory, from what looking up the export `"memory"` found:
/// a `Memory` error where the module exports none.
pub fn exported_memory(found: Option<Memory>) -> (r: OcctResult<Memory>)
    ensures
        found matches Some(m) ==> (r matches Ok(x) && x == m),
        found is None ==> (r matches Err(e) && is_memory_error(e, "no memory export"@)),
{
    match found {
        Some(m) => Ok(m),
        None => Err(OcctError::Memory("no memory export".to_owned())),
    }
}

/// Whether an exported `_initialize` with these parameter and result kinds
/// can be run: only with none of either.
pub fn initializer_check(params: &Vec<ValueKind>, results: &Vec<ValueKind>) -> (r: OcctResult<()>)
    ensures
        r is Ok <==> params@.len() == 0 && results@.len() == 0,
        params@.len() != 0 ==> (r matches Err(OcctError::Runtime(m)) && m@ == "type mismatch with parameters"@),
        params@.len() == 0 && results@.len() != 0 ==> (r matches Err(OcctError::Runtime(m))
            && m@ == "type mismatch with results"@),
{
    if params.len() != 0 {
        return Err(OcctError::Runtime("type mismatch with parameters".to_owned()));
    }
    if results.len() != 0 {
        return Err(OcctError::Runtime("type mismatch with results".to_owned()));
    }
    Ok(())
}

/// What the status `occt_init` answered gives: 0 is success, anything
/// else a `Memory` error.
pub fn init_outcome(status: WasmValue) -> (r: OcctResult<()>)
    ensures
        r is Ok <==> status == WasmValue::I32(0),
        r matches Err(e) ==> is_memory_error(e, "occt_init failed"@),
{
    if status != WasmValue::I32(0) {
        return Err(OcctError::Memory("occt_init failed".to_owned()));
    }
    Ok(())
}

/// What precompiling `bytes` gives: an artifact in wasmtime's serialized
/// form, an ELF image; or the engine refused; or precompiling the bytes
/// was refused.
pub open spec fn precompile_outcome(bytes: Seq<u8>, r: OcctResult<Vec<u8>>) -> bool {
    match r {
        Ok(a) => elf_image(a@),
        Err(e) => engine_unavailable(e) || (e matches OcctError::Runtime(m) && exists|x: wasmtime::Error|
            #[trigger] precompile_refused(bytes, x) && m@ == error_text(x)),
    }
}

/// The bytes open with the WebAssembly binary magic number, `\0asm`.
pub open spec fn wasm_binary(b: Seq<u8>) -> bool {
    b.len() >= 4 && b[0] == 0x00 && b[1] == 0x61 && b[2] == 0x73 && b[3] == 0x6d
}

/// Precompiling never hands back a binary module's own bytes, or any
/// binary module: what comes back is an ELF image, which no WebAssembly
/// binary is.
pub proof fn law_precompiling_yields_an_artifact_not_a_module(bytes: Seq<u8>, r: OcctResult<Vec<u8>>)
    requires
        precompile_outcome(bytes, r),
    ensures
        r matches Ok(a) ==> elf_image(a@) && !wasm_binary(a@),
        wasm_binary(bytes) ==> (r matches Ok(a) ==> a@ != bytes),
{
}

impl OcctKernel {
    /// A wasmtime engine configured as the kernel's, to compile or load
    /// modules for it.
    pub fn new_engine() -> (r: OcctResult<Engine>)
        ensures
            r matches Ok(e) ==> kernel_settings(engine_settings(e)),
            r matches Err(e) ==> engine_unavailable(e),
    {
        let config = engine_config();
        match engine_new(&config) {
            Ok(engine) => Ok(engine),
            Err(e) => Err(runtime_error(e)),
        }
    }

    /// Create a kernel from uncompressed WASM module bytes, compiled on an
    /// engine configured as the kernel's.
    pub fn from_module_bytes(wasm_bytes: &[u8]) -> (r: OcctResult<OcctKernel>)
        ensures
            bytes_load_outcome(wasm_bytes@, r),
    {
        let engine = Self::new_engine()?;
        let module = match module_new(&engine, wasm_bytes) {
            Ok(m) => m,
            Err(e) => return Err(runtime_error(e)),
        };
        let r = Self::from_module(&engine, &module);
        proof {
            if r is Ok {
                let k = r->Ok_0;
                assert(k.engine() == engine);
            }
        }
        r
    }

    /// Ahead-of-time compile module bytes into wasmtime's serialized form,
    /// for an engine configured as the kernel's.
    pub fn precompile_module(wasm_bytes: &[u8]) -> (r: OcctResult<Vec<u8>>)
        ensures
            precompile_outcome(wasm_bytes@, r),
    {
        let engine = Self::new_engine()?;
        match engine_precompile_module(&engine, wasm_bytes) {
            Ok(artifact) => Ok(artifact),
            Err(e) => Err(runtime_error(e)),
        }
    }

    /// Instantiate a compiled module and initialize the OCCT runtime: run
    /// the module's static constructors (`_initialize`, where it exports
    /// one), call `occt_init`, which must answer 0, and bind the lifecycle
    /// exports and the core result accessors. A module without a memory
    /// export is refused before `_initialize` or `occt_init` runs. A module
    /// compiled for another engine must need no stub import: defining one
    /// panics.
    pub fn from_module(engine: &Engine, module: &Module) -> (r: OcctResult<OcctKernel>)
        requires
            module_engine(*module) == *engine || stubbed_imports(module_import_names(*module)).is_empty(),
        ensures
            r matches Ok(k) ==> loaded(k, *engine, *module),
            r matches Ok(k) ==> exists|now: u64| #[trigger] epoch_read(*engine, now)
                && k.deadline() == now + MAX_DEADLINE_TICKS,
            r matches Err(e) ==> load_failed(*module, e),
            !module_memory_export(*module, "memory"@) ==> (r matches Err(e) && (is_memory_error(e, "no memory export"@)
                || instantiation_refused(*module, e))),
    {
        let mut store = store_new(engine);
        // An effectively infinite deadline: epoch interruption only bites
        // when a host arms `set_epoch_deadline` and ticks the engine.
        store_set_epoch_deadline(&mut store, MAX_DEADLINE_TICKS);
        let mut linker = linker_new(engine);
        proof {
            assert(linker_defines(linker) =~= Map::empty());
        }
        define_host_imports(&mut linker, module)?;
        let instance = match linker_instantiate(&linker, &mut store, module) {
            Ok(i) => i,
            Err(e) => return Err(runtime_error(e)),
        };
        let ghost s1 = store;
        let memory = exported_memory(instance_get_memory(&instance, &mut store, "memory"))?;
        assert(holds_instance(s1, instance));
        let ghost s2 = store;
        let initialize = instance_get_func(&instance, &mut store, "_initialize");
        assert(holds_instance(s2, instance) && holds_memory(s2, memory));
        let ghost mut first: Seq<(Func, Seq<i32>)> = Seq::empty();
        assert(store_calls(store) =~= first);
        if let Some(initialize) = initialize {
            let ghost s3 = store;
            let signature = func_signature(&initialize, &store);
            initializer_check(&signature.params, &signature.results)?;
            let no_args: Vec<i32> = Vec::new();
            match func_call(&initialize, &mut store, no_args.as_slice(), 0) {
                Ok(values) => {
                    assert(values@ =~= Seq::<WasmValue>::empty());
                    assert(signature.params@ =~= Seq::<ValueKind>::empty());
                    assert(signature.results@ =~= Seq::<ValueKind>::empty());
                    proof {
                        first = seq![(initialize, Seq::<i32>::empty())];
                        assert(store_calls(store) =~= first);
                    }
                },
                Err(e) => {
                    assert(failed(instance, "_initialize"@, Seq::empty()));
                    return Err(runtime_error(e));
                },
            }
            assert(holds_instance(s3, instance) && holds_memory(s3, memory));
        }
        let ghost s4 = store;
        let unit: Vec<ValueKind> = Vec::new();
        let one = vec![ValueKind::I32];
        assert(one@ =~= seq![ValueKind::I32]);
        assert(unit@ =~= Seq::<ValueKind>::empty());
        let init = lookup_typed(&instance, &mut store, "occt_init", &unit, &one)?;
        assert(holds_instance(s4, instance) && holds_memory(s4, memory));
        let ghost s5 = store;
        let no_args: Vec<i32> = Vec::new();
        let status = match func_call(&init, &mut store, no_args.as_slice(), 1) {
            Ok(values) => {
                assert(values@ =~= seq![values@[0]]);
                values[0]
            },
            Err(e) => {
                assert(failed(instance, "occt_init"@, Seq::empty()));
                return Err(runtime_error(e));
            },
        };
        assert(holds_instance(s5, instance) && holds_memory(s5, memory));
        assert(store_calls(store) =~= first.push((init, Seq::<i32>::empty())));
        proof {
            assert(crate::runtime::answers_kind(status, ValueKind::I32));
            if let WasmValue::I32(x) = status {
                assert(export_answered(instance, "occt_init"@, Seq::empty(), seq![WasmValue::I32(x)]));
            }
        }
        init_outcome(status)?;
        let ghost before_bind = store;
        let bound = bind_exports(&instance, &mut store)?;
        assert(holds_instance(before_bind, instance) && holds_memory(before_bind, memory));
        assert(holds_instance(store, instance) && holds_memory(store, memory));
        let kernel = OcctKernel { store, instance, memory, bound };
        assert(kernel.wf());
        Ok(kernel)
    }

    /// Create a kernel from brotli-compressed module bytes, the format the
    /// kernel blob ships in.
    pub fn from_compressed_module_bytes(compressed: &[u8]) -> (r: OcctResult<OcctKernel>)
        ensures
            compressed_load_outcome(compressed@, r),
    {
        Self::from_decompressed(brotli_decompress(compressed))
    }

    /// Create a kernel from the outcome of decompressing a module: a
    /// decompression failure is a `Memory` error naming it, decompressed
    /// bytes are loaded as a module.
    pub fn from_decompressed(outcome: Result<Vec<u8>, String>) -> (r: OcctResult<OcctKernel>)
        ensures
            outcome matches Err(m) ==> (r matches Err(e) && is_memory_error(e, "brotli decompression failed: "@ + m@)),
            outcome matches Ok(b) ==> bytes_load_outcome(b@, r),
    {
        match outcome {
            Ok(bytes) => Self::from_module_bytes(bytes.as_slice()),
            Err(message) => {
                proof {
                    reveal_strlit("");
                }
                Err(OcctError::Memory(concat3("brotli decompression failed: ", message.as_str(), "")))
            },
        }
    }

    /// Arm the epoch kill switch: the current operation traps once the
    /// engine's epoch advances `ticks_from_now` past its current value. A
    /// count above `MAX_DEADLINE_TICKS` (2^63 - 1 ticks, which no ticker
    /// reaches) is armed as `MAX_DEADLINE_TICKS`, so the deadline never
    /// overflows.
    pub fn set_epoch_deadline(&mut self, ticks_from_now: u64)
        requires
            old(self).wf(),
        ensures
            final(self).wf(),
            final(self).same_kernel(old(self)),
            final(self).memory() == old(self).memory(),
            exists|now: u64| #[trigger] epoch_read(old(self).engine(), now)
                && final(self).deadline() == now + armed_ticks(ticks_from_now),
    {
        let ticks = if ticks_from_now > MAX_DEADLINE_TICKS { MAX_DEADLINE_TICKS } else { ticks_from_now };
        let ghost before = self.store;
        store_set_epoch_deadline(&mut self.store, ticks);
        proof {
            lemma_bound_typed_kept(before, self.store, self.bound@);
            let now = choose|now: u64| #[trigger] epoch_read(store_engine_of(before), now)
                && epoch_deadline(self.store) == now + ticks;
            assert(epoch_read(old(self).engine(), now));
        }
    }

    /// A handle to the kernel's engine, for an epoch-ticker thread.
    pub fn engine_handle(&self) -> (e: Engine)
        ensures
            e == self.engine(),
    {
        store_engine(&self.store)
    }
}

/// One of the exports the BREP IR lift reads its answer through.
pub open spec fn brep_accessor(n: Seq<char>) -> bool {
    ||| n == "occt_rmesh_ir_error"@
    ||| n == "occt_rmesh_ir_error_len"@
    ||| n == "occt_rmesh_ir_u32"@
    ||| n == "occt_rmesh_ir_u32_len"@
    ||| n == "occt_rmesh_ir_f64"@
    ||| n == "occt_rmesh_ir_f64_len"@
}

impl OcctKernel {


    /// The export `name` as a function of the given type.
    fn lookup(&mut self, name: &str, params: &Vec<ValueKind>, results: &Vec<ValueKind>) -> (r: OcctResult<Func>)
        requires
            old(self).wf(),
        ensures
            final(self).wf(),
            final(self).same_kernel(old(self)),
            final(self).memory() == old(self).memory(),
            store_grows(old(self).store, final(self).store),
            r matches Ok(f) ==> {
                &&& holds_func(final(self).store, f)
                &&& func_is_export(f, old(self).instance(), name@)
                &&& func_params(final(self).store, f) == params@
                &&& func_results(final(self).store, f) == results@
                &&& module_func_export(old(self).module(), name@) == Some((params@, results@))
            },
            r matches Err(e) ==> e is Runtime && module_func_export(old(self).module(), name@) != Some((params@, results@)),
    {
        let ghost before = self.store;
        let r = lookup_typed(&self.instance, &mut self.store, name, params, results);
        proof {
            lemma_bound_typed_kept(before, self.store, self.bound@);
            assert(holds_memory(before, self.memory));
        }
        r
    }

    /// Call a looked-up function that answers one `i32`.
    fn call_func_i32(&mut self, func: &Func, args: &[i32]) -> (r: OcctResult<i32>)
        requires
            old(self).wf(),
            holds_func(old(self).store, *func),
            func_params(old(self).store, *func).len() == args@.len(),
            func_results(old(self).store, *func) == seq![ValueKind::I32],
        ensures
            final(self).wf(),
            final(self).same_kernel(old(self)),
            store_grows(old(self).store, final(self).store),
            r matches Ok(x) ==> func_answered(*func, args@, seq![WasmValue::I32(x)]),
            r matches Err(e) ==> e is Runtime && exists|e2: wasmtime::Error| func_failed(*func, args@, e2),
    {
        match self.call_one(func, args, ValueKind::I32) {
            Ok(WasmValue::I32(x)) => Ok(x),
            Ok(_) => Err(OcctError::Runtime("unexpected result type".to_owned())),
            Err(e) => Err(e),
        }
    }

    /// Fetch the IR streams of a shape, the IR-native BREP lift: the `u32`
    /// topology stream and the `f64` geometry stream (as bit patterns).
    /// The lift's exports are resolved on each call, so a module built
    /// without them fails here and not at instantiation. A nonzero status
    /// from `occt_to_brep_ir` is an `Operation` error with the lift's
    /// message, and the stream accessors are not called then.
    pub fn to_brep_ir(&mut self, id: ShapeHandle) -> (r: OcctResult<(Vec<u32>, Vec<u64>)>)
        requires
            old(self).wf(),
        ensures
            final(self).wf(),
            final(self).same_kernel(old(self)),
            brep_outcome(old(self).instance(), final(self).memory(), id.0, r),
    {
        let unit: Vec<ValueKind> = Vec::new();
        let one = vec![ValueKind::I32];
        assert(one@ =~= seq![ValueKind::I32]);
        let run = match self.lookup("occt_to_brep_ir", &one, &one) {
            Ok(f) => f,
            Err(e) => return Err(e),
        };
        #[verifier::truncate]
        let arg = id.0 as i32;
        let args: Vec<i32> = vec![arg];
        assert(args@ =~= seq![id.0 as i32]);
        let status = match self.call_func_i32(&run, args.as_slice()) {
            Ok(s) => s,
            Err(e) => return Err(e),
        };
        if status != 0 {
            let ptr = self.brep_step("occt_rmesh_ir_error", id.0)?;
            let len = self.brep_step("occt_rmesh_ir_error_len", id.0)?;
            proof {
                lemma_i32_u32_i32(len);
                assert(answered_with(old(self).instance(), "occt_to_brep_ir"@, seq![id.0 as i32], WasmValue::I32(status)));
                assert(answered(old(self).instance(), "occt_rmesh_ir_error"@, WasmValue::I32(ptr)));
                assert(answered_u32(old(self).instance(), "occt_rmesh_ir_error_len"@, len as u32));
            }
            return Err(self.brep_ir_error_at(ptr as u32, len as u32));
        }
        let topology_ptr = self.brep_step("occt_rmesh_ir_u32", id.0)?;
        let topology_len = self.brep_step("occt_rmesh_ir_u32_len", id.0)?;
        let geometry_ptr = self.brep_step("occt_rmesh_ir_f64", id.0)?;
        let geometry_len = self.brep_step("occt_rmesh_ir_f64_len", id.0)?;
        let topology = ArrayAt { ptr: topology_ptr as u32, count: topology_len as u32 };
        let geometry = ArrayAt { ptr: geometry_ptr as u32, count: geometry_len as u32 };
        proof {
            assert(answered_with(old(self).instance(), "occt_to_brep_ir"@, seq![id.0 as i32], WasmValue::I32(0)));
            assert(array_answered(old(self).instance(), "occt_rmesh_ir_u32"@, "occt_rmesh_ir_u32_len"@, topology));
            assert(array_answered(old(self).instance(), "occt_rmesh_ir_f64"@, "occt_rmesh_ir_f64_len"@, geometry));
        }
        self.read_brep_ir_at(topology, geometry)
    }

    /// One of the lift's accessors, its failure counted as the runtime
    /// refusing the lift of shape `id`.
    fn brep_step(&mut self, name: &str, id: u32) -> (r: OcctResult<i32>)
        requires
            old(self).wf(),
            brep_accessor(name@),
        ensures
            final(self).wf(),
            final(self).same_kernel(old(self)),
            r matches Ok(x) ==> answered(old(self).instance(), name@, WasmValue::I32(x)),
            r matches Err(e) ==> e is Runtime && brep_refused(old(self).instance(), id),
    {
        match self.brep_accessor_i32(name) {
            Ok(x) => Ok(x),
            Err(e) => {
                assert(brep_accessor(name@));
                Err(e)
            },
        }
    }

    /// Look up and call one of the lift's `() -> i32` accessors.
    fn brep_accessor_i32(&mut self, name: &str) -> (r: OcctResult<i32>)
        requires
            old(self).wf(),
            brep_accessor(name@),
        ensures
            final(self).wf(),
            final(self).same_kernel(old(self)),
            r matches Ok(x) ==> answered(old(self).instance(), name@, WasmValue::I32(x)),
            r matches Err(e) ==> e is Runtime && (module_func_export(old(self).module(), name@)
                != Some((Seq::<ValueKind>::empty(), seq![ValueKind::I32])) || failed(old(self).instance(), name@, Seq::empty())),
    {
        let unit: Vec<ValueKind> = Vec::new();
        let one = vec![ValueKind::I32];
        assert(one@ =~= seq![ValueKind::I32]);
        let f = self.lookup(name, &unit, &one)?;
        let no_args: Vec<i32> = Vec::new();
        let x = self.call_func_i32(&f, no_args.as_slice())?;
        Ok(x)
    }

    /// Best-effort cleanup: call `occt_destroy` when the module exports it
    /// with type `() -> ()`; a missing export or a failing call is ignored.
    pub fn destroy(&mut self)
        requires
            old(self).wf(),
        ensures
            final(self).wf(),
            final(self).same_kernel(old(self)),
            module_func_export(old(self).module(), "occt_destroy"@)
                == Some((Seq::<ValueKind>::empty(), Seq::<ValueKind>::empty())) ==> (
                export_answered(old(self).instance(), "occt_destroy"@, Seq::empty(), Seq::empty())
                    || failed(old(self).instance(), "occt_destroy"@, Seq::empty())),
    {
        let unit: Vec<ValueKind> = Vec::new();
        let ghost start = self.store;
        let found = find_typed(&self.instance, &mut self.store, "occt_destroy", &unit, &unit);
        proof {
            lemma_bound_typed_kept(start, self.store, self.bound@);
            assert(holds_memory(start, self.memory));
        }
        if let Ok(destroy) = found {
            let ghost before = self.store;
            let no_args: Vec<i32> = Vec::new();
            match func_call(&destroy, &mut self.store, no_args.as_slice(), 0) {
                Ok(values) => {
                    assert(values@ =~= Seq::<WasmValue>::empty());
                },
                Err(_) => {},
            }
            proof {
                lemma_bound_typed_kept(before, self.store, self.bound@);
                assert(holds_memory(before, self.memory));
                assert(holds_instance(before, self.instance));
            }
        }
    }
}

} // verus!
