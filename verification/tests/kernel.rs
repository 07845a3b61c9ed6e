use occt_wasm::error::OcctError;
use occt_wasm::kernel::{exported_memory, init_outcome, initializer_check, ArrayAt, OcctKernel};
use occt_wasm::runtime::{ValueKind, WasmValue};
use occt_wasm::types::ShapeHandle;

/// The accessor exports a kernel module must provide, with the WAT body
/// each answers in the test module.
fn accessors(has_error: i32) -> Vec<(String, String)> {
    let i = |v: i64| format!("(result i32) i32.const {v}");
    let f = |v: f64| format!("(result f64) f64.const {v}");
    let mut list: Vec<(&str, String)> = vec![
        ("occt_has_error", i(has_error as i64)),
        ("occt_get_error", i(256)),
        ("occt_get_error_len", i(14)),
        ("occt_get_string_result", i(64)),
        ("occt_get_string_result_len", i(5)),
        ("occt_get_vec_u32_result", i(128)),
        ("occt_get_vec_u32_result_len", i(3)),
        ("occt_get_vec_f64_result", i(512)),
        ("occt_get_vec_f64_result_len", i(1)),
        ("occt_get_vec_i32_result", i(128)),
        ("occt_get_vec_i32_result_len", i(3)),
        ("occt_get_bbox_xmin", f(0.0)),
        ("occt_get_bbox_ymin", f(1.0)),
        ("occt_get_bbox_zmin", f(2.0)),
        ("occt_get_bbox_xmax", f(3.0)),
        ("occt_get_bbox_ymax", f(4.0)),
        ("occt_get_bbox_zmax", f(5.0)),
        ("occt_get_mesh_positions", i(128)),
        ("occt_get_mesh_positions_len", i(3)),
        ("occt_get_mesh_normals", i(128)),
        ("occt_get_mesh_normals_len", i(2)),
        ("occt_get_mesh_indices", i(128)),
        ("occt_get_mesh_indices_len", i(1)),
        ("occt_get_mesh_face_groups", i(128)),
        ("occt_get_mesh_face_groups_len", i(3)),
        ("occt_get_mesh_batch_positions", i(128)),
        ("occt_get_mesh_batch_positions_len", i(3)),
        ("occt_get_mesh_batch_normals", i(128)),
        ("occt_get_mesh_batch_normals_len", i(3)),
        ("occt_get_mesh_batch_indices", i(128)),
        ("occt_get_mesh_batch_indices_len", i(3)),
        ("occt_get_mesh_batch_shape_offsets", i(128)),
        ("occt_get_mesh_batch_shape_count", i(1)),
        ("occt_get_edge_points", i(128)),
        ("occt_get_edge_points_len", i(2)),
        ("occt_get_edge_groups", i(128)),
        ("occt_get_edge_groups_len", i(3)),
        ("occt_get_nurbs_degree", i(3)),
        ("occt_get_nurbs_rational", i(1)),
        ("occt_get_nurbs_periodic", i(0)),
        ("occt_get_nurbs_knots", i(512)),
        ("occt_get_nurbs_knots_len", i(1)),
        ("occt_get_nurbs_multiplicities", i(128)),
        ("occt_get_nurbs_multiplicities_len", i(2)),
        ("occt_get_nurbs_poles", i(512)),
        ("occt_get_nurbs_poles_len", i(1)),
        ("occt_get_nurbs_weights", i(512)),
        ("occt_get_nurbs_weights_len", i(0)),
        ("occt_get_evo_result_id", i(7)),
        ("occt_get_evo_modified", i(128)),
        ("occt_get_evo_modified_len", i(3)),
        ("occt_get_evo_generated", i(128)),
        ("occt_get_evo_generated_len", i(0)),
        ("occt_get_evo_deleted", i(128)),
        ("occt_get_evo_deleted_len", i(1)),
        ("occt_get_proj_visible_outline", i(1)),
        ("occt_get_proj_visible_smooth", i(2)),
        ("occt_get_proj_visible_sharp", i(3)),
        ("occt_get_proj_hidden_outline", i(4)),
        ("occt_get_proj_hidden_smooth", i(5)),
        ("occt_get_proj_hidden_sharp", i(6)),
        ("occt_get_label_info_label_id", i(9)),
        ("occt_get_label_info_name", i(64)),
        ("occt_get_label_info_name_len", i(5)),
        ("occt_get_label_info_has_color", i(1)),
        ("occt_get_label_info_r", f(0.25)),
        ("occt_get_label_info_g", f(0.5)),
        ("occt_get_label_info_b", f(0.75)),
        ("occt_get_label_info_is_assembly", i(0)),
        ("occt_get_label_info_is_component", i(1)),
        ("occt_get_label_info_shape_id", i(11)),
    ];
    list.drain(..).map(|(n, b)| (n.to_string(), b)).collect()
}

/// A module that speaks the kernel's host protocol: a bump allocator, the
/// error protocol, the result accessors and the BREP IR lift, over fixed
/// data. `extra` is spliced into the module body; exports named in `omit`
/// are left out.
fn module_text(init_result: i32, has_error: i32, extra: &str, omit: &[&str]) -> String {
    let mut text = String::from("(module\n");
    text.push_str(extra);
    text.push_str(
        r#"
  (memory (export "memory") 1)
  (global $heap (mut i32) (i32.const 4096))
  (data (i32.const 64) "hello")
  (data (i32.const 128) "\01\00\00\00\02\00\00\00\ff\ff\ff\ff")
  (data (i32.const 256) "kernel failure")
  (data (i32.const 300) "\ff\fe")
  (data (i32.const 512) "\00\00\00\00\00\00\f0\3f")
  (func (export "occt_alloc") (param i32) (result i32)
    global.get $heap
    global.get $heap
    local.get 0
    i32.add
    global.set $heap)
  (func (export "occt_free") (param i32))
  (func (export "occt_destroy"))
  (func (export "occt_to_brep_ir") (param i32) (result i32)
    (if (result i32) (i32.eq (local.get 0) (i32.const 1))
      (then (i32.const 0))
      (else (i32.const 1))))
  (func (export "occt_rmesh_ir_error") (result i32) i32.const 256)
  (func (export "occt_rmesh_ir_error_len") (result i32) i32.const 14)
  (func (export "occt_rmesh_ir_u32") (result i32) i32.const 128)
  (func (export "occt_rmesh_ir_u32_len") (result i32) i32.const 3)
  (func (export "occt_rmesh_ir_f64") (result i32) i32.const 512)
  (func (export "occt_rmesh_ir_f64_len") (result i32) i32.const 1)
"#,
    );
    text.push_str(&format!(
        "  (func (export \"occt_init\") (result i32) i32.const {init_result})\n"
    ));
    for (name, body) in accessors(has_error) {
        if omit.contains(&name.as_str()) {
            continue;
        }
        text.push_str(&format!("  (func (export \"{name}\") {body})\n"));
    }
    text.push(')');
    text
}

/// An engine that reserves no address space beyond each memory's size, so
/// that the tests run where virtual memory is limited.
fn small_engine() -> wasmtime::Engine {
    let mut config = wasmtime::Config::new();
    config.memory_reservation(0);
    config.memory_guard_size(0);
    config.memory_reservation_for_growth(0);
    config.epoch_interruption(true);
    wasmtime::Engine::new(&config).unwrap()
}

/// Load a module given as text on the small engine.
fn load(text: &[u8]) -> Result<OcctKernel, OcctError> {
    let engine = small_engine();
    let module = wasmtime::Module::new(&engine, text).unwrap();
    OcctKernel::from_module(&engine, &module)
}

fn kernel() -> OcctKernel {
    load(module_text(0, 0, "", &[]).as_bytes()).expect("the test module loads")
}

fn memory_error(e: &OcctError) -> Option<&str> {
    match e {
        OcctError::Memory(m) => Some(m.as_str()),
        _ => None,
    }
}

#[test]
fn a_protocol_module_loads_and_its_results_read_back() {
    let mut k = kernel();
    assert_eq!(k.read_string_result().unwrap(), "hello");
    assert_eq!(k.read_vec_u32_result().unwrap(), vec![1, 2, u32::MAX]);
    assert_eq!(k.read_vec_i32_result().unwrap(), vec![1, 2, -1]);
    assert_eq!(k.read_vec_f64_result().unwrap(), vec![1.0f64.to_bits()]);
    assert!(k.check_error("anything").is_ok());
}

#[test]
fn written_bytes_read_back_at_the_returned_pointer() {
    let mut k = kernel();
    let data = b"shape bytes".to_vec();
    let ptr = k.write_bytes(&data).unwrap();
    assert_eq!(ptr, 4096);
    assert_eq!(k.read_bytes(ptr, data.len() as u32).unwrap(), data);
    let second = k.write_bytes(&[7, 8, 9]).unwrap();
    assert_eq!(second, 4096 + data.len() as u32);
    assert_eq!(k.read_bytes(second, 3).unwrap(), vec![7, 8, 9]);
    assert!(k.free_bytes(ptr).is_ok());
}

#[test]
fn a_write_past_the_end_of_memory_is_refused() {
    let mut k = kernel();
    let data = vec![0u8; 70_000];
    let e = k.write_bytes(&data).unwrap_err();
    assert_eq!(memory_error(&e), Some("write out of bounds"));
}

#[test]
fn reads_outside_memory_are_refused() {
    let k = kernel();
    assert_eq!(memory_error(&k.read_bytes(65_530, 10).unwrap_err()), Some("read out of bounds"));
    assert_eq!(k.read_bytes(65_530, 6).unwrap().len(), 6);
    assert_eq!(memory_error(&k.read_bytes(u32::MAX, 1).unwrap_err()), Some("read out of bounds"));
}

#[test]
fn typed_slices_decode_little_endian_words() {
    let k = kernel();
    assert_eq!(k.read_u32_slice(128, 3).unwrap(), vec![1, 2, 0xffff_ffff]);
    assert_eq!(k.read_i32_slice(128, 3).unwrap(), vec![1, 2, -1]);
    assert_eq!(k.read_f32_slice(128, 2).unwrap(), vec![1, 2]);
    assert_eq!(k.read_f64_slice(512, 1).unwrap(), vec![0x3ff0_0000_0000_0000]);
    assert_eq!(k.read_u32_slice(129, 1).unwrap(), vec![0x0200_0000]);
    assert_eq!(k.read_u32_slice(128, 0).unwrap(), Vec::<u32>::new());
    assert_eq!(memory_error(&k.read_u32_slice(65_532, 2).unwrap_err()), Some("read out of bounds"));
}

#[test]
fn words_laid_out_little_endian_read_back_as_words() {
    let mut k = kernel();
    let words = [0u32, 1, 0xdead_beef, u32::MAX];
    let bytes: Vec<u8> = words.iter().flat_map(|w| w.to_le_bytes()).collect();
    let ptr = k.write_bytes(&bytes).unwrap();
    assert_eq!(k.read_u32_slice(ptr, words.len() as u32).unwrap(), words.to_vec());
}

#[test]
fn element_counts_wrap_in_32_bit_arithmetic() {
    let k = kernel();
    // 0x4000_0001 words are 0x1_0000_0004 bytes, which wraps to 4.
    assert_eq!(k.read_u32_slice(128, 0x4000_0001).unwrap(), vec![1]);
    assert_eq!(k.read_f64_slice(512, 0x2000_0001).unwrap(), vec![0x3ff0_0000_0000_0000]);
}

#[test]
fn a_pending_error_becomes_an_operation_error() {
    let mut k = load(module_text(0, 1, "", &[]).as_bytes()).unwrap();
    match k.check_error("fuse") {
        Err(OcctError::Operation { operation, message }) => {
            assert_eq!(operation, "fuse");
            assert_eq!(message, "kernel failure");
        }
        other => panic!("expected an Operation error, got {other:?}"),
    }
}

#[test]
fn unreadable_error_text_is_unknown_error() {
    let k = kernel();
    assert_eq!(k.error_text_at(300, 2), "unknown error");
    assert_eq!(k.error_text_at(0, 5), "unknown error");
    assert_eq!(k.error_text_at(256, 0), "unknown error");
    assert_eq!(k.error_text_at(65_535, 5), "unknown error");
    assert_eq!(k.error_text_at(256, 6), "kernel");
}

#[test]
fn text_that_is_not_utf8_is_a_memory_error() {
    let k = kernel();
    assert_eq!(k.read_text(64, 5).unwrap(), "hello");
    let e = k.read_text(300, 2).unwrap_err();
    assert!(memory_error(&e).unwrap().contains("invalid utf-8"));
    assert_eq!(memory_error(&k.read_text(65_535, 2).unwrap_err()), Some("read out of bounds"));
}

#[test]
fn structured_results_read_every_field() {
    let mut k = kernel();
    let b = k.read_bbox_result().unwrap();
    assert_eq!(
        [b.xmin, b.ymin, b.zmin, b.xmax, b.ymax, b.zmax],
        [0.0f64, 1.0, 2.0, 3.0, 4.0, 5.0].map(f64::to_bits)
    );
    let m = k.read_mesh_result().unwrap();
    assert_eq!(m.positions, vec![1, 2, u32::MAX]);
    assert_eq!(m.normals, vec![1, 2]);
    assert_eq!(m.indices, vec![1]);
    assert_eq!(m.face_groups, vec![1, 2, -1]);
    let batch = k.read_mesh_batch_result().unwrap();
    assert_eq!(batch.shape_offsets, vec![1, 2, -1, 0]);
    let edges = k.read_edge_result().unwrap();
    assert_eq!(edges.points, vec![1, 2]);
    assert_eq!(edges.edge_groups, vec![1, 2, -1]);
    let nurbs = k.read_nurbs_result().unwrap();
    assert_eq!(nurbs.degree, 3);
    assert!(nurbs.rational && !nurbs.periodic);
    assert_eq!(nurbs.knots, vec![1.0f64.to_bits()]);
    assert_eq!(nurbs.multiplicities, vec![1, 2]);
    assert!(nurbs.weights.is_empty());
    let evo = k.read_evolution_result().unwrap();
    assert_eq!(evo.result_id, 7);
    assert_eq!(evo.modified, vec![1, 2, -1]);
    assert!(evo.generated.is_empty());
    assert_eq!(evo.deleted, vec![1]);
    let proj = k.read_projection_result().unwrap();
    assert_eq!(proj.visible_outline, ShapeHandle(1));
    assert_eq!(proj.hidden_sharp, ShapeHandle(6));
    let label = k.read_label_info_result().unwrap();
    assert_eq!(label.label_id, 9);
    assert_eq!(label.name, "hello");
    assert!(label.has_color && !label.is_assembly && label.is_component);
    assert_eq!([label.r, label.g, label.b], [0.25f64, 0.5, 0.75].map(f64::to_bits));
    assert_eq!(label.shape_id, 11);
}

#[test]
fn reads_at_explicit_places_follow_their_contract() {
    let k = kernel();
    let here = ArrayAt { ptr: 128, count: 3 };
    let outside = ArrayAt { ptr: 65_534, count: 3 };
    assert!(k.read_mesh_at(here, here, here, here).is_ok());
    let e = k.read_mesh_at(here, here, here, outside).unwrap_err();
    assert_eq!(memory_error(&e), Some("read out of bounds"));
    let e = k.read_edge_at(outside, here).unwrap_err();
    assert_eq!(memory_error(&e), Some("read out of bounds"));
    let ir = k.read_brep_ir_at(here, ArrayAt { ptr: 512, count: 1 }).unwrap();
    assert_eq!(ir, (vec![1, 2, u32::MAX], vec![1.0f64.to_bits()]));
}

#[test]
fn the_brep_ir_lift_returns_both_streams() {
    let mut k = kernel();
    let (topology, geometry) = k.to_brep_ir(ShapeHandle(1)).unwrap();
    assert_eq!(topology, vec![1, 2, u32::MAX]);
    assert_eq!(geometry, vec![1.0f64.to_bits()]);
}

#[test]
fn a_failed_brep_ir_lift_reports_its_message() {
    let mut k = kernel();
    match k.to_brep_ir(ShapeHandle(2)) {
        Err(OcctError::Operation { operation, message }) => {
            assert_eq!(operation, "to_brep_ir");
            assert_eq!(message, "kernel failure");
        }
        other => panic!("expected an Operation error, got {other:?}"),
    }
    let e = k.brep_ir_error_at(300, 2);
    match e {
        OcctError::Operation { message, .. } => assert_eq!(message, "\u{fffd}\u{fffd}"),
        other => panic!("expected an Operation error, got {other:?}"),
    }
}

#[test]
fn a_module_without_the_lift_fails_only_when_it_is_used() {
    let text = module_text(0, 0, "", &[]).replace("occt_rmesh_ir_u32_len", "unused_export");
    let mut k = load(text.as_bytes()).unwrap();
    match k.to_brep_ir(ShapeHandle(1)) {
        Err(OcctError::Runtime(m)) => {
            assert_eq!(m, "failed to find function export `occt_rmesh_ir_u32_len`")
        }
        other => panic!("expected a Runtime error, got {other:?}"),
    }
}

#[test]
fn a_failing_init_is_a_memory_error() {
    let e = load(module_text(1, 0, "", &[]).as_bytes()).err().unwrap();
    assert_eq!(memory_error(&e), Some("occt_init failed"));
}

#[test]
fn a_module_without_memory_is_refused() {
    let text = module_text(0, 0, "", &[]).replace("(memory (export \"memory\") 1)", "(memory 1)");
    let e = load(text.as_bytes()).err().unwrap();
    assert_eq!(memory_error(&e), Some("no memory export"));
}

#[test]
fn a_missing_core_accessor_refuses_the_module() {
    // The NURBS accessors belong to a core result group: they are bound when
    // the kernel is created, so a module without one does not load.
    let text = module_text(0, 0, "", &["occt_get_nurbs_poles"]);
    match load(text.as_bytes()) {
        Err(OcctError::Runtime(m)) => {
            assert_eq!(m, "failed to find function export `occt_get_nurbs_poles`")
        }
        other => panic!("expected a Runtime error, got {:?}", other.err()),
    }
}

#[test]
fn a_missing_optional_accessor_is_a_missing_capability_when_used() {
    let text = module_text(0, 0, "", &["occt_get_proj_hidden_sharp"]);
    let mut k = load(text.as_bytes()).expect("a module without an optional accessor loads");
    match k.read_projection_result() {
        Err(OcctError::MissingCapability(name)) => assert_eq!(name, "occt_get_proj_hidden_sharp"),
        other => panic!("expected MissingCapability, got {:?}", other),
    }
    assert_eq!(k.read_string_result().unwrap(), "hello");
}

#[test]
fn a_core_accessor_of_the_wrong_type_refuses_the_module() {
    let text = module_text(0, 0, "", &["occt_get_bbox_zmax"]).replace(
        ")\n)",
        ")\n  (func (export \"occt_get_bbox_zmax\") (result i32) i32.const 0)\n)",
    );
    match load(text.as_bytes()) {
        Err(OcctError::Runtime(m)) => {
            assert_eq!(m, "failed to convert function `occt_get_bbox_zmax` to given type")
        }
        other => panic!("expected a Runtime error, got {:?}", other.err()),
    }
}

#[test]
fn an_optional_accessor_of_the_wrong_type_is_a_runtime_error_when_used() {
    let text = module_text(0, 0, "", &["occt_get_label_info_r"]).replace(
        ")\n)",
        ")\n  (func (export \"occt_get_label_info_r\") (result i32) i32.const 0)\n)",
    );
    let mut k = load(text.as_bytes()).expect("the module loads");
    match k.read_label_info_result() {
        Err(OcctError::Runtime(m)) => {
            assert_eq!(m, "failed to convert function `occt_get_label_info_r` to given type")
        }
        other => panic!("expected a Runtime error, got {:?}", other),
    }
}

#[test]
fn a_missing_lifecycle_export_refuses_the_module() {
    let text = module_text(0, 0, "", &["occt_get_error_len"]);
    match load(text.as_bytes()) {
        Err(OcctError::Runtime(m)) => {
            assert_eq!(m, "failed to find function export `occt_get_error_len`")
        }
        other => panic!("expected a Runtime error, got {:?}", other.err()),
    }
}

#[test]
fn a_minimal_module_without_optional_accessors_loads() {
    // No projection and no label-info accessors, as in a minimal profile.
    let omit: Vec<&str> = vec![
        "occt_get_proj_visible_outline", "occt_get_proj_visible_smooth", "occt_get_proj_visible_sharp",
        "occt_get_proj_hidden_outline", "occt_get_proj_hidden_smooth", "occt_get_proj_hidden_sharp",
        "occt_get_label_info_label_id", "occt_get_label_info_name", "occt_get_label_info_name_len",
        "occt_get_label_info_has_color", "occt_get_label_info_r", "occt_get_label_info_g",
        "occt_get_label_info_b", "occt_get_label_info_is_assembly", "occt_get_label_info_is_component",
        "occt_get_label_info_shape_id",
    ];
    let mut k = load(module_text(0, 0, "", &omit).as_bytes()).expect("a minimal module loads");
    assert!(matches!(k.read_projection_result(), Err(OcctError::MissingCapability(_))));
    assert!(matches!(k.read_label_info_result(), Err(OcctError::MissingCapability(_))));
    assert_eq!(k.read_vec_u32_result().unwrap(), vec![1, 2, u32::MAX]);
}

#[test]
fn static_constructors_run_before_init() {
    let init = "(func (export \"occt_init\") (result i32) i32.const 0)";
    let ready = "(func (export \"occt_init\") (result i32) global.get $ready)";
    let with_constructor = r#"
  (global $ready (mut i32) (i32.const 1))
  (func (export "_initialize") (global.set $ready (i32.const 0)))
"#;
    let without_constructor = "\n  (global $ready (mut i32) (i32.const 1))\n";
    let text = module_text(0, 0, with_constructor, &[]).replace(init, ready);
    assert!(load(text.as_bytes()).is_ok());
    let text = module_text(0, 0, without_constructor, &[]).replace(init, ready);
    let e = load(text.as_bytes()).err().unwrap();
    assert_eq!(memory_error(&e), Some("occt_init failed"));
}

#[test]
fn a_constructor_of_the_wrong_type_is_refused() {
    let extra = "\n  (func (export \"_initialize\") (param i32))\n";
    match load(module_text(0, 0, extra, &[]).as_bytes()) {
        Err(OcctError::Runtime(m)) => assert_eq!(m, "type mismatch with parameters"),
        other => panic!("expected a Runtime error, got {:?}", other.err()),
    }
}

#[test]
fn host_imports_answer_the_module() {
    let extra = r#"
  (import "wasi_snapshot_preview1" "fd_write" (func $fd_write (param i32 i32 i32 i32) (result i32)))
  (import "wasi_snapshot_preview1" "clock_time_get" (func $clock (param i32 i64 i32) (result i32)))
  (import "env" "emscripten_notify" (func $stub (param i32) (result i32)))
  (import "env" "two_results" (func $stub2 (result i64 f64)))
  (data (i32.const 16) "\64\00\00\00\03\00\00\00\c8\00\00\00\04\00\00\00")
  (func (export "host_check") (result i32)
    (local $wide i64)
    (if (i32.ne (call $fd_write (i32.const 1) (i32.const 16) (i32.const 2) (i32.const 32)) (i32.const 0))
      (then (return (i32.const 1))))
    (if (i32.ne (i32.load (i32.const 32)) (i32.const 7)) (then (return (i32.const 2))))
    (if (i32.ne (call $clock (i32.const 0) (i64.const 0) (i32.const 40)) (i32.const 0))
      (then (return (i32.const 3))))
    (if (i64.eqz (i64.load (i32.const 40))) (then (return (i32.const 4))))
    (if (i32.ne (call $stub (i32.const 5)) (i32.const 0)) (then (return (i32.const 5))))
    call $stub2
    drop
    drop
    (if (i32.ne (call $fd_write (i32.const 1) (i32.const 16) (i32.const 2) (i32.const 70000)) (i32.const 21))
      (then (return (i32.const 6))))
    (if (i32.ne (call $fd_write (i32.const 1) (i32.const 65530) (i32.const 1) (i32.const 32)) (i32.const 21))
      (then (return (i32.const 7))))
    (if (i32.ne (call $fd_write (i32.const 1) (i32.const -1) (i32.const 1) (i32.const 32)) (i32.const 21))
      (then (return (i32.const 8))))
    (if (i32.ne (call $clock (i32.const 0) (i64.const 0) (i32.const -8)) (i32.const 21))
      (then (return (i32.const 9))))
    (if (i32.ne (call $fd_write (i32.const 1) (i32.const 16) (i32.const 0) (i32.const 48)) (i32.const 0))
      (then (return (i32.const 10))))
    (if (i32.ne (i32.load (i32.const 48)) (i32.const 0)) (then (return (i32.const 11))))
    i32.const 0)
"#;
    // occt_init runs the checks: a nonzero answer makes creation fail.
    let text = module_text(0, 0, extra, &[]).replace(
        "(func (export \"occt_init\") (result i32) i32.const 0)",
        "(func (export \"occt_init\") (result i32) call $host_check)",
    );
    let text = text.replace("(func (export \"host_check\")", "(func $host_check");
    let loaded = load(text.as_bytes());
    assert!(loaded.is_ok(), "host checks failed: {:?}", loaded.err());
}

#[test]
fn a_stub_with_an_unsupported_result_traps_when_called() {
    let extra = r#"
  (import "env" "vector" (func $vector (result v128)))
  (func (export "call_vector") (drop (call $vector)))
"#;
    let text = module_text(0, 0, extra, &[]);
    // Instantiation succeeds: the stub only fails when it is called.
    assert!(load(text.as_bytes()).is_ok());
}

#[test]
fn compressed_modules_are_decompressed_before_compiling() {
    let plain = b"(module (func $broken (result i32) f32.const 1))".to_vec();
    let mut compressed = Vec::new();
    {
        let mut writer = brotli::CompressorWriter::new(&mut compressed, 4096, 5, 22);
        std::io::Write::write_all(&mut writer, &plain).unwrap();
    }
    let direct = OcctKernel::from_module_bytes(&plain).err().unwrap();
    let through = OcctKernel::from_compressed_module_bytes(&compressed).err().unwrap();
    match (direct, through) {
        (OcctError::Runtime(a), OcctError::Runtime(b)) => assert_eq!(a, b),
        other => panic!("expected two equal Runtime errors, got {other:?}"),
    }
}

#[test]
fn corrupt_compressed_bytes_are_a_memory_error() {
    let e = OcctKernel::from_compressed_module_bytes(&[0xff, 0xff, 0xff, 0xff]).err().unwrap();
    assert!(memory_error(&e).unwrap().starts_with("brotli decompression failed: "));
    let e = OcctKernel::from_decompressed(Err("bad stream".to_string())).err().unwrap();
    assert_eq!(memory_error(&e), Some("brotli decompression failed: bad stream"));
}

#[test]
fn invalid_module_bytes_are_a_runtime_error() {
    assert!(matches!(
        OcctKernel::from_module_bytes(b"not a module"),
        Err(OcctError::Runtime(_))
    ));
    assert!(matches!(OcctKernel::precompile_module(b"\0asm"), Err(OcctError::Runtime(_))));
}

#[test]
fn modules_precompile_to_an_artifact() {
    let artifact = OcctKernel::precompile_module(module_text(0, 0, "", &[]).as_bytes()).unwrap();
    assert!(!artifact.is_empty());
}

#[test]
fn the_epoch_deadline_and_engine_handle_leave_the_kernel_usable() {
    let mut k = kernel();
    k.set_epoch_deadline(1_000);
    let engine = k.engine_handle();
    engine.increment_epoch();
    assert_eq!(k.read_string_result().unwrap(), "hello");
    k.destroy();
    assert_eq!(k.read_vec_i32_result().unwrap(), vec![1, 2, -1]);
}

#[test]
fn the_deadline_stops_a_call_once_the_epoch_passes_it() {
    let mut k = kernel();
    k.set_epoch_deadline(1);
    let engine = k.engine_handle();
    engine.increment_epoch();
    engine.increment_epoch();
    assert!(matches!(k.read_string_result(), Err(OcctError::Runtime(_))));
}

#[test]
fn shape_handles_keep_their_index() {
    assert_eq!(ShapeHandle::from_raw(42), ShapeHandle(42));
    assert_eq!(ShapeHandle::from_raw(42).0, 42);
}

#[test]
fn the_engine_handle_is_the_engine_the_kernel_was_made_on() {
    let engine = small_engine();
    let text = module_text(0, 0, "", &[]);
    let module = wasmtime::Module::new(&engine, text.as_bytes()).unwrap();
    let k = OcctKernel::from_module(&engine, &module).unwrap();
    assert!(wasmtime::Engine::same(&k.engine_handle(), &engine));
}

#[test]
fn a_kernel_engine_compiles_modules_that_use_the_kernel_features() {
    let engine = OcctKernel::new_engine().unwrap();
    // Tail calls and exception handling are on in the kernel's engine.
    let text = r#"(module
      (tag $t)
      (func $f (result i32) (return_call $g))
      (func $g (result i32) i32.const 7)
      (func (export "h") (throw $t)))"#;
    assert!(wasmtime::Module::new(&engine, text).is_ok());
}

#[test]
fn the_memory_lookup_decides_the_memory_error() {
    assert_eq!(exported_memory(None).err().and_then(|e| memory_error(&e).map(|m| m.to_owned())), Some("no memory export".to_owned()));
}

#[test]
fn an_initializer_runs_only_without_parameters_and_results() {
    assert!(initializer_check(&vec![], &vec![]).is_ok());
    match initializer_check(&vec![ValueKind::I32], &vec![]) {
        Err(OcctError::Runtime(m)) => assert_eq!(m, "type mismatch with parameters"),
        other => panic!("expected a Runtime error, got {:?}", other),
    }
    match initializer_check(&vec![ValueKind::I32], &vec![ValueKind::I64]) {
        Err(OcctError::Runtime(m)) => assert_eq!(m, "type mismatch with parameters"),
        other => panic!("expected a Runtime error, got {:?}", other),
    }
    match initializer_check(&vec![], &vec![ValueKind::F64]) {
        Err(OcctError::Runtime(m)) => assert_eq!(m, "type mismatch with results"),
        other => panic!("expected a Runtime error, got {:?}", other),
    }
}

#[test]
fn only_a_zero_init_status_succeeds() {
    assert!(init_outcome(WasmValue::I32(0)).is_ok());
    for status in [WasmValue::I32(1), WasmValue::I32(-1), WasmValue::I64(0), WasmValue::Other] {
        let e = init_outcome(status).err().unwrap();
        assert_eq!(memory_error(&e), Some("occt_init failed"));
    }
}

#[test]
fn a_write_leaves_the_rest_of_memory_as_the_allocation_left_it() {
    let mut k = kernel();
    let before = k.read_bytes(0, 64).unwrap();
    let p = k.write_bytes(&[7, 8, 9]).unwrap();
    assert_eq!(k.read_bytes(p, 3).unwrap(), vec![7, 8, 9]);
    let after = k.read_bytes(0, 64).unwrap();
    for i in 0..64u32 {
        if i < p || i >= p + 3 {
            assert_eq!(after[i as usize], before[i as usize]);
        }
    }
}

#[test]
fn a_label_name_that_is_not_utf8_stops_the_read() {
    // The name points at two bytes that are not UTF-8, and the module lacks
    // the accessor read after the name: the read stops at the name.
    let text = module_text(0, 0, "", &["occt_get_label_info_has_color"])
        .replace("(func (export \"occt_get_label_info_name\") (result i32) i32.const 64)", "(func (export \"occt_get_label_info_name\") (result i32) i32.const 300)")
        .replace("(func (export \"occt_get_label_info_name_len\") (result i32) i32.const 5)", "(func (export \"occt_get_label_info_name_len\") (result i32) i32.const 2)");
    let mut k = load(text.as_bytes()).unwrap();
    match k.read_label_info_result() {
        Err(OcctError::Memory(m)) => assert!(m.contains("utf-8")),
        other => panic!("expected a Memory error, got {:?}", other),
    }
}

#[test]
fn a_stubbed_import_named_twice_refuses_the_module() {
    let extra = "\n  (import \"env\" \"twice\" (func))\n  (import \"env\" \"twice\" (func))\n";
    match load(module_text(0, 0, extra, &[]).as_bytes()) {
        Err(OcctError::Runtime(m)) => assert_eq!(m, "import of `env::twice` defined twice"),
        other => panic!("expected a Runtime error, got {:?}", other.err()),
    }
}
