use occt_wasm::host::{answer_stub, import_is_predefined, stub_plan};
use occt_wasm::runtime::{ValueKind, WasmValue};

#[test]
fn stubs_answer_a_zero_of_each_numeric_result() {
    let texts: Vec<String> = vec!["i32".into(), "i64".into(), "f32".into(), "f64".into()];
    let plan = stub_plan(&vec![ValueKind::I32, ValueKind::I64, ValueKind::F32, ValueKind::F64], &texts);
    assert_eq!(
        plan,
        Ok(vec![WasmValue::I32(0), WasmValue::I64(0), WasmValue::F32(0), WasmValue::F64(0)])
    );
    assert_eq!(stub_plan(&Vec::new(), &Vec::new()), Ok(Vec::new()));
}

#[test]
fn a_result_without_a_zero_names_its_type() {
    let texts: Vec<String> = vec!["i32".into(), "v128".into(), "funcref".into()];
    assert_eq!(
        stub_plan(&vec![ValueKind::I32, ValueKind::V128, ValueKind::Ref], &texts),
        Err("unstubable import result type v128".to_string())
    );
    assert_eq!(
        stub_plan(&vec![ValueKind::Ref], &vec!["(ref null func)".to_string()]),
        Err("unstubable import result type (ref null func)".to_string())
    );
}

#[test]
fn only_the_clock_and_the_writer_are_defined_with_behaviour() {
    assert!(import_is_predefined("wasi_snapshot_preview1", "clock_time_get"));
    assert!(import_is_predefined("wasi_snapshot_preview1", "fd_write"));
    assert!(!import_is_predefined("wasi_snapshot_preview1", "fd_read"));
    assert!(!import_is_predefined("env", "fd_write"));
    assert!(!import_is_predefined("env", "emscripten_notify"));
}

#[test]
fn a_stub_answer_fills_the_slots_in_order() {
    let mut out = vec![wasmtime::Val::I32(9); 3];
    let plan = Ok(vec![WasmValue::I64(0), WasmValue::F64(0)]);
    assert_eq!(answer_stub(&mut out, &plan), Ok(()));
    assert_eq!(out[0].unwrap_i64(), 0);
    assert_eq!(out[1].unwrap_f64(), 0.0);
    assert_eq!(out[2].unwrap_i32(), 9);

    let refused = Err("unstubable import result type v128".to_string());
    assert_eq!(answer_stub(&mut out, &refused), Err("unstubable import result type v128".to_string()));
    assert_eq!(out[2].unwrap_i32(), 9);
}
