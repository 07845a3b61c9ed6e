use occt_wasm::codegen::{
    camel_to_snake, minimal_export_names, spec_is_optional, MethodKind, MethodSpec,
    OptionalPolicy, ResultGroup, SpecError,
};

fn spec(name: &str, category: &str, kind: MethodKind, result: ResultGroup) -> MethodSpec {
    MethodSpec {
        name: name.to_string(),
        category: category.to_string(),
        kind,
        result,
    }
}

/// A specification set with at least one method of every category the
/// minimal profile names, core and optional.
fn target_methods() -> Vec<MethodSpec> {
    vec![
        spec("makeLineEdge", "construction", MethodKind::Wrapped, ResultGroup::Scalar),
        spec("makeWire", "construction", MethodKind::Wrapped, ResultGroup::Scalar),
        spec("makeFace", "construction", MethodKind::Wrapped, ResultGroup::Scalar),
        spec("extrude", "construction", MethodKind::Wrapped, ResultGroup::Scalar),
        spec("fuse", "booleans", MethodKind::Wrapped, ResultGroup::Scalar),
        spec("booleanPipeline", "booleans", MethodKind::Wrapped, ResultGroup::Scalar),
        spec("booleanFuzzy", "booleans", MethodKind::Wrapped, ResultGroup::Scalar),
        spec("isValid", "healing", MethodKind::Wrapped, ResultGroup::Scalar),
        spec("fixShape", "healing", MethodKind::Wrapped, ResultGroup::Scalar),
        spec("checkShape", "healing", MethodKind::Wrapped, ResultGroup::Scalar),
        spec("fillet", "blending", MethodKind::Wrapped, ResultGroup::Scalar),
        spec("chamfer", "blending", MethodKind::Wrapped, ResultGroup::Scalar),
        spec("translate", "transforms", MethodKind::Wrapped, ResultGroup::Scalar),
        spec("getSubShapes", "topology", MethodKind::Wrapped, ResultGroup::VecU32),
        spec("tessellate", "tessellation", MethodKind::Wrapped, ResultGroup::Mesh),
        spec("tessellateRelative", "tessellation", MethodKind::Wrapped, ResultGroup::Mesh),
        spec("meshEdges", "tessellation", MethodKind::Wrapped, ResultGroup::Edges),
        spec("makeBox", "primitives", MethodKind::Wrapped, ResultGroup::Scalar),
        spec("makeSphere", "primitives", MethodKind::Wrapped, ResultGroup::Scalar),
        spec("getVolume", "query", MethodKind::Wrapped, ResultGroup::Scalar),
        spec("getBoundingBox", "query", MethodKind::Wrapped, ResultGroup::BoundingBox),
        spec("offset", "offsetting", MethodKind::Wrapped, ResultGroup::Scalar),
        spec("curveLength", "curve", MethodKind::Wrapped, ResultGroup::Scalar),
        spec("getNurbsCurveData", "curve", MethodKind::Wrapped, ResultGroup::Nurbs),
        spec("toBrep", "io", MethodKind::Wrapped, ResultGroup::Text),
        spec("importStep", "exchange", MethodKind::Wrapped, ResultGroup::Scalar),
        spec("exportStep", "exchange", MethodKind::Wrapped, ResultGroup::Text),
        spec("projectEdges", "projection", MethodKind::Wrapped, ResultGroup::Projection),
        spec("xcafNewDocument", "xcaf", MethodKind::Wrapped, ResultGroup::Scalar),
        spec("xcafGetLabelInfo", "xcaf", MethodKind::Wrapped, ResultGroup::LabelInfo),
        spec("fuseWithHistory", "evolution", MethodKind::Wrapped, ResultGroup::Evolution),
        spec("makePipe", "sweep", MethodKind::Wrapped, ResultGroup::Scalar),
        spec("tessellateBatch", "marshal", MethodKind::Wrapped, ResultGroup::MeshBatch),
        spec("releaseAll", "construction", MethodKind::Skip, ResultGroup::Scalar),
    ]
}

/// The derived minimal root set: core method wrappers in, optional
/// wrappers and their accessor groups out, lifecycle always in.
#[test]
fn minimal_export_names_partitions_by_category() {
    let methods = target_methods();
    let policy = OptionalPolicy::minimal_profile();
    let names = minimal_export_names(&methods, &policy).expect("derivation failed");
    let has = |n: &str| names.iter().any(|x| x == n);

    for m in &methods {
        if matches!(m.kind, MethodKind::Skip) || m.category == "marshal" {
            continue;
        }
        let export = format!("occt_{}", camel_to_snake(&m.name));
        let expected = !spec_is_optional(m, &policy);
        assert_eq!(
            has(&export),
            expected,
            "{export} (category '{}') in minimal set: {} — expected {}",
            m.category,
            !expected,
            expected
        );
    }

    assert!(has("occt_init") && has("occt_destroy") && has("occt_alloc"));
    assert!(names.iter().all(|n| !n.starts_with("occt_get_proj_")));
    assert!(names.iter().all(|n| !n.starts_with("occt_get_label_info_")));
}

#[test]
fn camel_case_names_become_snake_case() {
    assert_eq!(camel_to_snake("makeLineEdge"), "make_line_edge");
    assert_eq!(camel_to_snake("fuse"), "fuse");
    assert_eq!(camel_to_snake("Xcaf"), "xcaf");
    assert_eq!(camel_to_snake("toBRep"), "to_b_rep");
    assert_eq!(camel_to_snake(""), "");
}

#[test]
fn minimal_profile_lists_the_optional_categories() {
    let policy = OptionalPolicy::minimal_profile();
    assert_eq!(
        policy.categories,
        vec![
            "exchange", "projection", "xcaf", "offsetting", "primitives", "query", "curve",
            "evolution", "sweep", "io",
        ]
    );
    assert!(policy.specs.is_empty());
}

#[test]
fn export_order_is_lifecycle_then_wrappers_then_accessors() {
    let methods = vec![
        spec("getSubShapes", "topology", MethodKind::Wrapped, ResultGroup::VecU32),
        spec("makeBox", "primitives", MethodKind::Wrapped, ResultGroup::BoundingBox),
    ];
    let policy = OptionalPolicy {
        categories: vec!["primitives".to_string()],
        specs: vec![],
    };
    let names = minimal_export_names(&methods, &policy).unwrap();
    assert_eq!(
        names,
        vec![
            "occt_init",
            "occt_destroy",
            "occt_alloc",
            "occt_free",
            "occt_has_error",
            "occt_get_error",
            "occt_get_error_len",
            "occt_get_sub_shapes",
            "occt_get_vec_u32_result",
            "occt_get_vec_u32_result_len",
        ]
    );
}

#[test]
fn an_optional_spec_name_removes_only_that_wrapper() {
    let methods = vec![
        spec("fuse", "booleans", MethodKind::Wrapped, ResultGroup::Scalar),
        spec("fuseWithHistory", "booleans", MethodKind::Wrapped, ResultGroup::Evolution),
    ];
    let policy = OptionalPolicy {
        categories: vec![],
        specs: vec!["fuseWithHistory".to_string()],
    };
    let names = minimal_export_names(&methods, &policy).unwrap();
    assert!(names.iter().any(|n| n == "occt_fuse"));
    assert!(!names.iter().any(|n| n == "occt_fuse_with_history"));
    assert!(!names.iter().any(|n| n.starts_with("occt_get_evo_")));
}

#[test]
fn an_unknown_optional_category_is_refused() {
    let methods = vec![spec("fuse", "booleans", MethodKind::Wrapped, ResultGroup::Scalar)];
    let policy = OptionalPolicy {
        categories: vec!["sweep".to_string()],
        specs: vec![],
    };
    match minimal_export_names(&methods, &policy) {
        Err(SpecError::UnknownOptionalCategory(c)) => assert_eq!(c, "sweep"),
        other => panic!("expected UnknownOptionalCategory, got {other:?}"),
    }
}

#[test]
fn an_unknown_optional_spec_is_refused() {
    let methods = vec![spec("fuse", "booleans", MethodKind::Wrapped, ResultGroup::Scalar)];
    let policy = OptionalPolicy {
        categories: vec![],
        specs: vec!["cut".to_string()],
    };
    match minimal_export_names(&methods, &policy) {
        Err(SpecError::UnknownOptionalSpec(n)) => assert_eq!(n, "cut"),
        other => panic!("expected UnknownOptionalSpec, got {other:?}"),
    }
}

#[test]
fn a_wrapper_shadowing_the_lifecycle_is_refused() {
    let methods = vec![spec("init", "construction", MethodKind::Wrapped, ResultGroup::Scalar)];
    let policy = OptionalPolicy { categories: vec![], specs: vec![] };
    match minimal_export_names(&methods, &policy) {
        Err(SpecError::ReservedExport(n)) => assert_eq!(n, "occt_init"),
        other => panic!("expected ReservedExport, got {other:?}"),
    }
}

#[test]
fn two_specs_with_one_export_are_refused() {
    let methods = vec![
        spec("makeBox", "primitives", MethodKind::Wrapped, ResultGroup::Scalar),
        spec("make_box", "construction", MethodKind::Wrapped, ResultGroup::Scalar),
    ];
    let policy = OptionalPolicy { categories: vec![], specs: vec![] };
    match minimal_export_names(&methods, &policy) {
        Err(SpecError::DuplicateExport(n)) => assert_eq!(n, "occt_make_box"),
        other => panic!("expected DuplicateExport, got {other:?}"),
    }
}

#[test]
fn skipped_and_marshal_specs_may_share_exports() {
    let methods = vec![
        spec("makeBox", "construction", MethodKind::Wrapped, ResultGroup::Scalar),
        spec("make_box", "marshal", MethodKind::Wrapped, ResultGroup::Scalar),
        spec("init", "construction", MethodKind::Skip, ResultGroup::Scalar),
    ];
    let policy = OptionalPolicy { categories: vec![], specs: vec![] };
    let names = minimal_export_names(&methods, &policy).unwrap();
    assert_eq!(names.iter().filter(|n| *n == "occt_make_box").count(), 1);
}
