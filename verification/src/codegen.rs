//! The export set of the minimal kernel profile, derived from the method
//! specifications.
//!
//! Every method specification that is emitted (not `Skip`, not in the
//! Embind-only `"marshal"` category) and not optional under the profile's
//! policy becomes one `occt_<snake_name>` wrapper export. The lifecycle and
//! error-protocol exports are always present, and each result-accessor group
//! is present exactly when some core specification returns through it.

use vstd::prelude::*;
use crate::text::{chars_eq, chars_of, string_from_chars};

verus! {

/// How a method specification is turned into facade code.
#[derive(Clone, Copy, Debug, PartialEq, Eq, Structural)]
pub enum MethodKind {
    /// A C-ABI wrapper is emitted for the method.
    Wrapped,
    /// No wrapper is emitted.
    Skip,
}

/// The result buffer through which a method hands back its value, which
/// decides the accessor exports the host needs to read it.
#[derive(Clone, Copy, Debug, PartialEq, Eq, Structural)]
pub enum ResultGroup {
    Scalar,
    Text,
    VecU32,
    VecF64,
    VecI32,
    BoundingBox,
    Mesh,
    MeshBatch,
    Edges,
    Nurbs,
    Evolution,
    Projection,
    LabelInfo,
}

/// One method of the facade: its camelCase name, its category, how it is
/// emitted, and the result buffer it fills.
pub struct MethodSpec {
    pub name: String,
    pub category: String,
    pub kind: MethodKind,
    pub result: ResultGroup,
}

/// The mathematical view of a [`MethodSpec`].
pub struct MethodSpecView {
    pub name: Seq<char>,
    pub category: Seq<char>,
    pub kind: MethodKind,
    pub result: ResultGroup,
}

impl View for MethodSpec {
    type V = MethodSpecView;

    open spec fn view(&self) -> MethodSpecView {
        MethodSpecView {
            name: self.name@,
            category: self.category@,
            kind: self.kind,
            result: self.result,
        }
    }
}

/// Which specifications a profile leaves out: whole categories, and
/// single specifications by name.
pub struct OptionalPolicy {
    pub categories: Vec<String>,
    pub specs: Vec<String>,
}

/// Why a specification set or policy cannot be turned into an export set.
#[derive(Debug)]
pub enum SpecError {
    /// An optional category that no specification belongs to.
    UnknownOptionalCategory(String),
    /// An optional specification name that no specification carries.
    UnknownOptionalSpec(String),
    /// A wrapper export that would shadow a lifecycle or accessor export.
    ReservedExport(String),
    /// Two emitted specifications that would produce the same export.
    DuplicateExport(String),
}

impl OptionalPolicy {
    /// The policy of the minimal profile: the exchange, projection, xcaf,
    /// offsetting, primitives, query, curve, evolution, sweep and io
    /// categories are optional, and no single specification is.
    pub fn minimal_profile() -> (p: OptionalPolicy)
        ensures
            p.specs@.len() == 0,
            strings_view(p.categories@) == seq![
                "exchange"@, "projection"@, "xcaf"@, "offsetting"@, "primitives"@,
                "query"@, "curve"@, "evolution"@, "sweep"@, "io"@,
            ],
    {
        let names = ["exchange", "projection", "xcaf", "offsetting", "primitives",
            "query", "curve", "evolution", "sweep", "io"];
        let mut categories: Vec<String> = Vec::new();
        let mut i: usize = 0;
        while i < 10
            invariant
                i <= 10,
                names@ == seq![
                    "exchange", "projection", "xcaf", "offsetting", "primitives",
                    "query", "curve", "evolution", "sweep", "io",
                ],
                categories@.len() == i,
                forall|k: int| 0 <= k < i ==> #[trigger] categories@[k]@ == names@[k]@,
            decreases 10 - i,
        {
            categories.push(string_from_chars(chars_of(names[i]).as_slice()));
            i = i + 1;
        }
        let p = OptionalPolicy { categories, specs: Vec::new() };
        assert(strings_view(p.categories@) =~= seq![
            "exchange"@, "projection"@, "xcaf"@, "offsetting"@, "primitives"@,
            "query"@, "curve"@, "evolution"@, "sweep"@, "io"@,
        ]);
        p
    }
}

// ---------------------------------------------------------------------------
// Specification
// ---------------------------------------------------------------------------

/// The character sequences of a sequence of strings.
pub open spec fn strings_view(v: Seq<String>) -> Seq<Seq<char>> {
    Seq::new(v.len(), |k: int| v[k]@)
}

/// The character sequences of a sequence of string slices.
pub open spec fn strs_view(v: Seq<&str>) -> Seq<Seq<char>> {
    Seq::new(v.len(), |k: int| v[k]@)
}

/// The views of a sequence of specifications.
pub open spec fn specs_view(v: Seq<MethodSpec>) -> Seq<MethodSpecView> {
    Seq::new(v.len(), |k: int| v[k]@)
}

pub open spec fn is_ascii_upper(c: char) -> bool {
    65 <= (c as u32) <= 90
}

pub open spec fn ascii_lower(c: char) -> char {
    ((c as u32) + 32) as char
}

/// The snake_case rendering of one character: an ASCII capital becomes its
/// lower-case letter, preceded by `_` unless it opens the name.
pub open spec fn snake_chunk(c: char, first: bool) -> Seq<char> {
    if is_ascii_upper(c) {
        if first {
            seq![ascii_lower(c)]
        } else {
            seq!['_', ascii_lower(c)]
        }
    } else {
        seq![c]
    }
}

/// The snake_case form of a camelCase name.
pub open spec fn snake_case(s: Seq<char>) -> Seq<char>
    decreases s.len(),
{
    if s.len() == 0 {
        Seq::empty()
    } else {
        snake_case(s.drop_last()) + snake_chunk(s.last(), s.len() == 1)
    }
}

/// The wrapper export of the method called `name`.
pub open spec fn export_name(name: Seq<char>) -> Seq<char> {
    "occt_"@ + snake_case(name)
}

/// A specification gets a wrapper in some profile.
pub open spec fn is_emitted(s: MethodSpecView) -> bool {
    s.kind != MethodKind::Skip && s.category != "marshal"@
}

/// A specification is left out by the policy.
pub open spec fn is_optional(s: MethodSpecView, cats: Seq<Seq<char>>, names: Seq<Seq<char>>) -> bool {
    cats.contains(s.category) || names.contains(s.name)
}

/// A specification belongs to the minimal profile.
pub open spec fn is_core(s: MethodSpecView, cats: Seq<Seq<char>>, names: Seq<Seq<char>>) -> bool {
    is_emitted(s) && !is_optional(s, cats, names)
}

/// The wrapper exports of the core specifications, in specification order.
pub open spec fn wrapper_exports(
    specs: Seq<MethodSpecView>,
    cats: Seq<Seq<char>>,
    names: Seq<Seq<char>>,
) -> Seq<Seq<char>>
    decreases specs.len(),
{
    if specs.len() == 0 {
        Seq::empty()
    } else {
        let rest = wrapper_exports(specs.drop_last(), cats, names);
        if is_core(specs.last(), cats, names) {
            rest.push(export_name(specs.last().name))
        } else {
            rest
        }
    }
}

/// The lifecycle and error-protocol exports, present in every profile.
pub open spec fn lifecycle_exports() -> Seq<Seq<char>> {
    seq![
        "occt_init"@, "occt_destroy"@, "occt_alloc"@, "occt_free"@,
        "occt_has_error"@, "occt_get_error"@, "occt_get_error_len"@,
    ]
}

/// The result groups that have accessor exports, in emission order.
pub open spec fn accessor_groups() -> Seq<ResultGroup> {
    seq![
        ResultGroup::Text, ResultGroup::VecU32, ResultGroup::VecF64, ResultGroup::VecI32,
        ResultGroup::BoundingBox, ResultGroup::Mesh, ResultGroup::MeshBatch,
        ResultGroup::Edges, ResultGroup::Nurbs, ResultGroup::Evolution,
        ResultGroup::Projection, ResultGroup::LabelInfo,
    ]
}

/// The accessor exports through which the host reads a result group.
pub open spec fn group_exports(g: ResultGroup) -> Seq<Seq<char>> {
    match g {
        ResultGroup::Scalar => Seq::empty(),
        ResultGroup::Text => seq!["occt_get_string_result"@, "occt_get_string_result_len"@],
        ResultGroup::VecU32 => seq!["occt_get_vec_u32_result"@, "occt_get_vec_u32_result_len"@],
        ResultGroup::VecF64 => seq!["occt_get_vec_f64_result"@, "occt_get_vec_f64_result_len"@],
        ResultGroup::VecI32 => seq!["occt_get_vec_i32_result"@, "occt_get_vec_i32_result_len"@],
        ResultGroup::BoundingBox => seq![
            "occt_get_bbox_xmin"@, "occt_get_bbox_ymin"@, "occt_get_bbox_zmin"@,
            "occt_get_bbox_xmax"@, "occt_get_bbox_ymax"@, "occt_get_bbox_zmax"@,
        ],
        ResultGroup::Mesh => seq![
            "occt_get_mesh_positions"@, "occt_get_mesh_positions_len"@,
            "occt_get_mesh_normals"@, "occt_get_mesh_normals_len"@,
            "occt_get_mesh_indices"@, "occt_get_mesh_indices_len"@,
            "occt_get_mesh_face_groups"@, "occt_get_mesh_face_groups_len"@,
        ],
        ResultGroup::MeshBatch => seq![
            "occt_get_mesh_batch_positions"@, "occt_get_mesh_batch_positions_len"@,
            "occt_get_mesh_batch_normals"@, "occt_get_mesh_batch_normals_len"@,
            "occt_get_mesh_batch_indices"@, "occt_get_mesh_batch_indices_len"@,
            "occt_get_mesh_batch_shape_offsets"@, "occt_get_mesh_batch_shape_count"@,
        ],
        ResultGroup::Edges => seq![
            "occt_get_edge_points"@, "occt_get_edge_points_len"@,
            "occt_get_edge_groups"@, "occt_get_edge_groups_len"@,
        ],
        ResultGroup::Nurbs => seq![
            "occt_get_nurbs_degree"@, "occt_get_nurbs_rational"@, "occt_get_nurbs_periodic"@,
            "occt_get_nurbs_knots"@, "occt_get_nurbs_knots_len"@,
            "occt_get_nurbs_multiplicities"@, "occt_get_nurbs_multiplicities_len"@,
            "occt_get_nurbs_poles"@, "occt_get_nurbs_poles_len"@,
            "occt_get_nurbs_weights"@, "occt_get_nurbs_weights_len"@,
        ],
        ResultGroup::Evolution => seq![
            "occt_get_evo_result_id"@, "occt_get_evo_modified"@, "occt_get_evo_modified_len"@,
            "occt_get_evo_generated"@, "occt_get_evo_generated_len"@,
            "occt_get_evo_deleted"@, "occt_get_evo_deleted_len"@,
        ],
        ResultGroup::Projection => seq![
            "occt_get_proj_visible_outline"@, "occt_get_proj_visible_smooth"@,
            "occt_get_proj_visible_sharp"@, "occt_get_proj_hidden_outline"@,
            "occt_get_proj_hidden_smooth"@, "occt_get_proj_hidden_sharp"@,
        ],
        ResultGroup::LabelInfo => seq![
            "occt_get_label_info_label_id"@, "occt_get_label_info_name"@,
            "occt_get_label_info_name_len"@, "occt_get_label_info_has_color"@,
            "occt_get_label_info_r"@, "occt_get_label_info_g"@, "occt_get_label_info_b"@,
            "occt_get_label_info_is_assembly"@, "occt_get_label_info_is_component"@,
            "occt_get_label_info_shape_id"@,
        ],
    }
}

/// Some core specification returns through `g`.
pub open spec fn group_required(
    specs: Seq<MethodSpecView>,
    cats: Seq<Seq<char>>,
    names: Seq<Seq<char>>,
    g: ResultGroup,
) -> bool {
    exists|i: int| 0 <= i < specs.len() && #[trigger] is_core(specs[i], cats, names) && specs[i].result == g
}

/// The accessor exports of the first `k` accessor groups that are required.
pub open spec fn accessor_exports_upto(
    specs: Seq<MethodSpecView>,
    cats: Seq<Seq<char>>,
    names: Seq<Seq<char>>,
    k: nat,
) -> Seq<Seq<char>>
    decreases k,
{
    if k == 0 {
        Seq::empty()
    } else {
        let g = accessor_groups()[k - 1];
        let rest = accessor_exports_upto(specs, cats, names, (k - 1) as nat);
        if group_required(specs, cats, names, g) {
            rest + group_exports(g)
        } else {
            rest
        }
    }
}

/// The accessor exports the core specifications need.
pub open spec fn accessor_exports(
    specs: Seq<MethodSpecView>,
    cats: Seq<Seq<char>>,
    names: Seq<Seq<char>>,
) -> Seq<Seq<char>> {
    accessor_exports_upto(specs, cats, names, 12)
}

/// Every accessor export of every group.
pub open spec fn all_accessor_exports_upto(k: nat) -> Seq<Seq<char>>
    decreases k,
{
    if k == 0 {
        Seq::empty()
    } else {
        all_accessor_exports_upto((k - 1) as nat) + group_exports(accessor_groups()[k - 1])
    }
}

/// An export name that belongs to the lifecycle or to some accessor group.
pub open spec fn is_reserved(n: Seq<char>) -> bool {
    lifecycle_exports().contains(n) || all_accessor_exports_upto(12).contains(n)
}

/// The export set of the minimal profile.
pub open spec fn minimal_exports(
    specs: Seq<MethodSpecView>,
    cats: Seq<Seq<char>>,
    names: Seq<Seq<char>>,
) -> Seq<Seq<char>> {
    lifecycle_exports() + wrapper_exports(specs, cats, names) + accessor_exports(specs, cats, names)
}

/// Some specification belongs to category `c`.
pub open spec fn has_category(specs: Seq<MethodSpecView>, c: Seq<char>) -> bool {
    exists|i: int| 0 <= i < specs.len() && #[trigger] specs[i].category == c
}

/// Some specification is called `n`.
pub open spec fn has_name(specs: Seq<MethodSpecView>, n: Seq<char>) -> bool {
    exists|i: int| 0 <= i < specs.len() && #[trigger] specs[i].name == n
}

/// Every optional category names a category that some specification has.
pub open spec fn categories_known(specs: Seq<MethodSpecView>, cats: Seq<Seq<char>>) -> bool {
    forall|k: int| 0 <= k < cats.len() ==> #[trigger] has_category(specs, cats[k])
}

/// Every optional specification name names some specification.
pub open spec fn names_known(specs: Seq<MethodSpecView>, names: Seq<Seq<char>>) -> bool {
    forall|k: int| 0 <= k < names.len() ==> #[trigger] has_name(specs, names[k])
}

/// No emitted specification's wrapper export is a reserved export.
pub open spec fn none_reserved(specs: Seq<MethodSpecView>) -> bool {
    forall|i: int| 0 <= i < specs.len() && #[trigger] is_emitted(specs[i]) ==> !is_reserved(export_name(specs[i].name))
}

/// No two emitted specifications share a wrapper export.
pub open spec fn exports_distinct(specs: Seq<MethodSpecView>) -> bool {
    forall|i: int, j: int|
        0 <= i < j < specs.len() && #[trigger] is_emitted(specs[i]) && #[trigger] is_emitted(specs[j])
            ==> export_name(specs[i].name) != export_name(specs[j].name)
}

/// The specification set and policy can be turned into an export set.
pub open spec fn spec_set_valid(
    specs: Seq<MethodSpecView>,
    cats: Seq<Seq<char>>,
    names: Seq<Seq<char>>,
) -> bool {
    &&& categories_known(specs, cats)
    &&& names_known(specs, names)
    &&& none_reserved(specs)
    &&& exports_distinct(specs)
}

/// What an error returned for `specs` and the policy means: the first check
/// that fails, in the order categories, specification names, reserved
/// exports, duplicate exports, and a witness of that failure.
pub open spec fn error_explains(
    e: SpecError,
    specs: Seq<MethodSpecView>,
    cats: Seq<Seq<char>>,
    names: Seq<Seq<char>>,
) -> bool {
    match e {
        SpecError::UnknownOptionalCategory(c) => {
            &&& cats.contains(c@)
            &&& !has_category(specs, c@)
        },
        SpecError::UnknownOptionalSpec(n) => {
            &&& categories_known(specs, cats)
            &&& names.contains(n@)
            &&& !has_name(specs, n@)
        },
        SpecError::ReservedExport(n) => {
            &&& categories_known(specs, cats)
            &&& names_known(specs, names)
            &&& is_reserved(n@)
            &&& exists|i: int| 0 <= i < specs.len() && #[trigger] is_emitted(specs[i]) && export_name(specs[i].name) == n@
        },
        SpecError::DuplicateExport(n) => {
            &&& categories_known(specs, cats)
            &&& names_known(specs, names)
            &&& none_reserved(specs)
            &&& exists|i: int, j: int|
                0 <= i < j < specs.len() && #[trigger] is_emitted(specs[i]) && #[trigger] is_emitted(specs[j])
                    && export_name(specs[i].name) == n@ && export_name(specs[j].name) == n@
        },
    }
}


// ---------------------------------------------------------------------------
// Export tables
// ---------------------------------------------------------------------------

/// The lifecycle and error-protocol export names.
pub fn lifecycle_export_names() -> (v: Vec<&'static str>)
    ensures
        strs_view(v@) == lifecycle_exports(),
{
    let v = vec![
        "occt_init", "occt_destroy", "occt_alloc", "occt_free",
        "occt_has_error", "occt_get_error", "occt_get_error_len",
    ];
    assert(strs_view(v@) =~= lifecycle_exports());
    v
}

/// The result groups that have accessor exports, in emission order.
pub fn accessor_group_list() -> (v: Vec<ResultGroup>)
    ensures
        v@ == accessor_groups(),
{
    let v = vec![
        ResultGroup::Text, ResultGroup::VecU32, ResultGroup::VecF64, ResultGroup::VecI32,
        ResultGroup::BoundingBox, ResultGroup::Mesh, ResultGroup::MeshBatch,
        ResultGroup::Edges, ResultGroup::Nurbs, ResultGroup::Evolution,
        ResultGroup::Projection, ResultGroup::LabelInfo,
    ];
    assert(v@ =~= accessor_groups());
    v
}

/// The accessor export names of a result group.
pub fn group_export_names(g: ResultGroup) -> (v: Vec<&'static str>)
    ensures
        strs_view(v@) == group_exports(g),
{
    let v = match g {
        ResultGroup::Scalar => vec![],
        ResultGroup::Text => vec!["occt_get_string_result", "occt_get_string_result_len"],
        ResultGroup::VecU32 => vec!["occt_get_vec_u32_result", "occt_get_vec_u32_result_len"],
        ResultGroup::VecF64 => vec!["occt_get_vec_f64_result", "occt_get_vec_f64_result_len"],
        ResultGroup::VecI32 => vec!["occt_get_vec_i32_result", "occt_get_vec_i32_result_len"],
        ResultGroup::BoundingBox => vec![
            "occt_get_bbox_xmin", "occt_get_bbox_ymin", "occt_get_bbox_zmin",
            "occt_get_bbox_xmax", "occt_get_bbox_ymax", "occt_get_bbox_zmax",
        ],
        ResultGroup::Mesh => vec![
            "occt_get_mesh_positions", "occt_get_mesh_positions_len",
            "occt_get_mesh_normals", "occt_get_mesh_normals_len",
            "occt_get_mesh_indices", "occt_get_mesh_indices_len",
            "occt_get_mesh_face_groups", "occt_get_mesh_face_groups_len",
        ],
        ResultGroup::MeshBatch => vec![
            "occt_get_mesh_batch_positions", "occt_get_mesh_batch_positions_len",
            "occt_get_mesh_batch_normals", "occt_get_mesh_batch_normals_len",
            "occt_get_mesh_batch_indices", "occt_get_mesh_batch_indices_len",
            "occt_get_mesh_batch_shape_offsets", "occt_get_mesh_batch_shape_count",
        ],
        ResultGroup::Edges => vec![
            "occt_get_edge_points", "occt_get_edge_points_len",
            "occt_get_edge_groups", "occt_get_edge_groups_len",
        ],
        ResultGroup::Nurbs => vec![
            "occt_get_nurbs_degree", "occt_get_nurbs_rational", "occt_get_nurbs_periodic",
            "occt_get_nurbs_knots", "occt_get_nurbs_knots_len",
            "occt_get_nurbs_multiplicities", "occt_get_nurbs_multiplicities_len",
            "occt_get_nurbs_poles", "occt_get_nurbs_poles_len",
            "occt_get_nurbs_weights", "occt_get_nurbs_weights_len",
        ],
        ResultGroup::Evolution => vec![
            "occt_get_evo_result_id", "occt_get_evo_modified", "occt_get_evo_modified_len",
            "occt_get_evo_generated", "occt_get_evo_generated_len",
            "occt_get_evo_deleted", "occt_get_evo_deleted_len",
        ],
        ResultGroup::Projection => vec![
            "occt_get_proj_visible_outline", "occt_get_proj_visible_smooth",
            "occt_get_proj_visible_sharp", "occt_get_proj_hidden_outline",
            "occt_get_proj_hidden_smooth", "occt_get_proj_hidden_sharp",
        ],
        ResultGroup::LabelInfo => vec![
            "occt_get_label_info_label_id", "occt_get_label_info_name",
            "occt_get_label_info_name_len", "occt_get_label_info_has_color",
            "occt_get_label_info_r", "occt_get_label_info_g", "occt_get_label_info_b",
            "occt_get_label_info_is_assembly", "occt_get_label_info_is_component",
            "occt_get_label_info_shape_id",
        ],
    };
    assert(strs_view(v@) =~= group_exports(g));
    v
}


// ---------------------------------------------------------------------------
// Names
// ---------------------------------------------------------------------------

/// The snake_case form of a camelCase name, as characters.
fn snake_case_chars(name: &[char]) -> (out: Vec<char>)
    ensures
        out@ == snake_case(name@),
{
    let mut out: Vec<char> = Vec::new();
    let mut i: usize = 0;
    while i < name.len()
        invariant
            i <= name@.len(),
            out@ == snake_case(name@.take(i as int)),
        decreases name@.len() - i,
    {
        let c = name[i];
        let code = c as u32;
        let ghost before = out@;
        if 65 <= code && code <= 90 {
            if i > 0 {
                out.push('_');
            }
            let lower = ((code + 32) as u8) as char;
            assert(lower == ascii_lower(c));
            out.push(lower);
        } else {
            out.push(c);
        }
        assert(name@.take(i + 1).drop_last() =~= name@.take(i as int));
        assert(out@ =~= before + snake_chunk(c, i == 0));
        i = i + 1;
    }
    assert(name@.take(name@.len() as int) =~= name@);
    out
}

/// The snake_case form of a camelCase method name: every ASCII capital
/// becomes its lower-case letter, preceded by `_` unless it opens the name.
pub fn camel_to_snake(name: &str) -> (out: String)
    ensures
        out@ == snake_case(name@),
{
    let chars = chars_of(name);
    let snake = snake_case_chars(chars.as_slice());
    string_from_chars(snake.as_slice())
}

/// The wrapper export of a method name, as characters.
fn export_name_chars(name: &str) -> (out: Vec<char>)
    ensures
        out@ == export_name(name@),
{
    let mut out = chars_of("occt_");
    let chars = chars_of(name);
    let snake = snake_case_chars(chars.as_slice());
    let ghost prefix = out@;
    let mut i: usize = 0;
    while i < snake.len()
        invariant
            i <= snake@.len(),
            out@ == prefix + snake@.take(i as int),
            prefix == "occt_"@,
            snake@ == snake_case(name@),
        decreases snake@.len() - i,
    {
        out.push(snake[i]);
        assert(snake@.take(i + 1) =~= snake@.take(i as int).push(snake@[i as int]));
        i = i + 1;
    }
    assert(snake@.take(snake@.len() as int) =~= snake@);
    out
}

/// Whether `x` is among the strings of `list`.
fn strings_contain(list: &Vec<String>, x: &[char]) -> (r: bool)
    ensures
        r == strings_view(list@).contains(x@),
{
    let mut i: usize = 0;
    while i < list.len()
        invariant
            i <= list@.len(),
            forall|k: int| 0 <= k < i ==> list@[k]@ != x@,
        decreases list@.len() - i,
    {
        let item = chars_of(list[i].as_str());
        if chars_eq(item.as_slice(), x) {
            assert(strings_view(list@)[i as int] == x@);
            return true;
        }
        i = i + 1;
    }
    assert forall|k: int| 0 <= k < strings_view(list@).len() implies strings_view(list@)[k] != x@ by {}
    false
}

/// Whether a specification is emitted in some profile: it is not `Skip`,
/// and its category is not `"marshal"`.
pub fn spec_is_emitted(spec: &MethodSpec) -> (r: bool)
    ensures
        r == is_emitted(spec@),
{
    if spec.kind == MethodKind::Skip {
        return false;
    }
    let category = chars_of(spec.category.as_str());
    let marshal = chars_of("marshal");
    !chars_eq(category.as_slice(), marshal.as_slice())
}

/// Whether the policy leaves a specification out: its category is an
/// optional category, or its name is an optional specification name.
pub fn spec_is_optional(spec: &MethodSpec, policy: &OptionalPolicy) -> (r: bool)
    ensures
        r == is_optional(spec@, strings_view(policy.categories@), strings_view(policy.specs@)),
{
    let category = chars_of(spec.category.as_str());
    let name = chars_of(spec.name.as_str());
    strings_contain(&policy.categories, category.as_slice())
        || strings_contain(&policy.specs, name.as_slice())
}


// ---------------------------------------------------------------------------
// Validation
// ---------------------------------------------------------------------------

/// The character sequences of a sequence of character vectors.
pub open spec fn chars_view(v: Seq<Vec<char>>) -> Seq<Seq<char>> {
    Seq::new(v.len(), |k: int| v[k]@)
}

/// Whether `x` is among the character vectors of `list`.
fn chars_list_contain(list: &Vec<Vec<char>>, x: &[char]) -> (r: bool)
    ensures
        r == chars_view(list@).contains(x@),
{
    let mut i: usize = 0;
    while i < list.len()
        invariant
            i <= list@.len(),
            forall|k: int| 0 <= k < i ==> list@[k]@ != x@,
        decreases list@.len() - i,
    {
        if chars_eq(list[i].as_slice(), x) {
            assert(chars_view(list@)[i as int] == x@);
            return true;
        }
        i = i + 1;
    }
    assert forall|k: int| 0 <= k < chars_view(list@).len() implies chars_view(list@)[k] != x@ by {}
    false
}

/// Every reserved export name: the lifecycle exports, then the accessor
/// exports of every group.
fn reserved_names() -> (out: Vec<Vec<char>>)
    ensures
        chars_view(out@) == lifecycle_exports() + all_accessor_exports_upto(12),
{
    let mut out: Vec<Vec<char>> = Vec::new();
    let lifecycle = lifecycle_export_names();
    assert(lifecycle_exports().len() == 7);
    assert(lifecycle@.len() == strs_view(lifecycle@).len());
    let mut i: usize = 0;
    while i < lifecycle.len()
        invariant
            i <= lifecycle@.len(),
            strs_view(lifecycle@) == lifecycle_exports(),
            lifecycle@.len() == 7,
            out@.len() == i,
            chars_view(out@) == lifecycle_exports().take(i as int),
        decreases lifecycle@.len() - i,
    {
        let ghost before = out@;
        let name = chars_of(lifecycle[i]);
        assert(name@ == lifecycle_exports()[i as int]);
        out.push(name);
        assert forall|m: int| 0 <= m < i + 1 implies #[trigger] chars_view(out@)[m] == lifecycle_exports().take(i + 1)[m] by {
            if m < i {
                assert(out@[m] == before[m]);
                assert(chars_view(before)[m] == lifecycle_exports().take(i as int)[m]);
            }
        }
        assert(chars_view(out@) =~= lifecycle_exports().take(i + 1));
        i = i + 1;
    }
    assert(lifecycle_exports().take(7) =~= lifecycle_exports());
    assert(all_accessor_exports_upto(0) =~= Seq::<Seq<char>>::empty());
    assert(chars_view(out@) =~= lifecycle_exports() + all_accessor_exports_upto(0));
    let groups = accessor_group_list();
    let mut k: usize = 0;
    while k < groups.len()
        invariant
            k <= groups@.len(),
            groups@ == accessor_groups(),
            chars_view(out@) == lifecycle_exports() + all_accessor_exports_upto(k as nat),
        decreases groups@.len() - k,
    {
        let names = group_export_names(groups[k]);
        let ghost before = chars_view(out@);
        let mut j: usize = 0;
        while j < names.len()
            invariant
                j <= names@.len(),
                k < groups@.len(),
                strs_view(names@) == group_exports(groups@[k as int]),
                chars_view(out@) == before + group_exports(groups@[k as int]).take(j as int),
                out@.len() == before.len() + j,
                names@.len() == group_exports(groups@[k as int]).len(),
            decreases names@.len() - j,
        {
            let ghost prev = out@;
            let name = chars_of(names[j]);
            assert(name@ == group_exports(groups@[k as int])[j as int]);
            out.push(name);
            assert forall|m: int| 0 <= m < prev.len() implies #[trigger] chars_view(out@)[m] == chars_view(prev)[m] by {
                assert(out@[m] == prev[m]);
            }
            assert(chars_view(out@) =~= before + group_exports(groups@[k as int]).take(j + 1));
            j = j + 1;
        }
        assert(group_exports(groups@[k as int]).take(names@.len() as int) =~= group_exports(groups@[k as int]));
        assert(chars_view(out@) =~= lifecycle_exports() + all_accessor_exports_upto((k + 1) as nat));
        k = k + 1;
    }
    out
}

/// The wrapper export of every specification, and whether it is emitted.
fn spec_exports(specs: &Vec<MethodSpec>) -> (r: (Vec<Vec<char>>, Vec<bool>))
    ensures
        r.0@.len() == specs@.len(),
        r.1@.len() == specs@.len(),
        forall|i: int| 0 <= i < specs@.len() ==> #[trigger] r.0@[i]@ == export_name(specs@[i].name@),
        forall|i: int| 0 <= i < specs@.len() ==> #[trigger] r.1@[i] == is_emitted(specs@[i]@),
{
    let mut exports: Vec<Vec<char>> = Vec::new();
    let mut emitted: Vec<bool> = Vec::new();
    let mut i: usize = 0;
    while i < specs.len()
        invariant
            i <= specs@.len(),
            exports@.len() == i,
            emitted@.len() == i,
            forall|k: int| 0 <= k < i ==> #[trigger] exports@[k]@ == export_name(specs@[k].name@),
            forall|k: int| 0 <= k < i ==> #[trigger] emitted@[k] == is_emitted(specs@[k]@),
        decreases specs@.len() - i,
    {
        exports.push(export_name_chars(specs[i].name.as_str()));
        emitted.push(spec_is_emitted(&specs[i]));
        i = i + 1;
    }
    (exports, emitted)
}

/// The first optional category that no specification belongs to, if any.
fn find_unknown_category(specs: &Vec<MethodSpec>, policy: &OptionalPolicy) -> (r: Option<String>)
    ensures
        r is None <==> categories_known(specs_view(specs@), strings_view(policy.categories@)),
        r matches Some(c) ==> {
            &&& strings_view(policy.categories@).contains(c@)
            &&& !has_category(specs_view(specs@), c@)
        },
{
    let ghost sv = specs_view(specs@);
    let ghost cats = strings_view(policy.categories@);
    let mut k: usize = 0;
    while k < policy.categories.len()
        invariant
            k <= policy.categories@.len(),
            sv == specs_view(specs@),
            cats == strings_view(policy.categories@),
            forall|m: int| 0 <= m < k ==> #[trigger] has_category(sv, cats[m]),
        decreases policy.categories@.len() - k,
    {
        let wanted = chars_of(policy.categories[k].as_str());
        let mut found = false;
        let mut i: usize = 0;
        while i < specs.len()
            invariant
                i <= specs@.len(),
                sv == specs_view(specs@),
                k < cats.len(),
                wanted@ == cats[k as int],
                cats == strings_view(policy.categories@),
                forall|m: int| 0 <= m < k ==> #[trigger] has_category(sv, cats[m]),
                found ==> has_category(sv, cats[k as int]),
                !found ==> forall|j: int| 0 <= j < i ==> #[trigger] specs@[j].category@ != wanted@,
            decreases specs@.len() - i,
        {
            let category = chars_of(specs[i].category.as_str());
            if chars_eq(category.as_slice(), wanted.as_slice()) {
                assert(sv[i as int].category == cats[k as int]);
                found = true;
            }
            i = i + 1;
        }
        if !found {
            assert forall|j: int| 0 <= j < sv.len() implies sv[j].category != wanted@ by {
                assert(sv[j].category == specs@[j].category@);
            }
            assert(!has_category(sv, cats[k as int]));
            let c = policy.categories[k].clone();
            assert(cats[k as int] == c@);
            assert(cats.contains(c@));
            return Some(c);
        }
        k = k + 1;
    }
    None
}

/// The first optional specification name that no specification carries,
/// if any.
fn find_unknown_spec(specs: &Vec<MethodSpec>, policy: &OptionalPolicy) -> (r: Option<String>)
    ensures
        r is None <==> names_known(specs_view(specs@), strings_view(policy.specs@)),
        r matches Some(n) ==> {
            &&& strings_view(policy.specs@).contains(n@)
            &&& !has_name(specs_view(specs@), n@)
        },
{
    let ghost sv = specs_view(specs@);
    let ghost nms = strings_view(policy.specs@);
    let mut k: usize = 0;
    while k < policy.specs.len()
        invariant
            k <= policy.specs@.len(),
            sv == specs_view(specs@),
            nms == strings_view(policy.specs@),
            forall|m: int| 0 <= m < k ==> #[trigger] has_name(sv, nms[m]),
        decreases policy.specs@.len() - k,
    {
        let wanted = chars_of(policy.specs[k].as_str());
        let mut found = false;
        let mut i: usize = 0;
        while i < specs.len()
            invariant
                i <= specs@.len(),
                sv == specs_view(specs@),
                k < nms.len(),
                wanted@ == nms[k as int],
                nms == strings_view(policy.specs@),
                forall|m: int| 0 <= m < k ==> #[trigger] has_name(sv, nms[m]),
                found ==> has_name(sv, nms[k as int]),
                !found ==> forall|j: int| 0 <= j < i ==> #[trigger] specs@[j].name@ != wanted@,
            decreases specs@.len() - i,
        {
            let name = chars_of(specs[i].name.as_str());
            if chars_eq(name.as_slice(), wanted.as_slice()) {
                assert(sv[i as int].name == nms[k as int]);
                found = true;
            }
            i = i + 1;
        }
        if !found {
            assert forall|j: int| 0 <= j < sv.len() implies sv[j].name != wanted@ by {
                assert(sv[j].name == specs@[j].name@);
            }
            assert(!has_name(sv, nms[k as int]));
            let n = policy.specs[k].clone();
            assert(nms[k as int] == n@);
            assert(nms.contains(n@));
            return Some(n);
        }
        k = k + 1;
    }
    None
}


/// Membership in a concatenation is membership in one of its parts.
proof fn lemma_concat_contains(a: Seq<Seq<char>>, b: Seq<Seq<char>>, x: Seq<char>)
    ensures
        (a + b).contains(x) <==> (a.contains(x) || b.contains(x)),
{
    if (a + b).contains(x) {
        let k = choose|k: int| 0 <= k < (a + b).len() && (a + b)[k] == x;
        if k < a.len() {
            assert(a[k] == x);
        } else {
            assert(b[k - a.len()] == x);
        }
    }
    if a.contains(x) {
        let k = choose|k: int| 0 <= k < a.len() && a[k] == x;
        assert((a + b)[k] == x);
    }
    if b.contains(x) {
        let k = choose|k: int| 0 <= k < b.len() && b[k] == x;
        assert((a + b)[k + a.len()] == x);
    }
}

/// The first emitted specification whose wrapper export is reserved, if any.
fn find_reserved_export(specs: &Vec<MethodSpec>, exports: &Vec<Vec<char>>, emitted: &Vec<bool>) -> (r: Option<String>)
    requires
        exports@.len() == specs@.len(),
        emitted@.len() == specs@.len(),
        forall|i: int| 0 <= i < specs@.len() ==> #[trigger] exports@[i]@ == export_name(specs@[i].name@),
        forall|i: int| 0 <= i < specs@.len() ==> #[trigger] emitted@[i] == is_emitted(specs@[i]@),
    ensures
        r is None <==> none_reserved(specs_view(specs@)),
        r matches Some(n) ==> {
            &&& is_reserved(n@)
            &&& exists|i: int| 0 <= i < specs@.len() && #[trigger] is_emitted(specs_view(specs@)[i])
                && export_name(specs_view(specs@)[i].name) == n@
        },
{
    let ghost sv = specs_view(specs@);
    let reserved = reserved_names();
    let mut i: usize = 0;
    while i < specs.len()
        invariant
            i <= specs@.len(),
            sv == specs_view(specs@),
            exports@.len() == specs@.len(),
            emitted@.len() == specs@.len(),
            forall|m: int| 0 <= m < specs@.len() ==> #[trigger] exports@[m]@ == export_name(specs@[m].name@),
            forall|m: int| 0 <= m < specs@.len() ==> #[trigger] emitted@[m] == is_emitted(specs@[m]@),
            chars_view(reserved@) == lifecycle_exports() + all_accessor_exports_upto(12),
            forall|m: int| 0 <= m < i && #[trigger] is_emitted(sv[m]) ==> !is_reserved(export_name(sv[m].name)),
        decreases specs@.len() - i,
    {
        proof {
            lemma_concat_contains(lifecycle_exports(), all_accessor_exports_upto(12), exports@[i as int]@);
        }
        assert(sv[i as int] == specs@[i as int]@);
        if emitted[i] && chars_list_contain(&reserved, exports[i].as_slice()) {
            let n = string_from_chars(exports[i].as_slice());
            assert(is_emitted(sv[i as int]));
            return Some(n);
        }
        i = i + 1;
    }
    None
}

/// The first wrapper export shared by two emitted specifications, if any.
fn find_duplicate_export(specs: &Vec<MethodSpec>, exports: &Vec<Vec<char>>, emitted: &Vec<bool>) -> (r: Option<String>)
    requires
        exports@.len() == specs@.len(),
        emitted@.len() == specs@.len(),
        forall|i: int| 0 <= i < specs@.len() ==> #[trigger] exports@[i]@ == export_name(specs@[i].name@),
        forall|i: int| 0 <= i < specs@.len() ==> #[trigger] emitted@[i] == is_emitted(specs@[i]@),
    ensures
        r is None <==> exports_distinct(specs_view(specs@)),
        r matches Some(n) ==> exists|i: int, j: int|
            0 <= i < j < specs@.len() && #[trigger] is_emitted(specs_view(specs@)[i])
                && #[trigger] is_emitted(specs_view(specs@)[j])
                && export_name(specs_view(specs@)[i].name) == n@
                && export_name(specs_view(specs@)[j].name) == n@,
{
    let ghost sv = specs_view(specs@);
    let mut i: usize = 0;
    while i < specs.len()
        invariant
            i <= specs@.len(),
            sv == specs_view(specs@),
            exports@.len() == specs@.len(),
            emitted@.len() == specs@.len(),
            forall|m: int| 0 <= m < specs@.len() ==> #[trigger] exports@[m]@ == export_name(specs@[m].name@),
            forall|m: int| 0 <= m < specs@.len() ==> #[trigger] emitted@[m] == is_emitted(specs@[m]@),
            forall|a: int, b: int|
                0 <= a < i && a < b < sv.len() && #[trigger] is_emitted(sv[a]) && #[trigger] is_emitted(sv[b])
                    ==> export_name(sv[a].name) != export_name(sv[b].name),
        decreases specs@.len() - i,
    {
        let mut j: usize = i + 1;
        while j < specs.len()
            invariant
                i < specs@.len(),
                i + 1 <= j <= specs@.len(),
                sv == specs_view(specs@),
                exports@.len() == specs@.len(),
                emitted@.len() == specs@.len(),
                forall|m: int| 0 <= m < specs@.len() ==> #[trigger] exports@[m]@ == export_name(specs@[m].name@),
                forall|m: int| 0 <= m < specs@.len() ==> #[trigger] emitted@[m] == is_emitted(specs@[m]@),
                forall|a: int, b: int|
                    0 <= a < i && a < b < sv.len() && #[trigger] is_emitted(sv[a]) && #[trigger] is_emitted(sv[b])
                        ==> export_name(sv[a].name) != export_name(sv[b].name),
                forall|b: int|
                    i < b < j && #[trigger] is_emitted(sv[b]) && is_emitted(sv[i as int])
                        ==> export_name(sv[i as int].name) != export_name(sv[b].name),
            decreases specs@.len() - j,
        {
            assert(sv[i as int] == specs@[i as int]@);
            assert(sv[j as int] == specs@[j as int]@);
            if emitted[i] && emitted[j] && chars_eq(exports[i].as_slice(), exports[j].as_slice()) {
                let n = string_from_chars(exports[i].as_slice());
                assert(is_emitted(sv[i as int]) && is_emitted(sv[j as int]));
                return Some(n);
            }
            j = j + 1;
        }
        assert forall|a: int, b: int|
            0 <= a < i + 1 && a < b < sv.len() && #[trigger] is_emitted(sv[a]) && #[trigger] is_emitted(sv[b])
                implies export_name(sv[a].name) != export_name(sv[b].name) by {
            if a == i as int {
                assert(i < b < j);
            }
        }
        i = i + 1;
    }
    None
}


// ---------------------------------------------------------------------------
// Derivation
// ---------------------------------------------------------------------------

/// Whether some core specification returns through `g`.
fn group_is_required(specs: &Vec<MethodSpec>, policy: &OptionalPolicy, emitted: &Vec<bool>, g: ResultGroup) -> (r: bool)
    requires
        emitted@.len() == specs@.len(),
        forall|i: int| 0 <= i < specs@.len() ==> #[trigger] emitted@[i] == is_emitted(specs@[i]@),
    ensures
        r == group_required(specs_view(specs@), strings_view(policy.categories@), strings_view(policy.specs@), g),
{
    let ghost sv = specs_view(specs@);
    let ghost cats = strings_view(policy.categories@);
    let ghost nms = strings_view(policy.specs@);
    let mut i: usize = 0;
    while i < specs.len()
        invariant
            i <= specs@.len(),
            sv == specs_view(specs@),
            cats == strings_view(policy.categories@),
            nms == strings_view(policy.specs@),
            emitted@.len() == specs@.len(),
            forall|m: int| 0 <= m < specs@.len() ==> #[trigger] emitted@[m] == is_emitted(specs@[m]@),
            forall|m: int| 0 <= m < i ==> !(#[trigger] is_core(sv[m], cats, nms) && sv[m].result == g),
        decreases specs@.len() - i,
    {
        assert(sv[i as int] == specs@[i as int]@);
        if emitted[i] && !spec_is_optional(&specs[i], policy) && specs[i].result == g {
            assert(is_core(sv[i as int], cats, nms) && sv[i as int].result == g);
            return true;
        }
        i = i + 1;
    }
    false
}

/// Append `names`, as strings, to `out`.
fn push_names(out: &mut Vec<String>, names: &Vec<&'static str>)
    ensures
        strings_view(final(out)@) == strings_view(old(out)@) + strs_view(names@),
{
    let ghost start = strings_view(out@);
    let mut j: usize = 0;
    while j < names.len()
        invariant
            j <= names@.len(),
            strings_view(out@) == start + strs_view(names@).take(j as int),
            out@.len() == start.len() + j,
        decreases names@.len() - j,
    {
        let ghost prev = out@;
        let name = string_from_chars(chars_of(names[j]).as_slice());
        out.push(name);
        assert forall|m: int| 0 <= m < prev.len() implies #[trigger] strings_view(out@)[m] == strings_view(prev)[m] by {
            assert(out@[m] == prev[m]);
        }
        assert(strings_view(out@) =~= start + strs_view(names@).take(j + 1));
        j = j + 1;
    }
    assert(strs_view(names@).take(names@.len() as int) =~= strs_view(names@));
}

/// The export names of the minimal profile: the lifecycle exports, then one
/// `occt_<snake_name>` wrapper per core specification in specification
/// order, then the accessor exports of every result group that some core
/// specification returns through.
///
/// The specification set and policy are checked first: every optional
/// category and specification name must exist, no emitted wrapper may
/// shadow a lifecycle or accessor export, and no two emitted specifications
/// may produce the same wrapper.
pub fn minimal_export_names(specs: &Vec<MethodSpec>, policy: &OptionalPolicy) -> (r: Result<Vec<String>, SpecError>)
    ensures
        r is Ok <==> spec_set_valid(
            specs_view(specs@),
            strings_view(policy.categories@),
            strings_view(policy.specs@),
        ),
        r matches Ok(out) ==> strings_view(out@) == minimal_exports(
            specs_view(specs@),
            strings_view(policy.categories@),
            strings_view(policy.specs@),
        ),
        r matches Err(e) ==> error_explains(
            e,
            specs_view(specs@),
            strings_view(policy.categories@),
            strings_view(policy.specs@),
        ),
{
    let ghost sv = specs_view(specs@);
    let ghost cats = strings_view(policy.categories@);
    let ghost nms = strings_view(policy.specs@);
    if let Some(c) = find_unknown_category(specs, policy) {
        return Err(SpecError::UnknownOptionalCategory(c));
    }
    if let Some(n) = find_unknown_spec(specs, policy) {
        return Err(SpecError::UnknownOptionalSpec(n));
    }
    let (exports, emitted) = spec_exports(specs);
    if let Some(n) = find_reserved_export(specs, &exports, &emitted) {
        return Err(SpecError::ReservedExport(n));
    }
    if let Some(n) = find_duplicate_export(specs, &exports, &emitted) {
        return Err(SpecError::DuplicateExport(n));
    }

    let mut out: Vec<String> = Vec::new();
    let lifecycle = lifecycle_export_names();
    push_names(&mut out, &lifecycle);
    assert(strings_view(out@) =~= lifecycle_exports());

    let mut i: usize = 0;
    while i < specs.len()
        invariant
            i <= specs@.len(),
            sv == specs_view(specs@),
            cats == strings_view(policy.categories@),
            nms == strings_view(policy.specs@),
            exports@.len() == specs@.len(),
            emitted@.len() == specs@.len(),
            forall|m: int| 0 <= m < specs@.len() ==> #[trigger] exports@[m]@ == export_name(specs@[m].name@),
            forall|m: int| 0 <= m < specs@.len() ==> #[trigger] emitted@[m] == is_emitted(specs@[m]@),
            strings_view(out@) == lifecycle_exports() + wrapper_exports(sv.take(i as int), cats, nms),
        decreases specs@.len() - i,
    {
        assert(sv.take(i + 1).drop_last() =~= sv.take(i as int));
        assert(sv.take(i + 1).last() == specs@[i as int]@);
        let ghost prev = out@;
        if emitted[i] && !spec_is_optional(&specs[i], policy) {
            out.push(string_from_chars(exports[i].as_slice()));
            assert forall|m: int| 0 <= m < prev.len() implies #[trigger] strings_view(out@)[m] == strings_view(prev)[m] by {
                assert(out@[m] == prev[m]);
            }
            assert(strings_view(out@) =~= strings_view(prev).push(export_name(sv[i as int].name)));
        }
        i = i + 1;
    }
    assert(sv.take(specs@.len() as int) =~= sv);
    let ghost with_wrappers = strings_view(out@);
    assert(with_wrappers == lifecycle_exports() + wrapper_exports(sv, cats, nms));

    let groups = accessor_group_list();
    let mut k: usize = 0;
    assert(accessor_exports_upto(sv, cats, nms, 0) =~= Seq::<Seq<char>>::empty());
    assert(with_wrappers =~= with_wrappers + accessor_exports_upto(sv, cats, nms, 0));
    while k < groups.len()
        invariant
            k <= groups@.len(),
            groups@ == accessor_groups(),
            sv == specs_view(specs@),
            cats == strings_view(policy.categories@),
            nms == strings_view(policy.specs@),
            emitted@.len() == specs@.len(),
            forall|m: int| 0 <= m < specs@.len() ==> #[trigger] emitted@[m] == is_emitted(specs@[m]@),
            strings_view(out@) == with_wrappers + accessor_exports_upto(sv, cats, nms, k as nat),
        decreases groups@.len() - k,
    {
        let g = groups[k];
        if group_is_required(specs, policy, &emitted, g) {
            let names = group_export_names(g);
            push_names(&mut out, &names);
        }
        assert(strings_view(out@) =~= with_wrappers + accessor_exports_upto(sv, cats, nms, (k + 1) as nat));
        k = k + 1;
    }
    Ok(out)
}


// ---------------------------------------------------------------------------
// Laws
// ---------------------------------------------------------------------------

/// The wrapper part holds exactly the exports of core specifications.
proof fn lemma_wrapper_exports_members(
    specs: Seq<MethodSpecView>,
    cats: Seq<Seq<char>>,
    names: Seq<Seq<char>>,
    x: Seq<char>,
)
    ensures
        wrapper_exports(specs, cats, names).contains(x) <==> exists|i: int|
            0 <= i < specs.len() && #[trigger] is_core(specs[i], cats, names) && export_name(specs[i].name) == x,
    decreases specs.len(),
{
    if specs.len() > 0 {
        let init = specs.drop_last();
        lemma_wrapper_exports_members(init, cats, names, x);
        let rest = wrapper_exports(init, cats, names);
        let last = specs.last();
        if wrapper_exports(specs, cats, names).contains(x) {
            if is_core(last, cats, names) && !rest.contains(x) {
                let k = choose|k: int| 0 <= k < rest.push(export_name(last.name)).len()
                    && rest.push(export_name(last.name))[k] == x;
                if k < rest.len() {
                    assert(rest[k] == x);
                }
                assert(is_core(specs[specs.len() - 1], cats, names));
            } else if rest.contains(x) {
                let i = choose|i: int| 0 <= i < init.len() && #[trigger] is_core(init[i], cats, names) && export_name(init[i].name) == x;
                assert(specs[i] == init[i]);
                assert(is_core(specs[i], cats, names));
            }
        }
        if exists|i: int| 0 <= i < specs.len() && #[trigger] is_core(specs[i], cats, names) && export_name(specs[i].name) == x {
            let i = choose|i: int| 0 <= i < specs.len() && #[trigger] is_core(specs[i], cats, names) && export_name(specs[i].name) == x;
            if i == specs.len() - 1 {
                let full = rest.push(export_name(last.name));
                assert(full[rest.len() as int] == x);
            } else {
                assert(init[i] == specs[i]);
                assert(is_core(init[i], cats, names));
                assert(rest.contains(x));
                if is_core(last, cats, names) {
                    let k = choose|k: int| 0 <= k < rest.len() && rest[k] == x;
                    assert(rest.push(export_name(last.name))[k] == x);
                }
            }
        }
    }
}

/// Whatever the accessor part holds is some accessor export.
proof fn lemma_accessor_exports_reserved(
    specs: Seq<MethodSpecView>,
    cats: Seq<Seq<char>>,
    names: Seq<Seq<char>>,
    k: nat,
    x: Seq<char>,
)
    requires
        k <= 12,
        accessor_exports_upto(specs, cats, names, k).contains(x),
    ensures
        all_accessor_exports_upto(k).contains(x),
        exists|m: int| 0 <= m < k && #[trigger] group_required(specs, cats, names, accessor_groups()[m])
            && group_exports(accessor_groups()[m]).contains(x),
    decreases k,
{
    let g = accessor_groups()[k - 1];
    let rest = accessor_exports_upto(specs, cats, names, (k - 1) as nat);
    let all_rest = all_accessor_exports_upto((k - 1) as nat);
    lemma_concat_contains(all_rest, group_exports(g), x);
    if group_required(specs, cats, names, g) {
        lemma_concat_contains(rest, group_exports(g), x);
        if rest.contains(x) {
            lemma_accessor_exports_reserved(specs, cats, names, (k - 1) as nat, x);
        } else {
            assert(group_required(specs, cats, names, accessor_groups()[k - 1]));
        }
    } else {
        lemma_accessor_exports_reserved(specs, cats, names, (k - 1) as nat, x);
    }
}

/// A required group contributes all its accessor exports.
proof fn lemma_required_group_exported(
    specs: Seq<MethodSpecView>,
    cats: Seq<Seq<char>>,
    names: Seq<Seq<char>>,
    k: nat,
    m: int,
    x: Seq<char>,
)
    requires
        k <= 12,
        0 <= m < k,
        group_required(specs, cats, names, accessor_groups()[m]),
        group_exports(accessor_groups()[m]).contains(x),
    ensures
        accessor_exports_upto(specs, cats, names, k).contains(x),
    decreases k,
{
    let g = accessor_groups()[k - 1];
    let rest = accessor_exports_upto(specs, cats, names, (k - 1) as nat);
    if m == k - 1 {
        lemma_concat_contains(rest, group_exports(g), x);
    } else {
        lemma_required_group_exported(specs, cats, names, (k - 1) as nat, m, x);
        if group_required(specs, cats, names, g) {
            lemma_concat_contains(rest, group_exports(g), x);
        }
    }
}

/// Partition law of the minimal profile: for a valid specification set,
/// an emitted specification's `occt_<snake_name>` export is in the minimal
/// export set exactly when the policy does not make it optional.
pub proof fn law_minimal_set_partitions_by_policy(
    specs: Seq<MethodSpecView>,
    cats: Seq<Seq<char>>,
    names: Seq<Seq<char>>,
    i: int,
)
    requires
        spec_set_valid(specs, cats, names),
        0 <= i < specs.len(),
        is_emitted(specs[i]),
    ensures
        minimal_exports(specs, cats, names).contains(export_name(specs[i].name))
            <==> !is_optional(specs[i], cats, names),
{
    let x = export_name(specs[i].name);
    let lw = lifecycle_exports() + wrapper_exports(specs, cats, names);
    lemma_concat_contains(lw, accessor_exports(specs, cats, names), x);
    lemma_concat_contains(lifecycle_exports(), wrapper_exports(specs, cats, names), x);
    lemma_wrapper_exports_members(specs, cats, names, x);
    if !is_optional(specs[i], cats, names) {
        assert(is_core(specs[i], cats, names));
    } else {
        assert(!is_reserved(x));
        lemma_concat_contains(lifecycle_exports(), all_accessor_exports_upto(12), x);
        if accessor_exports(specs, cats, names).contains(x) {
            lemma_accessor_exports_reserved(specs, cats, names, 12, x);
        }
        if wrapper_exports(specs, cats, names).contains(x) {
            let j = choose|j: int| 0 <= j < specs.len() && #[trigger] is_core(specs[j], cats, names) && export_name(specs[j].name) == x;
            assert(is_emitted(specs[j]));
            if j < i {
                assert(export_name(specs[j].name) != export_name(specs[i].name));
            } else if i < j {
                assert(export_name(specs[i].name) != export_name(specs[j].name));
            }
        }
    }
}

/// The lifecycle and error-protocol exports are in the export set of every
/// specification set.
pub proof fn law_lifecycle_always_exported(
    specs: Seq<MethodSpecView>,
    cats: Seq<Seq<char>>,
    names: Seq<Seq<char>>,
    n: Seq<char>,
)
    requires
        lifecycle_exports().contains(n),
    ensures
        minimal_exports(specs, cats, names).contains(n),
{
    let lw = lifecycle_exports() + wrapper_exports(specs, cats, names);
    lemma_concat_contains(lifecycle_exports(), wrapper_exports(specs, cats, names), n);
    lemma_concat_contains(lw, accessor_exports(specs, cats, names), n);
}

/// Accessor law: the export set holds every accessor export of a result
/// group that some core specification returns through, and an accessor
/// export it holds through the accessor part belongs to such a group.
pub proof fn law_accessor_groups_follow_core_results(
    specs: Seq<MethodSpecView>,
    cats: Seq<Seq<char>>,
    names: Seq<Seq<char>>,
    m: int,
    x: Seq<char>,
)
    requires
        0 <= m < 12,
        group_exports(accessor_groups()[m]).contains(x),
    ensures
        group_required(specs, cats, names, accessor_groups()[m]) ==> minimal_exports(specs, cats, names).contains(x),
        accessor_exports(specs, cats, names).contains(x) ==> exists|k: int|
            0 <= k < 12 && #[trigger] group_required(specs, cats, names, accessor_groups()[k])
                && group_exports(accessor_groups()[k]).contains(x),
{
    let lw = lifecycle_exports() + wrapper_exports(specs, cats, names);
    lemma_concat_contains(lw, accessor_exports(specs, cats, names), x);
    if group_required(specs, cats, names, accessor_groups()[m]) {
        lemma_required_group_exported(specs, cats, names, 12, m, x);
    }
    if accessor_exports(specs, cats, names).contains(x) {
        lemma_accessor_exports_reserved(specs, cats, names, 12, x);
    }
}

/// The specification is wrapped (not `Skip`), outside the Embind-only
/// `"marshal"` category, in no optional category and not optional by name.
pub open spec fn wrapped_core(s: MethodSpecView, cats: Seq<Seq<char>>, names: Seq<Seq<char>>) -> bool {
    &&& s.kind != MethodKind::Skip
    &&& s.category != "marshal"@
    &&& !cats.contains(s.category)
    &&& !names.contains(s.name)
}

/// The specification is [`wrapped_core`] and hands its value back
/// through `g`.
pub open spec fn wrapped_core_result(s: MethodSpecView, cats: Seq<Seq<char>>, names: Seq<Seq<char>>, g: ResultGroup) -> bool {
    wrapped_core(s, cats, names) && s.result == g
}

/// A wrapper export is in the wrapper set exactly when some wrapped
/// specification outside `"marshal"` and outside the policy is named to
/// it: `Skip`, `"marshal"` and optional specifications get no wrapper.
pub proof fn law_wrappers_are_the_wrapped_core_specs(specs: Seq<MethodSpecView>, cats: Seq<Seq<char>>, names: Seq<Seq<char>>, x: Seq<char>)
    ensures
        wrapper_exports(specs, cats, names).contains(x) <==> exists|i: int|
            0 <= i < specs.len() && #[trigger] wrapped_core(specs[i], cats, names) && export_name(specs[i].name) == x,
{
    lemma_wrapper_exports_members(specs, cats, names, x);
    if wrapper_exports(specs, cats, names).contains(x) {
        let i = choose|i: int| 0 <= i < specs.len() && #[trigger] is_core(specs[i], cats, names) && export_name(specs[i].name) == x;
        assert(wrapped_core(specs[i], cats, names));
    }
    if exists|i: int| 0 <= i < specs.len() && #[trigger] wrapped_core(specs[i], cats, names) && export_name(specs[i].name) == x {
        let i = choose|i: int| 0 <= i < specs.len() && #[trigger] wrapped_core(specs[i], cats, names) && export_name(specs[i].name) == x;
        assert(is_core(specs[i], cats, names));
    }
}

/// An accessor export of a group is in the minimal export set when some
/// wrapped specification outside `"marshal"` and outside the policy returns
/// through that group; and an accessor export is there only when some such
/// specification returns through a group that has it. A `"marshal"` or
/// `Skip` specification, or an optional one, never brings accessors in.
pub proof fn law_accessor_exports_need_a_wrapped_core_result(
    specs: Seq<MethodSpecView>,
    cats: Seq<Seq<char>>,
    names: Seq<Seq<char>>,
    m: int,
    x: Seq<char>,
)
    requires
        0 <= m < 12,
        group_exports(accessor_groups()[m]).contains(x),
    ensures
        (exists|i: int| 0 <= i < specs.len() && #[trigger] wrapped_core_result(specs[i], cats, names, accessor_groups()[m]))
            ==> minimal_exports(specs, cats, names).contains(x),
        accessor_exports(specs, cats, names).contains(x) ==> exists|k: int, i: int|
            #![trigger accessor_groups()[k], specs[i]]
            0 <= k < 12 && 0 <= i < specs.len() && group_exports(accessor_groups()[k]).contains(x)
                && wrapped_core_result(specs[i], cats, names, accessor_groups()[k]),
{
    law_accessor_groups_follow_core_results(specs, cats, names, m, x);
    if exists|i: int| 0 <= i < specs.len() && #[trigger] wrapped_core_result(specs[i], cats, names, accessor_groups()[m]) {
        let i = choose|i: int| 0 <= i < specs.len() && #[trigger] wrapped_core_result(specs[i], cats, names, accessor_groups()[m]);
        assert(is_core(specs[i], cats, names));
        assert(group_required(specs, cats, names, accessor_groups()[m]));
    }
    if accessor_exports(specs, cats, names).contains(x) {
        let k = choose|k: int| 0 <= k < 12 && #[trigger] group_required(specs, cats, names, accessor_groups()[k])
            && group_exports(accessor_groups()[k]).contains(x);
        let i = choose|i: int| 0 <= i < specs.len() && #[trigger] is_core(specs[i], cats, names) && specs[i].result == accessor_groups()[k];
        assert(wrapped_core_result(specs[i], cats, names, accessor_groups()[k]));
    }
}

} // verus!
