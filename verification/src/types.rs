//! The values the kernel hands back. Floating-point values are carried as
//! their IEEE-754 bit patterns (`u32` for `f32`, `u64` for `f64`); the
//! application turns them into floats.

use vstd::prelude::*;

verus! {

/// A handle to a shape in the kernel's arena.
#[derive(Clone, Copy, Debug, PartialEq, Eq, Structural)]
pub struct ShapeHandle(pub u32);

impl ShapeHandle {
    /// The handle with the raw arena index `id`.
    pub fn from_raw(id: u32) -> (h: ShapeHandle)
        ensures
            h.0 == id,
    {
        ShapeHandle(id)
    }
}

/// An axis-aligned bounding box; every coordinate is an `f64` bit pattern.
#[derive(Debug)]
pub struct RawBoundingBox {
    pub xmin: u64,
    pub ymin: u64,
    pub zmin: u64,
    pub xmax: u64,
    pub ymax: u64,
    pub zmax: u64,
}

/// A triangle mesh; positions and normals are `f32` bit patterns.
#[derive(Debug)]
pub struct RawMesh {
    pub positions: Vec<u32>,
    pub normals: Vec<u32>,
    pub indices: Vec<u32>,
    pub face_groups: Vec<i32>,
}

/// The meshes of several shapes in one buffer; positions and normals are
/// `f32` bit patterns.
#[derive(Debug)]
pub struct RawMeshBatch {
    pub positions: Vec<u32>,
    pub normals: Vec<u32>,
    pub indices: Vec<u32>,
    pub shape_offsets: Vec<i32>,
}

/// Edge polylines; points are `f32` bit patterns.
#[derive(Debug)]
pub struct RawEdgeData {
    pub points: Vec<u32>,
    pub edge_groups: Vec<i32>,
}

/// A NURBS curve; knots, poles and weights are `f64` bit patterns.
#[derive(Debug)]
pub struct RawNurbsCurve {
    pub degree: i32,
    pub rational: bool,
    pub periodic: bool,
    pub knots: Vec<u64>,
    pub multiplicities: Vec<i32>,
    pub poles: Vec<u64>,
    pub weights: Vec<u64>,
}

/// Which sub-shapes an operation modified, generated and deleted.
#[derive(Debug)]
pub struct EvolutionData {
    pub result_id: u32,
    pub modified: Vec<i32>,
    pub generated: Vec<i32>,
    pub deleted: Vec<i32>,
}

/// The six edge sets of a hidden-line projection.
#[derive(Debug)]
pub struct ProjectionData {
    pub visible_outline: ShapeHandle,
    pub visible_smooth: ShapeHandle,
    pub visible_sharp: ShapeHandle,
    pub hidden_outline: ShapeHandle,
    pub hidden_smooth: ShapeHandle,
    pub hidden_sharp: ShapeHandle,
}

/// A label of an XCAF document; the colour channels are `f64` bit patterns.
#[derive(Debug)]
pub struct RawLabelInfo {
    pub label_id: i32,
    pub name: String,
    pub has_color: bool,
    pub r: u64,
    pub g: u64,
    pub b: u64,
    pub is_assembly: bool,
    pub is_component: bool,
    pub shape_id: u32,
}

} // verus!
