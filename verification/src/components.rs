//! Plain entity components of the scene.

use vstd::prelude::*;

verus! {

/// Draw counts of a renderable entity.
#[derive(Clone, Debug, PartialEq, Eq, Structural)]
pub struct Renderable {
    /// Number of vertices to draw.
    pub vertex_count: u32,
    /// Number of indices to draw.
    pub index_count: u32,
}

/// Marker component for triangle entities.
#[derive(Clone, Debug, PartialEq, Eq, Structural)]
pub struct Triangle;

/// The analytic shapes a signed-distance-field entity can take.
#[derive(Clone, Debug, PartialEq, Eq, Structural)]
pub enum SDFShapeType {
    Sphere,
    Box,
    Plane,
    Torus,
    Cylinder,
}

/// Marker component for signed-distance-field entities.
#[derive(Clone, Debug, PartialEq, Eq, Structural)]
pub struct SDFRenderable;

} // verus!
