//! The closed set of shape kinds the renderer understands.
//!
//! Every shape is unit-sized in its own local space; a world transform and a
//! material are attached to it where the geometry is evaluated.  The set of
//! kinds is deliberately closed: ray intersection and normal computation
//! dispatch exhaustively on this enum.

use vstd::prelude::*;

verus! {

/// A kind of geometric primitive: a unit sphere centered at the local origin,
/// or the local XZ plane with normal +Y.
#[derive(Clone, Copy, Debug, PartialEq, Eq, Structural)]
pub enum ShapeType {
    Sphere,
    Plane,
}

} // verus!
