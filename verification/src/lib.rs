//! Polygon boundaries as ordered, circularly indexed rings of 2D vertices.
//!
//! An [`Outline`] is one closed boundary ring; a [`Polygon`] pairs an outer
//! outline with any number of hole outlines.

use vstd::prelude::*;

mod outline;

pub use outline::Outline;
pub use outline::VerticesOrder;
pub use outline::stored_order;
pub use outline::sub_of;
pub use outline::wrap;
pub use outline::lemma_two_vertex_neighbors;
pub use outline::lemma_vertex_periodic;
pub use outline::lemma_winding_normalization;

verus! {

/// A polygon: one outer boundary outline and zero or more hole outlines.
///
/// The polygon owns its outlines exclusively. Holes are expected (not checked)
/// to wind opposite to the outer boundary once both follow the left-interior
/// convention.
pub struct Polygon {
    pub outline: Outline,
    pub holes: Vec<Outline>,
}

impl Polygon {
    /// Builds a polygon from a pre-built outer outline and hole outlines,
    /// storing both without modification.
    pub fn new(outline: Outline, holes: Vec<Outline>) -> (polygon: Self)
        ensures
            polygon.outline == outline,
            polygon.holes == holes,
    {
        Polygon { outline, holes }
    }
}

} // verus!
