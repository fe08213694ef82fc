//! The engine-side hydration decisions for remotely spawned primitives.
//!
//! The remote protocol stays simple by sending a shape name instead of
//! mesh handles; which mesh and material a tagged entity receives is
//! decided here, and attaching them is the engine host's business.

use vstd::prelude::*;

use crate::text::str_eq;

verus! {

/// Tags an entity that should be rendered as a primitive shape.
pub struct AxiomPrimitive {
    pub primitive_type: String,
}

/// What to attach to one tagged entity: a known shape's mesh, or nothing
/// but a warning for an unknown shape name.
#[derive(Clone, Copy, PartialEq, Eq, Structural, Debug)]
pub enum PrimitiveDecision {
    Cube,
    Sphere,
    Unknown,
}

/// The decision for one shape name.
pub open spec fn decide_primitive(t: Seq<char>) -> PrimitiveDecision {
    if t == "cube"@ {
        PrimitiveDecision::Cube
    } else if t == "sphere"@ {
        PrimitiveDecision::Sphere
    } else {
        PrimitiveDecision::Unknown
    }
}

/// Decides, for every newly tagged primitive in order, which mesh to
/// attach; unknown shape names get nothing and are reported.
pub fn spawn_primitives(added: &Vec<AxiomPrimitive>) -> (r: Vec<PrimitiveDecision>)
    ensures
        r@ == added@.map_values(|p: AxiomPrimitive| decide_primitive(p.primitive_type@)),
{
    let mut r: Vec<PrimitiveDecision> = Vec::new();
    let n = added.len();
    let mut i: usize = 0;
    while i < n
        invariant
            i <= n,
            n == added@.len(),
            r@.len() == i,
            forall|k: int|
                0 <= k < i ==> r@[k] == decide_primitive((#[trigger] added@[k]).primitive_type@),
        decreases n - i,
    {
        let d = if str_eq(added[i].primitive_type.as_str(), "cube") {
            PrimitiveDecision::Cube
        } else if str_eq(added[i].primitive_type.as_str(), "sphere") {
            PrimitiveDecision::Sphere
        } else {
            PrimitiveDecision::Unknown
        };
        r.push(d);
        i = i + 1;
    }
    proof {
        assert(r@ =~= added@.map_values(|p: AxiomPrimitive| decide_primitive(p.primitive_type@)));
    }
    r
}

} // verus!
