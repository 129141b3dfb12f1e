//! Intersection candidates and the nearest-valid-hit rule.
//!
//! A ray cast against the scene produces a list of candidate intersections.
//! Exactly one rule picks the visible one everywhere in the renderer — for
//! shading and for shadow tests alike: the hit is a candidate with the
//! smallest non-negative ray parameter, and there is no hit when every
//! candidate lies behind the ray's origin.
//!
//! The ray parameter `t` is recorded as a signed integer key.  The selection
//! rule reads nothing of `t` but its order and its sign, so any encoding of
//! the geometric parameter that preserves both (for instance a fixed scaling,
//! or the order-preserving bit encoding of a finite binary float) works; the
//! key is total, so no invalid parameter value can be constructed.

use vstd::prelude::*;

verus! {

/// One intersection candidate: the ray parameter at which the ray meets a
/// shape, and the index of that shape in the scene's object list.
#[derive(Clone, Copy, Debug, PartialEq, Eq, Structural)]
pub struct Intersection {
    t: i64,
    shape: usize,
}

impl Intersection {
    /// Record that the ray meets object number `shape` at parameter `t`.
    pub fn new(t: i64, shape: usize) -> (r: Intersection)
        ensures
            r.t_key() == t,
            r.object_index() == shape,
    {
        Intersection { t, shape }
    }

    /// The ray parameter of this candidate.
    pub closed spec fn t_key(self) -> i64 {
        self.t
    }

    /// The index of the intersected object in the scene's object list.
    pub closed spec fn object_index(self) -> usize {
        self.shape
    }

    /// The ray parameter of this candidate.
    pub fn t(&self) -> (r: i64)
        ensures
            r == self.t_key(),
    {
        self.t
    }

    /// The index of the intersected object in the scene's object list.
    pub fn object(&self) -> (r: usize)
        ensures
            r == self.object_index(),
    {
        self.shape
    }

    /// Select the visible hit among the candidates: one with the smallest
    /// non-negative ray parameter, or nothing when every candidate lies
    /// behind the ray (negative parameter).
    pub fn hit(intersections: Vec<Intersection>) -> (r: Option<Intersection>)
        ensures
            match r {
                Some(h) => intersections@.contains(h) && h.t_key() >= 0
                    && forall|i: int|
                        0 <= i < intersections@.len() && (#[trigger] intersections@[i]).t_key() >= 0
                        ==> h.t_key() <= intersections@[i].t_key(),
                None => forall|i: int|
                    0 <= i < intersections@.len() ==> (#[trigger] intersections@[i]).t_key() < 0,
            },
    {
        let mut best: Option<Intersection> = None;
        let mut k: usize = 0;
        while k < intersections.len()
            invariant
                k <= intersections.len(),
                match best {
                    Some(h) => (exists|i: int|
                        0 <= i < k && intersections@[i] == h) && h.t_key() >= 0
                        && forall|i: int|
                            0 <= i < k && (#[trigger] intersections@[i]).t_key() >= 0
                            ==> h.t_key() <= intersections@[i].t_key(),
                    None => forall|i: int|
                        0 <= i < k ==> (#[trigger] intersections@[i]).t_key() < 0,
                },
            decreases intersections.len() - k,
        {
            let cand = intersections[k];
            if cand.t >= 0 {
                match best {
                    Some(h) => {
                        if cand.t < h.t {
                            best = Some(cand);
                        }
                    }
                    None => {
                        best = Some(cand);
                    }
                }
            }
            k = k + 1;
        }
        best
    }
}

} // verus!
