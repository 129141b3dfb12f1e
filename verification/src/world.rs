//! Decision rules of the scene traversal.
//!
//! A world query flattens the candidate intersections of every object into
//! one list and sorts it ascending by ray parameter; callers then pick the
//! visible hit with the shared nearest-valid-hit rule.  The shadow test casts
//! a ray from a surface point toward each light and calls the point occluded
//! from that light when the nearest valid hit lies strictly closer than the
//! light itself; the world-level shadow flag used by shading holds only when
//! every light is occluded at once (a single flag for the whole light list,
//! not a per-light decision).

use vstd::multiset::lemma_multiset_empty_len;
use vstd::prelude::*;
use vstd::seq_lib::to_multiset_build;
use vstd::seq_lib::to_multiset_insert;
use vstd::seq_lib::to_multiset_len;

use crate::intersection::Intersection;

verus! {

/// The accumulating phase of a scene: a builder that collects lights and
/// objects.  Finalizing it with `generate` is one-way; after that the scene
/// can only be queried, never changed.
pub struct World<L, O> {
    lights: Vec<L>,
    objects: Vec<O>,
}

/// The finalized, render-ready scene: the lights and objects exactly as the
/// builder accumulated them, immutable from here on.
pub struct WorldImpl<L, O> {
    lights: Vec<L>,
    objects: Vec<O>,
}

impl<L: Copy, O: Copy> World<L, O> {
    /// The lights collected so far, in the order they were added.
    pub closed spec fn lights_view(self) -> Seq<L> {
        self.lights@
    }

    /// The objects collected so far, in the order they were added.
    pub closed spec fn objects_view(self) -> Seq<O> {
        self.objects@
    }

    /// An empty scene under construction.
    pub fn new() -> (r: World<L, O>)
        ensures
            r.lights_view().len() == 0,
            r.objects_view().len() == 0,
    {
        World { lights: Vec::new(), objects: Vec::new() }
    }

    /// Finalize the scene: the render-ready aggregate holds exactly what was
    /// accumulated, and the builder is consumed.
    pub fn generate(self) -> (r: WorldImpl<L, O>)
        ensures
            r.lights_view() == self.lights_view(),
            r.objects_view() == self.objects_view(),
    {
        WorldImpl { lights: self.lights, objects: self.objects }
    }

    /// Drop every light collected so far, keeping the objects.
    pub fn reset_lights(self) -> (r: World<L, O>)
        ensures
            r.lights_view().len() == 0,
            r.objects_view() == self.objects_view(),
    {
        World { lights: Vec::new(), objects: self.objects }
    }

    /// Add one light source.
    pub fn add_light(self, light: L) -> (r: World<L, O>)
        ensures
            r.lights_view() == self.lights_view().push(light),
            r.objects_view() == self.objects_view(),
    {
        let mut lights = self.lights;
        lights.push(light);
        World { lights, objects: self.objects }
    }

    /// Add one object.
    pub fn add_object(self, object: O) -> (r: World<L, O>)
        ensures
            r.lights_view() == self.lights_view(),
            r.objects_view() == self.objects_view().push(object),
    {
        let mut objects = self.objects;
        objects.push(object);
        World { lights: self.lights, objects }
    }
}

impl<L: Copy, O: Copy> WorldImpl<L, O> {
    /// The scene's lights, in the order they were added.
    pub closed spec fn lights_view(self) -> Seq<L> {
        self.lights@
    }

    /// The scene's objects, in the order they were added.
    pub closed spec fn objects_view(self) -> Seq<O> {
        self.objects@
    }

    /// A copy of the light list.
    pub fn lights(&self) -> (r: Vec<L>)
        ensures
            r@ == self.lights_view(),
    {
        copy_items(&self.lights)
    }

    /// A copy of the object list.
    pub fn objects(&self) -> (r: Vec<O>)
        ensures
            r@ == self.objects_view(),
    {
        copy_items(&self.objects)
    }
}

/// An element-for-element copy of a list.
fn copy_items<T: Copy>(v: &Vec<T>) -> (r: Vec<T>)
    ensures
        r@ == v@,
{
    let mut r: Vec<T> = Vec::new();
    let mut k: usize = 0;
    while k < v.len()
        invariant
            k <= v.len(),
            r@ == v@.subrange(0, k as int),
        decreases v.len() - k,
    {
        r.push(v[k]);
        proof {
            assert(v@.subrange(0, k + 1) =~= v@.subrange(0, k as int).push(v@[k as int]));
        }
        k = k + 1;
    }
    proof {
        assert(v@.subrange(0, v@.len() as int) =~= v@);
    }
    r
}

/// The candidates stand in ascending order of ray parameter.
pub open spec fn sorted_by_t(s: Seq<Intersection>) -> bool {
    forall|i: int, j: int|
        0 <= i <= j < s.len() ==> (#[trigger] s[i]).t_key() <= (#[trigger] s[j]).t_key()
}

/// Sorting stage of a world ray query: order the flattened candidate list
/// ascending by ray parameter, keeping exactly the same candidates.
pub fn sort_intersections(v: Vec<Intersection>) -> (r: Vec<Intersection>)
    ensures
        sorted_by_t(r@),
        r@.to_multiset() == v@.to_multiset(),
{
    broadcast use to_multiset_build;
    broadcast use to_multiset_insert;
    broadcast use to_multiset_len;
    broadcast use lemma_multiset_empty_len;

    let mut r: Vec<Intersection> = Vec::new();
    let mut k: usize = 0;
    proof {
        assert(v@.subrange(0, 0) =~= Seq::<Intersection>::empty());
        assert(r@.to_multiset() =~= v@.subrange(0, 0).to_multiset());
    }
    while k < v.len()
        invariant
            k <= v.len(),
            sorted_by_t(r@),
            r@.to_multiset() == v@.subrange(0, k as int).to_multiset(),
        decreases v.len() - k,
    {
        let x = v[k];
        let mut pos: usize = 0;
        while pos < r.len() && r[pos].t() <= x.t()
            invariant
                pos <= r.len(),
                forall|i: int| 0 <= i < pos ==> (#[trigger] r@[i]).t_key() <= x.t_key(),
            decreases r.len() - pos,
        {
            pos = pos + 1;
        }
        let ghost r_before = r@;
        r.insert(pos, x);
        proof {
            to_multiset_insert(r_before, pos as int, x);
            to_multiset_build(v@.subrange(0, k as int), v@[k as int]);
            assert(v@.subrange(0, k + 1) =~= v@.subrange(0, k as int).push(v@[k as int]));
        }
        k = k + 1;
    }
    proof {
        assert(v@.subrange(0, v@.len() as int) =~= v@);
    }
    r
}

/// The one tie-break rule of the whole renderer, read two ways: on a list in
/// ascending parameter order, the first candidate with a non-negative
/// parameter is a candidate with the smallest non-negative parameter — so
/// scanning a sorted candidate list and applying the nearest-valid-hit rule
/// select the same parameter.
pub proof fn lemma_first_nonnegative_of_sorted_is_hit(s: Seq<Intersection>, i: int)
    requires
        sorted_by_t(s),
        0 <= i < s.len(),
        s[i].t_key() >= 0,
        forall|j: int| 0 <= j < i ==> (#[trigger] s[j]).t_key() < 0,
    ensures
        forall|j: int|
            0 <= j < s.len() && (#[trigger] s[j]).t_key() >= 0 ==> s[i].t_key() <= s[j].t_key(),
{
}

/// One light's occlusion rule: the light is blocked when the shadow ray cast
/// toward it has a valid hit strictly closer than the light's own distance.
pub fn light_occluded(hit: Option<Intersection>, light_distance: i64) -> (r: bool)
    ensures
        r == match hit {
            Some(h) => h.t_key() < light_distance,
            None => false,
        },
{
    match hit {
        Some(h) => h.t() < light_distance,
        None => false,
    }
}

/// The world-level shadow flag: a point counts as shadowed only when it is
/// occluded from every light at once.
pub fn all_lights_occluded(occluded: &Vec<bool>) -> (r: bool)
    ensures
        r == forall|i: int| 0 <= i < occluded@.len() ==> #[trigger] occluded@[i],
{
    let mut k: usize = 0;
    while k < occluded.len()
        invariant
            k <= occluded.len(),
            forall|i: int| 0 <= i < k ==> #[trigger] occluded@[i],
        decreases occluded.len() - k,
    {
        if !occluded[k] {
            return false;
        }
        k = k + 1;
    }
    true
}

} // verus!
