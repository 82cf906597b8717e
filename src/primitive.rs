use vstd::prelude::*;

use crate::distribution::Distribution;
use crate::material::{Material, Reflection};
use crate::scene::{Intersection, Scene, is_time_key};

verus! {

/// Identity of a sphere's surface: whether the ray that left it started
/// inside the sphere or outside.
#[derive(Clone, Copy, PartialEq, Eq, Structural, Debug)]
pub enum SphereSource {
    Inside,
    Outside,
}

/// The signs that decide a ray–sphere query, for the quadratic
/// `a t² + b t + c = 0` with roots `t1 <= t2`.
#[derive(Clone, Copy, PartialEq, Eq, Structural, Debug)]
pub struct SphereRoots {
    /// The discriminant is not negative.
    pub real: bool,
    /// `t1 > 0`.
    pub near_ahead: bool,
    /// `t2 > 0`.
    pub far_ahead: bool,
    /// `c < 0`: the ray starts inside the sphere.
    pub inside: bool,
}

/// Which root of the quadratic is the hit.
#[derive(Clone, Copy, PartialEq, Eq, Structural, Debug)]
pub enum Root {
    Near,
    Far,
}

/// A sphere hit: the root taken and the identity handed to the reflection.
#[derive(Clone, Copy, PartialEq, Eq, Structural, Debug)]
pub struct SphereHit {
    pub root: Root,
    pub source: SphereSource,
}

/// The outcome of a sphere query. A ray that left the sphere from outside
/// cannot hit it again; one with no previous identity takes the nearer root
/// ahead of it, one that left from inside only the farther root.
pub open spec fn sphere_outcome(previous: Option<SphereSource>, roots: SphereRoots) -> Option<SphereHit> {
    if previous == Some(SphereSource::Outside) || !roots.real {
        None
    } else {
        let source = match previous {
            Some(p) => p,
            None => if roots.inside { SphereSource::Inside } else { SphereSource::Outside },
        };
        if previous is None && roots.near_ahead {
            Some(SphereHit { root: Root::Near, source })
        } else if roots.far_ahead {
            Some(SphereHit { root: Root::Far, source })
        } else {
            None
        }
    }
}

/// Decides a sphere query from the signs of its quadratic.
pub fn sphere_hit(previous: Option<SphereSource>, roots: SphereRoots) -> (r: Option<SphereHit>)
    ensures
        r == sphere_outcome(previous, roots),
{
    if let Some(SphereSource::Outside) = previous {
        return None;
    }
    if !roots.real {
        return None;
    }
    let root = if previous.is_none() && roots.near_ahead {
        Root::Near
    } else if roots.far_ahead {
        Root::Far
    } else {
        return None;
    };
    let source = match previous {
        Some(p) => p,
        None => if roots.inside {
            SphereSource::Inside
        } else {
            SphereSource::Outside
        },
    };
    Some(SphereHit { root, source })
}

/// Identity of a plane's surface: a plane has one.
#[derive(Clone, Copy, PartialEq, Eq, Structural, Debug)]
pub struct PlaneFace;

/// Whether a plane is hit: not when the ray has just left it, not when the
/// ray runs parallel to it, and only ahead of the ray's start.
pub open spec fn plane_outcome(previous: Option<PlaneFace>, parallel: bool, ahead: bool) -> bool {
    previous is None && !parallel && ahead
}

/// Decides a plane query.
pub fn plane_hit(previous: Option<PlaneFace>, parallel: bool, ahead: bool) -> (r: bool)
    ensures
        r == plane_outcome(previous, parallel, ahead),
{
    if let Some(PlaneFace) = previous {
        return false;
    }
    !parallel && ahead
}

/// Re-querying a plane with the identity it just gave never hits it.
pub proof fn lemma_plane_requery_misses(parallel: bool, ahead: bool)
    ensures
        !plane_outcome(Some(PlaneFace), parallel, ahead),
{
}

/// Re-querying a sphere with the identity it just gave, whatever the new
/// roots: a sphere left from outside is not hit again, and one left from
/// inside is hit only at the farther root, keeping its identity.
pub proof fn lemma_sphere_requery_guard(first: SphereRoots, again: SphereRoots)
    ensures
        sphere_outcome(None, first) matches Some(h) ==> match h.source {
            SphereSource::Outside => sphere_outcome(Some(h.source), again) is None,
            SphereSource::Inside => sphere_outcome(Some(h.source), again) matches Some(g)
                ==> g.root == Root::Far && g.source == SphereSource::Inside,
        },
{
}

/// Where a ray meets a surface: the order key of the hit time, the ray's
/// direction, the surface normal there and the hit point.
#[derive(Clone, Copy)]
pub struct Contact<V, P> {
    pub time: u32,
    pub incoming: V,
    pub normal: V,
    pub point: P,
}

/// The geometry of a sphere, computed by the renderer.
pub trait SphereShape<Q> {
    type Dir;

    type Point;

    /// The signs of the ray's quadratic.
    spec fn roots_spec(&self, ray: Q) -> SphereRoots;

    /// Where the ray meets the sphere at `root`.
    spec fn contact_spec(&self, ray: Q, root: Root) -> Contact<Self::Dir, Self::Point>;

    fn roots(&self, ray: Q) -> (r: SphereRoots)
        ensures
            r == self.roots_spec(ray),
    ;

    fn contact(&self, ray: Q, root: Root) -> (r: Contact<Self::Dir, Self::Point>)
        ensures
            r == self.contact_spec(ray, root),
    ;
}

/// A sphere of some shape and material.
pub struct Sphere<G, Refl, L> {
    pub shape: G,
    pub material: Material<Refl, L>,
}

impl<G, Refl, L> Sphere<G, Refl, L> {
    pub fn new(shape: G, material: Material<Refl, L>) -> (s: Sphere<G, Refl, L>)
        ensures
            s.shape == shape,
            s.material == material,
    {
        Sphere { shape, material }
    }
}

/// The hit that `contact` gives, with the material's emission and
/// reflection; none where the time is not a valid order key.
pub open spec fn surface_hit<V, P, I, S, L, Refl: Reflection<V, P, I, S>>(
    material: Material<Refl, L>,
    c: Contact<V, P>,
    object: I,
) -> Option<Intersection<L, Refl::OutDist>> {
    if is_time_key(c.time) {
        Some(
            Intersection {
                time: c.time,
                emitted: material.emitted_spec(),
                reflection: material.reflection_spec().reflect_spec(c.incoming, c.normal, c.point, object),
            },
        )
    } else {
        None
    }
}

fn hit_from<V, P, I, S, L: Copy, Refl: Reflection<V, P, I, S>>(
    material: &Material<Refl, L>,
    c: Contact<V, P>,
    object: I,
) -> (r: Option<Intersection<L, Refl::OutDist>>)
    ensures
        r == surface_hit(*material, c, object),
        r matches Some(i) ==> i.reflection.ready(),
{
    if c.time == 0 || c.time >= 0x7f80_0000 {
        return None;
    }
    let emitted = material.emitted();
    let reflection = material.reflection().reflect(c.incoming, c.normal, c.point, object);
    Some(Intersection { time: c.time, emitted, reflection })
}

impl<
    Q: Copy,
    L: Copy,
    S,
    G: SphereShape<Q>,
    Refl: Reflection<G::Dir, G::Point, SphereSource, S>,
> Scene<Q, L, S> for Sphere<G, Refl, L> {
    type ObjectId = SphereSource;

    type OutDist = Refl::OutDist;

    /// The hit that `sphere_outcome` decides from the ray's roots.
    open spec fn query(&self, ray: Q, previous: Option<SphereSource>) -> Option<
        Intersection<L, Refl::OutDist>,
    > {
        match sphere_outcome(previous, self.shape.roots_spec(ray)) {
            Some(h) => surface_hit(self.material, self.shape.contact_spec(ray, h.root), h.source),
            None => None,
        }
    }

    fn intersect(&self, ray: Q, previous: Option<SphereSource>) -> (r: Option<
        Intersection<L, Refl::OutDist>,
    >) {
        let roots = self.shape.roots(ray);
        match sphere_hit(previous, roots) {
            Some(h) => {
                let c = self.shape.contact(ray, h.root);
                hit_from(&self.material, c, h.source)
            },
            None => None,
        }
    }
}

/// The geometry of a plane, computed by the renderer.
pub trait PlaneShape<Q> {
    type Dir;

    type Point;

    /// Whether the ray runs parallel to the plane.
    spec fn parallel_spec(&self, ray: Q) -> bool;

    /// Whether the plane lies ahead of the ray's start.
    spec fn ahead_spec(&self, ray: Q) -> bool;

    /// Where the ray meets the plane.
    spec fn contact_spec(&self, ray: Q) -> Contact<Self::Dir, Self::Point>;

    fn parallel(&self, ray: Q) -> (r: bool)
        ensures
            r == self.parallel_spec(ray),
    ;

    fn ahead(&self, ray: Q) -> (r: bool)
        ensures
            r == self.ahead_spec(ray),
    ;

    fn contact(&self, ray: Q) -> (r: Contact<Self::Dir, Self::Point>)
        ensures
            r == self.contact_spec(ray),
    ;
}

/// A plane of some shape and material.
pub struct Plane<G, Refl, L> {
    pub shape: G,
    pub material: Material<Refl, L>,
}

impl<G, Refl, L> Plane<G, Refl, L> {
    pub fn new(shape: G, material: Material<Refl, L>) -> (p: Plane<G, Refl, L>)
        ensures
            p.shape == shape,
            p.material == material,
    {
        Plane { shape, material }
    }
}

impl<
    Q: Copy,
    L: Copy,
    S,
    G: PlaneShape<Q>,
    Refl: Reflection<G::Dir, G::Point, PlaneFace, S>,
> Scene<Q, L, S> for Plane<G, Refl, L> {
    type ObjectId = PlaneFace;

    type OutDist = Refl::OutDist;

    /// The hit where `plane_outcome` admits one.
    open spec fn query(&self, ray: Q, previous: Option<PlaneFace>) -> Option<Intersection<L, Refl::OutDist>> {
        if plane_outcome(previous, self.shape.parallel_spec(ray), self.shape.ahead_spec(ray)) {
            surface_hit(self.material, self.shape.contact_spec(ray), PlaneFace)
        } else {
            None
        }
    }

    fn intersect(&self, ray: Q, previous: Option<PlaneFace>) -> (r: Option<Intersection<L, Refl::OutDist>>) {
        let parallel = self.shape.parallel(ray);
        let ahead = self.shape.ahead(ray);
        if !plane_hit(previous, parallel, ahead) {
            return None;
        }
        let c = self.shape.contact(ray);
        hit_from(&self.material, c, PlaneFace)
    }
}

/// Re-querying a plane with the identity it gave, for any ray, never hits.
pub proof fn lemma_plane_never_hit_again<Q: Copy, L: Copy, S, G: PlaneShape<Q>, Refl: Reflection<G::Dir, G::Point, PlaneFace, S>>(
    plane: Plane<G, Refl, L>,
    ray: Q,
)
    ensures
        plane.query(ray, Some(PlaneFace)) is None,
{
}

/// Re-querying a sphere, for any ray, with the identity a query gave: a
/// sphere left from outside is never hit again, and one left from inside is
/// hit only at the farther root, keeping its identity.
pub proof fn lemma_sphere_requery<Q: Copy, L: Copy, S, G: SphereShape<Q>, Refl: Reflection<G::Dir, G::Point, SphereSource, S>>(
    sphere: Sphere<G, Refl, L>,
    first: Q,
    again: Q,
)
    ensures
        sphere.query(first, None) is Some ==> {
            let h = sphere_outcome(None, sphere.shape.roots_spec(first))->0;
            match h.source {
                SphereSource::Outside => sphere.query(again, Some(h.source)) is None,
                SphereSource::Inside => sphere.query(again, Some(h.source)) is Some ==> {
                    let g = sphere_outcome(Some(h.source), sphere.shape.roots_spec(again))->0;
                    &&& g.root == Root::Far
                    &&& g.source == SphereSource::Inside
                    &&& sphere.query(again, Some(h.source)) == surface_hit(
                        sphere.material,
                        sphere.shape.contact_spec(again, Root::Far),
                        SphereSource::Inside,
                    )
                },
            }
        },
{
}

} // verus!
