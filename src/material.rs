use vstd::prelude::*;

use crate::distribution::Distribution;

verus! {

/// A surface material: how it reflects light, and the radiance it emits
/// (zero for a surface that is not a light).
pub struct Material<Refl, L> {
    reflection: Refl,
    emitted_radiance: L,
}

impl<Refl, L> Material<Refl, L> {
    pub fn new(reflection: Refl, emitted_radiance: L) -> (m: Material<Refl, L>)
        ensures
            m.reflection_spec() == reflection,
            m.emitted_spec() == emitted_radiance,
    {
        Material { reflection, emitted_radiance }
    }

    pub closed spec fn reflection_spec(&self) -> Refl {
        self.reflection
    }

    pub closed spec fn emitted_spec(&self) -> L {
        self.emitted_radiance
    }

    pub fn reflection(&self) -> (r: &Refl)
        ensures
            *r == self.reflection_spec(),
    {
        &self.reflection
    }
}

impl<Refl, L: Copy> Material<Refl, L> {
    pub fn emitted(&self) -> (r: L)
        ensures
            r == self.emitted_spec(),
    {
        self.emitted_radiance
    }
}

/// A reflection behaviour: from the incoming direction, the surface normal,
/// the hit point and the identity of the surface, a distribution over what
/// leaves the surface (`S`) with the identity. `V` is a direction, `P` a
/// point.
pub trait Reflection<V, P, I, S> {
    type OutDist: Distribution<Output = (S, I)>;

    /// The distribution that `reflect` builds.
    spec fn reflect_spec(&self, incoming: V, normal: V, point: P, object: I) -> Self::OutDist;

    fn reflect(&self, incoming: V, normal: V, point: P, object: I) -> (r: Self::OutDist)
        ensures
            r == self.reflect_spec(incoming, normal, point, object),
            r.ready(),
    ;
}

/// Ideal diffuse reflection: a cosine-weighted direction from the hemisphere
/// above the surface.
#[derive(Clone, Copy)]
pub struct Diffuse;

/// Ideal specular reflection: the mirror direction, with weight one.
#[derive(Clone, Copy)]
pub struct Specular;

} // verus!
