use raytrace::primitive::{plane_hit, sphere_hit, PlaneFace, Root, SphereHit, SphereRoots, SphereSource};

fn roots(real: bool, near_ahead: bool, far_ahead: bool, inside: bool) -> SphereRoots {
    SphereRoots { real, near_ahead, far_ahead, inside }
}

#[test]
fn sphere_from_outside_takes_near_root() {
    let r = sphere_hit(None, roots(true, true, true, false));
    assert_eq!(r, Some(SphereHit { root: Root::Near, source: SphereSource::Outside }));
}

#[test]
fn sphere_from_inside_takes_far_root() {
    let r = sphere_hit(None, roots(true, false, true, true));
    assert_eq!(r, Some(SphereHit { root: Root::Far, source: SphereSource::Inside }));
}

#[test]
fn sphere_misses_without_real_roots() {
    assert_eq!(sphere_hit(None, roots(false, true, true, false)), None);
}

#[test]
fn sphere_misses_behind_ray() {
    assert_eq!(sphere_hit(None, roots(true, false, false, false)), None);
}

#[test]
fn sphere_left_from_outside_is_not_hit_again() {
    let first = sphere_hit(None, roots(true, true, true, false)).unwrap();
    assert_eq!(first.source, SphereSource::Outside);
    assert_eq!(sphere_hit(Some(first.source), roots(true, true, true, false)), None);
    assert_eq!(sphere_hit(Some(first.source), roots(true, false, true, true)), None);
}

#[test]
fn sphere_left_from_inside_only_far_root() {
    let first = sphere_hit(None, roots(true, false, true, true)).unwrap();
    let again = sphere_hit(Some(first.source), roots(true, true, true, false));
    assert_eq!(again, Some(SphereHit { root: Root::Far, source: SphereSource::Inside }));
    assert_eq!(sphere_hit(Some(first.source), roots(true, true, false, false)), None);
}

#[test]
fn plane_cases() {
    assert!(plane_hit(None, false, true));
    assert!(!plane_hit(None, true, true));
    assert!(!plane_hit(None, false, false));
    assert!(!plane_hit(Some(PlaneFace), false, true));
}
