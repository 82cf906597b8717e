use raytrace::distribution::{Const, Distribution, RandomSource};
use raytrace::integrator::{roulette, trace_path, Roulette, Throughput};
use raytrace::material::{Material, Reflection};
use raytrace::primitive::{Contact, Root, Sphere, SphereRoots, SphereShape, SphereSource};
use raytrace::scene::{Scene, SceneList, Step};

use rand::rngs::StdRng;
use rand::{RngCore, SeedableRng};

struct Source(StdRng);

impl RandomSource for Source {
    fn next_spec(&self) -> u32 {
        self.0.clone().next_u32()
    }

    fn next_bits(&mut self) -> u32 {
        self.0.next_u32()
    }
}

fn unit_draw(bits: u32) -> f32 {
    (bits >> 8) as f32 / (1u32 << 24) as f32
}

struct Scale(f32);

impl Throughput<f32, f32> for Scale {
    fn full_spec() -> Self {
        Scale(1.0)
    }

    fn healthy(&self) -> bool {
        self.0 > 0.2
    }

    fn scaled(&self, weight: f32) -> Self {
        Scale(self.0 * weight)
    }

    fn survives_draw(weight: f32, draw: u32) -> bool {
        unit_draw(draw) <= weight
    }

    fn gain(&self, total: f32, emitted: f32) -> f32 {
        total + self.0 * emitted
    }

    fn full() -> Self {
        Self::full_spec()
    }

    fn is_healthy(&self) -> bool {
        self.healthy()
    }

    fn scaled_by(&self, weight: &f32) -> Self {
        self.scaled(*weight)
    }

    fn survives(weight: &f32, draw: u32) -> bool {
        Self::survives_draw(*weight, draw)
    }

    fn gather(&self, total: &mut f32, emitted: &f32) {
        *total = self.gain(*total, *emitted);
    }
}

#[derive(Clone, Copy, Debug)]
struct Ray {
    start: [f32; 3],
    dir: [f32; 3],
}

fn dot(a: [f32; 3], b: [f32; 3]) -> f32 {
    a[0] * b[0] + a[1] * b[1] + a[2] * b[2]
}

fn sub(a: [f32; 3], b: [f32; 3]) -> [f32; 3] {
    [a[0] - b[0], a[1] - b[1], a[2] - b[2]]
}

/// A ball's shape: center and radius.
struct BallShape {
    center: [f32; 3],
    radius: f32,
}

impl BallShape {
    fn terms(&self, ray: Ray) -> (f32, f32, f32, f32, f32) {
        let offset = sub(ray.start, self.center);
        let a = dot(ray.dir, ray.dir);
        let b = 2.0 * dot(offset, ray.dir);
        let c = dot(offset, offset) - self.radius * self.radius;
        let disc = b * b - 4.0 * a * c;
        let t1 = (-b - disc.max(0.0).sqrt()) / (2.0 * a);
        let t2 = (-b + disc.max(0.0).sqrt()) / (2.0 * a);
        (c, disc, t1, t2, a)
    }
}

impl SphereShape<Ray> for BallShape {
    type Dir = [f32; 3];
    type Point = [f32; 3];

    fn roots_spec(&self, ray: Ray) -> SphereRoots {
        let (c, disc, t1, t2, _) = self.terms(ray);
        SphereRoots { real: disc >= 0.0, near_ahead: t1 > 0.0, far_ahead: t2 > 0.0, inside: c < 0.0 }
    }

    fn contact_spec(&self, ray: Ray, root: Root) -> Contact<[f32; 3], [f32; 3]> {
        let (_, _, t1, t2, _) = self.terms(ray);
        let t = match root {
            Root::Near => t1,
            Root::Far => t2,
        };
        let p = [ray.start[0] + ray.dir[0] * t, ray.start[1] + ray.dir[1] * t, ray.start[2] + ray.dir[2] * t];
        Contact { time: t.to_bits(), incoming: ray.dir, normal: sub(p, self.center), point: p }
    }

    fn roots(&self, ray: Ray) -> SphereRoots {
        self.roots_spec(ray)
    }

    fn contact(&self, ray: Ray, root: Root) -> Contact<[f32; 3], [f32; 3]> {
        self.contact_spec(ray, root)
    }
}

/// Mirror reflection with a fixed weight.
struct Mirror {
    weight: f32,
}

type MirrorDist = Const<(Step<f32, Ray>, SphereSource)>;

impl Reflection<[f32; 3], [f32; 3], SphereSource, Step<f32, Ray>> for Mirror {
    type OutDist = MirrorDist;

    fn reflect_spec(&self, d: [f32; 3], n: [f32; 3], p: [f32; 3], object: SphereSource) -> MirrorDist {
        let k = 2.0 * dot(d, n) / dot(n, n);
        let dir = [d[0] - k * n[0], d[1] - k * n[1], d[2] - k * n[2]];
        Const::new((Step { weight: self.weight, ray: Ray { start: p, dir } }, object))
    }

    fn reflect(&self, d: [f32; 3], n: [f32; 3], p: [f32; 3], object: SphereSource) -> MirrorDist {
        self.reflect_spec(d, n, p, object)
    }
}

type Ball = Sphere<BallShape, Mirror, f32>;

/// A mirror ball of radius one that emits `glow`.
fn ball(z: f32, glow: f32, weight: f32) -> Ball {
    Sphere::new(BallShape { center: [0.0, 0.0, z], radius: 1.0 }, Material::new(Mirror { weight }, glow))
}

#[test]
fn roulette_rule() {
    assert_eq!(roulette(true, false), Roulette::Scale);
    assert_eq!(roulette(true, true), Roulette::Scale);
    assert_eq!(roulette(false, true), Roulette::Keep);
    assert_eq!(roulette(false, false), Roulette::Stop);
}

#[test]
fn roulette_is_unbiased() {
    let mut rng = StdRng::seed_from_u64(7);
    let throughput = 0.1f32;
    let weight = 0.05f32;
    let trials = 100_000;
    let mut sum = 0.0f64;
    for _ in 0..trials {
        let scale = Scale(throughput);
        let survives = Scale::survives(&weight, rng.next_u32());
        match roulette(scale.is_healthy(), survives) {
            Roulette::Scale => sum += scale.scaled_by(&weight).0 as f64,
            Roulette::Keep => sum += scale.0 as f64,
            Roulette::Stop => {}
        }
    }
    let mean = sum / trials as f64;
    let expected = (throughput * weight) as f64;
    assert!((mean - expected).abs() < 0.0004, "mean {} expected {}", mean, expected);
}

#[test]
fn sphere_leaf_left_from_outside_misses() {
    let ball = ball(5.0, 10.0, 1.0);
    let ray = Ray { start: [0.0, 0.0, 0.0], dir: [0.0, 0.0, 1.0] };
    let hit = ball.intersect(ray, None).unwrap();
    let mut rng = Source(StdRng::seed_from_u64(2));
    let (step, id) = hit.reflection.sample(&mut rng);
    assert_eq!(id, SphereSource::Outside);
    assert!(ball.intersect(step.ray, Some(id)).is_none());
    assert!(ball.intersect(ray, Some(id)).is_none());
}

#[test]
fn sphere_leaf_left_from_inside_hits_far_side() {
    let ball = ball(5.0, 1.0, 1.0);
    let inside = Ray { start: [0.0, 0.0, 5.0], dir: [0.0, 0.0, 1.0] };
    let hit = ball.intersect(inside, None).unwrap();
    assert_eq!(hit.time, 1.0f32.to_bits());
    let again = ball.intersect(inside, Some(SphereSource::Inside)).unwrap();
    assert_eq!(again.time, 1.0f32.to_bits());
}

#[test]
fn emissive_sphere_direct_hit() {
    let ball = ball(5.0, 10.0, 1.0);
    let mut rng = Source(StdRng::seed_from_u64(1));
    let mut total = 0.0f32;
    let ray = Ray { start: [0.0, 0.0, 0.0], dir: [0.0, 0.0, 1.0] };
    let (hits, _) = trace_path::<Ray, f32, f32, Ball, Scale, Source>(&ball, ray, &mut total, &mut rng, 1000);
    assert_eq!(hits, 1);
    assert_eq!(total, 10.0);
    assert_eq!(ball.intersect(ray, None).map(|i| i.time), Some(4.0f32.to_bits()));
}

#[test]
fn missed_path_gathers_nothing() {
    let ball = ball(5.0, 10.0, 1.0);
    let mut rng = Source(StdRng::seed_from_u64(1));
    let mut total = 2.5f32;
    let ray = Ray { start: [0.0, 0.0, 0.0], dir: [0.0, 1.0, 0.0] };
    let (hits, _) = trace_path::<Ray, f32, f32, Ball, Scale, Source>(&ball, ray, &mut total, &mut rng, 1000);
    assert_eq!(hits, 0);
    assert_eq!(total, 2.5);
}

#[test]
fn two_mirrors_bounce_until_bound() {
    let balls = SceneList {
        items: vec![
            ball(5.0, 1.0, 1.0),
            ball(-5.0, 1.0, 1.0),
        ],
    };
    let mut rng = Source(StdRng::seed_from_u64(3));
    let mut total = 0.0f32;
    let ray = Ray { start: [0.0, 0.0, 0.0], dir: [0.0, 0.0, 1.0] };
    let (hits, _) = trace_path::<Ray, f32, f32, SceneList<Ball>, Scale, Source>(&balls, ray, &mut total, &mut rng, 6);
    assert_eq!(hits, 6);
    assert_eq!(total, 6.0);
}

#[test]
fn const_reflection_is_deterministic() {
    let ball = ball(5.0, 0.0, 1.0);
    let ray = Ray { start: [0.0, 0.0, 0.0], dir: [0.0, 0.0, 1.0] };
    let hit = ball.intersect(ray, None).unwrap();
    let mut rng = Source(StdRng::seed_from_u64(5));
    let (first, id) = hit.reflection.sample(&mut rng);
    for _ in 0..50 {
        let (step, again) = hit.reflection.sample(&mut rng);
        assert_eq!(step.weight, 1.0);
        assert_eq!(step.ray.dir, first.ray.dir);
        assert_eq!(again, id);
    }
    assert_eq!(first.ray.dir, [0.0, 0.0, -1.0]);
}

/// Hands out the given values in turn.
struct Script(Vec<u32>);

impl RandomSource for Script {
    fn next_spec(&self) -> u32 {
        self.0[0]
    }

    fn next_bits(&mut self) -> u32 {
        self.0.remove(0)
    }
}

#[test]
fn weak_path_keeps_its_throughput_until_roulette_stops_it() {
    let balls = SceneList {
        items: vec![
            ball(5.0, 1.0, 0.1),
            ball(-5.0, 1.0, 0.1),
        ],
    };
    let mut rng = Script(vec![0, u32::MAX]);
    let mut total = 0.0f32;
    let ray = Ray { start: [0.0, 0.0, 0.0], dir: [0.0, 0.0, 1.0] };
    let (hits, _) = trace_path::<Ray, f32, f32, SceneList<Ball>, Scale, Script>(&balls, ray, &mut total, &mut rng, 100);
    assert_eq!(hits, 3);
    assert!((total - 1.2).abs() < 1e-6, "total {}", total);
    assert!(rng.0.is_empty());
}
