use vstd::prelude::*;

use crate::distribution::{Distribution, RandomSource};
use crate::scene::{Scene, Step};

verus! {

/// What a path does after a bounce.
#[derive(Clone, Copy, PartialEq, Eq, Structural, Debug)]
pub enum Roulette {
    /// Throughput is healthy: continue, scaled by the sampled weight.
    Scale,
    /// Throughput is low and the path survived the draw: continue unchanged.
    Keep,
    /// Throughput is low and the path lost the draw: stop.
    Stop,
}

/// Russian roulette: a healthy path always continues with its throughput
/// scaled; a weak one continues unscaled when it survives the draw (which
/// happens with probability equal to the weight), and stops otherwise.
pub open spec fn roulette_outcome(healthy: bool, survives: bool) -> Roulette {
    if healthy {
        Roulette::Scale
    } else if survives {
        Roulette::Keep
    } else {
        Roulette::Stop
    }
}

pub fn roulette(healthy: bool, survives: bool) -> (r: Roulette)
    ensures
        r == roulette_outcome(healthy, survives),
{
    if healthy {
        Roulette::Scale
    } else if survives {
        Roulette::Keep
    } else {
        Roulette::Stop
    }
}

/// The throughput of a path and the radiance arithmetic on it: `L` is the
/// radiance, `W` a sampling weight. The renderer supplies it; each operation
/// answers as its spec function says.
pub trait Throughput<L, W>: Sized {
    /// The throughput a path starts with.
    spec fn full_spec() -> Self;

    /// Whether the throughput is above the roulette threshold.
    spec fn healthy(&self) -> bool;

    /// This throughput times `weight`.
    spec fn scaled(&self, weight: W) -> Self;

    /// Whether a weak path survives when `draw` is drawn: the chance of it is
    /// `weight`.
    spec fn survives_draw(weight: W, draw: u32) -> bool;

    /// `total` plus this throughput times `emitted`.
    spec fn gain(&self, total: L, emitted: L) -> L;

    fn full() -> (r: Self)
        ensures
            r == Self::full_spec(),
    ;

    fn is_healthy(&self) -> (r: bool)
        ensures
            r == self.healthy(),
    ;

    fn scaled_by(&self, weight: &W) -> (r: Self)
        ensures
            r == self.scaled(*weight),
    ;

    fn survives(weight: &W, draw: u32) -> (r: bool)
        ensures
            r == Self::survives_draw(*weight, draw),
    ;

    fn gather(&self, total: &mut L, emitted: &L)
        ensures
            *final(total) == self.gain(*old(total), *emitted),
    ;
}

/// One hit of a path: the query made, the throughput it arrived with, the
/// sample taken of the hit's reflection (with the first value its sampling
/// drew), and the roulette decision (with the value drawn for it, which
/// counts only for a weak path).
pub struct Bounce<Q, I, W, T> {
    pub ray: Q,
    pub previous: Option<I>,
    pub scale: T,
    pub draw: u32,
    pub step: Step<W, Q>,
    pub object: I,
    pub roulette_draw: u32,
    pub outcome: Roulette,
}

/// The throughput a path carries on from a bounce.
pub open spec fn next_scale<Q, I, L, W, T: Throughput<L, W>>(b: Bounce<Q, I, W, T>) -> T {
    if b.outcome == Roulette::Scale {
        b.scale.scaled(b.step.weight)
    } else {
        b.scale
    }
}

/// The query hit, the sample is one that the hit's reflection can yield, and
/// the roulette decided by its rule.
pub open spec fn is_bounce<Q, L, W, Sc: Scene<Q, L, Step<W, Q>>, T: Throughput<L, W>>(
    scene: Sc,
    b: Bounce<Q, Sc::ObjectId, W, T>,
) -> bool {
    &&& scene.query(b.ray, b.previous) matches Some(a) && a.reflection.yields(b.draw, (b.step, b.object))
    &&& b.outcome == roulette_outcome(
        b.scale.healthy(),
        b.scale.healthy() || T::survives_draw(b.step.weight, b.roulette_draw),
    )
}

/// `next` carries on from `b`: its query is the sampled ray leaving the
/// sampled surface, with the throughput the roulette left.
pub open spec fn carries_on<Q, I, L, W, T: Throughput<L, W>>(b: Bounce<Q, I, W, T>, next: Bounce<Q, I, W, T>) -> bool {
    &&& b.outcome != Roulette::Stop
    &&& next.ray == b.step.ray
    &&& next.previous == Some(b.object)
    &&& next.scale == next_scale::<Q, I, L, W, T>(b)
}

/// `bounces` are the hits of a path from `start`, in order.
pub open spec fn is_trace<Q, L, W, Sc: Scene<Q, L, Step<W, Q>>, T: Throughput<L, W>>(
    scene: Sc,
    start: Q,
    bounces: Seq<Bounce<Q, Sc::ObjectId, W, T>>,
) -> bool {
    &&& bounces.len() > 0 ==> bounces[0].ray == start && bounces[0].previous is None && bounces[0].scale
        == T::full_spec()
    &&& forall|i: int| 0 <= i < bounces.len() ==> is_bounce::<Q, L, W, Sc, T>(scene, #[trigger] bounces[i])
    &&& forall|i: int|
        0 <= i < bounces.len() - 1 ==> carries_on::<Q, Sc::ObjectId, L, W, T>(
            bounces[i],
            #[trigger] bounces[i + 1],
        )
}

/// `total` after each bounce has added its throughput times the radiance
/// emitted where it hit.
pub open spec fn gathered<Q, L, W, Sc: Scene<Q, L, Step<W, Q>>, T: Throughput<L, W>>(
    scene: Sc,
    bounces: Seq<Bounce<Q, Sc::ObjectId, W, T>>,
    total: L,
) -> L
    decreases bounces.len(),
{
    if bounces.len() == 0 {
        total
    } else {
        let b = bounces.last();
        let before = gathered::<Q, L, W, Sc, T>(scene, bounces.drop_last(), total);
        match scene.query(b.ray, b.previous) {
            Some(a) => b.scale.gain(before, a.emitted),
            None => before,
        }
    }
}

/// The path ended on its own: the roulette stopped it, or its next query
/// missed.
pub open spec fn ended<Q, L, W, Sc: Scene<Q, L, Step<W, Q>>, T: Throughput<L, W>>(
    scene: Sc,
    start: Q,
    bounces: Seq<Bounce<Q, Sc::ObjectId, W, T>>,
) -> bool {
    if bounces.len() == 0 {
        scene.query(start, None) is None
    } else {
        let b = bounces.last();
        b.outcome == Roulette::Stop || scene.query(b.step.ray, Some(b.object)) is None
    }
}

/// A path whose first hit leaves only surfaces that no query from them hits
/// again (a sphere seen from outside, a plane) ends after that hit, having
/// gathered the full throughput times the radiance emitted there.
pub proof fn lemma_single_hit_path<Q, L, W, Sc: Scene<Q, L, Step<W, Q>>, T: Throughput<L, W>>(
    scene: Sc,
    start: Q,
    max_hits: u32,
    bounces: Seq<Bounce<Q, Sc::ObjectId, W, T>>,
    total: L,
)
    requires
        is_trace::<Q, L, W, Sc, T>(scene, start, bounces),
        bounces.len() <= max_hits,
        bounces.len() < max_hits ==> ended::<Q, L, W, Sc, T>(scene, start, bounces),
        max_hits >= 1,
        scene.query(start, None) is Some,
        forall|d: u32, s: Step<W, Q>, id: Sc::ObjectId, q: Q|
            #![trigger scene.query(start, None)->0.reflection.yields(d, (s, id)), scene.query(q, Some(id))]
            scene.query(start, None)->0.reflection.yields(d, (s, id)) ==> scene.query(q, Some(id)) is None,
    ensures
        bounces.len() == 1,
        gathered::<Q, L, W, Sc, T>(scene, bounces, total) == T::full_spec().gain(
            total,
            scene.query(start, None)->0.emitted,
        ),
{
    assert(bounces.len() > 0);
    let b = bounces[0];
    assert(is_bounce::<Q, L, W, Sc, T>(scene, b));
    assert(scene.query(start, None)->0.reflection.yields(b.draw, (b.step, b.object)));
    if bounces.len() > 1 {
        let i: int = 0;
        assert(carries_on::<Q, Sc::ObjectId, L, W, T>(bounces[i], bounces[i + 1]));
        assert(is_bounce::<Q, L, W, Sc, T>(scene, bounces[i + 1]));
        assert(scene.query(b.step.ray, Some(b.object)) is None);
    }
    assert(bounces.last() == b);
    assert(gathered::<Q, L, W, Sc, T>(scene, bounces.drop_last(), total) == total);
}

/// Follows one path from `start` through `scene`, adding what it gathers to
/// `total`, for at most `max_hits` hits. Returns the number of hits, and the
/// record of each.
pub fn trace_path<
    Q: Copy,
    L,
    W,
    Sc: Scene<Q, L, Step<W, Q>>,
    T: Throughput<L, W>,
    R: RandomSource,
>(scene: &Sc, start: Q, total: &mut L, rng: &mut R, max_hits: u32) -> (r: (
    u32,
    Ghost<Seq<Bounce<Q, Sc::ObjectId, W, T>>>,
))
    ensures
        r.0 <= max_hits,
        r.1@.len() == r.0,
        is_trace::<Q, L, W, Sc, T>(*scene, start, r.1@),
        *final(total) == gathered::<Q, L, W, Sc, T>(*scene, r.1@, *old(total)),
        r.0 < max_hits ==> ended::<Q, L, W, Sc, T>(*scene, start, r.1@),
        scene.query(start, None) is None ==> r.0 == 0 && *final(total) == *old(total),
{
    let mut ray = start;
    let mut previous: Option<Sc::ObjectId> = None;
    let mut scale = T::full();
    let mut hits: u32 = 0;
    let ghost mut bounces: Seq<Bounce<Q, Sc::ObjectId, W, T>> = Seq::empty();
    while hits < max_hits
        invariant
            hits <= max_hits,
            bounces.len() == hits,
            is_trace::<Q, L, W, Sc, T>(*scene, start, bounces),
            *total == gathered::<Q, L, W, Sc, T>(*scene, bounces, *old(total)),
            hits == 0 ==> ray == start && previous is None && scale == T::full_spec(),
            hits > 0 ==> {
                let b = bounces.last();
                &&& b.outcome != Roulette::Stop
                &&& ray == b.step.ray
                &&& previous == Some(b.object)
                &&& scale == next_scale::<Q, Sc::ObjectId, L, W, T>(b)
            },
        decreases max_hits - hits,
    {
        let intersection = match scene.intersect(ray, previous) {
            Some(i) => i,
            None => {
                return (hits, Ghost(bounces));
            },
        };
        scale.gather(total, &intersection.emitted);
        let ghost draw = rng.next_spec();
        let (step, object) = intersection.reflection.sample(rng);
        let healthy = scale.is_healthy();
        let ghost mut roulette_draw: u32 = 0;
        let survives = if healthy {
            true
        } else {
            proof {
                roulette_draw = rng.next_spec();
            }
            let d = rng.next_bits();
            T::survives(&step.weight, d)
        };
        let outcome = roulette(healthy, survives);
        let ghost before = bounces;
        proof {
            let b = Bounce { ray, previous, scale, draw, step, object, roulette_draw, outcome };
            bounces = bounces.push(b);
            assert(bounces.drop_last() =~= before);
            assert forall|i: int| 0 <= i < bounces.len() - 1 implies carries_on::<
                Q,
                Sc::ObjectId,
                L,
                W,
                T,
            >(bounces[i], #[trigger] bounces[i + 1]) by {
                if i < before.len() - 1 {
                    assert(bounces[i] == before[i] && bounces[i + 1] == before[i + 1]);
                }
            }
            assert forall|i: int| 0 <= i < bounces.len() implies is_bounce::<Q, L, W, Sc, T>(
                *scene,
                #[trigger] bounces[i],
            ) by {
                if i < before.len() {
                    assert(bounces[i] == before[i]);
                }
            }
        }
        ray = step.ray;
        previous = Some(object);
        hits = hits + 1;
        match outcome {
            Roulette::Scale => {
                scale = scale.scaled_by(&step.weight);
            },
            Roulette::Keep => {},
            Roulette::Stop => {
                return (hits, Ghost(bounces));
            },
        }
    }
    (hits, Ghost(bounces))
}

} // verus!
