use vstd::prelude::*;

use crate::distribution::{Distribution, RandomSource};

verus! {

/// The result of a scene query.
///
/// `time` is the order key of the hit time: the IEEE-754 bit pattern of a
/// strictly positive, finite single-precision time. Such patterns are the
/// integers of `is_time_key`, and their unsigned order is the numeric order
/// of the times.
pub struct Intersection<L, D> {
    pub time: u32,
    pub emitted: L,
    pub reflection: D,
}

impl<L, D> Intersection<L, D> {
    /// Replaces the outgoing distribution, keeping time and emission.
    pub fn map_dist<E, F: FnOnce(D) -> E>(self, func: F) -> (r: Intersection<L, E>)
        requires
            call_requires(func, (self.reflection,)),
        ensures
            r.time == self.time,
            r.emitted == self.emitted,
            call_ensures(func, (self.reflection,), r.reflection),
    {
        Intersection { time: self.time, emitted: self.emitted, reflection: func(self.reflection) }
    }
}

/// Bit patterns of strictly positive, finite single-precision numbers.
pub open spec fn is_time_key(key: u32) -> bool {
    0 < key < 0x7f80_0000
}

/// The order key of the hit time of a query's answer, if it hit.
pub open spec fn time_of<L, D>(answer: Option<Intersection<L, D>>) -> Option<u32> {
    match answer {
        Some(i) => Some(i.time),
        None => None,
    }
}

/// A node of a scene that can be queried for the nearest hit of a ray.
///
/// `Q` is the ray, `L` the emitted radiance and `S` what a reflection
/// sample yields besides the object identity (weight and outgoing ray).
/// `previous` is the identity of the surface the ray has just left: a node
/// must not report an immediate re-hit of it.
pub trait Scene<Q, L, S> {
    type ObjectId: Copy;

    type OutDist: Distribution<Output = (S, Self::ObjectId)>;

    /// The answer to a query: the nearest admissible hit, if any.
    spec fn query(&self, ray: Q, previous: Option<Self::ObjectId>) -> Option<
        Intersection<L, Self::OutDist>,
    >;

    fn intersect(&self, ray: Q, previous: Option<Self::ObjectId>) -> (r: Option<
        Intersection<L, Self::OutDist>,
    >)
        ensures
            r == self.query(ray, previous),
            r matches Some(i) ==> i.reflection.ready() && is_time_key(i.time),
    ;
}

/// What sampling a reflection yields besides the object identity: the
/// sampling weight and the outgoing ray.
#[derive(Clone, Copy)]
pub struct Step<W, Q> {
    pub weight: W,
    pub ray: Q,
}

/// A disjoint union of two values: one from the first node of a pair, or one
/// from the second.
#[derive(Clone, Copy)]
pub enum Choice<A, B> {
    OptA(A),
    OptB(B),
}

impl<S, IA, IB, A: Distribution<Output = (S, IA)>, B: Distribution<Output = (S, IB)>> Distribution for Choice<A, B> {
    type Output = (S, Choice<IA, IB>);

    open spec fn yields(&self, draw: u32, out: (S, Choice<IA, IB>)) -> bool {
        match (self, out.1) {
            (Choice::OptA(a), Choice::OptA(ia)) => a.yields(draw, (out.0, ia)),
            (Choice::OptB(b), Choice::OptB(ib)) => b.yields(draw, (out.0, ib)),
            _ => false,
        }
    }

    open spec fn ready(&self) -> bool {
        match self {
            Choice::OptA(a) => a.ready(),
            Choice::OptB(b) => b.ready(),
        }
    }

    open spec fn draws(&self) -> bool {
        match self {
            Choice::OptA(a) => a.draws(),
            Choice::OptB(b) => b.draws(),
        }
    }

    fn sample<R: RandomSource>(&self, rng: &mut R) -> (out: (S, Choice<IA, IB>)) {
        match self {
            Choice::OptA(a) => {
                let (step, obj) = a.sample(rng);
                (step, Choice::OptA(obj))
            },
            Choice::OptB(b) => {
                let (step, obj) = b.sample(rng);
                (step, Choice::OptB(obj))
            },
        }
    }
}

/// Splits a pair's previous identity into the previous identity of each side.
pub open spec fn route_pair<IA, IB>(previous: Option<Choice<IA, IB>>) -> (Option<IA>, Option<IB>) {
    match previous {
        None => (None, None),
        Some(Choice::OptA(a)) => (Some(a), None),
        Some(Choice::OptB(b)) => (None, Some(b)),
    }
}

/// A hit of a pair's first node, as the pair reports it.
pub open spec fn tag_first<L, DA, DB>(i: Intersection<L, DA>) -> Intersection<L, Choice<DA, DB>> {
    Intersection { time: i.time, emitted: i.emitted, reflection: Choice::OptA(i.reflection) }
}

/// A hit of a pair's second node, as the pair reports it.
pub open spec fn tag_second<L, DA, DB>(i: Intersection<L, DB>) -> Intersection<L, Choice<DA, DB>> {
    Intersection { time: i.time, emitted: i.emitted, reflection: Choice::OptB(i.reflection) }
}

/// Two scene nodes queried as one.
pub struct ScenePair<A, B> {
    pub first: A,
    pub second: B,
}

impl<Q: Copy, L, S, A: Scene<Q, L, S>, B: Scene<Q, L, S>> Scene<Q, L, S> for ScenePair<A, B> {
    type ObjectId = Choice<A::ObjectId, B::ObjectId>;

    type OutDist = Choice<A::OutDist, B::OutDist>;

    /// The earlier of the two nodes' hits; on equal times, the second's.
    open spec fn query(&self, ray: Q, previous: Option<Self::ObjectId>) -> Option<
        Intersection<L, Self::OutDist>,
    > {
        let (pa, pb) = route_pair(previous);
        match (self.first.query(ray, pa), self.second.query(ray, pb)) {
            (Some(a), Some(b)) => if a.time < b.time {
                Some(tag_first::<L, A::OutDist, B::OutDist>(a))
            } else {
                Some(tag_second::<L, A::OutDist, B::OutDist>(b))
            },
            (Some(a), None) => Some(tag_first::<L, A::OutDist, B::OutDist>(a)),
            (None, Some(b)) => Some(tag_second::<L, A::OutDist, B::OutDist>(b)),
            (None, None) => None,
        }
    }

    fn intersect(&self, ray: Q, previous: Option<Self::ObjectId>) -> (r: Option<
        Intersection<L, Self::OutDist>,
    >) {
        let (aid, bid) = match previous {
            None => (None, None),
            Some(Choice::OptA(aid)) => (Some(aid), None),
            Some(Choice::OptB(bid)) => (None, Some(bid)),
        };
        match (self.first.intersect(ray, aid), self.second.intersect(ray, bid)) {
            (Some(ai), Some(bi)) => if ai.time < bi.time {
                Some(from_first(ai))
            } else {
                Some(from_second(bi))
            },
            (Some(ai), None) => Some(from_first(ai)),
            (None, Some(bi)) => Some(from_second(bi)),
            (None, None) => None,
        }
    }
}

fn from_first<L, DA, DB>(i: Intersection<L, DA>) -> (r: Intersection<L, Choice<DA, DB>>)
    ensures
        r == tag_first::<L, DA, DB>(i),
{
    i.map_dist(|d: DA| -> (c: Choice<DA, DB>)
        ensures
            c == Choice::<DA, DB>::OptA(d),
        { Choice::OptA(d) })
}

fn from_second<L, DA, DB>(i: Intersection<L, DB>) -> (r: Intersection<L, Choice<DA, DB>>)
    ensures
        r == tag_second::<L, DA, DB>(i),
{
    i.map_dist(|d: DB| -> (c: Choice<DA, DB>)
        ensures
            c == Choice::<DA, DB>::OptB(d),
        { Choice::OptB(d) })
}

/// Tags every identity that `dist` yields with `tag`.
pub struct TagObject<D> {
    pub tag: usize,
    pub dist: D,
}

impl<S, O, D: Distribution<Output = (S, O)>> Distribution for TagObject<D> {
    type Output = (S, Indexed<O>);

    open spec fn yields(&self, draw: u32, out: (S, Indexed<O>)) -> bool {
        out.1.index == self.tag && self.dist.yields(draw, (out.0, out.1.inner))
    }

    open spec fn draws(&self) -> bool {
        self.dist.draws()
    }

    open spec fn ready(&self) -> bool {
        self.dist.ready()
    }

    fn sample<R: RandomSource>(&self, rng: &mut R) -> (out: (S, Indexed<O>)) {
        let (step, obj) = self.dist.sample(rng);
        (step, Indexed { index: self.tag, inner: obj })
    }
}

/// The identity of a surface of a list's node: the node's index and the
/// identity that the node itself gave.
#[derive(Clone, Copy)]
pub struct Indexed<I> {
    pub index: usize,
    pub inner: I,
}

/// The previous identity that the node at `index` of a list receives.
pub open spec fn route_list<I>(previous: Option<Indexed<I>>, index: int) -> Option<I> {
    match previous {
        Some(p) => if p.index == index { Some(p.inner) } else { None },
        None => None,
    }
}

/// A hit of the node at `index` of a list, as the list reports it.
pub open spec fn tag_index<L, D>(i: Intersection<L, D>, index: usize) -> Intersection<L, TagObject<D>> {
    Intersection { time: i.time, emitted: i.emitted, reflection: TagObject { tag: index, dist: i.reflection } }
}

/// Index and order key of the nearest hit among the first `n` nodes; on equal
/// keys the earlier node wins.
pub open spec fn nearest_in<Q, L, S, T: Scene<Q, L, S>>(
    items: Seq<T>,
    ray: Q,
    previous: Option<Indexed<T::ObjectId>>,
    n: nat,
) -> Option<(int, u32)>
    decreases n,
{
    if n == 0 {
        None
    } else {
        let best = nearest_in::<Q, L, S, T>(items, ray, previous, (n - 1) as nat);
        let i = n - 1;
        match time_of(items[i].query(ray, route_list(previous, i))) {
            None => best,
            Some(t) => match best {
                Some((_, u)) => if t < u { Some((i, t)) } else { best },
                None => Some((i, t)),
            },
        }
    }
}

/// An ordered list of scene nodes of one kind, queried as one.
pub struct SceneList<T> {
    pub items: Vec<T>,
}

impl<Q: Copy, L, S, T: Scene<Q, L, S>> Scene<Q, L, S> for SceneList<T> {
    type ObjectId = Indexed<T::ObjectId>;

    type OutDist = TagObject<T::OutDist>;

    /// The hit of the node with the least time; on equal times, the
    /// earliest such node's.
    open spec fn query(&self, ray: Q, previous: Option<Self::ObjectId>) -> Option<
        Intersection<L, Self::OutDist>,
    > {
        match nearest_in::<Q, L, S, T>(self.items@, ray, previous, self.items@.len()) {
            Some((k, _)) => match self.items@[k].query(ray, route_list(previous, k)) {
                Some(i) => Some(tag_index(i, k as usize)),
                None => None,
            },
            None => None,
        }
    }

    fn intersect(&self, ray: Q, previous: Option<Self::ObjectId>) -> (r: Option<
        Intersection<L, Self::OutDist>,
    >) {
        let mut best: Option<Intersection<L, TagObject<T::OutDist>>> = None;
        let mut id: usize = 0;
        while id < self.items.len()
            invariant
                id <= self.items@.len(),
                match nearest_in::<Q, L, S, T>(self.items@, ray, previous, id as nat) {
                    Some((k, t)) => {
                        &&& 0 <= k < id
                        &&& self.items@[k].query(ray, route_list(previous, k)) matches Some(q)
                        &&& q.time == t
                        &&& best == Some(tag_index(q, k as usize))
                    },
                    None => best is None,
                },
                best matches Some(b) ==> b.reflection.ready() && is_time_key(b.time),
            decreases self.items@.len() - id,
        {
            let prev = match previous {
                Some(p) => if p.index == id {
                    Some(p.inner)
                } else {
                    None
                },
                None => None,
            };
            if let Some(intersection) = self.items[id].intersect(ray, prev) {
                let new_best = match &best {
                    Some(cur_best) => intersection.time < cur_best.time,
                    None => true,
                };
                if new_best {
                    best = Some(Intersection {
                        time: intersection.time,
                        emitted: intersection.emitted,
                        reflection: TagObject { tag: id, dist: intersection.reflection },
                    });
                }
            }
            id = id + 1;
        }
        best
    }
}

/// `r` is the least of the present values of `hits`, and `None` exactly when
/// every value is absent.
pub open spec fn is_least(r: Option<u32>, hits: Seq<Option<u32>>) -> bool {
    &&& (r is None <==> forall|i: int| 0 <= i < hits.len() ==> hits[i] is None)
    &&& (r matches Some(t) ==> {
        &&& exists|i: int| 0 <= i < hits.len() && hits[i] == Some(t)
        &&& forall|i: int| 0 <= i < hits.len() && hits[i] is Some ==> t <= hits[i]->0
    })
}

/// The hit of each node of a list, each queried with the previous identity
/// that the list routes to it.
pub open spec fn list_hits<Q, L, S, T: Scene<Q, L, S>>(
    items: Seq<T>,
    ray: Q,
    previous: Option<Indexed<T::ObjectId>>,
) -> Seq<Option<u32>> {
    Seq::new(items.len(), |i: int| time_of(items[i].query(ray, route_list(previous, i))))
}

/// A pair hits at the earlier of its two nodes' hit times, and misses exactly
/// when both nodes miss.
pub proof fn lemma_pair_hit_is_least<Q: Copy, L, S, A: Scene<Q, L, S>, B: Scene<Q, L, S>>(
    pair: ScenePair<A, B>,
    ray: Q,
    previous: Option<Choice<A::ObjectId, B::ObjectId>>,
)
    ensures
        is_least(
            time_of(pair.query(ray, previous)),
            seq![
                time_of(pair.first.query(ray, route_pair(previous).0)),
                time_of(pair.second.query(ray, route_pair(previous).1)),
            ],
        ),
{
    let hits = seq![
        time_of(pair.first.query(ray, route_pair(previous).0)),
        time_of(pair.second.query(ray, route_pair(previous).1)),
    ];
    assert(hits[0] == time_of(pair.first.query(ray, route_pair(previous).0)));
    assert(hits[1] == time_of(pair.second.query(ray, route_pair(previous).1)));
    if let Some(t) = time_of(pair.query(ray, previous)) {
        if hits[0] == Some(t) {
            assert(0 <= 0 < hits.len() && hits[0] == Some(t));
        } else {
            assert(0 <= 1 < hits.len() && hits[1] == Some(t));
        }
    }
}

proof fn lemma_nearest_in_is_least<Q, L, S, T: Scene<Q, L, S>>(
    items: Seq<T>,
    ray: Q,
    previous: Option<Indexed<T::ObjectId>>,
    n: nat,
)
    requires
        n <= items.len(),
    ensures
        match nearest_in::<Q, L, S, T>(items, ray, previous, n) {
            Some((k, t)) => {
                &&& 0 <= k < n
                &&& list_hits::<Q, L, S, T>(items, ray, previous)[k] == Some(t)
                &&& forall|i: int|
                    0 <= i < n && list_hits::<Q, L, S, T>(items, ray, previous)[i] is Some
                        ==> t <= list_hits::<Q, L, S, T>(items, ray, previous)[i]->0
            },
            None => forall|i: int| 0 <= i < n ==> list_hits::<Q, L, S, T>(items, ray, previous)[i] is None,
        },
    decreases n,
{
    if n > 0 {
        lemma_nearest_in_is_least::<Q, L, S, T>(items, ray, previous, (n - 1) as nat);
    }
}

/// A list hits at the least hit time of its nodes, and misses exactly when
/// every node misses.
pub proof fn lemma_list_hit_is_least<Q: Copy, L, S, T: Scene<Q, L, S>>(
    list: SceneList<T>,
    ray: Q,
    previous: Option<Indexed<T::ObjectId>>,
)
    ensures
        is_least(time_of(list.query(ray, previous)), list_hits::<Q, L, S, T>(list.items@, ray, previous)),
{
    let hits = list_hits::<Q, L, S, T>(list.items@, ray, previous);
    lemma_nearest_in_is_least::<Q, L, S, T>(list.items@, ray, previous, list.items@.len());
    if let Some((k, t)) = nearest_in::<Q, L, S, T>(list.items@, ray, previous, list.items@.len()) {
        assert(0 <= k < hits.len() && hits[k] == Some(t));
    }
}

/// A node reached through a reference answers as the node itself.
impl<'a, Q, L, S, T: Scene<Q, L, S>> Scene<Q, L, S> for &'a T {
    type ObjectId = T::ObjectId;

    type OutDist = T::OutDist;

    open spec fn query(&self, ray: Q, previous: Option<Self::ObjectId>) -> Option<
        Intersection<L, Self::OutDist>,
    > {
        (**self).query(ray, previous)
    }

    fn intersect(&self, ray: Q, previous: Option<Self::ObjectId>) -> (r: Option<
        Intersection<L, Self::OutDist>,
    >) {
        (**self).intersect(ray, previous)
    }
}

} // verus!
