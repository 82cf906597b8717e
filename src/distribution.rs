use vstd::prelude::*;

verus! {

/// A source of uniformly distributed random bits, supplied by the caller.
/// Nothing is assumed of the values it hands out beyond what it tells of
/// itself: `next_spec` is the value that the next draw gives.
pub trait RandomSource {
    /// The value that the next call of `next_bits` returns.
    spec fn next_spec(&self) -> u32;

    fn next_bits(&mut self) -> (r: u32)
        ensures
            r == old(self).next_spec(),
    ;
}

/// A sampleable random process over `Self::Output`.
pub trait Distribution {
    type Output;

    /// Whether `out` can be what `sample` returns when the first value drawn
    /// from the random source is `draw`.
    spec fn yields(&self, draw: u32, out: Self::Output) -> bool;

    /// Whether the process can be sampled.
    spec fn ready(&self) -> bool;

    /// Whether sampling may consume randomness; when not, the random source
    /// is left as it was.
    spec fn draws(&self) -> bool;

    fn sample<R: RandomSource>(&self, rng: &mut R) -> (out: Self::Output)
        requires
            self.ready(),
        ensures
            self.yields(old(rng).next_spec(), out),
            !self.draws() ==> *final(rng) == *old(rng),
    ;

    /// Applies `func` to every sampled value.
    fn map<O, F: Fn(Self::Output) -> O>(self, func: F) -> (m: Mapped<Self, F>) where Self: Sized
        ensures
            m.inner() == self,
            m.func() == func,
    {
        Mapped::new(self, func)
    }

    /// Samples `other` when one draw falls below `other_prob` (a chance in
    /// units of 2^-32), else this one.
    fn or<Other>(self, other: Other, other_prob: u32) -> (o: Or<Self, Other>) where Self: Sized
        ensures
            o.first() == self,
            o.second() == other,
            o.prob_2() == other_prob,
    {
        Or::new(self, other, other_prob)
    }

    /// Samples this one, then `other`, and yields both values.
    fn pair<Other>(self, other: Other) -> (p: Pair<Self, Other>) where Self: Sized
        ensures
            p.first() == self,
            p.second() == other,
    {
        Pair::new(self, other)
    }
}

/// Always yields the same value; consumes no randomness.
pub struct Const<T> {
    value: T,
}

impl<T> Const<T> {
    pub fn new(value: T) -> (c: Const<T>)
        ensures
            c.value() == value,
    {
        Const { value }
    }

    pub closed spec fn value(&self) -> T {
        self.value
    }
}

impl<T: Copy> Distribution for Const<T> {
    type Output = T;

    open spec fn yields(&self, draw: u32, out: T) -> bool {
        out == self.value()
    }

    open spec fn ready(&self) -> bool {
        true
    }

    open spec fn draws(&self) -> bool {
        false
    }

    fn sample<R: RandomSource>(&self, rng: &mut R) -> (out: T) {
        self.value
    }
}

/// Applies `func` to each value sampled from `inner`.
pub struct Mapped<Inner, F> {
    inner: Inner,
    func: F,
}

impl<Inner, F> Mapped<Inner, F> {
    pub fn new(inner: Inner, func: F) -> (m: Mapped<Inner, F>)
        ensures
            m.inner() == inner,
            m.func() == func,
    {
        Mapped { inner, func }
    }

    pub closed spec fn inner(&self) -> Inner {
        self.inner
    }

    pub closed spec fn func(&self) -> F {
        self.func
    }
}

impl<Inner: Distribution, O, F: Fn(Inner::Output) -> O> Distribution for Mapped<Inner, F> {
    type Output = O;

    open spec fn yields(&self, draw: u32, out: O) -> bool {
        exists|x: Inner::Output| #[trigger] self.inner().yields(draw, x) && call_ensures(self.func(), (x,), out)
    }

    open spec fn ready(&self) -> bool {
        &&& self.inner().ready()
        &&& forall|d: u32, x: Inner::Output| #[trigger] self.inner().yields(d, x) ==> call_requires(self.func(), (x,))
    }

    open spec fn draws(&self) -> bool {
        self.inner().draws()
    }

    fn sample<R: RandomSource>(&self, rng: &mut R) -> (out: O) {
        let x = self.inner.sample(rng);
        (self.func)(x)
    }
}

/// Samples `first`, then `second`, and yields both values.
pub struct Pair<A, B> {
    first: A,
    second: B,
}

impl<A, B> Pair<A, B> {
    pub fn new(first: A, second: B) -> (p: Pair<A, B>)
        ensures
            p.first() == first,
            p.second() == second,
    {
        Pair { first, second }
    }

    pub closed spec fn first(&self) -> A {
        self.first
    }

    pub closed spec fn second(&self) -> B {
        self.second
    }
}

impl<A: Distribution, B: Distribution> Distribution for Pair<A, B> {
    type Output = (A::Output, B::Output);

    /// `second` draws after `first`: from the same first value when `first`
    /// draws nothing.
    open spec fn yields(&self, draw: u32, out: (A::Output, B::Output)) -> bool {
        &&& self.first().yields(draw, out.0)
        &&& if self.first().draws() {
            exists|d: u32| #[trigger] self.second().yields(d, out.1)
        } else {
            self.second().yields(draw, out.1)
        }
    }

    open spec fn ready(&self) -> bool {
        self.first().ready() && self.second().ready()
    }

    open spec fn draws(&self) -> bool {
        self.first().draws() || self.second().draws()
    }

    fn sample<R: RandomSource>(&self, rng: &mut R) -> (out: (A::Output, B::Output)) {
        let a = self.first.sample(rng);
        let ghost d = rng.next_spec();
        let b = self.second.sample(rng);
        let out = (a, b);
        assert(self.second().yields(d, out.1));
        out
    }
}

/// Samples `second` when one draw falls below `prob_2`, else `first`: the
/// second is taken with probability `prob_2 / 2^32`.
pub struct Or<A, B> {
    first: A,
    second: B,
    prob_2: u32,
}

impl<A, B> Or<A, B> {
    pub fn new(first: A, second: B, prob_2: u32) -> (o: Or<A, B>)
        ensures
            o.first() == first,
            o.second() == second,
            o.prob_2() == prob_2,
    {
        Or { first, second, prob_2 }
    }

    pub closed spec fn first(&self) -> A {
        self.first
    }

    pub closed spec fn second(&self) -> B {
        self.second
    }

    pub closed spec fn prob_2(&self) -> u32 {
        self.prob_2
    }
}

impl<A: Distribution, B: Distribution<Output = A::Output>> Distribution for Or<A, B> {
    type Output = A::Output;

    /// One value is drawn first; the side it selects then samples from the
    /// values drawn after it.
    open spec fn yields(&self, draw: u32, out: A::Output) -> bool {
        if draw < self.prob_2() {
            exists|d: u32| #[trigger] self.second().yields(d, out)
        } else {
            exists|d: u32| #[trigger] self.first().yields(d, out)
        }
    }

    open spec fn ready(&self) -> bool {
        self.first().ready() && self.second().ready()
    }

    open spec fn draws(&self) -> bool {
        true
    }

    fn sample<R: RandomSource>(&self, rng: &mut R) -> (out: A::Output) {
        let draw = rng.next_bits();
        if draw < self.prob_2 {
            let ghost d = rng.next_spec();
            let out = self.second.sample(rng);
            assert(self.second().yields(d, out));
            out
        } else {
            let ghost d = rng.next_spec();
            let out = self.first.sample(rng);
            assert(self.first().yields(d, out));
            out
        }
    }
}

/// Every sample of a constant distribution is its value, whatever is drawn:
/// sampling it any number of times gives one and the same result.
pub proof fn lemma_const_samples_agree<T: Copy>(c: Const<T>, d1: u32, first: T, d2: u32, again: T)
    requires
        c.yields(d1, first),
        c.yields(d2, again),
    ensures
        first == again,
        first == c.value(),
{
}

} // verus!
