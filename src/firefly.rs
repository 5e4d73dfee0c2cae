//! Firefly algorithm: each candidate moves toward the last strictly brighter
//! candidate of the population, with a pull that decays with distance.
use vstd::prelude::*;
use crate::candidate::Candidate;
use crate::ConfigError;

verus! {

/// A candidate of the firefly search.
pub trait Firefly: Candidate {
    /// The position of the candidate.
    spec fn pos_of(self) -> Self::Pos;

    /// The distance between two candidates.
    spec fn dist(a: Self, b: Self) -> Self::Scalar;

    spec fn product(a: Self::Scalar, b: Self::Scalar) -> Self::Scalar;

    spec fn negation(a: Self::Scalar) -> Self::Scalar;

    spec fn exponential(a: Self::Scalar) -> Self::Scalar;

    fn times(a: Self::Scalar, b: Self::Scalar) -> (r: Self::Scalar)
        ensures
            r == Self::product(a, b),
    ;

    fn negate(a: Self::Scalar) -> (r: Self::Scalar)
        ensures
            r == Self::negation(a),
    ;

    fn exp(a: Self::Scalar) -> (r: Self::Scalar)
        ensures
            r == Self::exponential(a),
    ;

    /// A candidate drawn at random from the type's own domain.
    fn new_random() -> Self;

    fn eval(&self) -> (e: Self::Eval)
        ensures
            e == Self::objective(self.pos_of()),
    ;

    fn distance(&self, rhs: &Self) -> (d: Self::Scalar)
        ensures
            d == Self::dist(*self, *rhs),
    ;

    fn pos(&self) -> (p: Self::Pos)
        ensures
            p == self.pos_of(),
    ;

    fn pos_mut(&mut self) -> (r: &mut Self::Pos)
        ensures
            *r == old(self).pos_of(),
            final(self).pos_of() == *final(r),
    ;
}

/// The index of the last candidate among the first `n` whose cached evaluation
/// is strictly better than that of candidate `i`.
pub open spec fn last_brighter<T: Firefly>(pop: Seq<(T, T::Eval)>, i: int, n: int) -> Option<int>
    decreases n,
{
    if n <= 0 {
        None
    } else if T::better(pop[n - 1].1, pop[i].1) {
        Some(n - 1)
    } else {
        last_brighter(pop, i, n - 1)
    }
}

/// Where `a` lands when pulled toward `b`:
/// `pos(a) + beta * exp(-absorption * d * d) * (pos(b) - pos(a))`, `d` being their distance.
pub open spec fn attracted<T: Firefly>(a: T, b: T, beta: T::Scalar, absorption: T::Scalar) -> T::Pos {
    let d = T::dist(a, b);
    let attractiveness = T::product(
        beta,
        T::exponential(T::product(T::negation(absorption), T::product(d, d))),
    );
    T::sum(a.pos_of(), T::scaling(T::difference(b.pos_of(), a.pos_of()), attractiveness))
}

/// The position that candidate `i` takes in the next generation, if it moves.
pub open spec fn target_of<T: Firefly>(
    pop: Seq<(T, T::Eval)>,
    i: int,
    beta: T::Scalar,
    absorption: T::Scalar,
) -> Option<T::Pos> {
    match last_brighter(pop, i, pop.len() as int) {
        Some(j) => Some(attracted(pop[i].0, pop[j].0, beta, absorption)),
        None => None,
    }
}

/// `next` is the generation that one sweep makes of `prev`: a candidate with no
/// brighter neighbour is kept as it was; any other is moved to its target, with
/// its evaluation recomputed.
pub open spec fn is_next_generation<T: Firefly>(
    prev: Seq<(T, T::Eval)>,
    next: Seq<(T, T::Eval)>,
    beta: T::Scalar,
    absorption: T::Scalar,
) -> bool {
    &&& next.len() == prev.len()
    &&& forall|i: int|
        0 <= i < prev.len() ==> match #[trigger] target_of(prev, i, beta, absorption) {
            None => next[i] == prev[i],
            Some(p) => next[i].0.pos_of() == p && next[i].1 == T::objective(p),
        }
}

/// A population of one candidate is left as it is by a sweep, whatever `beta` and
/// `absorption` are: no candidate is strictly brighter than itself.
pub proof fn lemma_single_firefly_unchanged<T: Firefly>(
    prev: Seq<(T, T::Eval)>,
    next: Seq<(T, T::Eval)>,
    beta: T::Scalar,
    absorption: T::Scalar,
)
    requires
        prev.len() == 1,
        is_next_generation(prev, next, beta, absorption),
    ensures
        next == prev,
{
    T::lemma_better_irreflexive(prev[0].1);
    assert(last_brighter(prev, 0, 0) is None);
    assert(last_brighter(prev, 0, 1) is None);
    assert(target_of(prev, 0, beta, absorption) is None);
    assert(next =~= prev);
}

/// In a population of three where candidates 1 and 2 are both brighter than
/// candidate 0, a sweep moves candidate 0 toward candidate 2 alone: the last
/// brighter neighbour wins and earlier pulls are not accumulated.
pub proof fn lemma_last_brighter_wins<T: Firefly>(
    prev: Seq<(T, T::Eval)>,
    next: Seq<(T, T::Eval)>,
    beta: T::Scalar,
    absorption: T::Scalar,
)
    requires
        prev.len() == 3,
        T::better(prev[1].1, prev[0].1),
        T::better(prev[2].1, prev[0].1),
        is_next_generation(prev, next, beta, absorption),
    ensures
        next[0].0.pos_of() == attracted(prev[0].0, prev[2].0, beta, absorption),
        next[0].1 == T::objective(next[0].0.pos_of()),
{
    assert(last_brighter(prev, 0, 3) == Some(2int));
    assert(target_of(prev, 0, beta, absorption) == Some(attracted(prev[0].0, prev[2].0, beta, absorption)));
}

/// A firefly search over a fixed-size population, each candidate stored with its
/// cached evaluation.
pub struct FireflyAlg<T: Firefly> {
    fireflies: Vec<(T, T::Eval)>,
    beta: T::Scalar,
    absorption: T::Scalar,
}

impl<T: Firefly> FireflyAlg<T> {
    /// The population, in index order, each candidate with its cached evaluation.
    pub closed spec fn population(&self) -> Seq<(T, T::Eval)> {
        self.fireflies@
    }

    /// The attractiveness at distance zero.
    pub closed spec fn beta_of(&self) -> T::Scalar {
        self.beta
    }

    /// The light absorption coefficient.
    pub closed spec fn absorption_of(&self) -> T::Scalar {
        self.absorption
    }

    /// The population is not empty and every cached evaluation is that of the
    /// candidate's position.
    pub open spec fn well_formed(&self) -> bool {
        &&& self.population().len() > 0
        &&& forall|i: int|
            0 <= i < self.population().len() ==> (#[trigger] self.population()[i]).1
                == T::objective(self.population()[i].0.pos_of())
    }

    /// Builds a search over the given candidates, in their order, evaluating
    /// each once.
    pub fn from_fireflies(fireflies: Vec<T>, beta: T::Scalar, absorption: T::Scalar) -> (r: Result<
        Self,
        ConfigError,
    >)
        ensures
            fireflies@.len() == 0 <==> r is Err,
            r is Err ==> r == Err::<Self, ConfigError>(ConfigError::EmptyPopulation),
            r matches Ok(alg) ==> {
                &&& alg.well_formed()
                &&& alg.population().len() == fireflies@.len()
                &&& forall|i: int|
                    0 <= i < fireflies@.len() ==> (#[trigger] alg.population()[i]).0
                        == fireflies@[i]
                &&& alg.beta_of() == beta
                &&& alg.absorption_of() == absorption
            },
    {
        let n = fireflies.len();
        if n == 0 {
            return Err(ConfigError::EmptyPopulation);
        }
        let ghost given = fireflies@;
        let mut rest = fireflies;
        let mut reversed: Vec<(T, T::Eval)> = Vec::with_capacity(n);
        while rest.len() > 0
            invariant
                n == given.len(),
                rest@ == given.take(rest@.len() as int),
                reversed@.len() + rest@.len() == n,
                forall|k: int|
                    0 <= k < reversed@.len() ==> {
                        &&& (#[trigger] reversed@[k]).0 == given[n - 1 - k]
                        &&& reversed@[k].1 == T::objective(given[n - 1 - k].pos_of())
                    },
            decreases rest@.len(),
        {
            let ff = rest.pop().unwrap();
            let e = ff.eval();
            reversed.push((ff, e));
        }
        let mut population: Vec<(T, T::Eval)> = Vec::with_capacity(n);
        while reversed.len() > 0
            invariant
                n == given.len(),
                reversed@.len() + population@.len() == n,
                forall|k: int|
                    0 <= k < reversed@.len() ==> {
                        &&& (#[trigger] reversed@[k]).0 == given[n - 1 - k]
                        &&& reversed@[k].1 == T::objective(given[n - 1 - k].pos_of())
                    },
                forall|k: int|
                    0 <= k < population@.len() ==> {
                        &&& (#[trigger] population@[k]).0 == given[k]
                        &&& population@[k].1 == T::objective(given[k].pos_of())
                    },
            decreases reversed@.len(),
        {
            let entry = reversed.pop().unwrap();
            population.push(entry);
        }
        Ok(Self { fireflies: population, beta, absorption })
    }

    /// Draws `fireflies_num` random candidates and evaluates each once.
    pub fn new(fireflies_num: usize, beta: T::Scalar, absorption: T::Scalar) -> (r: Result<
        Self,
        ConfigError,
    >)
        ensures
            fireflies_num == 0 <==> r is Err,
            r is Err ==> r == Err::<Self, ConfigError>(ConfigError::EmptyPopulation),
            r matches Ok(alg) ==> {
                &&& alg.well_formed()
                &&& alg.population().len() == fireflies_num
                &&& alg.beta_of() == beta
                &&& alg.absorption_of() == absorption
            },
    {
        let mut fireflies: Vec<T> = Vec::with_capacity(fireflies_num);
        let mut k: usize = 0;
        while k < fireflies_num
            invariant
                k <= fireflies_num,
                fireflies@.len() == k,
            decreases fireflies_num - k,
        {
            fireflies.push(T::new_random());
            k += 1;
        }
        Self::from_fireflies(fireflies, beta, absorption)
    }

    /// Where candidate `i` lands when pulled toward candidate `j`.
    fn attraction(&self, i: usize, j: usize) -> (p: T::Pos)
        requires
            i < self.population().len(),
            j < self.population().len(),
        ensures
            p == attracted(
                self.population()[i as int].0,
                self.population()[j as int].0,
                self.beta,
                self.absorption,
            ),
    {
        let ff_i = &self.fireflies[i].0;
        let ff_j = &self.fireflies[j].0;
        let d = ff_i.distance(ff_j);
        let attractiveness = T::times(
            self.beta,
            T::exp(T::times(T::negate(self.absorption), T::times(d, d))),
        );
        let pos_i = ff_i.pos();
        T::plus(pos_i, T::scale(T::minus(ff_j.pos(), pos_i), attractiveness))
    }

    /// One sweep. For each candidate `i`, the candidates `j` are scanned in index
    /// order, and each one brighter than `i` sets `i`'s next position from the
    /// positions before the sweep: the last such `j` decides. All moves are then
    /// applied together and the moved candidates re-evaluated.
    pub fn update(&mut self)
        requires
            old(self).well_formed(),
        ensures
            final(self).well_formed(),
            final(self).beta_of() == old(self).beta_of(),
            final(self).absorption_of() == old(self).absorption_of(),
            is_next_generation(
                old(self).population(),
                final(self).population(),
                old(self).beta_of(),
                old(self).absorption_of(),
            ),
    {
        let n = self.fireflies.len();
        let ghost pop = self.fireflies@;
        let mut moves: Vec<Option<T::Pos>> = Vec::with_capacity(n);
        let mut i: usize = 0;
        while i < n
            invariant
                self == old(self),
                pop == self.fireflies@,
                n == pop.len(),
                i <= n,
                moves@.len() == i,
                forall|k: int|
                    0 <= k < i ==> #[trigger] moves@[k] == target_of(
                        pop,
                        k,
                        self.beta,
                        self.absorption,
                    ),
            decreases n - i,
        {
            let mut target: Option<T::Pos> = None;
            let mut j: usize = 0;
            while j < n
                invariant
                    self == old(self),
                    pop == self.fireflies@,
                    n == pop.len(),
                    i < n,
                    j <= n,
                    target == match last_brighter(pop, i as int, j as int) {
                        Some(b) => Some(attracted(pop[i as int].0, pop[b].0, self.beta, self.absorption)),
                        None => None,
                    },
                decreases n - j,
            {
                if T::exceeds(&self.fireflies[j].1, &self.fireflies[i].1) {
                    target = Some(self.attraction(i, j));
                }
                j += 1;
            }
            moves.push(target);
            i += 1;
        }
        let mut i: usize = 0;
        while i < n
            invariant
                self.beta == old(self).beta,
                self.absorption == old(self).absorption,
                pop == old(self).fireflies@,
                n == pop.len(),
                self.fireflies@.len() == n,
                i <= n,
                moves@.len() == n,
                forall|k: int|
                    0 <= k < n ==> #[trigger] moves@[k] == target_of(
                        pop,
                        k,
                        self.beta,
                        self.absorption,
                    ),
                forall|k: int|
                    0 <= k < i ==> match #[trigger] target_of(pop, k, self.beta, self.absorption) {
                        None => self.fireflies@[k] == pop[k],
                        Some(p) => self.fireflies@[k].0.pos_of() == p && self.fireflies@[k].1
                            == T::objective(p),
                    },
                forall|k: int| i <= k < n ==> #[trigger] self.fireflies@[k] == pop[k],
            decreases n - i,
        {
            if let Some(p) = moves[i] {
                let ff = &mut self.fireflies[i];
                *ff.0.pos_mut() = p;
                ff.1 = ff.0.eval();
            }
            i += 1;
        }
        assert(self.well_formed()) by {
            assert forall|k: int| 0 <= k < n implies (#[trigger] self.fireflies@[k]).1
                == T::objective(self.fireflies@[k].0.pos_of()) by {
                if target_of(pop, k, self.beta, self.absorption) is None {
                }
            }
        }
    }

    /// The population, in index order, each candidate with its cached evaluation.
    pub fn fireflies(&self) -> (r: &Vec<(T, T::Eval)>)
        ensures
            r@ == self.population(),
    {
        &self.fireflies
    }
}

} // verus!
