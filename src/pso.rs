//! Particle swarm optimisation: each particle is pushed by its own inertia and
//! pulled toward its personal best and toward the swarm's global best.
use vstd::prelude::*;
use crate::candidate::Candidate;
use crate::ConfigError;

verus! {

/// A particle of the swarm: a position, a velocity, and the best position that it
/// has reached so far with that position's evaluation.
pub trait Particle: Candidate {
    spec fn pos_of(self) -> Self::Pos;

    spec fn vel_of(self) -> Self::Pos;

    spec fn best_of(self) -> (Self::Pos, Self::Eval);

    /// A particle drawn at random from the type's own domain. Its velocity is the
    /// zero vector and its personal best is its own starting point.
    fn new_random() -> (r: Self)
        ensures
            r.best_of() == (r.pos_of(), Self::objective(r.pos_of())),
    ;

    /// A draw from the uniform distribution on the closed interval [0, 1].
    fn rand_01() -> Self::Scalar;

    fn eval(&self) -> (e: Self::Eval)
        ensures
            e == Self::objective(self.pos_of()),
    ;

    fn pos(&self) -> (p: Self::Pos)
        ensures
            p == self.pos_of(),
    ;

    fn vel(&self) -> (v: Self::Pos)
        ensures
            v == self.vel_of(),
    ;

    fn best(&self) -> (b: (Self::Pos, Self::Eval))
        ensures
            b == self.best_of(),
    ;

    fn pos_mut(&mut self) -> (r: &mut Self::Pos)
        ensures
            *r == old(self).pos_of(),
            final(self).pos_of() == *final(r),
            final(self).vel_of() == old(self).vel_of(),
            final(self).best_of() == old(self).best_of(),
    ;

    fn vel_mut(&mut self) -> (r: &mut Self::Pos)
        ensures
            *r == old(self).vel_of(),
            final(self).vel_of() == *final(r),
            final(self).pos_of() == old(self).pos_of(),
            final(self).best_of() == old(self).best_of(),
    ;

    fn best_mut(&mut self) -> (r: &mut (Self::Pos, Self::Eval))
        ensures
            *r == old(self).best_of(),
            final(self).best_of() == *final(r),
            final(self).pos_of() == old(self).pos_of(),
            final(self).vel_of() == old(self).vel_of(),
    ;
}

/// The evaluation of each particle's current position, in index order.
pub open spec fn evaluations<T: Particle>(ps: Seq<T>) -> Seq<T::Eval> {
    ps.map_values(|p: T| T::objective(p.pos_of()))
}

/// The index that a left-to-right maximum scan selects: a later evaluation
/// replaces the current best unless the current best is strictly better, so
/// among equals the last one wins.
pub open spec fn best_index<T: Candidate>(evals: Seq<T::Eval>) -> int
    decreases evals.len(),
{
    if evals.len() <= 1 {
        0
    } else {
        let b = best_index::<T>(evals.drop_last());
        if T::better(evals[b], evals.last()) {
            b
        } else {
            evals.len() - 1
        }
    }
}

/// The selected index lies within a non-empty sequence.
pub proof fn lemma_best_index_in_range<T: Candidate>(evals: Seq<T::Eval>)
    requires
        evals.len() > 0,
    ensures
        0 <= best_index::<T>(evals) < evals.len(),
    decreases evals.len(),
{
    if evals.len() > 1 {
        lemma_best_index_in_range::<T>(evals.drop_last());
    }
}

/// The velocity after a step:
/// `vel * inertia + (personal - pos) * c_local * r1 + (global - pos) * c_global * r2`.
pub open spec fn new_velocity<T: Particle>(
    vel: T::Pos,
    pos: T::Pos,
    personal: T::Pos,
    global: T::Pos,
    inertia: T::Scalar,
    c_local: T::Scalar,
    c_global: T::Scalar,
    r1: T::Scalar,
    r2: T::Scalar,
) -> T::Pos {
    T::sum(
        T::sum(
            T::scaling(vel, inertia),
            T::scaling(T::scaling(T::difference(personal, pos), c_local), r1),
        ),
        T::scaling(T::scaling(T::difference(global, pos), c_global), r2),
    )
}

/// `q` is what one step makes of particle `p`, given the global best position
/// before the step and the particle's two draws: it moves by its old velocity,
/// its velocity is recomputed at the new position, and its personal best is
/// replaced where the new position is strictly better.
pub open spec fn is_particle_step<T: Particle>(
    p: T,
    q: T,
    global: T::Pos,
    inertia: T::Scalar,
    c_local: T::Scalar,
    c_global: T::Scalar,
    r1: T::Scalar,
    r2: T::Scalar,
) -> bool {
    let pos = T::sum(p.pos_of(), p.vel_of());
    let e = T::objective(pos);
    &&& q.pos_of() == pos
    &&& q.vel_of() == new_velocity::<T>(
        p.vel_of(),
        pos,
        p.best_of().0,
        global,
        inertia,
        c_local,
        c_global,
        r1,
        r2,
    )
    &&& q.best_of() == if T::better(e, p.best_of().1) {
        (pos, e)
    } else {
        p.best_of()
    }
}

/// Of two candidates with equal evaluations the later one is selected.
pub proof fn lemma_tie_goes_to_later<T: Candidate>(evals: Seq<T::Eval>)
    requires
        evals.len() == 2,
        evals[0] == evals[1],
    ensures
        best_index::<T>(evals) == 1,
{
    T::lemma_better_irreflexive(evals[0]);
    assert(best_index::<T>(evals.drop_last()) == 0);
}

/// A step never makes a particle's personal best worse, and afterwards the
/// particle's current position is not strictly better than its personal best.
pub proof fn lemma_personal_best_tracks_position<T: Particle>(
    p: T,
    q: T,
    global: T::Pos,
    inertia: T::Scalar,
    c_local: T::Scalar,
    c_global: T::Scalar,
    r1: T::Scalar,
    r2: T::Scalar,
)
    requires
        is_particle_step(p, q, global, inertia, c_local, c_global, r1, r2),
    ensures
        q.best_of().1 == p.best_of().1 || T::better(q.best_of().1, p.best_of().1),
        !T::better(T::objective(q.pos_of()), q.best_of().1),
{
    T::lemma_better_irreflexive(T::objective(q.pos_of()));
}

/// A particle swarm of fixed size with the global best found so far.
pub struct PSO<T: Particle + Copy> {
    particles: Vec<T>,
    inertia: T::Scalar,
    c_local: T::Scalar,
    c_global: T::Scalar,
    best: (T, T::Eval),
}

impl<T: Particle + Copy> PSO<T> {
    /// The particles, in index order.
    pub closed spec fn particles_of(&self) -> Seq<T> {
        self.particles@
    }

    /// The global best: a copy of the particle and its evaluation.
    pub closed spec fn global_best(&self) -> (T, T::Eval) {
        self.best
    }

    pub closed spec fn inertia_of(&self) -> T::Scalar {
        self.inertia
    }

    pub closed spec fn c_local_of(&self) -> T::Scalar {
        self.c_local
    }

    pub closed spec fn c_global_of(&self) -> T::Scalar {
        self.c_global
    }

    /// The swarm is not empty and the cached global evaluation is that of the
    /// global best's position.
    pub open spec fn well_formed(&self) -> bool {
        &&& self.particles_of().len() > 0
        &&& self.global_best().1 == T::objective(self.global_best().0.pos_of())
    }

    /// `next` is what one step makes of `self` with the draws `draws` (one pair per
    /// particle), the step reporting `stagnated`: every particle moves as
    /// `is_particle_step` says, against the global best from before the step; the
    /// global best is replaced by the best particle after the step if and only if
    /// that one is strictly better, and the step reports stagnation otherwise.
    pub open spec fn is_step(
        &self,
        next: &Self,
        draws: Seq<(T::Scalar, T::Scalar)>,
        stagnated: bool,
    ) -> bool {
        let n = self.particles_of().len();
        let evals = evaluations(next.particles_of());
        let b = best_index::<T>(evals);
        &&& next.particles_of().len() == n
        &&& draws.len() == n
        &&& next.inertia_of() == self.inertia_of()
        &&& next.c_local_of() == self.c_local_of()
        &&& next.c_global_of() == self.c_global_of()
        &&& forall|i: int|
            0 <= i < n ==> is_particle_step(
                self.particles_of()[i],
                #[trigger] next.particles_of()[i],
                self.global_best().0.pos_of(),
                self.inertia_of(),
                self.c_local_of(),
                self.c_global_of(),
                draws[i].0,
                draws[i].1,
            )
        &&& stagnated == !T::better(evals[b], self.global_best().1)
        &&& next.global_best() == if stagnated {
            self.global_best()
        } else {
            (next.particles_of()[b], evals[b])
        }
    }

    /// The particle selected by a left-to-right maximum scan over the
    /// evaluations, later ones winning ties, with its evaluation.
    fn calc_best(particles: &Vec<T>) -> (r: (T, T::Eval))
        requires
            particles@.len() > 0,
        ensures
            0 <= best_index::<T>(evaluations(particles@)) < particles@.len(),
            r == (
                particles@[best_index::<T>(evaluations(particles@))],
                evaluations(particles@)[best_index::<T>(evaluations(particles@))],
            ),
    {
        let ghost evals = evaluations(particles@);
        let n = particles.len();
        let mut b: usize = 0;
        let mut best_e = particles[0].eval();
        let mut k: usize = 1;
        assert(evals.take(1).len() == 1);
        while k < n
            invariant
                evals == evaluations(particles@),
                n == particles@.len(),
                1 <= k <= n,
                b < k,
                b as int == best_index::<T>(evals.take(k as int)),
                best_e == evals[b as int],
            decreases n - k,
        {
            let e = particles[k].eval();
            assert(evals.take(k as int + 1).drop_last() =~= evals.take(k as int));
            if !T::exceeds(&best_e, &e) {
                b = k;
                best_e = e;
            }
            k += 1;
        }
        assert(evals.take(n as int) =~= evals);
        proof {
            lemma_best_index_in_range::<T>(evals);
        }
        (particles[b], best_e)
    }
    /// Builds a swarm of the given particles, in their order, and takes as
    /// global best the one that a left-to-right maximum scan selects, later ones
    /// winning ties.
    pub fn from_particles(
        particles: Vec<T>,
        inertia: T::Scalar,
        c_local: T::Scalar,
        c_global: T::Scalar,
    ) -> (r: Result<Self, ConfigError>)
        ensures
            particles@.len() == 0 <==> r is Err,
            r is Err ==> r == Err::<Self, ConfigError>(ConfigError::EmptyPopulation),
            r matches Ok(pso) ==> {
                &&& pso.well_formed()
                &&& pso.particles_of() == particles@
                &&& pso.inertia_of() == inertia
                &&& pso.c_local_of() == c_local
                &&& pso.c_global_of() == c_global
                &&& pso.global_best() == (
                    particles@[best_index::<T>(evaluations(particles@))],
                    evaluations(particles@)[best_index::<T>(evaluations(particles@))],
                )
            },
    {
        if particles.len() == 0 {
            return Err(ConfigError::EmptyPopulation);
        }
        let best = Self::calc_best(&particles);
        Ok(Self { particles, inertia, c_local, c_global, best })
    }

    /// Draws `particles_num` random particles and takes as global best the one
    /// that a left-to-right maximum scan selects, later ones winning ties.
    pub fn new(
        particles_num: usize,
        inertia: T::Scalar,
        c_local: T::Scalar,
        c_global: T::Scalar,
    ) -> (r: Result<Self, ConfigError>)
        ensures
            particles_num == 0 <==> r is Err,
            r is Err ==> r == Err::<Self, ConfigError>(ConfigError::EmptyPopulation),
            r matches Ok(pso) ==> {
                &&& pso.well_formed()
                &&& pso.particles_of().len() == particles_num
                &&& pso.inertia_of() == inertia
                &&& pso.c_local_of() == c_local
                &&& pso.c_global_of() == c_global
                &&& forall|i: int|
                    0 <= i < particles_num ==> (#[trigger] pso.particles_of()[i]).best_of() == (
                        pso.particles_of()[i].pos_of(),
                        T::objective(pso.particles_of()[i].pos_of()),
                    )
                &&& pso.global_best() == (
                    pso.particles_of()[best_index::<T>(evaluations(pso.particles_of()))],
                    evaluations(pso.particles_of())[best_index::<T>(
                        evaluations(pso.particles_of()),
                    )],
                )
            },
    {
        let mut particles: Vec<T> = Vec::with_capacity(particles_num);
        let mut k: usize = 0;
        while k < particles_num
            invariant
                k <= particles_num,
                particles@.len() == k,
                forall|i: int|
                    0 <= i < k ==> (#[trigger] particles@[i]).best_of() == (
                        particles@[i].pos_of(),
                        T::objective(particles@[i].pos_of()),
                    ),
            decreases particles_num - k,
        {
            particles.push(T::new_random());
            k += 1;
        }
        Self::from_particles(particles, inertia, c_local, c_global)
    }

    /// One step with the given draws, `draws[i]` being the pair `(r1, r2)` of
    /// particle `i`. Three passes, each over the whole swarm before the next:
    /// positions move by the velocities; velocities are recomputed against the
    /// personal bests and the global best from before the step; personal bests are
    /// replaced where the new position is strictly better. The global best is then
    /// replaced if the best particle is strictly better than it. Returns whether
    /// the step stagnated, that is, did not improve the global best.
    pub fn update_with(&mut self, draws: &Vec<(T::Scalar, T::Scalar)>) -> (stagnated: bool)
        requires
            old(self).well_formed(),
            draws@.len() == old(self).particles_of().len(),
        ensures
            final(self).well_formed(),
            old(self).is_step(final(self), draws@, stagnated),
    {
        let n = self.particles.len();
        let ghost p0 = self.particles@;
        let mut i: usize = 0;
        while i < n
            invariant
                self.inertia == old(self).inertia,
                self.c_local == old(self).c_local,
                self.c_global == old(self).c_global,
                self.best == old(self).best,
                p0 == old(self).particles@,
                n == p0.len(),
                self.particles@.len() == n,
                i <= n,
                forall|k: int|
                    0 <= k < i ==> {
                        &&& (#[trigger] self.particles@[k]).pos_of() == T::sum(
                            p0[k].pos_of(),
                            p0[k].vel_of(),
                        )
                        &&& self.particles@[k].vel_of() == p0[k].vel_of()
                        &&& self.particles@[k].best_of() == p0[k].best_of()
                    },
                forall|k: int| i <= k < n ==> #[trigger] self.particles@[k] == p0[k],
            decreases n - i,
        {
            let p = &mut self.particles[i];
            let new_pos = T::plus(p.pos(), p.vel());
            *p.pos_mut() = new_pos;
            i += 1;
        }
        let ghost p1 = self.particles@;
        let global = self.best.0.pos();
        let mut i: usize = 0;
        while i < n
            invariant
                self.inertia == old(self).inertia,
                self.c_local == old(self).c_local,
                self.c_global == old(self).c_global,
                self.best == old(self).best,
                global == old(self).best.0.pos_of(),
                n == p1.len(),
                draws@.len() == n,
                self.particles@.len() == n,
                i <= n,
                forall|k: int|
                    0 <= k < i ==> {
                        &&& (#[trigger] self.particles@[k]).pos_of() == p1[k].pos_of()
                        &&& self.particles@[k].vel_of() == new_velocity::<T>(
                            p1[k].vel_of(),
                            p1[k].pos_of(),
                            p1[k].best_of().0,
                            global,
                            self.inertia,
                            self.c_local,
                            self.c_global,
                            draws@[k].0,
                            draws@[k].1,
                        )
                        &&& self.particles@[k].best_of() == p1[k].best_of()
                    },
                forall|k: int| i <= k < n ==> #[trigger] self.particles@[k] == p1[k],
            decreases n - i,
        {
            let (r1, r2) = draws[i];
            let p = &mut self.particles[i];
            let pos = p.pos();
            let local_pull = T::scale(T::scale(T::minus(p.best().0, pos), self.c_local), r1);
            let global_pull = T::scale(T::scale(T::minus(global, pos), self.c_global), r2);
            let new_vel = T::plus(T::plus(T::scale(p.vel(), self.inertia), local_pull), global_pull);
            *p.vel_mut() = new_vel;
            i += 1;
        }
        let ghost p2 = self.particles@;
        let mut i: usize = 0;
        while i < n
            invariant
                self.inertia == old(self).inertia,
                self.c_local == old(self).c_local,
                self.c_global == old(self).c_global,
                self.best == old(self).best,
                n == p2.len(),
                self.particles@.len() == n,
                i <= n,
                forall|k: int|
                    0 <= k < i ==> {
                        let e = T::objective(p2[k].pos_of());
                        &&& (#[trigger] self.particles@[k]).pos_of() == p2[k].pos_of()
                        &&& self.particles@[k].vel_of() == p2[k].vel_of()
                        &&& self.particles@[k].best_of() == if T::better(e, p2[k].best_of().1) {
                            (p2[k].pos_of(), e)
                        } else {
                            p2[k].best_of()
                        }
                    },
                forall|k: int| i <= k < n ==> #[trigger] self.particles@[k] == p2[k],
            decreases n - i,
        {
            let p = &mut self.particles[i];
            let e = p.eval();
            if T::exceeds(&e, &p.best().1) {
                let pos = p.pos();
                *p.best_mut() = (pos, e);
            }
            i += 1;
        }
        let candidate = Self::calc_best(&self.particles);
        let stagnated = !T::exceeds(&candidate.1, &self.best.1);
        if !stagnated {
            self.best = candidate;
        }
        assert forall|k: int| 0 <= k < n implies is_particle_step(
            p0[k],
            #[trigger] self.particles@[k],
            old(self).best.0.pos_of(),
            self.inertia,
            self.c_local,
            self.c_global,
            draws@[k].0,
            draws@[k].1,
        ) by {
            assert(p1[k].pos_of() == T::sum(p0[k].pos_of(), p0[k].vel_of()));
            assert(p2[k].pos_of() == p1[k].pos_of());
        }
        stagnated
    }

    /// One step, drawing for each particle its two coefficients `r1` and `r2`
    /// with `rand_01`; otherwise as `update_with`. Returns whether the step
    /// stagnated.
    pub fn update(&mut self) -> (stagnated: bool)
        requires
            old(self).well_formed(),
        ensures
            final(self).well_formed(),
            exists|draws: Seq<(T::Scalar, T::Scalar)>|
                #[trigger] old(self).is_step(final(self), draws, stagnated),
    {
        let n = self.particles.len();
        let mut draws: Vec<(T::Scalar, T::Scalar)> = Vec::with_capacity(n);
        let mut k: usize = 0;
        while k < n
            invariant
                k <= n,
                draws@.len() == k,
            decreases n - k,
        {
            let r1 = T::rand_01();
            let r2 = T::rand_01();
            draws.push((r1, r2));
            k += 1;
        }
        let ghost d = draws@;
        let stagnated = self.update_with(&draws);
        assert(old(self).is_step(self, d, stagnated));
        stagnated
    }

    /// The particles, in index order.
    pub fn particles(&self) -> (r: &Vec<T>)
        ensures
            r@ == self.particles_of(),
    {
        &self.particles
    }

    /// The global best: a copy of the particle and its evaluation.
    pub fn best(&self) -> (r: (T, T::Eval))
        ensures
            r == self.global_best(),
    {
        self.best
    }
}


/// The global best's evaluation never decreases: after a step it is the one from
/// before, or strictly better.
pub proof fn lemma_global_best_never_worse<T: Particle + Copy>(
    prev: PSO<T>,
    next: PSO<T>,
    draws: Seq<(T::Scalar, T::Scalar)>,
    stagnated: bool,
)
    requires
        prev.is_step(&next, draws, stagnated),
    ensures
        next.global_best().1 == prev.global_best().1 || T::better(
            next.global_best().1,
            prev.global_best().1,
        ),
{
}

} // verus!
