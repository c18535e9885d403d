//! The population and its generational evolution controller.
//!
//! Each tick updates every agent against the shared track.  On demand the
//! controller replaces every dead agent: one whose fitness is within a
//! fixed margin above the population's alive average is replaced by a
//! fresh agent driving a mutated copy of a tournament-selected parent's
//! controller; one already far above the average retries with an
//! unmutated copy of its own controller.  Replacement decisions are all
//! taken before any slot is written, so selection reads a consistent
//! population.  With no alive agents the cycle is skipped entirely and
//! the reported average is left unchanged.
use vstd::prelude::*;
use crate::agent::{spec_step, Agent};
use crate::nn::{lemma_model_near_eq, model_eq, model_near, Model};
use crate::rng::random_index;
use crate::track::Track;
use crate::{lemma_tdiv_bound, tdiv};

verus! {

/// Evolution cycles suppressed after start-up.
pub const WARMUP: u32 = 10;

/// Fitness margin above the average within which a dead agent is bred
/// from a selected parent rather than retried.
pub const MARGIN: i64 = 819200;

/// Mutation noise spread for offspring controllers.
pub const MUT_RATE: i64 = 31;

/// Number of alive agents among the first `k`.
pub open spec fn spec_alive(s: Seq<Agent>, k: int) -> int
    decreases k,
{
    if k <= 0 {
        0
    } else {
        spec_alive(s, k - 1) + if s[k - 1].is_dead {
            0int
        } else {
            1int
        }
    }
}

/// Total fitness of the alive agents among the first `k`.
pub open spec fn spec_total(s: Seq<Agent>, k: int) -> int
    decreases k,
{
    if k <= 0 {
        0
    } else {
        spec_total(s, k - 1) + if s[k - 1].is_dead {
            0int
        } else {
            s[k - 1].fitness as int
        }
    }
}

/// A freshly spawned replacement agent.
pub open spec fn is_fresh(a: Agent, n: int) -> bool {
    &&& a.wf(n)
    &&& !a.is_dead
    &&& a.fitness == 5120
    &&& a.next_cp == 1
    &&& a.to_live == 8192
    &&& a.time_per_cp == 4096
}

/// Tournament selection: keep the best of one initial draw and a fixed
/// number of further uniform draws.  The result is always a valid index.
pub fn select_parent(agents: &Vec<Agent>) -> (idx: usize)
    requires
        agents@.len() >= 1,
    ensures
        idx < agents@.len(),
{
    let mut best: usize = random_index(agents.len());
    let mut t: usize = 0;
    while t < 100
        invariant
            agents@.len() >= 1,
            best < agents@.len(),
            t <= 100,
        decreases 100 - t,
    {
        let c: usize = random_index(agents.len());
        if agents[c].fitness > agents[best].fitness {
            best = c;
        }
        t = t + 1;
    }
    best
}

/// A fixed-size population of agents with the evolution bookkeeping.
pub struct Population {
    pub agents: Vec<Agent>,
    pub countdown: u32,
    pub avg_fitness: i64,
}

impl Population {
    /// Every agent is well-formed and the size is positive.
    pub open spec fn wf(self, n: int) -> bool {
        &&& self.agents@.len() >= 1
        &&& forall|i: int| 0 <= i < self.agents@.len() ==> (#[trigger] self.agents@[i]).wf(n)
        &&& -0x100_0000_0000 <= self.avg_fitness <= 0x100_0000_0000
    }

    /// A population of `size` freshly spawned agents.
    pub fn new(size: usize, n: usize) -> (p: Population)
        requires
            1 <= size,
            3 <= n <= 1000,
        ensures
            p.wf(n as int),
            p.agents@.len() == size,
            forall|i: int| 0 <= i < size ==> is_fresh(#[trigger] p.agents@[i], n as int),
            p.countdown == 10,
            p.avg_fitness == 0,
    {
        let mut agents: Vec<Agent> = Vec::new();
        let mut i: usize = 0;
        while i < size
            invariant
                3 <= n <= 1000,
                i <= size,
                agents@.len() == i,
                forall|j: int| 0 <= j < i ==> is_fresh(#[trigger] agents@[j], n as int),
            decreases size - i,
        {
            agents.push(Agent::spawn(Model::init(), n));
            i = i + 1;
        }
        Population { agents, countdown: 10, avg_fitness: 0 }
    }

    /// Update every agent independently against the shared track.  Dead
    /// agents stay exactly as they were.
    pub fn tick(&mut self, track: &Track, dt: i64)
        requires
            old(self).wf(track.spec_count()),
            track.wf(),
            0 < dt <= 1024,
        ensures
            final(self).wf(track.spec_count()),
            final(self).agents@.len() == old(self).agents@.len(),
            final(self).countdown == old(self).countdown,
            final(self).avg_fitness == old(self).avg_fitness,
            forall|i: int| 0 <= i < old(self).agents@.len() ==> spec_step(
                #[trigger] old(self).agents@[i],
                final(self).agents@[i],
                *track,
                dt as int,
            ),
            forall|i: int| 0 <= i < old(self).agents@.len() && (#[trigger] old(self).agents@[i]).is_dead ==> final(self).agents@[i] == old(self).agents@[i],
    {
        let len: usize = self.agents.len();
        let mut i: usize = 0;
        while i < len
            invariant
                track.wf(),
                0 < dt <= 1024,
                len == self.agents@.len(),
                len == old(self).agents@.len(),
                i <= len,
                self.countdown == old(self).countdown,
                self.avg_fitness == old(self).avg_fitness,
                forall|j: int| 0 <= j < len ==> (#[trigger] self.agents@[j]).wf(
                    track.spec_count(),
                ),
                forall|j: int| i <= j < len ==> (#[trigger] self.agents@[j]) == old(self).agents@[j],
                forall|j: int| 0 <= j < i ==> spec_step(
                    #[trigger] old(self).agents@[j],
                    self.agents@[j],
                    *track,
                    dt as int,
                ),
                forall|j: int| 0 <= j < i && (#[trigger] old(self).agents@[j]).is_dead
                    ==> self.agents@[j] == old(self).agents@[j],
                -0x100_0000_0000 <= self.avg_fitness <= 0x100_0000_0000,
            decreases len - i,
        {
            self.agents[i].update(track, dt);
            i = i + 1;
        }
    }

    /// One evolution cycle.  During warm-up only the countdown moves.
    /// With no alive agents nothing changes (in particular the reported
    /// average fitness stays).  Otherwise every dead agent is replaced by
    /// a fresh one (selection strictly before any replacement), alive
    /// agents are untouched, and the alive-average fitness is recorded
    /// and returned.
    pub fn evolve(&mut self, n: usize) -> (r: Option<i64>)
        requires
            old(self).wf(n as int),
            3 <= n <= 1000,
        ensures
            final(self).wf(n as int),
            final(self).agents@.len() == old(self).agents@.len(),
            old(self).countdown > 0 ==> final(self).countdown == old(self).countdown - 1 && final(self).agents == old(self).agents && final(self).avg_fitness == old(self).avg_fitness
                && r is None,
            old(self).countdown == 0 && spec_alive(
                old(self).agents@,
                old(self).agents@.len() as int,
            ) == 0 ==> *final(self) == *old(self) && r is None,
            old(self).countdown == 0 && spec_alive(
                old(self).agents@,
                old(self).agents@.len() as int,
            ) > 0 ==> {
                let avg = tdiv(
                    spec_total(old(self).agents@, old(self).agents@.len() as int),
                    spec_alive(old(self).agents@, old(self).agents@.len() as int),
                );
                &&& r == Some(avg as i64)
                &&& final(self).avg_fitness == avg
                &&& final(self).countdown == 0
                &&& forall|i: int| 0 <= i < old(self).agents@.len() && !(#[trigger] old(self).agents@[i]).is_dead ==> final(self).agents@[i] == old(self).agents@[i]
                &&& forall|i: int| 0 <= i < old(self).agents@.len() && (#[trigger] old(self).agents@[i]).is_dead ==> is_fresh(final(self).agents@[i], n as int)
                &&& forall|i: int|
                    0 <= i < old(self).agents@.len() && (#[trigger] old(self).agents@[i]).is_dead
                        && old(self).agents@[i].fitness <= avg + 819200 ==> exists|p: int|
                        0 <= p < old(self).agents@.len() && model_near(
                            final(self).agents@[i].model,
                            old(self).agents@[p].model,
                            186,
                        )
                &&& forall|i: int|
                    0 <= i < old(self).agents@.len() && (#[trigger] old(self).agents@[i]).is_dead
                        && old(self).agents@[i].fitness > avg + 819200 ==> model_eq(
                        final(self).agents@[i].model,
                        old(self).agents@[i].model,
                    )
            },
    {
        if self.countdown > 0 {
            self.countdown = self.countdown - 1;
            return None;
        }
        let len: usize = self.agents.len();
        let mut total: i128 = 0;
        let mut alive: usize = 0;
        let mut i: usize = 0;
        while i < len
            invariant
                *self == *old(self),
                self.wf(n as int),
                len == self.agents@.len(),
                i <= len,
                alive <= i,
                alive == spec_alive(self.agents@, i as int),
                total == spec_total(self.agents@, i as int),
                -(alive as int) * 0x100_0000_0000 <= total <= (alive as int) * 0x100_0000_0000,
            decreases len - i,
        {
            if !self.agents[i].is_dead {
                alive = alive + 1;
                total = total + self.agents[i].fitness as i128;
            }
            i = i + 1;
        }
        if alive == 0 {
            return None;
        }
        let avg128: i128 = if total >= 0 {
            total / (alive as i128)
        } else {
            -((-total) / (alive as i128))
        };
        proof {
            lemma_tdiv_bound(total as int, alive as int, 0x100_0000_0000);
        }
        let avg: i64 = avg128 as i64;
        self.avg_fitness = avg;
        let ghost orig = self.agents@;
        let mut replacements: Vec<Option<Agent>> = Vec::new();
        let mut i2: usize = 0;
        while i2 < len
            invariant
                self.agents@ == orig,
                self.wf(n as int),
                3 <= n <= 1000,
                len == self.agents@.len(),
                i2 <= len,
                -0x100_0000_0000 <= avg <= 0x100_0000_0000,
                replacements@.len() == i2,
                forall|j: int| 0 <= j < i2 ==> ((#[trigger] replacements@[j]) is Some <==> orig[
                    j].is_dead),
                forall|j: int| 0 <= j < i2 && (#[trigger] replacements@[j]) is Some ==> is_fresh(
                    replacements@[j].unwrap(),
                    n as int,
                ),
                forall|j: int|
                    0 <= j < i2 && (#[trigger] replacements@[j]) is Some && orig[j].fitness <= avg
                        + 819200 ==> exists|p: int|
                        0 <= p < len && model_near(
                            replacements@[j].unwrap().model,
                            orig[p].model,
                            186,
                        ),
                forall|j: int|
                    0 <= j < i2 && (#[trigger] replacements@[j]) is Some && orig[j].fitness > avg
                        + 819200 ==> model_eq(replacements@[j].unwrap().model, orig[j].model),
            decreases len - i2,
        {
            if self.agents[i2].is_dead {
                let breed: bool = self.agents[i2].fitness <= avg + 819200;
                let model: Model = if breed {
                    let p: usize = select_parent(&self.agents);
                    let mut m = self.agents[p].model.duplicate();
                    let ghost m0 = m;
                    m.mutate(31);
                    proof {
                        lemma_model_near_eq(m, m0, self.agents@[p as int].model, 186);
                    }
                    m
                } else {
                    self.agents[i2].model.duplicate()
                };
                replacements.push(Some(Agent::spawn(model, n)));
            } else {
                replacements.push(None);
            }
            i2 = i2 + 1;
        }
        let mut i3: usize = len;
        while i3 > 0
            invariant
                self.wf(n as int),
                len == self.agents@.len(),
                len == orig.len(),
                i3 <= len,
                replacements@.len() == i3,
                self.countdown == old(self).countdown,
                self.avg_fitness == avg,
                forall|j: int| 0 <= j < i3 ==> (#[trigger] self.agents@[j]) == orig[j],
                forall|j: int| 0 <= j < i3 ==> ((#[trigger] replacements@[j]) is Some <==> orig[
                    j].is_dead),
                forall|j: int| 0 <= j < i3 && (#[trigger] replacements@[j]) is Some ==> is_fresh(
                    replacements@[j].unwrap(),
                    n as int,
                ),
                forall|j: int|
                    0 <= j < i3 && (#[trigger] replacements@[j]) is Some && orig[j].fitness <= avg
                        + 819200 ==> exists|p: int|
                        0 <= p < len && model_near(
                            replacements@[j].unwrap().model,
                            orig[p].model,
                            186,
                        ),
                forall|j: int|
                    0 <= j < i3 && (#[trigger] replacements@[j]) is Some && orig[j].fitness > avg
                        + 819200 ==> model_eq(replacements@[j].unwrap().model, orig[j].model),
                forall|j: int| i3 <= j < len && !(#[trigger] orig[j]).is_dead ==> self.agents@[j]
                    == orig[j],
                forall|j: int| i3 <= j < len && (#[trigger] orig[j]).is_dead ==> is_fresh(
                    self.agents@[j],
                    n as int,
                ),
                forall|j: int|
                    i3 <= j < len && (#[trigger] orig[j]).is_dead && orig[j].fitness <= avg
                        + 819200 ==> exists|p: int|
                        0 <= p < len && model_near(self.agents@[j].model, orig[p].model, 186),
                forall|j: int|
                    i3 <= j < len && (#[trigger] orig[j]).is_dead && orig[j].fitness > avg
                        + 819200 ==> model_eq(self.agents@[j].model, orig[j].model),
            decreases i3,
        {
            i3 = i3 - 1;
            let slot = replacements.pop();
            match slot {
                Some(opt) => match opt {
                    Some(a) => {
                        self.agents[i3] = a;
                    },
                    None => {},
                },
                None => {},
            }
        }
        Some(avg)
    }
}

} // verus!
