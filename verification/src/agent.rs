//! An agent: one vehicle, one controller, and the fitness / checkpoint /
//! time-to-live bookkeeping, updated once per tick.
//!
//! Death is terminal for an agent: a dead agent never changes again and
//! is replaced, not revived, by the population controller.  Time-to-live
//! is consumed each tick and the agent dies the moment it is exhausted;
//! crossing the next checkpoint segment replenishes it.
use vstd::prelude::*;
use crate::geom::{opt_view, spec_seg_hit};
use crate::nn::Model;
use crate::rng::random_below;
use crate::track::Track;
use crate::trig::norm_angle;
use crate::vehicle::{
    spec_back10, spec_collision, spec_dir, spec_new_heading, spec_new_vel, spec_new_x, spec_new_y,
    spec_ray_entry, Vehicle,
};
use crate::{clamp, div_trunc, mul_div, spec_clamp, tdiv};

verus! {

/// Bound on the (cumulative, possibly negative) fitness.
pub const F_MAX: i64 = 0x100_0000_0000;

/// Cap on time-to-live, the per-checkpoint budget, and the time since the
/// last sensor refresh.
pub const TTL_CAP: i64 = 0x100_0000;

/// A checkpoint segment counts as crossed below this ray distance.
pub const CP_THRESH: i64 = 30720;

/// Time-to-live cost of one sensor refresh.
pub const SENSE_COST: i64 = 51;

/// Maximum of two integers.
pub open spec fn imax(a: int, b: int) -> int {
    if a >= b {
        a
    } else {
        b
    }
}

/// Minimum of two integers.
pub open spec fn imin2(a: int, b: int) -> int {
    if a <= b {
        a
    } else {
        b
    }
}

/// One agent of the population.
pub struct Agent {
    pub car: Vehicle,
    pub model: Model,
    pub rays: Vec<i64>,
    pub since_last: i64,
    pub fitness: i64,
    pub next_cp: usize,
    pub is_dead: bool,
    pub to_live: i64,
    pub time_per_cp: i64,
}

/// The checkpoint ray: cast from just behind the vehicle along its
/// heading against the segment of the agent's next checkpoint.
pub open spec fn s_hit(a: Agent, t: Track) -> Option<int> {
    spec_seg_hit(
        spec_back10(a.car),
        spec_dir(a.car.heading as int),
        t.inner_points@[a.next_cp as int],
        t.outer_points@[a.next_cp as int],
    )
}

/// A reading close enough to count as a crossing.
pub open spec fn cp_hit_close(h: Option<int>) -> bool {
    h is Some && h.unwrap() < 30720
}

/// Next checkpoint index, cyclic.
pub open spec fn spec_cp_next(cp: int, n: int) -> int {
    if cp + 1 == n {
        0
    } else {
        cp + 1
    }
}

/// Per-checkpoint budget after a crossing: shrunk by a quarter when a new
/// lap starts (index wraps past 0 to 1), never below one tick unit.
pub open spec fn spec_cp_tpc(a: Agent, n: int) -> int {
    if spec_cp_next(a.next_cp as int, n) == 1 {
        imax(tdiv(3 * a.time_per_cp, 4), 1)
    } else {
        a.time_per_cp as int
    }
}

/// Time-to-live after a crossing: replenished by the (new) budget.
pub open spec fn spec_cp_ttl(a: Agent, n: int) -> int {
    imin2(a.to_live + spec_cp_tpc(a, n), 0x100_0000)
}

/// Fitness after a crossing: a lap-completion bonus proportional to the
/// remaining time-to-live over the old budget, plus a fixed crossing bonus.
pub open spec fn spec_cp_fitness(a: Agent, n: int) -> int {
    let f1 = if spec_cp_next(a.next_cp as int, n) == 0 {
        spec_clamp(
            a.fitness + tdiv(2048000 * a.to_live, a.time_per_cp as int),
            -0x100_0000_0000,
            0x100_0000_0000,
        )
    } else {
        a.fitness as int
    };
    spec_clamp(f1 + 102400, -0x100_0000_0000, 0x100_0000_0000)
}

/// The agent after the tick's time-to-live decrement and driving reward.
pub open spec fn s_tick1(a: Agent, dt: int) -> Agent {
    Agent {
        to_live: (a.to_live - dt) as i64,
        fitness: spec_clamp(
            a.fitness + tdiv(a.car.vel * dt, 102400),
            -0x100_0000_0000,
            0x100_0000_0000,
        ) as i64,
        ..a
    }
}

/// The agent after the checkpoint step.
pub open spec fn s_cp(a: Agent, t: Track, n: int) -> Agent {
    if cp_hit_close(s_hit(a, t)) {
        Agent {
            next_cp: spec_cp_next(a.next_cp as int, n) as usize,
            time_per_cp: spec_cp_tpc(a, n) as i64,
            to_live: spec_cp_ttl(a, n) as i64,
            fitness: spec_cp_fitness(a, n) as i64,
            ..a
        }
    } else {
        a
    }
}

/// The controller input: the last sensor reading, then the speed scaled
/// down, then the time since the last sensor refresh.
pub open spec fn s_input(a: Agent) -> Seq<i64> {
    a.rays@.push(tdiv(a.car.vel as int, 200) as i64).push(a.since_last)
}

/// Controller output `k` on the agent's current input.
pub open spec fn s_out(a: Agent, k: int) -> int {
    a.model.spec_forward(s_input(a), k)
}

/// The one-tick step relation of an agent: what `Agent::update` does.
/// A dead agent never changes; a collision is terminal with a speed
/// penalty; exhausted time-to-live is terminal with everything else
/// unchanged; otherwise the driving reward, the checkpoint rule, the
/// controller pass, the conditional sensor refresh and the kinematics
/// tick all apply.
pub open spec fn spec_step(pre: Agent, post: Agent, t: Track, dt: int) -> bool {
    &&& post.model == pre.model
    &&& (pre.is_dead ==> post == pre)
    &&& (!pre.is_dead && spec_collision(pre.car, t) ==> {
        &&& post.is_dead == true
        &&& post.fitness == spec_clamp(
            pre.fitness - 10 * pre.car.vel,
            -0x100_0000_0000,
            0x100_0000_0000,
        )
        &&& post.car == pre.car
        &&& post.rays == pre.rays
        &&& post.next_cp == pre.next_cp
        &&& post.to_live == pre.to_live
        &&& post.time_per_cp == pre.time_per_cp
        &&& post.since_last == pre.since_last
    })
    &&& (!pre.is_dead && !spec_collision(pre.car, t) && pre.to_live <= dt ==> {
        &&& post.is_dead == true
        &&& post.to_live == pre.to_live
        &&& post.fitness == pre.fitness
        &&& post.car == pre.car
        &&& post.rays == pre.rays
        &&& post.next_cp == pre.next_cp
        &&& post.time_per_cp == pre.time_per_cp
        &&& post.since_last == pre.since_last
    })
    &&& (!pre.is_dead && !spec_collision(pre.car, t) && pre.to_live > dt ==> {
        let s2 = s_cp(s_tick1(pre, dt), t, t.spec_count());
        let sensed = s_out(s2, 2) > 0;
        &&& post.is_dead == false
        &&& post.next_cp == s2.next_cp
        &&& post.time_per_cp == s2.time_per_cp
        &&& post.fitness == s2.fitness
        &&& (sensed ==> post.rays@ == Seq::new(
            11,
            |i: int| spec_ray_entry(s2.car, t, 8192, i) as i64,
        ) && post.to_live == s2.to_live - 51 && post.since_last == spec_clamp(dt, 0, 0x100_0000))
        &&& (!sensed ==> post.rays == pre.rays && post.to_live == s2.to_live && post.since_last
            == spec_clamp(pre.since_last + dt, 0, 0x100_0000))
        &&& post.car.vel == spec_new_vel(pre.car, s_out(s2, 0), dt)
        &&& post.car.heading == spec_new_heading(pre.car, s_out(s2, 1), dt)
        &&& post.car.pos.0 == spec_new_x(pre.car, s_out(s2, 0), s_out(s2, 1), dt)
        &&& post.car.pos.1 == spec_new_y(pre.car, s_out(s2, 0), s_out(s2, 1), dt)
    })
}

impl Agent {
    /// Well-formed with respect to a track of `n` checkpoints.
    pub open spec fn wf(self, n: int) -> bool {
        &&& self.car.wf()
        &&& self.model.wf()
        &&& self.rays@.len() == 11
        &&& forall|i: int| 0 <= i < 11 ==> 0 <= (#[trigger] self.rays@[i]) <= 0x100_0000
        &&& 0 <= self.since_last <= 0x100_0000
        &&& -0x100_0000_0000 <= self.fitness <= 0x100_0000_0000
        &&& self.next_cp < n
        &&& -0x100_0000 <= self.to_live <= 0x100_0000
        &&& (self.is_dead || self.to_live > -2048)
        &&& 1 <= self.time_per_cp <= 0x100_0000
    }

    /// A fresh agent at the given pose, with the given controller.
    pub fn with_pose(model: Model, pos: (i64, i64), heading: i64, n: usize) -> (a: Agent)
        requires
            model.wf(),
            -0x7ff0_0000 <= pos.0 <= 0x7ff0_0000,
            -0x7ff0_0000 <= pos.1 <= 0x7ff0_0000,
            0 <= heading < 16384,
            2 <= n,
        ensures
            a.wf(n as int),
            a.car.pos == pos,
            a.car.vel == 0,
            a.car.heading == heading,
            a.model == model,
            a.rays@ == Seq::new(11, |i: int| 0i64),
            a.since_last == 3072,
            a.fitness == 5120,
            a.next_cp == 1,
            a.is_dead == false,
            a.to_live == 8192,
            a.time_per_cp == 4096,
    {
        let mut rays: Vec<i64> = Vec::new();
        let mut i: usize = 0;
        while i < 11
            invariant
                i <= 11,
                rays@.len() == i,
                forall|k: int| 0 <= k < i ==> (#[trigger] rays@[k]) == 0i64,
            decreases 11 - i,
        {
            rays.push(0);
            i = i + 1;
        }
        proof {
            assert(rays@ =~= Seq::new(11, |i: int| 0i64));
        }
        Agent {
            car: Vehicle::new(pos, heading),
            model,
            rays,
            since_last: 3072,
            fitness: 5120,
            next_cp: 1,
            is_dead: false,
            to_live: 8192,
            time_per_cp: 4096,
        }
    }

    /// A fresh agent at a random pose near the start area.
    pub fn spawn(model: Model, n: usize) -> (a: Agent)
        requires
            model.wf(),
            2 <= n,
        ensures
            a.wf(n as int),
            a.model == model,
            a.is_dead == false,
            a.fitness == 5120,
            a.next_cp == 1,
            a.to_live == 8192,
            a.time_per_cp == 4096,
            307200 <= a.car.pos.0 <= 358400,
            174080 <= a.car.pos.1 <= 225280,
            0 <= a.car.heading <= 1365 || 16384 - 1365 <= a.car.heading < 16384,
    {
        let x: i64 = 307200 + random_below(51201) as i64;
        let y: i64 = 174080 + random_below(51201) as i64;
        let h: i64 = norm_angle(random_below(2731) as i64 - 1365);
        Agent::with_pose(model, (x, y), h, n)
    }

    /// Apply the checkpoint rule to a given reading of the checkpoint
    /// ray: when the crossing segment is close, advance the checkpoint
    /// cyclically, shrink the budget on a new lap, replenish time-to-live
    /// and award the bonuses; otherwise change nothing.
    pub fn apply_checkpoint(&mut self, hit: Option<i64>, n: usize)
        requires
            old(self).wf(n as int),
            2 <= n,
        ensures
            final(self).wf(n as int),
            !cp_hit_close(opt_view(hit)) ==> *final(self) == *old(self),
            cp_hit_close(opt_view(hit)) ==> {
                &&& final(self).next_cp == spec_cp_next(old(self).next_cp as int, n as int)
                &&& final(self).time_per_cp == spec_cp_tpc(*old(self), n as int)
                &&& final(self).to_live == spec_cp_ttl(*old(self), n as int)
                &&& final(self).fitness == spec_cp_fitness(*old(self), n as int)
                &&& final(self).car == old(self).car
                &&& final(self).model == old(self).model
                &&& final(self).rays == old(self).rays
                &&& final(self).since_last == old(self).since_last
                &&& final(self).is_dead == old(self).is_dead
            },
    {
        let close: bool = match hit {
            Some(d) => d < 30720,
            None => false,
        };
        if close {
            let ncp: usize = if self.next_cp + 1 == n {
                0
            } else {
                self.next_cp + 1
            };
            self.next_cp = ncp;
            if ncp == 0 {
                proof {
                    crate::lemma_tdiv_bound(
                        2048000 * (self.to_live as int),
                        self.time_per_cp as int,
                        0x400_0000_0000_0000,
                    );
                }
                let bonus: i64 = mul_div(2048000, self.to_live, self.time_per_cp);
                self.fitness = clamp(self.fitness + bonus, -0x100_0000_0000, 0x100_0000_0000);
            }
            if ncp == 1 {
                let t34: i64 = (3 * self.time_per_cp) / 4;
                self.time_per_cp = if t34 < 1 {
                    1
                } else {
                    t34
                };
            }
            let nt: i64 = self.to_live + self.time_per_cp;
            self.to_live = if nt > 0x100_0000 {
                0x100_0000
            } else {
                nt
            };
            self.fitness = clamp(self.fitness + 102400, -0x100_0000_0000, 0x100_0000_0000);
        }
    }

    /// One simulation tick.  A dead agent never changes.  A collision is
    /// terminal and costs fitness in proportion to the speed; exhausting
    /// time-to-live is terminal.  Otherwise the agent earns the driving
    /// reward, applies the checkpoint rule, runs its controller, possibly
    /// refreshes its sensors (third output positive), and advances its
    /// kinematics with the first two outputs.
    pub fn update(&mut self, track: &Track, dt: i64)
        requires
            old(self).wf(track.spec_count()),
            track.wf(),
            0 < dt <= 1024,
        ensures
            final(self).wf(track.spec_count()),
            spec_step(*old(self), *final(self), *track, dt as int),
    {
        if self.is_dead {
            return ;
        }
        let n: usize = self.track_count(track);
        if self.car.check_collision(track) {
            self.is_dead = true;
            self.fitness = clamp(
                self.fitness - 10 * self.car.vel,
                -0x100_0000_0000,
                0x100_0000_0000,
            );
            return ;
        }
        if self.to_live <= dt {
            self.is_dead = true;
            return ;
        }
        self.to_live = self.to_live - dt;
        proof {
            assert(-(0x20_0000 * 102400) <= (self.car.vel as int) * (dt as int) <= 0x20_0000
                * 102400) by (nonlinear_arith)
                requires
                    -0x20_0000 <= self.car.vel <= 0x20_0000,
                    0 < dt <= 1024,
            ;
            crate::lemma_tdiv_bound((self.car.vel as int) * (dt as int), 102400, 0x20_0000);
        }
        let gain: i64 = mul_div(self.car.vel, dt, 102400);
        self.fitness = clamp(self.fitness + gain, -0x100_0000_0000, 0x100_0000_0000);
        proof {
            track.lemma_points_coord_ok();
        }
        let ch: i64 = crate::trig::cos_units(self.car.heading);
        let sh: i64 = crate::trig::sin_units(self.car.heading);
        let back: (i64, i64) = (self.car.pos.0 - 10 * ch, self.car.pos.1 - 10 * sh);
        let hit = track.raycast_checkpoint(back, (ch, sh), self.next_cp);
        self.apply_checkpoint(hit, n);
        let ghost s2 = *self;
        let mut x: Vec<i64> = Vec::new();
        let mut j: usize = 0;
        while j < 11
            invariant
                self.rays@.len() == 11,
                forall|k: int| 0 <= k < 11 ==> 0 <= (#[trigger] self.rays@[k]) <= 0x100_0000,
                j <= 11,
                x@.len() == j,
                forall|k: int| 0 <= k < j ==> (#[trigger] x@[k]) == self.rays@[k],
            decreases 11 - j,
        {
            x.push(self.rays[j]);
            j = j + 1;
        }
        let v200: i64 = div_trunc(self.car.vel, 200);
        x.push(v200);
        x.push(self.since_last);
        proof {
            assert(x@ =~= s_input(s2));
        }
        let out = self.model.forward(&x);
        let sensed: bool = out[2] > 0;
        if sensed {
            let readings = self.car.sense(track, 8192);
            proof {
                assert(readings@ =~= Seq::new(
                    11,
                    |i: int| spec_ray_entry(s2.car, *track, 8192, i) as i64,
                ));
            }
            self.rays = readings;
            self.to_live = self.to_live - 51;
            self.since_last = 0;
        }
        self.since_last = clamp(self.since_last + dt, 0, 0x100_0000);
        let f: i64 = out[0];
        let s: i64 = out[1];
        self.car.update(f, s, dt);
    }

    /// The number of checkpoints of the agent's track.
    fn track_count(&self, track: &Track) -> (n: usize)
        requires
            track.wf(),
        ensures
            n == track.spec_count(),
            n >= 3,
    {
        track.count()
    }
}

} // verus!
