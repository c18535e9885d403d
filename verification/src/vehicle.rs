//! Vehicle kinematics and sensing against a track.
//!
//! Speed and position are saturated at fixed bounds far beyond any value
//! the simulation reaches, so that every update is total.  One tick:
//! speed gains `100 * forward` per second, heading turns at up to
//! `TURN_GAIN` angle units per second, and the position advances along
//! the heading.
use vstd::prelude::*;
use crate::geom::dir_ok;
use crate::track::Track;
use crate::trig::{cos_units, norm_angle, sin_units, spec_cos, spec_norm_angle, spec_sin};
use crate::{clamp, mul_div, spec_clamp, tdiv};

verus! {

/// Bound on the vehicle speed (fixed point).
pub const VEL_MAX: i64 = 0x20_0000;

/// Bound on position coordinates, strictly inside the geometry's range so
/// that probe points offset from the position stay valid ray origins.
pub const POS_MAX: i64 = 0x7ff0_0000;

/// Turn rate: angle units per second at full steering.
pub const TURN_GAIN: i64 = 13037;

/// Number of sensor rays.
pub const RAY_COUNT: usize = 11;

/// The unit direction vector (scaled by `SCALE`) of a heading.
pub open spec fn spec_dir(h: int) -> (i64, i64) {
    (spec_cos(h) as i64, spec_sin(h) as i64)
}

/// Kinematic state: position, scalar speed, heading angle.
pub struct Vehicle {
    pub pos: (i64, i64),
    pub vel: i64,
    pub heading: i64,
}

/// Speed after one tick.
pub open spec fn spec_new_vel(v: Vehicle, f: int, dt: int) -> int {
    spec_clamp(v.vel + tdiv(100 * f * dt, 1024), -0x20_0000, 0x20_0000)
}

/// Heading after one tick.
pub open spec fn spec_new_heading(v: Vehicle, s: int, dt: int) -> int {
    spec_norm_angle(v.heading + tdiv(13037 * s * dt, 1048576))
}

/// X position after one tick (moved along the new heading at the new
/// speed, saturated at `POS_MAX`).
pub open spec fn spec_new_x(v: Vehicle, f: int, s: int, dt: int) -> int {
    spec_clamp(
        v.pos.0 + tdiv(spec_new_vel(v, f, dt) * spec_cos(spec_new_heading(v, s, dt)) * dt,
            1048576),
        -0x7ff0_0000,
        0x7ff0_0000,
    )
}

/// Y position after one tick.
pub open spec fn spec_new_y(v: Vehicle, f: int, s: int, dt: int) -> int {
    spec_clamp(
        v.pos.1 + tdiv(spec_new_vel(v, f, dt) * spec_sin(spec_new_heading(v, s, dt)) * dt,
            1048576),
        -0x7ff0_0000,
        0x7ff0_0000,
    )
}

/// The probe point a vehicle length behind the vehicle, used for the
/// checkpoint ray.
pub open spec fn spec_back10(v: Vehicle) -> (i64, i64) {
    ((v.pos.0 - 10 * spec_cos(v.heading as int)) as i64, (v.pos.1 - 10 * spec_sin(
        v.heading as int,
    )) as i64)
}

/// The collision probe point further behind the vehicle.
pub open spec fn spec_back15(v: Vehicle) -> (i64, i64) {
    ((v.pos.0 - 15 * spec_cos(v.heading as int)) as i64, (v.pos.1 - 15 * spec_sin(
        v.heading as int,
    )) as i64)
}

/// The side collision probe point.
pub open spec fn spec_side(v: Vehicle) -> (i64, i64) {
    let b = spec_back15(v);
    let q = spec_norm_angle(v.heading + 4096);
    ((b.0 + 5 * spec_cos(q)) as i64, (b.1 + 5 * spec_sin(q)) as i64)
}

/// The collision test: a side probe ray closer than the side clearance,
/// or a rear probe ray closer than the rear clearance.
pub open spec fn spec_collision(v: Vehicle, t: Track) -> bool {
    let side = t.spec_raycast(spec_side(v), spec_dir(spec_norm_angle(v.heading - 4096)));
    let back = t.spec_raycast(spec_back15(v), spec_dir(v.heading as int));
    ||| (side is Some && side.unwrap() < 10240)
    ||| (back is Some && back.unwrap() < 30720)
}

/// The `i`-th sensor ray angle of a fan of `RAY_COUNT` rays across `fov`
/// centered on the heading.
pub open spec fn spec_ray_angle(v: Vehicle, fov: int, i: int) -> int {
    spec_norm_angle(v.heading - fov / 2 + i * (fov / 11))
}

/// The `i`-th sensor reading: boundary hit distance, `0` when nothing is
/// hit.
pub open spec fn spec_ray_entry(v: Vehicle, t: Track, fov: int, i: int) -> int {
    match t.spec_raycast(v.pos, spec_dir(spec_ray_angle(v, fov, i))) {
        Option::None => 0,
        Option::Some(d) => d,
    }
}

impl Vehicle {
    /// Position, speed and heading are in range.
    pub open spec fn wf(self) -> bool {
        &&& -0x7ff0_0000 <= self.pos.0 <= 0x7ff0_0000
        &&& -0x7ff0_0000 <= self.pos.1 <= 0x7ff0_0000
        &&& -0x20_0000 <= self.vel <= 0x20_0000
        &&& 0 <= self.heading < 16384
    }

    pub fn new(pos: (i64, i64), heading: i64) -> (v: Vehicle)
        requires
            -0x7ff0_0000 <= pos.0 <= 0x7ff0_0000,
            -0x7ff0_0000 <= pos.1 <= 0x7ff0_0000,
            0 <= heading < 16384,
        ensures
            v.wf(),
            v.pos == pos,
            v.vel == 0,
            v.heading == heading,
    {
        Vehicle { pos, vel: 0, heading }
    }

    /// One kinematics tick from the controller commands.
    pub fn update(&mut self, forward: i64, steering: i64, dt: i64)
        requires
            old(self).wf(),
            -1024 <= forward <= 1024,
            -1024 <= steering <= 1024,
            0 < dt <= 1024,
        ensures
            final(self).wf(),
            final(self).vel == spec_new_vel(*old(self), forward as int, dt as int),
            final(self).heading == spec_new_heading(*old(self), steering as int, dt as int),
            final(self).pos.0 == spec_new_x(*old(self), forward as int, steering as int,
                dt as int),
            final(self).pos.1 == spec_new_y(*old(self), forward as int, steering as int,
                dt as int),
    {
        proof {
            assert(-(102400 * 1024) <= (100 * forward as int) * (dt as int) <= 102400 * 1024)
                by (nonlinear_arith)
                requires
                    -1024 <= forward <= 1024,
                    0 < dt <= 1024,
            ;
            crate::lemma_tdiv_bound((100 * forward as int) * (dt as int), 1024, 102400);
        }
        let dv: i64 = mul_div(100 * forward, dt, 1024);
        self.vel = clamp(self.vel + dv, -0x20_0000, 0x20_0000);
        proof {
            assert(-(13037 * 1048576) <= (13037 * steering as int) * (dt as int) <= 13037
                * 1048576) by (nonlinear_arith)
                requires
                    -1024 <= steering <= 1024,
                    0 < dt <= 1024,
            ;
            crate::lemma_tdiv_bound((13037 * steering as int) * (dt as int), 1048576, 13037);
        }
        let dh: i64 = mul_div(13037 * steering, dt, 1048576);
        self.heading = norm_angle(self.heading + dh);
        let c: i64 = cos_units(self.heading);
        let s: i64 = sin_units(self.heading);
        proof {
            assert(-0x8000_0000 <= (self.vel as int) * (c as int) <= 0x8000_0000
                && -0x8000_0000 <= (self.vel as int) * (s as int) <= 0x8000_0000)
                by (nonlinear_arith)
                requires
                    -0x20_0000 <= self.vel <= 0x20_0000,
                    -1024 <= c <= 1024,
                    -1024 <= s <= 1024,
            ;
        }
        proof {
            assert(-(0x20_0000 * 1048576) <= ((self.vel as int) * (c as int)) * (dt as int)
                <= 0x20_0000 * 1048576 && -(0x20_0000 * 1048576) <= ((self.vel as int) * (
            s as int)) * (dt as int) <= 0x20_0000 * 1048576) by (nonlinear_arith)
                requires
                    -0x8000_0000 <= (self.vel as int) * (c as int) <= 0x8000_0000,
                    -0x8000_0000 <= (self.vel as int) * (s as int) <= 0x8000_0000,
                    0 < dt <= 1024,
            ;
            crate::lemma_tdiv_bound(((self.vel as int) * (c as int)) * (dt as int), 1048576,
                0x20_0000);
            crate::lemma_tdiv_bound(((self.vel as int) * (s as int)) * (dt as int), 1048576,
                0x20_0000);
        }
        let dx: i64 = mul_div(self.vel * c, dt, 1048576);
        let dy: i64 = mul_div(self.vel * s, dt, 1048576);
        let x: i64 = clamp(self.pos.0 + dx, -0x7ff0_0000, 0x7ff0_0000);
        let y: i64 = clamp(self.pos.1 + dy, -0x7ff0_0000, 0x7ff0_0000);
        self.pos = (x, y);
    }

    /// The direction vector of an angle.
    fn dir_units(h: i64) -> (d: (i64, i64))
        requires
            0 <= h < 16384,
        ensures
            d == spec_dir(h as int),
            dir_ok(d),
    {
        (cos_units(h), sin_units(h))
    }

    /// Cast the sensor fan and collect one distance per ray (`0` when a
    /// ray hits nothing).
    pub fn sense(&self, track: &Track, fov: i64) -> (r: Vec<i64>)
        requires
            self.wf(),
            track.wf(),
            0 < fov <= 8192,
        ensures
            r@.len() == 11,
            forall|i: int| 0 <= i < 11 ==> (#[trigger] r@[i]) == spec_ray_entry(*self, *track,
                fov as int, i),
            forall|i: int| 0 <= i < 11 ==> 0 <= (#[trigger] r@[i]) <= 0x100_0000,
    {
        let mut r: Vec<i64> = Vec::new();
        let half: i64 = fov / 2;
        let dang: i64 = fov / 11;
        let mut i: usize = 0;
        while i < 11
            invariant
                self.wf(),
                track.wf(),
                0 < fov <= 8192,
                half == fov / 2,
                dang == fov / 11,
                i <= 11,
                r@.len() == i,
                forall|k: int| 0 <= k < i ==> (#[trigger] r@[k]) == spec_ray_entry(*self, *track,
                    fov as int, k),
                forall|k: int| 0 <= k < i ==> 0 <= (#[trigger] r@[k]) <= 0x100_0000,
            decreases 11 - i,
        {
            proof {
                vstd::arithmetic::div_mod::lemma_div_is_ordered(fov as int, 8192, 11);
                vstd::arithmetic::div_mod::lemma_div_is_ordered(fov as int, 8192, 2);
                vstd::arithmetic::div_mod::lemma_div_pos_is_pos(fov as int, 11);
                vstd::arithmetic::div_mod::lemma_div_pos_is_pos(fov as int, 2);
                assert(0 <= (i as int) * (dang as int) <= 7440) by (nonlinear_arith)
                    requires
                        0 <= i <= 10,
                        0 <= dang <= 744,
                ;
            }
            let ang: i64 = norm_angle(self.heading - half + (i as i64) * dang);
            let d = Self::dir_units(ang);
            let hit = track.raycast_boundaries(self.pos, d);
            match hit {
                None => r.push(0),
                Some(v) => r.push(v),
            }
            i = i + 1;
        }
        r
    }

    /// Two-probe collision test against the boundary loops.
    pub fn check_collision(&self, track: &Track) -> (c: bool)
        requires
            self.wf(),
            track.wf(),
        ensures
            c == spec_collision(*self, *track),
    {
        let ch: i64 = cos_units(self.heading);
        let sh: i64 = sin_units(self.heading);
        let back: (i64, i64) = (self.pos.0 - 15 * ch, self.pos.1 - 15 * sh);
        let q: i64 = norm_angle(self.heading + 4096);
        let cq: i64 = cos_units(q);
        let sq: i64 = sin_units(q);
        let side: (i64, i64) = (back.0 + 5 * cq, back.1 + 5 * sq);
        let mq: i64 = norm_angle(self.heading - 4096);
        let side_hit = track.raycast_boundaries(side, Self::dir_units(mq));
        let side_close: bool = match side_hit {
            Some(v) => v < 10240,
            None => false,
        };
        if side_close {
            true
        } else {
            let back_hit = track.raycast_boundaries(back, Self::dir_units(self.heading));
            match back_hit {
                Some(v) => v < 30720,
                None => false,
            }
        }
    }
}

} // verus!
