//! The closed track: anchors, derived inner/outer boundary points and
//! segment loops, and the ray-intersection queries against them.
//!
//! Each anchor is offset perpendicular to the chord between its cyclic
//! neighbours by `width` scaled by a damping factor, which combines the
//! tenth root of the turn angle between the adjacent edges with the tenth
//! root of the chord length (the boundary hugs the centerline on long or
//! straight stretches).  The offset components are saturated at
//! `DIST_CAP`, far beyond any real track's width.
use vstd::prelude::*;
use crate::geom::{
    coord_ok, dir_ok, min_hit, opt_min, opt_view, seg_hit, spec_dot_from, spec_min_hit,
    spec_seg_hit, Seg,
};
use crate::math::{iroot10, isqrt, pow10, spec_iroot10, spec_isqrt};
use crate::trig::{pseudo_angle, pseudo_diff, spec_pseudo_angle, spec_pseudo_diff};
use crate::{abs64, clamp, mul_div_clamp, spec_abs, spec_clamp, tdiv};

verus! {

/// `SCALE` to the ninth power: scales a fixed-point radicand so that its
/// tenth root is again a fixed-point value.
pub const POW9: u128 = 0x40_0000_0000_0000_0000_0000;

/// Bound on anchor coordinates.
pub const ANCHOR_MAX: i64 = 0x4000_0000;

/// Bound on the track half-width.
pub const WIDTH_MAX: i64 = 0x10_0000;

/// Cyclically previous index.
pub open spec fn cyc_prev(i: int, n: int) -> int {
    if i == 0 {
        n - 1
    } else {
        i - 1
    }
}

/// Cyclically next index.
pub open spec fn cyc_next(i: int, n: int) -> int {
    if i == n - 1 {
        0
    } else {
        i + 1
    }
}

/// First endpoint index of boundary segment `i` (`i` ranges to `n`
/// inclusive: the list closes the loop and repeats the first segment).
pub open spec fn seg_ia(i: int, n: int) -> int {
    if i < n {
        i
    } else {
        0
    }
}

/// Second endpoint index of boundary segment `i`.
pub open spec fn seg_ib(i: int, n: int) -> int {
    if i < n - 1 {
        i + 1
    } else if i == n - 1 {
        0
    } else {
        1
    }
}

/// An anchor's coordinates are in range.
pub open spec fn anchor_ok(p: (i64, i64)) -> bool {
    -0x4000_0000 <= p.0 <= 0x4000_0000 && -0x4000_0000 <= p.1 <= 0x4000_0000
}

/// A stored point equals a computed one.
pub open spec fn pt_eq(p: (i64, i64), q: (int, int)) -> bool {
    p.0 == q.0 && p.1 == q.1
}

/// The boundary offset vector at anchor `i`: perpendicular to the chord
/// between the cyclic neighbours, of length `width` times the damping
/// factor, each component saturated at `DIST_CAP`.
pub open spec fn spec_offset(anchors: Seq<(i64, i64)>, width: i64, i: int) -> (int, int) {
    let n = anchors.len() as int;
    let p = anchors[cyc_prev(i, n)];
    let c = anchors[i];
    let q = anchors[cyc_next(i, n)];
    let d0x = q.0 - p.0;
    let d0y = q.1 - p.1;
    let a1 = spec_pseudo_angle(c.0 - p.0, c.1 - p.1);
    let a2 = spec_pseudo_angle(q.0 - c.0, q.1 - c.1);
    let diff = spec_abs(spec_pseudo_diff(a1, a2));
    let da10 = spec_iroot10(diff * 0x40_0000_0000_0000_0000_0000);
    let l10 = spec_iroot10((spec_abs(d0x) + spec_abs(d0y)) * 0x40_0000_0000_0000_0000_0000);
    let damp = 2048 * da10 / (1024 + l10);
    let woff = width * damp;
    let norm = spec_isqrt(d0x * d0x + d0y * d0y);
    if norm == 0 {
        (0, 0)
    } else {
        (
            spec_clamp(tdiv(-d0y * woff, 1024 * norm), -0x100_0000, 0x100_0000),
            spec_clamp(tdiv(d0x * woff, 1024 * norm), -0x100_0000, 0x100_0000),
        )
    }
}

/// Inner boundary point at anchor `i`.
pub open spec fn spec_inner_pt(anchors: Seq<(i64, i64)>, width: i64, i: int) -> (int, int) {
    let c = anchors[i];
    let o = spec_offset(anchors, width, i);
    (c.0 + o.0, c.1 + o.1)
}

/// Outer boundary point at anchor `i`.
pub open spec fn spec_outer_pt(anchors: Seq<(i64, i64)>, width: i64, i: int) -> (int, int) {
    let c = anchors[i];
    let o = spec_offset(anchors, width, i);
    (c.0 - o.0, c.1 - o.1)
}

/// Closed-loop track geometry.  Boundary points and segments are fully
/// determined by the anchors and the width.
pub struct Track {
    pub anchors: Vec<(i64, i64)>,
    pub width: i64,
    pub inner_points: Vec<(i64, i64)>,
    pub outer_points: Vec<(i64, i64)>,
    pub inner_segments: Vec<Seg>,
    pub outer_segments: Vec<Seg>,
    pub start_pos: (i64, i64),
}

impl Track {
    /// Well-formed: the derived geometry is exactly what `spec_offset`
    /// computes from the anchors and the width.
    pub open spec fn wf(self) -> bool {
        let n = self.anchors@.len() as int;
        &&& 3 <= n <= 1000
        &&& 0 <= self.width <= 0x10_0000
        &&& forall|i: int| 0 <= i < n ==> anchor_ok(#[trigger] self.anchors@[i])
        &&& self.inner_points@.len() == n
        &&& self.outer_points@.len() == n
        &&& self.inner_segments@.len() == n + 1
        &&& self.outer_segments@.len() == n + 1
        &&& forall|i: int| 0 <= i < n ==> pt_eq(
            #[trigger] self.inner_points@[i],
            spec_inner_pt(self.anchors@, self.width, i),
        )
        &&& forall|i: int| 0 <= i < n ==> pt_eq(
            #[trigger] self.outer_points@[i],
            spec_outer_pt(self.anchors@, self.width, i),
        )
        &&& forall|i: int| 0 <= i < n + 1 ==> #[trigger] self.inner_segments@[i] == (
            self.inner_points@[seg_ia(i, n)],
            self.inner_points@[seg_ib(i, n)],
        )
        &&& forall|i: int| 0 <= i < n + 1 ==> #[trigger] self.outer_segments@[i] == (
            self.outer_points@[seg_ia(i, n)],
            self.outer_points@[seg_ib(i, n)],
        )
        &&& self.start_pos.0 == self.anchors@[0].0 - 30720
        &&& self.start_pos.1 == self.anchors@[0].1
    }

    /// The number of anchors (and of checkpoints).
    pub open spec fn spec_count(self) -> int {
        self.anchors@.len() as int
    }

    pub fn count(&self) -> (n: usize)
        requires
            self.wf(),
        ensures
            n == self.spec_count(),
    {
        self.anchors.len()
    }

    /// Build the track: derive both boundary point loops from the anchors
    /// and close them with segment lists.
    pub fn new(anchors: Vec<(i64, i64)>, width: i64) -> (t: Track)
        requires
            3 <= anchors@.len() <= 1000,
            0 <= width <= 0x10_0000,
            forall|i: int| 0 <= i < anchors@.len() ==> anchor_ok(#[trigger] anchors@[i]),
        ensures
            t.wf(),
            t.anchors@ == anchors@,
            t.width == width,
    {
        let n: usize = anchors.len();
        let mut inner_points: Vec<(i64, i64)> = Vec::new();
        let mut outer_points: Vec<(i64, i64)> = Vec::new();
        for i in 0..n
            invariant
                n == anchors@.len(),
                3 <= n <= 1000,
                0 <= width <= 0x10_0000,
                forall|j: int| 0 <= j < n ==> anchor_ok(#[trigger] anchors@[j]),
                inner_points@.len() == i,
                outer_points@.len() == i,
                forall|j: int| 0 <= j < i ==> pt_eq(
                    #[trigger] inner_points@[j],
                    spec_inner_pt(anchors@, width, j),
                ),
                forall|j: int| 0 <= j < i ==> pt_eq(
                    #[trigger] outer_points@[j],
                    spec_outer_pt(anchors@, width, j),
                ),
        {
            let off = offset_at(&anchors, width, i);
            let c = anchors[i];
            inner_points.push((c.0 + off.0, c.1 + off.1));
            outer_points.push((c.0 - off.0, c.1 - off.1));
        }
        let mut inner_segments: Vec<Seg> = Vec::new();
        let mut outer_segments: Vec<Seg> = Vec::new();
        let mut i: usize = 0;
        while i < n + 1
            invariant
                n == anchors@.len(),
                3 <= n <= 1000,
                inner_points@.len() == n,
                outer_points@.len() == n,
                i <= n + 1,
                inner_segments@.len() == i,
                outer_segments@.len() == i,
                forall|j: int| 0 <= j < i ==> #[trigger] inner_segments@[j] == (
                    inner_points@[seg_ia(j, n as int)],
                    inner_points@[seg_ib(j, n as int)],
                ),
                forall|j: int| 0 <= j < i ==> #[trigger] outer_segments@[j] == (
                    outer_points@[seg_ia(j, n as int)],
                    outer_points@[seg_ib(j, n as int)],
                ),
            decreases n + 1 - i,
        {
            let ia: usize = if i < n {
                i
            } else {
                0
            };
            let ib: usize = if i < n - 1 {
                i + 1
            } else if i == n - 1 {
                0
            } else {
                1
            };
            inner_segments.push((inner_points[ia], inner_points[ib]));
            outer_segments.push((outer_points[ia], outer_points[ib]));
            i = i + 1;
        }
        let start_x: i64 = anchors[0].0 - 30720;
        let start_y: i64 = anchors[0].1;
        Track {
            anchors,
            width,
            inner_points,
            outer_points,
            inner_segments,
            outer_segments,
            start_pos: (start_x, start_y),
        }
    }

    /// Smallest positive distance at which the ray hits either boundary
    /// loop, or `None` when it hits neither.
    pub fn raycast_boundaries(&self, origin: (i64, i64), dir: (i64, i64)) -> (r: Option<i64>)
        requires
            self.wf(),
            coord_ok(origin),
            dir_ok(dir),
        ensures
            opt_view(r) == self.spec_raycast(origin, dir),
            r is Some ==> 0 <= r.unwrap() <= 0x100_0000,
    {
        proof {
            self.lemma_segments_coord_ok();
        }
        let inner = min_hit(origin, dir, &self.inner_segments);
        let outer = min_hit(origin, dir, &self.outer_segments);
        match (inner, outer) {
            (None, _) => outer,
            (Some(x), None) => Some(x),
            (Some(x), Some(y)) => if x <= y {
                Some(x)
            } else {
                Some(y)
            },
        }
    }

    /// What `raycast_boundaries` returns: the minimum over both loops.
    pub open spec fn spec_raycast(self, origin: (i64, i64), dir: (i64, i64)) -> Option<int> {
        opt_min(
            spec_min_hit(origin, dir, self.inner_segments@),
            spec_min_hit(origin, dir, self.outer_segments@),
        )
    }

    /// Hit distance against the single crossing segment joining the inner and
    /// outer boundary points at checkpoint `cp`.
    pub fn raycast_checkpoint(&self, origin: (i64, i64), dir: (i64, i64), cp: usize) -> (r:
        Option<i64>)
        requires
            self.wf(),
            coord_ok(origin),
            dir_ok(dir),
            cp < self.spec_count(),
        ensures
            opt_view(r) == spec_seg_hit(origin, dir, self.inner_points@[cp as int],
                self.outer_points@[cp as int]),
            r is Some ==> 0 <= r.unwrap() <= 0x100_0000,
    {
        proof {
            self.lemma_points_coord_ok();
        }
        let a = self.inner_points[cp];
        let b = self.outer_points[cp];
        seg_hit(origin, dir, a, b)
    }

    /// Boundary points stay within `coord_ok` range: each is an anchor
    /// plus a saturated offset.
    pub proof fn lemma_points_coord_ok(self)
        requires
            self.wf(),
        ensures
            forall|i: int| 0 <= i < self.spec_count() ==> coord_ok(#[trigger] self.inner_points@[i]),
            forall|i: int| 0 <= i < self.spec_count() ==> coord_ok(#[trigger] self.outer_points@[i]),
    {
    }

    /// Boundary segments stay within `coord_ok` range.
    pub proof fn lemma_segments_coord_ok(self)
        requires
            self.wf(),
        ensures
            forall|i: int| 0 <= i < self.inner_segments@.len() ==> coord_ok(
                (#[trigger] self.inner_segments@[i]).0,
            ) && coord_ok(self.inner_segments@[i].1),
            forall|i: int| 0 <= i < self.outer_segments@.len() ==> coord_ok(
                (#[trigger] self.outer_segments@[i]).0,
            ) && coord_ok(self.outer_segments@[i].1),
    {
        self.lemma_points_coord_ok();
        let n = self.spec_count();
        assert forall|i: int| 0 <= i < n + 1 implies coord_ok(
            (#[trigger] self.inner_segments@[i]).0,
        ) && coord_ok(self.inner_segments@[i].1) && coord_ok(
            self.outer_segments@[i].0,
        ) && coord_ok(self.outer_segments@[i].1) by {
            assert(0 <= seg_ia(i, n) < n);
            assert(0 <= seg_ib(i, n) < n);
        }
    }

    /// What `raycast_boundaries` reports really is the minimum crossing
    /// over the explicit segment lists: a `Some` result equals one of the
    /// per-segment crossings and no crossing in either loop is smaller,
    /// and a `None` result means no segment of either loop is crossed.
    pub proof fn lemma_raycast_is_min(self, origin: (i64, i64), dir: (i64, i64))
        ensures
            self.spec_raycast(origin, dir) is None ==> forall|i: int|
                0 <= i < self.inner_segments@.len() ==> #[trigger] spec_seg_hit(
                    origin,
                    dir,
                    self.inner_segments@[i].0,
                    self.inner_segments@[i].1,
                ) is None,
            self.spec_raycast(origin, dir) is None ==> forall|i: int|
                0 <= i < self.outer_segments@.len() ==> #[trigger] spec_seg_hit(
                    origin,
                    dir,
                    self.outer_segments@[i].0,
                    self.outer_segments@[i].1,
                ) is None,
            self.spec_raycast(origin, dir) is Some ==> forall|i: int|
                0 <= i < self.inner_segments@.len() && #[trigger] spec_seg_hit(
                    origin,
                    dir,
                    self.inner_segments@[i].0,
                    self.inner_segments@[i].1,
                ) is Some ==> self.spec_raycast(origin, dir).unwrap() <= spec_seg_hit(
                    origin,
                    dir,
                    self.inner_segments@[i].0,
                    self.inner_segments@[i].1,
                ).unwrap(),
            self.spec_raycast(origin, dir) is Some ==> forall|i: int|
                0 <= i < self.outer_segments@.len() && #[trigger] spec_seg_hit(
                    origin,
                    dir,
                    self.outer_segments@[i].0,
                    self.outer_segments@[i].1,
                ) is Some ==> self.spec_raycast(origin, dir).unwrap() <= spec_seg_hit(
                    origin,
                    dir,
                    self.outer_segments@[i].0,
                    self.outer_segments@[i].1,
                ).unwrap(),
            self.spec_raycast(origin, dir) is Some ==> exists|i: int|
                0 <= i < self.inner_segments@.len() + self.outer_segments@.len() && Some(
                    self.spec_raycast(origin, dir).unwrap(),
                ) == (if i < self.inner_segments@.len() {
                    spec_seg_hit(
                        origin,
                        dir,
                        self.inner_segments@[i].0,
                        self.inner_segments@[i].1,
                    )
                } else {
                    spec_seg_hit(
                        origin,
                        dir,
                        self.outer_segments@[i - self.inner_segments@.len()].0,
                        self.outer_segments@[i - self.inner_segments@.len()].1,
                    )
                }),
    {
        crate::geom::lemma_min_hit_is_min(origin, dir, self.inner_segments@);
        crate::geom::lemma_min_hit_is_min(origin, dir, self.outer_segments@);
        let r = self.spec_raycast(origin, dir);
        if r is Some {
            let inner = spec_min_hit(origin, dir, self.inner_segments@);
            let outer = spec_min_hit(origin, dir, self.outer_segments@);
            let ni = self.inner_segments@.len() as int;
            if inner is Some && (outer is None || inner.unwrap() <= outer.unwrap()) {
                let j = choose|j: int|
                    0 <= j < ni && spec_seg_hit(
                        origin,
                        dir,
                        self.inner_segments@[j].0,
                        self.inner_segments@[j].1,
                    ) == inner;
                assert(0 <= j < ni + self.outer_segments@.len() && Some(r.unwrap()) == (if j
                    < ni {
                    spec_seg_hit(
                        origin,
                        dir,
                        self.inner_segments@[j].0,
                        self.inner_segments@[j].1,
                    )
                } else {
                    spec_seg_hit(
                        origin,
                        dir,
                        self.outer_segments@[j - ni].0,
                        self.outer_segments@[j - ni].1,
                    )
                }));
            } else {
                let j = choose|j: int|
                    0 <= j < self.outer_segments@.len() && spec_seg_hit(
                        origin,
                        dir,
                        self.outer_segments@[j].0,
                        self.outer_segments@[j].1,
                    ) == outer;
                assert(0 <= j + ni < ni + self.outer_segments@.len() && Some(r.unwrap()) == (if j
                    + ni < ni {
                    spec_seg_hit(
                        origin,
                        dir,
                        self.inner_segments@[j + ni].0,
                        self.inner_segments@[j + ni].1,
                    )
                } else {
                    spec_seg_hit(origin, dir, self.outer_segments@[j].0, self.outer_segments@[j].1)
                }));
            }
        }
    }

    /// A ray pointing away from a boundary that lies entirely behind its
    /// origin reports no reading: when every segment endpoint of both
    /// loops has a negative dot product with the ray direction, the
    /// raycast returns `None`.
    pub proof fn lemma_raycast_behind_none(self, origin: (i64, i64), dir: (i64, i64))
        requires
            forall|i: int| 0 <= i < self.inner_segments@.len() ==> spec_dot_from(
                origin,
                (#[trigger] self.inner_segments@[i]).0,
                dir,
            ) < 0 && spec_dot_from(origin, self.inner_segments@[i].1, dir) < 0,
            forall|i: int| 0 <= i < self.outer_segments@.len() ==> spec_dot_from(
                origin,
                (#[trigger] self.outer_segments@[i]).0,
                dir,
            ) < 0 && spec_dot_from(origin, self.outer_segments@[i].1, dir) < 0,
        ensures
            self.spec_raycast(origin, dir) is None,
    {
        crate::geom::lemma_behind_all_no_hit(origin, dir, self.inner_segments@);
        crate::geom::lemma_behind_all_no_hit(origin, dir, self.outer_segments@);
    }

    /// Boundary geometry is a function of anchors and width alone: two
    /// well-formed tracks built from the same anchors and width have
    /// identical boundary points and segment lists.
    pub proof fn lemma_deterministic(t1: Track, t2: Track)
        requires
            t1.wf(),
            t2.wf(),
            t1.anchors@ == t2.anchors@,
            t1.width == t2.width,
        ensures
            t1.inner_points@ == t2.inner_points@,
            t1.outer_points@ == t2.outer_points@,
            t1.inner_segments@ == t2.inner_segments@,
            t1.outer_segments@ == t2.outer_segments@,
            t1.start_pos == t2.start_pos,
    {
        let n = t1.spec_count();
        assert forall|i: int| 0 <= i < n implies t1.inner_points@[i] == t2.inner_points@[i]
            && t1.outer_points@[i] == t2.outer_points@[i] by {
            assert(pt_eq(t1.inner_points@[i], spec_inner_pt(t1.anchors@, t1.width, i)));
            assert(pt_eq(t2.inner_points@[i], spec_inner_pt(t2.anchors@, t2.width, i)));
        }
        assert(t1.inner_points@ =~= t2.inner_points@);
        assert(t1.outer_points@ =~= t2.outer_points@);
        assert forall|i: int| 0 <= i < n + 1 implies t1.inner_segments@[i] == t2.inner_segments@[i]
            && t1.outer_segments@[i] == t2.outer_segments@[i] by {
            assert(0 <= seg_ia(i, n) < n);
            assert(0 <= seg_ib(i, n) < n);
        }
        assert(t1.inner_segments@ =~= t2.inner_segments@);
        assert(t1.outer_segments@ =~= t2.outer_segments@);
    }
}

/// `5000^10`, the domain bound of `iroot10`.
proof fn lemma_pow10_5000()
    ensures
        pow10(5000) == 9_765_625_000_000_000_000_000_000_000_000_000_000,
{
    let m2: int = 25_000_000;
    let m4: int = 625_000_000_000_000;
    let m8: int = 390_625_000_000_000_000_000_000_000_000;
    assert(pow10(5000) == 9_765_625_000_000_000_000_000_000_000_000_000_000)
        by (nonlinear_arith)
        requires
            m2 == 25_000_000,
            m4 == 625_000_000_000_000,
            m8 == 390_625_000_000_000_000_000_000_000_000,
            m2 == 5000 * 5000,
            m4 == m2 * m2,
            m8 == m4 * m4,
            9_765_625_000_000_000_000_000_000_000_000_000_000 == m8 * m2,
    ;
}

/// Compute the boundary offset vector at anchor `i`, exactly as
/// `spec_offset` defines it.
fn offset_at(anchors: &Vec<(i64, i64)>, width: i64, i: usize) -> (o: (i64, i64))
    requires
        3 <= anchors@.len() <= 1000,
        0 <= width <= 0x10_0000,
        i < anchors@.len(),
        forall|j: int| 0 <= j < anchors@.len() ==> anchor_ok(#[trigger] anchors@[j]),
    ensures
        pt_eq(o, spec_offset(anchors@, width, i as int)),
        -0x100_0000 <= o.0 <= 0x100_0000,
        -0x100_0000 <= o.1 <= 0x100_0000,
{
    let n: usize = anchors.len();
    let p = anchors[if i == 0 {
        n - 1
    } else {
        i - 1
    }];
    let c = anchors[i];
    let q = anchors[if i == n - 1 {
        0
    } else {
        i + 1
    }];
    let d0x: i64 = q.0 - p.0;
    let d0y: i64 = q.1 - p.1;
    let a1: i64 = pseudo_angle(c.0 - p.0, c.1 - p.1);
    let a2: i64 = pseudo_angle(q.0 - c.0, q.1 - c.1);
    let diff: i64 = abs64(pseudo_diff(a1, a2));
    proof {
        lemma_pow10_5000();
    }
    let da10: i64 = iroot10((diff as u128) * POW9) as i64;
    let l1: i64 = abs64(d0x) + abs64(d0y);
    let l10: i64 = iroot10((l1 as u128) * POW9) as i64;
    let damp: i64 = (2048 * da10) / (1024 + l10);
    proof {
        vstd::arithmetic::div_mod::lemma_div_pos_is_pos(2048 * da10, 1024 + l10);
        vstd::arithmetic::div_mod::lemma_multiply_divide_le(
            2048 * da10,
            1024 + l10,
            9998,
        );
    }
    proof {
        assert(0 <= (width as int) * (damp as int) <= 0x10_0000 * 9998) by (nonlinear_arith)
            requires
                0 <= width <= 0x10_0000,
                0 <= damp <= 9998,
        ;
    }
    let woff: i64 = width * damp;
    let ax: i64 = abs64(d0x);
    let ay: i64 = abs64(d0y);
    proof {
        assert((ax as int) * (ax as int) == d0x * d0x && (ay as int) * (ay as int) == d0y * d0y
            && 0 <= (ax as int) * (ax as int) <= 0x4000_0000_0000_0000 && 0 <= (ay as int) * (
        ay as int) <= 0x4000_0000_0000_0000) by (nonlinear_arith)
            requires
                ax == spec_abs(d0x as int),
                ay == spec_abs(d0y as int),
                -0x8000_0000 <= d0x <= 0x8000_0000,
                -0x8000_0000 <= d0y <= 0x8000_0000,
        ;
    }
    let nsq: u64 = (ax as u64) * (ax as u64) + (ay as u64) * (ay as u64);
    let norm: u64 = isqrt(nsq);
    if norm == 0 {
        (0, 0)
    } else {
        let den: i64 = 1024 * (norm as i64);
        let ox: i64 = mul_div_clamp(-d0y, woff, den, -0x100_0000, 0x100_0000);
        let oy: i64 = mul_div_clamp(d0x, woff, den, -0x100_0000, 0x100_0000);
        (ox, oy)
    }
}

} // verus!
