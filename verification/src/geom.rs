//! Exact 2D ray / segment intersection on fixed-point coordinates.
//!
//! A ray is an origin and a direction vector (a scaled cosine/sine pair).
//! The hit distance is defined exactly over the integers: with `den` the
//! cross product of direction and segment, the ray crosses the segment iff
//! `den != 0`, the ray parameter is nonnegative and the segment parameter
//! lies in `[0, 1]`; the reported distance is the ray parameter scaled by
//! `SCALE` and saturated at `DIST_CAP`.
use vstd::prelude::*;

verus! {

/// A segment: two endpoints in fixed-point coordinates.
pub type Seg = ((i64, i64), (i64, i64));

/// Bound on coordinates of track geometry and ray origins.
pub const COORD_MAX: i64 = 0x8000_0000;

/// Bound on the components of a ray direction vector.
pub const DIR_MAX: i64 = 2048;

/// Distances are saturated here: no reported reading exceeds this.
pub const DIST_CAP: i64 = 0x100_0000;

/// Minimum of two integers.
pub open spec fn imin(a: int, b: int) -> int {
    if a <= b {
        a
    } else {
        b
    }
}

/// The coordinates of a point are in range.
pub open spec fn coord_ok(p: (i64, i64)) -> bool {
    -0x8000_0000 <= p.0 <= 0x8000_0000 && -0x8000_0000 <= p.1 <= 0x8000_0000
}

/// The components of a direction vector are in range.
pub open spec fn dir_ok(d: (i64, i64)) -> bool {
    -2048 <= d.0 <= 2048 && -2048 <= d.1 <= 2048
}

/// Distance at which the ray from `o` along `d` crosses the segment
/// `(a, b)`, or `None` if it does not (a segment parallel to the ray
/// never counts as crossed).
pub open spec fn spec_seg_hit(o: (i64, i64), d: (i64, i64), a: (i64, i64), b: (i64, i64))
    -> Option<int> {
    let vx = b.0 - a.0;
    let vy = b.1 - a.1;
    let den = d.0 * vy - d.1 * vx;
    let wx = a.0 - o.0;
    let wy = a.1 - o.1;
    let tn = wx * vy - wy * vx;
    let sn = wx * d.1 - wy * d.0;
    if den == 0 {
        None
    } else {
        let dd = if den > 0 { den } else { -den };
        let tt = if den > 0 { tn } else { -tn };
        let ss = if den > 0 { sn } else { -sn };
        if tt >= 0 && 0 <= ss && ss <= dd {
            Some(imin(tt * 1024 / dd, 0x100_0000))
        } else {
            None
        }
    }
}

/// Minimum hit distance over the first `n` segments of `segs`.
pub open spec fn spec_min_hit_prefix(o: (i64, i64), d: (i64, i64), segs: Seq<Seg>, n: int)
    -> Option<int>
    decreases n,
{
    if n <= 0 {
        None
    } else {
        opt_min(
            spec_min_hit_prefix(o, d, segs, n - 1),
            spec_seg_hit(o, d, segs[n - 1].0, segs[n - 1].1),
        )
    }
}

/// Minimum hit distance over a whole segment list.
pub open spec fn spec_min_hit(o: (i64, i64), d: (i64, i64), segs: Seq<Seg>) -> Option<int> {
    spec_min_hit_prefix(o, d, segs, segs.len() as int)
}

/// Minimum of two optional distances, `None` meaning no reading.
pub open spec fn opt_min(x: Option<int>, y: Option<int>) -> Option<int> {
    match (x, y) {
        (Option::None, _) => y,
        (_, Option::None) => x,
        (Option::Some(a), Option::Some(b)) => Option::Some(imin(a, b)),
    }
}

/// The integer view of an optional fixed-point distance.
pub open spec fn opt_view(x: Option<i64>) -> Option<int> {
    match x {
        Option::None => Option::None,
        Option::Some(v) => Option::Some(v as int),
    }
}

/// Compute the hit of one segment, exactly as `spec_seg_hit` defines it.
pub fn seg_hit(o: (i64, i64), d: (i64, i64), a: (i64, i64), b: (i64, i64)) -> (r: Option<i64>)
    requires
        coord_ok(o),
        dir_ok(d),
        coord_ok(a),
        coord_ok(b),
    ensures
        opt_view(r) == spec_seg_hit(o, d, a, b),
        r is Some ==> 0 <= r.unwrap() <= 0x100_0000,
{
    let vx: i128 = b.0 as i128 - a.0 as i128;
    let vy: i128 = b.1 as i128 - a.1 as i128;
    let wx: i128 = a.0 as i128 - o.0 as i128;
    let wy: i128 = a.1 as i128 - o.1 as i128;
    proof {
        assert({
            &&& -0x10_0000_0000_0000 <= (d.0 as int) * vy <= 0x10_0000_0000_0000
            &&& -0x10_0000_0000_0000 <= (d.1 as int) * vx <= 0x10_0000_0000_0000
            &&& -0x4_0000_0000_0000_0000 <= wx * vy <= 0x4_0000_0000_0000_0000
            &&& -0x4_0000_0000_0000_0000 <= wy * vx <= 0x4_0000_0000_0000_0000
            &&& -0x10_0000_0000_0000 <= wx * (d.1 as int) <= 0x10_0000_0000_0000
            &&& -0x10_0000_0000_0000 <= wy * (d.0 as int) <= 0x10_0000_0000_0000
        }) by (nonlinear_arith)
            requires
                -0x2_0000_0000 <= vx <= 0x2_0000_0000,
                -0x2_0000_0000 <= vy <= 0x2_0000_0000,
                -0x2_0000_0000 <= wx <= 0x2_0000_0000,
                -0x2_0000_0000 <= wy <= 0x2_0000_0000,
                -2048 <= d.0 <= 2048,
                -2048 <= d.1 <= 2048,
        ;
    }
    let den: i128 = d.0 as i128 * vy - d.1 as i128 * vx;
    let tn: i128 = wx * vy - wy * vx;
    let sn: i128 = wx * d.1 as i128 - wy * d.0 as i128;
    if den == 0 {
        None
    } else {
        let dd: i128 = if den > 0 { den } else { -den };
        let tt: i128 = if den > 0 { tn } else { -tn };
        let ss: i128 = if den > 0 { sn } else { -sn };
        if tt >= 0 && 0 <= ss && ss <= dd {
            let q: i128 = (tt * 1024) / dd;
            proof {
                vstd::arithmetic::div_mod::lemma_div_pos_is_pos(tt * 1024, dd as int);
            }
            let r: i64 = if q >= 0x100_0000 {
                0x100_0000
            } else {
                q as i64
            };
            Some(r)
        } else {
            None
        }
    }
}

/// Smallest positive crossing distance of the ray over a list of
/// segments, or `None` when the ray crosses none of them.
pub fn min_hit(o: (i64, i64), d: (i64, i64), segs: &Vec<Seg>) -> (r: Option<i64>)
    requires
        coord_ok(o),
        dir_ok(d),
        forall|i: int| 0 <= i < segs@.len() ==> coord_ok((#[trigger] segs@[i]).0) && coord_ok(
            segs@[i].1,
        ),
    ensures
        opt_view(r) == spec_min_hit(o, d, segs@),
        r is Some ==> 0 <= r.unwrap() <= 0x100_0000,
{
    let mut best: Option<i64> = None;
    let n: usize = segs.len();
    for i in 0..n
        invariant
            n == segs@.len(),
            coord_ok(o),
            dir_ok(d),
            forall|j: int| 0 <= j < segs@.len() ==> coord_ok((#[trigger] segs@[j]).0) && coord_ok(
                segs@[j].1,
            ),
            opt_view(best) == spec_min_hit_prefix(o, d, segs@, i as int),
            best is Some ==> 0 <= best.unwrap() <= 0x100_0000,
    {
        let hit = seg_hit(o, d, segs[i].0, segs[i].1);
        best = match (best, hit) {
            (None, _) => hit,
            (Some(x), None) => Some(x),
            (Some(x), Some(y)) => if x <= y {
                Some(x)
            } else {
                Some(y)
            },
        };
    }
    best
}

/// The minimum-hit fold really is the minimum over the explicit segment
/// list: a `Some` result is one of the per-segment crossings and no
/// crossing is smaller, and a `None` result means no segment is crossed.
pub proof fn lemma_min_hit_is_min(o: (i64, i64), d: (i64, i64), segs: Seq<Seg>)
    ensures
        spec_min_hit(o, d, segs) is Some ==> exists|i: int|
            0 <= i < segs.len() && spec_seg_hit(o, d, segs[i].0, segs[i].1) == spec_min_hit(
                o,
                d,
                segs,
            ),
        spec_min_hit(o, d, segs) is Some ==> forall|i: int|
            0 <= i < segs.len() && #[trigger] spec_seg_hit(o, d, segs[i].0, segs[i].1) is Some
                ==> spec_min_hit(o, d, segs).unwrap() <= spec_seg_hit(
                o,
                d,
                segs[i].0,
                segs[i].1,
            ).unwrap(),
        spec_min_hit(o, d, segs) is None ==> forall|i: int|
            0 <= i < segs.len() ==> #[trigger] spec_seg_hit(o, d, segs[i].0, segs[i].1) is None,
{
    lemma_min_hit_prefix_is_min(o, d, segs, segs.len() as int);
}

proof fn lemma_min_hit_prefix_is_min(o: (i64, i64), d: (i64, i64), segs: Seq<Seg>, n: int)
    requires
        n <= segs.len(),
    ensures
        spec_min_hit_prefix(o, d, segs, n) is Some ==> exists|i: int|
            0 <= i < n && spec_seg_hit(o, d, segs[i].0, segs[i].1) == spec_min_hit_prefix(
                o,
                d,
                segs,
                n,
            ),
        spec_min_hit_prefix(o, d, segs, n) is Some ==> forall|i: int|
            0 <= i < n && #[trigger] spec_seg_hit(o, d, segs[i].0, segs[i].1) is Some
                ==> spec_min_hit_prefix(o, d, segs, n).unwrap() <= spec_seg_hit(
                o,
                d,
                segs[i].0,
                segs[i].1,
            ).unwrap(),
        spec_min_hit_prefix(o, d, segs, n) is None ==> forall|i: int|
            0 <= i < n ==> #[trigger] spec_seg_hit(o, d, segs[i].0, segs[i].1) is None,
    decreases n,
{
    if n > 0 {
        lemma_min_hit_prefix_is_min(o, d, segs, n - 1);
    }
}

/// Dot product of the vector from `o` to `p` with `d`.
pub open spec fn spec_dot_from(o: (i64, i64), p: (i64, i64), d: (i64, i64)) -> int {
    (p.0 - o.0) * d.0 + (p.1 - o.1) * d.1
}

/// A segment both of whose endpoints lie strictly behind the ray origin
/// (negative dot product with the ray direction) is never crossed.
pub proof fn lemma_behind_segment_no_hit(
    o: (i64, i64),
    d: (i64, i64),
    a: (i64, i64),
    b: (i64, i64),
)
    requires
        spec_dot_from(o, a, d) < 0,
        spec_dot_from(o, b, d) < 0,
    ensures
        spec_seg_hit(o, d, a, b) is None,
{
    let vx = b.0 - a.0;
    let vy = b.1 - a.1;
    let den = d.0 * vy - d.1 * vx;
    let wx = a.0 - o.0;
    let wy = a.1 - o.1;
    let tn = wx * vy - wy * vx;
    let sn = wx * d.1 - wy * d.0;
    if den != 0 {
        let dd = if den > 0 { den } else { -den };
        let tt = if den > 0 { tn } else { -tn };
        let ss = if den > 0 { sn } else { -sn };
        if tt >= 0 && 0 <= ss && ss <= dd {
            // With `wa = a - o`, `wb = b - o` and `v = b - a`, the Cramer
            // identity `tn * d - sn * v == den * wa` projects onto `d` as
            // `tt * |d|^2 == dd * (wa . d) + ss * (v . d)`, whose right side
            // is a positive combination of the two negative endpoint dots.
            let dx = d.0 as int;
            let dy = d.1 as int;
            let wa = spec_dot_from(o, a, d);
            let wb = spec_dot_from(o, b, d);
            assert(wa == wx * dx + wy * dy);
            assert(wb - wa == vx * dx + vy * dy) by (nonlinear_arith)
                requires
                    vx == b.0 - a.0,
                    vy == b.1 - a.1,
                    wx == a.0 - o.0,
                    wy == a.1 - o.1,
                    wa == wx * dx + wy * dy,
                    wb == (b.0 - o.0) * dx + (b.1 - o.1) * dy,
            ;
            let m1 = dx * dx;
            let m2 = dy * dy;
            let m3 = dx * dy;
            let pa1 = wx * vy;
            let pb1 = wy * vx;
            let pc = dx * vy;
            let pd = dy * vx;
            let pe = wx * dx;
            let pf = wy * dy;
            let pg = wx * dy;
            let ph = wy * dx;
            let pi = vx * dx;
            let pj = vy * dy;
            let pk = vy * wy;
            let pl = vx * wx;
            assert(tn * (m1 + m2) == pa1 * m1 + pa1 * m2 - pb1 * m1 - pb1 * m2)
                by (nonlinear_arith)
                requires
                    tn == pa1 - pb1,
            ;
            assert(den * wa == pc * pe + pc * pf - pd * pe - pd * pf) by (nonlinear_arith)
                requires
                    den == pc - pd,
                    wa == pe + pf,
            ;
            assert(sn * (wb - wa) == pg * pi + pg * pj - ph * pi - ph * pj) by (nonlinear_arith)
                requires
                    sn == pg - ph,
                    wb - wa == pi + pj,
            ;
            assert(pc * pe == pa1 * m1) by (nonlinear_arith)
                requires
                    pc == dx * vy,
                    pe == wx * dx,
                    pa1 == wx * vy,
                    m1 == dx * dx,
            ;
            assert(pc * pf == pk * m3) by (nonlinear_arith)
                requires
                    pc == dx * vy,
                    pf == wy * dy,
                    pk == vy * wy,
                    m3 == dx * dy,
            ;
            assert(pd * pe == pl * m3) by (nonlinear_arith)
                requires
                    pd == dy * vx,
                    pe == wx * dx,
                    pl == vx * wx,
                    m3 == dx * dy,
            ;
            assert(pd * pf == pb1 * m2) by (nonlinear_arith)
                requires
                    pd == dy * vx,
                    pf == wy * dy,
                    pb1 == wy * vx,
                    m2 == dy * dy,
            ;
            assert(pg * pi == pl * m3) by (nonlinear_arith)
                requires
                    pg == wx * dy,
                    pi == vx * dx,
                    pl == vx * wx,
                    m3 == dx * dy,
            ;
            assert(pg * pj == pa1 * m2) by (nonlinear_arith)
                requires
                    pg == wx * dy,
                    pj == vy * dy,
                    pa1 == wx * vy,
                    m2 == dy * dy,
            ;
            assert(ph * pi == pb1 * m1) by (nonlinear_arith)
                requires
                    ph == wy * dx,
                    pi == vx * dx,
                    pb1 == wy * vx,
                    m1 == dx * dx,
            ;
            assert(ph * pj == pk * m3) by (nonlinear_arith)
                requires
                    ph == wy * dx,
                    pj == vy * dy,
                    pk == vy * wy,
                    m3 == dx * dy,
            ;
            assert(tn * (m1 + m2) == den * wa + sn * (wb - wa));
            if den > 0 {
                assert(tt * (dx * dx + dy * dy) == dd * wa + ss * (wb - wa));
            } else {
                assert(tt * (dx * dx + dy * dy) == -(tn * (dx * dx + dy * dy)))
                    by (nonlinear_arith)
                    requires
                        tt == -tn,
                ;
                assert(dd * wa + ss * (wb - wa) == -(den * wa + sn * (wb - wa)))
                    by (nonlinear_arith)
                    requires
                        dd == -den,
                        ss == -sn,
                ;
            }
            assert(dd * wa + ss * (wb - wa) < 0) by (nonlinear_arith)
                requires
                    wa < 0,
                    wb < 0,
                    0 <= ss <= dd,
                    dd > 0,
            ;
            assert(tt * (dx * dx + dy * dy) >= 0) by (nonlinear_arith)
                requires
                    tt >= 0,
            ;
            assert(false);
        }
    }
}

/// Lifting of `lemma_behind_segment_no_hit` to a whole segment list.
pub proof fn lemma_behind_all_no_hit(o: (i64, i64), d: (i64, i64), segs: Seq<Seg>)
    requires
        forall|i: int| 0 <= i < segs.len() ==> spec_dot_from(o, #[trigger] segs[i].0, d) < 0
            && spec_dot_from(o, segs[i].1, d) < 0,
    ensures
        spec_min_hit(o, d, segs) is None,
{
    lemma_behind_prefix_no_hit(o, d, segs, segs.len() as int);
}

proof fn lemma_behind_prefix_no_hit(o: (i64, i64), d: (i64, i64), segs: Seq<Seg>, n: int)
    requires
        n <= segs.len(),
        forall|i: int| 0 <= i < segs.len() ==> spec_dot_from(o, #[trigger] segs[i].0, d) < 0
            && spec_dot_from(o, segs[i].1, d) < 0,
    ensures
        spec_min_hit_prefix(o, d, segs, n) is None,
    decreases n,
{
    if n > 0 {
        lemma_behind_prefix_no_hit(o, d, segs, n - 1);
        lemma_behind_segment_no_hit(o, d, segs[n - 1].0, segs[n - 1].1);
    }
}

} // verus!
