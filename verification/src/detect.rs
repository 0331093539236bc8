//! Continuous (swept) collision detection.
//!
//! Two shapes move along fixed linear velocities over a time slice; rotation
//! is held constant during the sweep.  Everything is reduced to relative
//! motion: for outlines, the first body's points sweep against the second
//! body's segments and the second body's points sweep (with the opposite
//! relative velocity) against the first body's segments, each point/segment
//! pair yielding an exact rational crossing time; disks go through their own
//! circle arithmetic against centers, vertices and edge bands.  The earliest
//! admissible candidate wins, and times are only rounded (toward zero, to
//! fixed point) on the way out, so the reported time of impact is symmetric
//! in the two bodies.

use vstd::prelude::*;
use crate::fx::{in_range, tdiv128, MAX_FX, SCALE};
use crate::rot::rotate_spec;
use crate::rot::rotate_v;
use crate::shape::{outline_of, world_pts, world_pts_spec, Shape, ShapeV};
use crate::vec2::{
    add_v, add_v_spec, neg_v, neg_v_spec, norm_spec, norm_v, perp, perp_spec, scale_v,
    scale_v_spec, sub_v, sub_v_spec, V2,
};

verus! {

/// The kinematic state of one body at the start of a time slice.
#[derive(Clone, Copy, Debug, PartialEq, Eq, Structural)]
pub struct Motion {
    /// World position, fixed-point meters.
    pub pos: V2,
    /// World heading, fixed-point radians; constant during the sweep.
    pub rot: i64,
    /// World velocity, fixed-point meters per second.
    pub vel: V2,
}

impl Motion {
    /// All coordinates are within the representable range.
    pub open spec fn wf(self) -> bool {
        self.pos.wf() && self.vel.wf() && in_range(self.rot as int)
    }
}

/// A detected first-touch event.
///
/// `normal` and `witness` are expressed in the first body's local frame;
/// `normal` has unit length (`SCALE` in fixed point).
#[derive(Clone, Copy, Debug, PartialEq, Eq, Structural)]
pub struct Impact {
    /// Earliest time of impact within the slice, fixed-point seconds.
    pub toi: i64,
    /// Contact normal, local to the first body, pointing out of it.
    pub normal: V2,
    /// Contact point, local to the first body.
    pub witness: V2,
}

/// An internal candidate event: time of impact, the contact normal in world
/// space, and the witness point local to the first body.
#[derive(Clone, Copy, Debug, PartialEq, Eq, Structural)]
pub struct Cand {
    pub toi: i64,
    pub n_world: V2,
    pub witness: V2,
}

/// The raw (unscaled) 2D cross product of two integer pairs.
pub open spec fn cross_raw(ax: int, ay: int, bx: int, by: int) -> int {
    ax * by - ay * bx
}

/// The crossing time of a point `p` moving at `u` over the segment
/// `(q0, q1)`, as an exact rational `num / den` normalized to `den >= 0`;
/// `den == 0` means the motion is parallel to the segment.
pub open spec fn cand_num_den(p: V2, q0: V2, q1: V2, u: V2) -> (int, int) {
    let ex = q1.x - q0.x;
    let ey = q1.y - q0.y;
    let den0 = cross_raw(ex, ey, u.x as int, u.y as int);
    let num0 = cross_raw(ex, ey, q0.x - p.x, q0.y - p.y);
    if den0 < 0 {
        (-num0, -den0)
    } else {
        (num0, den0)
    }
}

/// The fixed-point time at which the moving point first crosses the segment
/// within `[0, dt]`, if it does so inside the segment's extent.
pub open spec fn cand_toi(p: V2, q0: V2, q1: V2, u: V2, dt: i64) -> Option<i64> {
    let (num, den) = cand_num_den(p, q0, q1, u);
    let ex = q1.x - q0.x;
    let ey = q1.y - q0.y;
    let rx = (p.x - q0.x) * den + u.x * num;
    let ry = (p.y - q0.y) * den + u.y * num;
    let proj = rx * ex + ry * ey;
    if den == 0 {
        None
    } else if num < 0 {
        None
    } else if num * SCALE > den * dt {
        None
    } else if proj < 0 || proj > (ex * ex + ey * ey) * den {
        None
    } else {
        Some(((num * SCALE) / den) as i64)
    }
}

/// Bounds on a product from bounds on its factors.
proof fn lemma_abs_mul(a: int, b: int, ba: int, bb: int)
    requires
        -ba <= a <= ba,
        -bb <= b <= bb,
        0 <= ba,
        0 <= bb,
    ensures
        -(ba * bb) <= a * b <= ba * bb,
{
    assert(-(ba * bb) <= a * b <= ba * bb) by (nonlinear_arith)
        requires
            -ba <= a <= ba,
            -bb <= b <= bb,
            0 <= ba,
            0 <= bb,
    ;
}

/// A square is never negative.
proof fn lemma_sq_nonneg(a: int)
    ensures
        0 <= a * a,
{
    assert(0 <= a * a) by (nonlinear_arith);
}

/// A product of positives is positive.
proof fn lemma_pos_mul(a: int, b: int)
    requires
        0 < a,
        0 < b,
    ensures
        0 < a * b,
{
    assert(0 < a * b) by (nonlinear_arith)
        requires
            0 < a,
            0 < b,
    ;
}

/// A nonnegative rational at most `dt` rounds down to at most `dt`.
proof fn lemma_rational_in_slice(num: int, den: int, dt: int)
    requires
        0 < den,
        0 <= num,
        num * SCALE <= den * dt,
        0 <= dt,
    ensures
        0 <= (num * SCALE) / den <= dt,
{
    assert(0 <= num * SCALE) by (nonlinear_arith)
        requires
            0 <= num,
    ;
    vstd::arithmetic::div_mod::lemma_div_pos_is_pos(num * SCALE, den);
    vstd::arithmetic::div_mod::lemma_div_is_ordered(num * SCALE, den * dt, den);
    vstd::arithmetic::div_mod::lemma_div_multiples_vanish(dt, den);
    assert(den * dt == dt * den) by (nonlinear_arith);
}

/// Evaluate `cand_toi` exactly, in wide integers.
fn cand_eval(p: V2, q0: V2, q1: V2, u: V2, dt: i64) -> (r: Option<i64>)
    requires
        p.wf(),
        q0.wf(),
        q1.wf(),
        u.wf(),
        0 <= dt <= MAX_FX,
    ensures
        r == cand_toi(p, q0, q1, u, dt),
        r matches Some(t) ==> 0 <= t <= dt,
{
    let ex: i128 = q1.x as i128 - q0.x as i128;
    let ey: i128 = q1.y as i128 - q0.y as i128;
    proof {
        lemma_abs_mul(ex as int, u.y as int, 0x20000000, 0x10000000);
        lemma_abs_mul(ey as int, u.x as int, 0x20000000, 0x10000000);
        lemma_abs_mul(ex as int, q0.y - p.y, 0x20000000, 0x20000000);
        lemma_abs_mul(ey as int, q0.x - p.x, 0x20000000, 0x20000000);
    }
    let den0: i128 = ex * (u.y as i128) - ey * (u.x as i128);
    let num0: i128 = ex * (q0.y as i128 - p.y as i128) - ey * (q0.x as i128 - p.x as i128);
    let (num, den): (i128, i128) = if den0 < 0 {
        (-num0, -den0)
    } else {
        (num0, den0)
    };
    if den == 0 {
        return None;
    }
    if num < 0 {
        return None;
    }
    proof {
        lemma_abs_mul(num as int, SCALE as int, 0x800000000000000, 1000);
        lemma_abs_mul(den as int, dt as int, 0x400000000000000, 0x10000000);
    }
    if num * (SCALE as i128) > den * (dt as i128) {
        return None;
    }
    proof {
        lemma_abs_mul(p.x - q0.x, den as int, 0x20000000, 0x400000000000000);
        lemma_abs_mul(p.y - q0.y, den as int, 0x20000000, 0x400000000000000);
        lemma_abs_mul(u.x as int, num as int, 0x10000000, 0x800000000000000);
        lemma_abs_mul(u.y as int, num as int, 0x10000000, 0x800000000000000);
    }
    let rx: i128 = (p.x as i128 - q0.x as i128) * den + (u.x as i128) * num;
    let ry: i128 = (p.y as i128 - q0.y as i128) * den + (u.y as i128) * num;
    proof {
        lemma_abs_mul(rx as int, ex as int, 0x10000000000000000000000, 0x20000000);
        lemma_abs_mul(ry as int, ey as int, 0x10000000000000000000000, 0x20000000);
        lemma_abs_mul(ex as int, ex as int, 0x20000000, 0x20000000);
        lemma_abs_mul(ey as int, ey as int, 0x20000000, 0x20000000);
        lemma_abs_mul(ex * ex + ey * ey, den as int, 0x800000000000000, 0x400000000000000);
    }
    let proj: i128 = rx * ex + ry * ey;
    if proj < 0 || proj > (ex * ex + ey * ey) * den {
        return None;
    }
    proof {
        lemma_rational_in_slice(num as int, den as int, dt as int);
    }
    let t: i128 = tdiv128(num * (SCALE as i128), den);
    Some(t as i64)
}

/// The world contact normal at an edge `(q0, q1)` for a first body whose
/// relative velocity is `w`: the edge's unit perpendicular, oriented out of
/// the first body, which is to say along the approach.
pub open spec fn edge_normal_spec(q0: V2, q1: V2, w: V2) -> V2 {
    let den0 = cross_raw(q1.x - q0.x, q1.y - q0.y, w.x as int, w.y as int);
    let pp = perp_spec(sub_v_spec(q1, q0));
    if den0 >= 0 {
        norm_spec(pp)
    } else {
        norm_spec(neg_v_spec(pp))
    }
}

fn edge_normal(q0: V2, q1: V2, w: V2) -> (r: V2)
    requires
        q0.wf(),
        q1.wf(),
        w.wf(),
    ensures
        r == edge_normal_spec(q0, q1, w),
        r.wf(),
{
    proof {
        lemma_abs_mul(q1.x - q0.x, w.y as int, 0x20000000, 0x10000000);
        lemma_abs_mul(q1.y - q0.y, w.x as int, 0x20000000, 0x10000000);
    }
    let den0: i128 = (q1.x as i128 - q0.x as i128) * (w.y as i128)
        - (q1.y as i128 - q0.y as i128) * (w.x as i128);
    let pp = perp(sub_v(q1, q0));
    if den0 >= 0 {
        norm_v(pp)
    } else {
        norm_v(neg_v(pp))
    }
}

/// A candidate where a vertex of the first body (local point `lp`, world
/// point `p`) sweeps across an edge of the second body.
pub open spec fn ev1_spec(lp: V2, p: V2, q0: V2, q1: V2, w: V2, dt: i64) -> Option<Cand> {
    match cand_toi(p, q0, q1, w, dt) {
        None => None,
        Some(t) => Some(
            Cand { toi: t, n_world: edge_normal_spec(q0, q1, w), witness: lp },
        ),
    }
}

fn ev1(lp: V2, p: V2, q0: V2, q1: V2, w: V2, dt: i64) -> (r: Option<Cand>)
    requires
        lp.wf(),
        p.wf(),
        q0.wf(),
        q1.wf(),
        w.wf(),
        0 <= dt <= MAX_FX,
    ensures
        r == ev1_spec(lp, p, q0, q1, w, dt),
        r matches Some(c) ==> 0 <= c.toi <= dt && c.n_world.wf() && c.witness.wf(),
{
    match cand_eval(p, q0, q1, w, dt) {
        None => None,
        Some(t) => Some(Cand { toi: t, n_world: edge_normal(q0, q1, w), witness: lp }),
    }
}

/// A candidate where a vertex of the second body (world point `p`) sweeps
/// across an edge of the first body; the witness is carried back into the
/// first body's local frame.
pub open spec fn ev2_spec(
    p: V2,
    q0: V2,
    q1: V2,
    w: V2,
    dt: i64,
    pos_a: V2,
    rot_a: i64,
) -> Option<Cand> {
    let u = neg_v_spec(w);
    match cand_toi(p, q0, q1, u, dt) {
        None => None,
        Some(t) => Some(
            Cand {
                toi: t,
                n_world: edge_normal_spec(q0, q1, w),
                witness: rotate_spec(
                    -(rot_a as int),
                    sub_v_spec(add_v_spec(p, scale_v_spec(u, t as int)), pos_a),
                ),
            },
        ),
    }
}

fn ev2(p: V2, q0: V2, q1: V2, w: V2, dt: i64, pos_a: V2, rot_a: i64) -> (r: Option<Cand>)
    requires
        p.wf(),
        q0.wf(),
        q1.wf(),
        w.wf(),
        pos_a.wf(),
        in_range(rot_a as int),
        0 <= dt <= MAX_FX,
    ensures
        r == ev2_spec(p, q0, q1, w, dt, pos_a, rot_a),
        r matches Some(c) ==> 0 <= c.toi <= dt && c.n_world.wf() && c.witness.wf(),
{
    let u = neg_v(w);
    match cand_eval(p, q0, q1, u, dt) {
        None => None,
        Some(t) => {
            let contact = sub_v(add_v(p, scale_v(u, t)), pos_a);
            Some(
                Cand {
                    toi: t,
                    n_world: edge_normal(q0, q1, w),
                    witness: rotate_v(-rot_a, contact),
                },
            )
        },
    }
}

/// Keep the candidate with the smaller time of impact; on a tie, the one
/// seen first.
pub open spec fn better_spec(acc: Option<Cand>, c: Option<Cand>) -> Option<Cand> {
    match c {
        None => acc,
        Some(cc) => match acc {
            None => Some(cc),
            Some(aa) => if cc.toi < aa.toi {
                Some(cc)
            } else {
                Some(aa)
            },
        },
    }
}

fn better(acc: Option<Cand>, c: Option<Cand>) -> (r: Option<Cand>)
    ensures
        r == better_spec(acc, c),
{
    match c {
        None => acc,
        Some(cc) => match acc {
            None => Some(cc),
            Some(aa) => if cc.toi < aa.toi {
                Some(cc)
            } else {
                Some(aa)
            },
        },
    }
}

/// How many segments a point chain has.
pub open spec fn edge_count(pts: Seq<V2>) -> int {
    if pts.len() == 0 {
        0int
    } else {
        pts.len() - 1
    }
}

/// Fold the candidates of one first-body vertex over the second body's
/// first `m` edges.
pub open spec fn fold1_row(
    acc: Option<Cand>,
    lp: V2,
    p: V2,
    outb: Seq<V2>,
    w: V2,
    dt: i64,
    m: int,
) -> Option<Cand>
    decreases m,
{
    if m <= 0 {
        acc
    } else {
        better_spec(
            fold1_row(acc, lp, p, outb, w, dt, m - 1),
            ev1_spec(lp, p, outb[m - 1], outb[m], w, dt),
        )
    }
}

/// Fold the candidates of the first body's first `i` vertices over all of
/// the second body's edges.
pub open spec fn fold1(
    acc: Option<Cand>,
    la: Seq<V2>,
    outa: Seq<V2>,
    outb: Seq<V2>,
    w: V2,
    dt: i64,
    i: int,
) -> Option<Cand>
    decreases i,
{
    if i <= 0 {
        acc
    } else {
        fold1_row(
            fold1(acc, la, outa, outb, w, dt, i - 1),
            la[i - 1],
            outa[i - 1],
            outb,
            w,
            dt,
            edge_count(outb),
        )
    }
}

/// Fold the candidates of one second-body vertex over the first body's
/// first `m` edges.
pub open spec fn fold2_row(
    acc: Option<Cand>,
    p: V2,
    outa: Seq<V2>,
    w: V2,
    dt: i64,
    pos_a: V2,
    rot_a: i64,
    m: int,
) -> Option<Cand>
    decreases m,
{
    if m <= 0 {
        acc
    } else {
        better_spec(
            fold2_row(acc, p, outa, w, dt, pos_a, rot_a, m - 1),
            ev2_spec(p, outa[m - 1], outa[m], w, dt, pos_a, rot_a),
        )
    }
}

/// Fold the candidates of the second body's first `i` vertices over all of
/// the first body's edges.
pub open spec fn fold2(
    acc: Option<Cand>,
    outb: Seq<V2>,
    outa: Seq<V2>,
    w: V2,
    dt: i64,
    pos_a: V2,
    rot_a: i64,
    i: int,
) -> Option<Cand>
    decreases i,
{
    if i <= 0 {
        acc
    } else {
        fold2_row(
            fold2(acc, outb, outa, w, dt, pos_a, rot_a, i - 1),
            outb[i - 1],
            outa,
            w,
            dt,
            pos_a,
            rot_a,
            edge_count(outa),
        )
    }
}

/// A candidate is admissible: its time lies in the slice and its vectors
/// are representable.
pub open spec fn cand_ok(c: Option<Cand>, dt: i64) -> bool {
    c matches Some(cc) ==> 0 <= cc.toi <= dt && cc.n_world.wf() && cc.witness.wf()
}

/// Sweep the two outlines against each other and keep the earliest
/// admissible candidate.
fn sweep_outlines(
    la: &Vec<V2>,
    outa: &Vec<V2>,
    outb: &Vec<V2>,
    w: V2,
    dt: i64,
    pos_a: V2,
    rot_a: i64,
) -> (r: Option<Cand>)
    requires
        la@.len() == outa@.len(),
        forall|k: int| 0 <= k < la@.len() ==> (#[trigger] la@[k]).wf(),
        forall|k: int| 0 <= k < outa@.len() ==> (#[trigger] outa@[k]).wf(),
        forall|k: int| 0 <= k < outb@.len() ==> (#[trigger] outb@[k]).wf(),
        w.wf(),
        pos_a.wf(),
        in_range(rot_a as int),
        0 <= dt <= MAX_FX,
    ensures
        r == fold2(
            fold1(None::<Cand>, la@, outa@, outb@, w, dt, la@.len() as int),
            outb@,
            outa@,
            w,
            dt,
            pos_a,
            rot_a,
            outb@.len() as int,
        ),
        cand_ok(r, dt),
{
    let mut acc: Option<Cand> = None;
    let n: usize = outa.len();
    let m: usize = outb.len();
    let edges_b: usize = if m == 0 { 0 } else { m - 1 };
    let edges_a: usize = if n == 0 { 0 } else { n - 1 };
    let mut i: usize = 0;
    while i < n
        invariant
            i <= n,
            n == outa@.len(),
            m == outb@.len(),
            la@.len() == outa@.len(),
            edges_b == edge_count(outb@),
            forall|k: int| 0 <= k < la@.len() ==> (#[trigger] la@[k]).wf(),
            forall|k: int| 0 <= k < outa@.len() ==> (#[trigger] outa@[k]).wf(),
            forall|k: int| 0 <= k < outb@.len() ==> (#[trigger] outb@[k]).wf(),
            w.wf(),
            0 <= dt <= MAX_FX,
            acc == fold1(None::<Cand>, la@, outa@, outb@, w, dt, i as int),
            cand_ok(acc, dt),
        decreases n - i,
    {
        let lp = la[i];
        let p = outa[i];
        let ghost row0 = acc;
        let mut j: usize = 0;
        while j < edges_b
            invariant
                j <= edges_b,
                m == outb@.len(),
                edges_b == edge_count(outb@),
                lp.wf(),
                p.wf(),
                forall|k: int| 0 <= k < outb@.len() ==> (#[trigger] outb@[k]).wf(),
                w.wf(),
                0 <= dt <= MAX_FX,
                acc == fold1_row(row0, lp, p, outb@, w, dt, j as int),
                cand_ok(acc, dt),
                cand_ok(row0, dt),
            decreases edges_b - j,
        {
            let c = ev1(lp, p, outb[j], outb[j + 1], w, dt);
            acc = better(acc, c);
            j += 1;
        }
        proof {
            assert(fold1(None::<Cand>, la@, outa@, outb@, w, dt, i + 1) == fold1_row(
                fold1(None::<Cand>, la@, outa@, outb@, w, dt, i as int),
                la@[i as int],
                outa@[i as int],
                outb@,
                w,
                dt,
                edge_count(outb@),
            ));
        }
        i += 1;
    }
    let ghost mid = acc;
    let mut i2: usize = 0;
    while i2 < m
        invariant
            i2 <= m,
            n == outa@.len(),
            m == outb@.len(),
            edges_a == edge_count(outa@),
            forall|k: int| 0 <= k < outa@.len() ==> (#[trigger] outa@[k]).wf(),
            forall|k: int| 0 <= k < outb@.len() ==> (#[trigger] outb@[k]).wf(),
            w.wf(),
            pos_a.wf(),
            in_range(rot_a as int),
            0 <= dt <= MAX_FX,
            acc == fold2(mid, outb@, outa@, w, dt, pos_a, rot_a, i2 as int),
            cand_ok(acc, dt),
            cand_ok(mid, dt),
        decreases m - i2,
    {
        let p = outb[i2];
        let ghost row0 = acc;
        let mut j: usize = 0;
        while j < edges_a
            invariant
                j <= edges_a,
                n == outa@.len(),
                edges_a == edge_count(outa@),
                p.wf(),
                forall|k: int| 0 <= k < outa@.len() ==> (#[trigger] outa@[k]).wf(),
                w.wf(),
                pos_a.wf(),
                in_range(rot_a as int),
                0 <= dt <= MAX_FX,
                acc == fold2_row(row0, p, outa@, w, dt, pos_a, rot_a, j as int),
                cand_ok(acc, dt),
                cand_ok(row0, dt),
            decreases edges_a - j,
        {
            let c = ev2(p, outa[j], outa[j + 1], w, dt, pos_a, rot_a);
            acc = better(acc, c);
            j += 1;
        }
        proof {
            assert(fold2(mid, outb@, outa@, w, dt, pos_a, rot_a, i2 + 1) == fold2_row(
                fold2(mid, outb@, outa@, w, dt, pos_a, rot_a, i2 as int),
                outb@[i2 as int],
                outa@,
                w,
                dt,
                pos_a,
                rot_a,
                edge_count(outa@),
            ));
        }
        i2 += 1;
    }
    acc
}

/// When a point at offset `(dx, dy)`, receding at relative velocity
/// `(wx, wy)` from the origin's point of view, first comes within distance
/// `rr` of the origin: the smaller root of the sweep's quadratic, in
/// fixed-point seconds, within `[0, dt]`.  Already inside and approaching
/// counts as time zero.
pub open spec fn point_circle_toi(
    dx: int,
    dy: int,
    wx: int,
    wy: int,
    rr: int,
    dt: i64,
) -> Option<i64> {
    let dw = dx * wx + dy * wy;
    let a2 = wx * wx + wy * wy;
    let c2 = dx * dx + dy * dy - rr * rr;
    if c2 <= 0 {
        if dw > 0 {
            Some(0i64)
        } else {
            None
        }
    } else if a2 == 0 || dw <= 0 {
        None
    } else {
        let disc4 = dw * dw - a2 * c2;
        if disc4 < 0 {
            None
        } else {
            let num = dw - crate::vec2::sqrt_floor(disc4);
            if num < 0 {
                None
            } else if num * SCALE > a2 * dt {
                None
            } else {
                Some(((num * SCALE) / a2) as i64)
            }
        }
    }
}

/// Evaluate `point_circle_toi` exactly.
fn point_circle_eval(dx: i64, dy: i64, wx: i64, wy: i64, rr: i64, dt: i64) -> (r: Option<i64>)
    requires
        -0x20000000 <= dx <= 0x20000000,
        -0x20000000 <= dy <= 0x20000000,
        -0x20000000 <= wx <= 0x20000000,
        -0x20000000 <= wy <= 0x20000000,
        0 <= rr <= 0x20000000,
        0 <= dt <= MAX_FX,
    ensures
        r == point_circle_toi(dx as int, dy as int, wx as int, wy as int, rr as int, dt),
        r matches Some(t) ==> 0 <= t <= dt,
{
    proof {
        lemma_abs_mul(dx as int, wx as int, 0x20000000, 0x20000000);
        lemma_abs_mul(dy as int, wy as int, 0x20000000, 0x20000000);
        lemma_abs_mul(wx as int, wx as int, 0x20000000, 0x20000000);
        lemma_abs_mul(wy as int, wy as int, 0x20000000, 0x20000000);
        lemma_abs_mul(dx as int, dx as int, 0x20000000, 0x20000000);
        lemma_abs_mul(dy as int, dy as int, 0x20000000, 0x20000000);
        lemma_abs_mul(rr as int, rr as int, 0x20000000, 0x20000000);
    }
    let dw: i128 = (dx as i128) * (wx as i128) + (dy as i128) * (wy as i128);
    let a2: i128 = (wx as i128) * (wx as i128) + (wy as i128) * (wy as i128);
    let c2: i128 = (dx as i128) * (dx as i128) + (dy as i128) * (dy as i128)
        - (rr as i128) * (rr as i128);
    if c2 <= 0 {
        if dw > 0 {
            return Some(0i64);
        }
        return None;
    }
    if a2 == 0 || dw <= 0 {
        return None;
    }
    proof {
        lemma_sq_nonneg(wx as int);
        lemma_sq_nonneg(wy as int);
        lemma_pos_mul(a2 as int, c2 as int);
        lemma_abs_mul(dw as int, dw as int, 0x800000000000000, 0x800000000000000);
        lemma_abs_mul(a2 as int, c2 as int, 0x800000000000000, 0x800000000000000);
    }
    let disc4: i128 = dw * dw - a2 * c2;
    if disc4 < 0 {
        return None;
    }
    let s: u64 = crate::fx::isqrt(disc4 as u128);
    proof {
        crate::vec2::lemma_sqrt_agrees(disc4 as int, s as int);
        assert((s as int) * (s as int) <= disc4 as int ==> s as int <= dw as int) by (nonlinear_arith)
            requires
                0 <= s as int,
                0 < dw as int,
                disc4 as int <= (dw as int) * (dw as int),
        ;
    }
    let num: i128 = dw - (s as i128);
    if num < 0 {
        return None;
    }
    proof {
        lemma_abs_mul(num as int, SCALE as int, 0x2000000000000000, 1000);
        lemma_abs_mul(a2 as int, dt as int, 0x800000000000000, 0x10000000);
    }
    if num * (SCALE as i128) > a2 * (dt as i128) {
        return None;
    }
    proof {
        lemma_rational_in_slice(num as int, a2 as int, dt as int);
    }
    let t: i128 = tdiv128(num * (SCALE as i128), a2);
    Some(t as i64)
}

/// The world normal out of the first disk at impact time: from its center
/// toward the other body, with guarded fallbacks for degenerate geometry.
pub open spec fn disk_normal_spec(a: Motion, b: Motion, t: int) -> V2 {
    let d = sub_v_spec(b.pos, a.pos);
    let w = sub_v_spec(a.vel, b.vel);
    let dd = sub_v_spec(d, scale_v_spec(w, t));
    if norm_spec(dd) != (V2 { x: 0, y: 0 }) {
        norm_spec(dd)
    } else if norm_spec(d) != (V2 { x: 0, y: 0 }) {
        norm_spec(d)
    } else {
        V2 { x: 0, y: SCALE }
    }
}

fn disk_normal(a: &Motion, b: &Motion, t: i64) -> (r: V2)
    requires
        a.wf(),
        b.wf(),
    ensures
        r == disk_normal_spec(*a, *b, t as int),
        r.wf(),
{
    let d = sub_v(b.pos, a.pos);
    let w = sub_v(a.vel, b.vel);
    let dd = sub_v(d, scale_v(w, t));
    let n1 = norm_v(dd);
    if !(n1.x == 0 && n1.y == 0) {
        n1
    } else {
        let n2 = norm_v(d);
        if !(n2.x == 0 && n2.y == 0) {
            n2
        } else {
            V2 { x: 0, y: SCALE }
        }
    }
}

/// The earliest touch of two swept disks.
pub open spec fn disk_disk_spec(a: Motion, ra: i64, b: Motion, rb: i64, dt: i64) -> Option<
    Cand,
> {
    match point_circle_toi(
        b.pos.x - a.pos.x,
        b.pos.y - a.pos.y,
        a.vel.x - b.vel.x,
        a.vel.y - b.vel.y,
        ra + rb,
        dt,
    ) {
        None => None,
        Some(t) => Some(
            Cand {
                toi: t,
                n_world: disk_normal_spec(a, b, t as int),
                witness: rotate_spec(
                    -(a.rot as int),
                    scale_v_spec(disk_normal_spec(a, b, t as int), ra as int),
                ),
            },
        ),
    }
}

fn disk_disk(a: &Motion, ra: i64, b: &Motion, rb: i64, dt: i64) -> (r: Option<Cand>)
    requires
        a.wf(),
        b.wf(),
        0 < ra <= MAX_FX,
        0 < rb <= MAX_FX,
        0 <= dt <= MAX_FX,
    ensures
        r == disk_disk_spec(*a, ra, *b, rb, dt),
        cand_ok(r, dt),
{
    match point_circle_eval(
        sub_i64(b.pos.x, a.pos.x),
        sub_i64(b.pos.y, a.pos.y),
        sub_i64(a.vel.x, b.vel.x),
        sub_i64(a.vel.y, b.vel.y),
        ra + rb,
        dt,
    ) {
        None => None,
        Some(t) => {
            let n = disk_normal(a, b, t);
            Some(Cand { toi: t, n_world: n, witness: rotate_v(-a.rot, scale_v(n, ra)) })
        },
    }
}

/// Exact difference of two in-range coordinates.
fn sub_i64(a: i64, b: i64) -> (r: i64)
    requires
        in_range(a as int),
        in_range(b as int),
    ensures
        r == a - b,
{
    a - b
}

/// Which feature of an outline a swept disk first touches.
#[derive(Clone, Copy, Debug, PartialEq, Eq, Structural)]
pub enum CircleHit {
    /// The outline's vertex at this index.
    Vertex { i: usize },
    /// The edge starting at this index; `side_pos` tells which side of the
    /// edge the disk's center approaches from (the positive side is to the
    /// left of the edge's direction).
    Edge { j: usize, side_pos: bool },
}

/// When a disk's center at `c`, moving at the relative velocity `u`,
/// first comes within `r` of the outline vertex `q`.
pub open spec fn circle_vertex_toi(c: V2, u: V2, r: i64, q: V2, dt: i64) -> Option<i64> {
    point_circle_toi(q.x - c.x, q.y - c.y, u.x as int, u.y as int, r as int, dt)
}

/// When a disk's center at `c`, moving at the relative velocity `u`,
/// first comes within `r` of the edge `(q0, q1)`, crossing into the band
/// around the edge's line and inside the segment's extent; a center
/// already inside the band counts at time zero while it still closes in.
pub open spec fn circle_edge_toi(c: V2, u: V2, r: i64, q0: V2, q1: V2, dt: i64) -> Option<
    (i64, bool),
> {
    let ex = q1.x - q0.x;
    let ey = q1.y - q0.y;
    let f0 = cross_raw(ex, ey, c.x - q0.x, c.y - q0.y);
    let g = cross_raw(ex, ey, u.x as int, u.y as int);
    let rl = r * crate::vec2::sqrt_floor(ex * ex + ey * ey);
    if g == 0 {
        None
    } else if -rl <= f0 <= rl {
        if (f0 > 0 && g < 0) || (f0 < 0 && g > 0) || f0 == 0 {
            Some((0i64, if f0 != 0 {
                f0 > 0
            } else {
                g < 0
            }))
        } else {
            None
        }
    } else {
        let num = if f0 > rl {
            f0 - rl
        } else {
            -rl - f0
        };
        let den = if f0 > rl {
            -g
        } else {
            g
        };
        let rx = (c.x - q0.x) * den + u.x * num;
        let ry = (c.y - q0.y) * den + u.y * num;
        let proj = rx * ex + ry * ey;
        if den <= 0 {
            None
        } else if num * SCALE > den * dt {
            None
        } else if proj < 0 || proj > (ex * ex + ey * ey) * den {
            None
        } else {
            Some((((num * SCALE) / den) as i64, f0 > rl))
        }
    }
}

/// Keep the earlier hit; on a tie, the one seen first.
pub open spec fn better_hit(a: Option<(i64, CircleHit)>, b: Option<(i64, CircleHit)>) -> Option<
    (i64, CircleHit),
> {
    match b {
        None => a,
        Some(bb) => match a {
            None => Some(bb),
            Some(aa) => if bb.0 < aa.0 {
                Some(bb)
            } else {
                Some(aa)
            },
        },
    }
}

/// The earliest touch of the swept disk over the outline's first `i`
/// vertices.
pub open spec fn circle_verts_fold(
    c: V2,
    u: V2,
    r: i64,
    out: Seq<V2>,
    dt: i64,
    i: int,
) -> Option<(i64, CircleHit)>
    decreases i,
{
    if i <= 0 {
        None
    } else {
        better_hit(
            circle_verts_fold(c, u, r, out, dt, i - 1),
            match circle_vertex_toi(c, u, r, out[i - 1], dt) {
                None => None,
                Some(t) => Some((t, CircleHit::Vertex { i: (i - 1) as usize })),
            },
        )
    }
}

/// The earliest touch of the swept disk over the outline's first `j`
/// edges, folded on top of the vertex events.
pub open spec fn circle_edges_fold(
    acc: Option<(i64, CircleHit)>,
    c: V2,
    u: V2,
    r: i64,
    out: Seq<V2>,
    dt: i64,
    j: int,
) -> Option<(i64, CircleHit)>
    decreases j,
{
    if j <= 0 {
        acc
    } else {
        better_hit(
            circle_edges_fold(acc, c, u, r, out, dt, j - 1),
            match circle_edge_toi(c, u, r, out[j - 1], out[j], dt) {
                None => None,
                Some(th) => Some((th.0, CircleHit::Edge { j: (j - 1) as usize, side_pos: th.1 })),
            },
        )
    }
}

/// The earliest touch of a swept disk against a whole outline.  Both
/// argument orders of a mixed disk/outline pair funnel into this one
/// enumeration, so their times of impact agree exactly.
pub open spec fn circle_best(c: V2, u: V2, r: i64, out: Seq<V2>, dt: i64) -> Option<
    (i64, CircleHit),
> {
    circle_edges_fold(
        circle_verts_fold(c, u, r, out, dt, out.len() as int),
        c,
        u,
        r,
        out,
        dt,
        edge_count(out),
    )
}

/// The world normal out of the disk for a given hit: toward the vertex at
/// impact time, or across the edge's band from the approach side.
pub open spec fn circle_hit_normal(c: V2, u: V2, r: i64, out: Seq<V2>, t: i64, hit: CircleHit) -> V2 {
    match hit {
        CircleHit::Vertex { i } => {
            let ct = add_v_spec(c, scale_v_spec(u, t as int));
            let d = sub_v_spec(out[i as int], ct);
            if norm_spec(d) != (V2 { x: 0, y: 0 }) {
                norm_spec(d)
            } else {
                V2 { x: 0, y: SCALE }
            }
        },
        CircleHit::Edge { j, side_pos } => {
            let pp = norm_spec(perp_spec(sub_v_spec(out[j as int + 1], out[j as int])));
            if side_pos {
                neg_v_spec(pp)
            } else {
                pp
            }
        },
    }
}

/// Evaluate `circle_edge_toi` exactly, in wide integers.
fn circle_edge_eval(c: V2, u: V2, r: i64, q0: V2, q1: V2, dt: i64) -> (res: Option<(i64, bool)>)
    requires
        c.wf(),
        u.wf(),
        q0.wf(),
        q1.wf(),
        0 < r <= MAX_FX,
        0 <= dt <= MAX_FX,
    ensures
        res == circle_edge_toi(c, u, r, q0, q1, dt),
        res matches Some(th) ==> 0 <= th.0 <= dt,
{
    let ex: i128 = q1.x as i128 - q0.x as i128;
    let ey: i128 = q1.y as i128 - q0.y as i128;
    proof {
        lemma_abs_mul(ex as int, c.y - q0.y, 0x20000000, 0x20000000);
        lemma_abs_mul(ey as int, c.x - q0.x, 0x20000000, 0x20000000);
        lemma_abs_mul(ex as int, u.y as int, 0x20000000, 0x10000000);
        lemma_abs_mul(ey as int, u.x as int, 0x20000000, 0x10000000);
        lemma_abs_mul(ex as int, ex as int, 0x20000000, 0x20000000);
        lemma_abs_mul(ey as int, ey as int, 0x20000000, 0x20000000);
        lemma_sq_nonneg(ex as int);
        lemma_sq_nonneg(ey as int);
    }
    let f0: i128 = ex * (c.y as i128 - q0.y as i128) - ey * (c.x as i128 - q0.x as i128);
    let g: i128 = ex * (u.y as i128) - ey * (u.x as i128);
    let l: u64 = crate::fx::isqrt((ex * ex + ey * ey) as u128);
    proof {
        crate::vec2::lemma_sqrt_agrees((ex * ex + ey * ey) as int, l as int);
        lemma_root_of_small_square(ex as int, ey as int, l as int);
        lemma_abs_mul(r as int, l as int, 0x10000000, 0x40000000);
    }
    let rl: i128 = (r as i128) * (l as i128);
    if g == 0 {
        return None;
    }
    if -rl <= f0 && f0 <= rl {
        if (f0 > 0 && g < 0) || (f0 < 0 && g > 0) || f0 == 0 {
            let side = if f0 != 0 {
                f0 > 0
            } else {
                g < 0
            };
            return Some((0i64, side));
        }
        return None;
    }
    let (num, den): (i128, i128) = if f0 > rl {
        (f0 - rl, -g)
    } else {
        (-rl - f0, g)
    };
    proof {
        lemma_abs_mul(c.x - q0.x, den as int, 0x20000000, 0x400000000000000);
        lemma_abs_mul(c.y - q0.y, den as int, 0x20000000, 0x400000000000000);
        lemma_abs_mul(u.x as int, num as int, 0x10000000, 0x1000000000000000);
        lemma_abs_mul(u.y as int, num as int, 0x10000000, 0x1000000000000000);
    }
    let rx: i128 = (c.x as i128 - q0.x as i128) * den + (u.x as i128) * num;
    let ry: i128 = (c.y as i128 - q0.y as i128) * den + (u.y as i128) * num;
    proof {
        lemma_abs_mul(rx as int, ex as int, 0x20000000000000000000000, 0x20000000);
        lemma_abs_mul(ry as int, ey as int, 0x20000000000000000000000, 0x20000000);
        lemma_abs_mul(ex * ex + ey * ey, den as int, 0x800000000000000, 0x400000000000000);
        lemma_abs_mul(num as int, SCALE as int, 0x1000000000000000, 1000);
        lemma_abs_mul(den as int, dt as int, 0x400000000000000, 0x10000000);
    }
    let proj: i128 = rx * ex + ry * ey;
    if den <= 0 {
        return None;
    }
    if num * (SCALE as i128) > den * (dt as i128) {
        return None;
    }
    if proj < 0 || proj > (ex * ex + ey * ey) * den {
        return None;
    }
    proof {
        lemma_rational_in_slice(num as int, den as int, dt as int);
    }
    let t: i128 = tdiv128(num * (SCALE as i128), den);
    Some((t as i64, f0 > rl))
}

/// The root of a sum of two small squares is small.
proof fn lemma_root_of_small_square(ex: int, ey: int, l: int)
    requires
        -0x20000000 <= ex <= 0x20000000,
        -0x20000000 <= ey <= 0x20000000,
        0 <= l,
        l * l <= ex * ex + ey * ey,
    ensures
        l <= 0x40000000,
{
    assert(ex * ex <= 0x400000000000000 && ey * ey <= 0x400000000000000) by (nonlinear_arith)
        requires
            -0x20000000 <= ex <= 0x20000000,
            -0x20000000 <= ey <= 0x20000000,
    ;
    assert(l <= 0x40000000) by (nonlinear_arith)
        requires
            0 <= l,
            l * l <= 0x800000000000000,
    ;
}

/// Sweep a disk against a whole outline and keep the earliest hit.
fn circle_sweep(c: V2, u: V2, r: i64, out: &Vec<V2>, dt: i64) -> (res: Option<(i64, CircleHit)>)
    requires
        c.wf(),
        u.wf(),
        0 < r <= MAX_FX,
        0 <= dt <= MAX_FX,
        forall|k: int| 0 <= k < out@.len() ==> (#[trigger] out@[k]).wf(),
    ensures
        res == circle_best(c, u, r, out@, dt),
        res matches Some(th) ==> 0 <= th.0 <= dt && (match th.1 {
            CircleHit::Vertex { i } => i < out@.len(),
            CircleHit::Edge { j, .. } => j + 1 < out@.len(),
        }),
{
    let n: usize = out.len();
    let mut acc: Option<(i64, CircleHit)> = None;
    let mut i: usize = 0;
    while i < n
        invariant
            i <= n,
            n == out@.len(),
            c.wf(),
            u.wf(),
            0 < r <= MAX_FX,
            0 <= dt <= MAX_FX,
            forall|k: int| 0 <= k < out@.len() ==> (#[trigger] out@[k]).wf(),
            acc == circle_verts_fold(c, u, r, out@, dt, i as int),
            acc matches Some(th) ==> 0 <= th.0 <= dt && (match th.1 {
                CircleHit::Vertex { i: vi } => vi < out@.len(),
                CircleHit::Edge { j, .. } => j + 1 < out@.len(),
            }),
        decreases n - i,
    {
        let q = out[i];
        let cand: Option<(i64, CircleHit)> = match point_circle_eval(
            sub_i64(q.x, c.x),
            sub_i64(q.y, c.y),
            u.x,
            u.y,
            r,
            dt,
        ) {
            None => None,
            Some(t) => Some((t, CircleHit::Vertex { i })),
        };
        acc = match cand {
            None => acc,
            Some(bb) => match acc {
                None => Some(bb),
                Some(aa) => if bb.0 < aa.0 {
                    Some(bb)
                } else {
                    Some(aa)
                },
            },
        };
        i += 1;
    }
    let edges: usize = if n == 0 { 0 } else { n - 1 };
    let ghost mid = acc;
    let mut j: usize = 0;
    while j < edges
        invariant
            j <= edges,
            n == out@.len(),
            edges == edge_count(out@),
            c.wf(),
            u.wf(),
            0 < r <= MAX_FX,
            0 <= dt <= MAX_FX,
            forall|k: int| 0 <= k < out@.len() ==> (#[trigger] out@[k]).wf(),
            acc == circle_edges_fold(mid, c, u, r, out@, dt, j as int),
            acc matches Some(th) ==> 0 <= th.0 <= dt && (match th.1 {
                CircleHit::Vertex { i: vi } => vi < out@.len(),
                CircleHit::Edge { j: ej, .. } => ej + 1 < out@.len(),
            }),
            mid matches Some(th) ==> 0 <= th.0 <= dt && (match th.1 {
                CircleHit::Vertex { i: vi } => vi < out@.len(),
                CircleHit::Edge { j: ej, .. } => ej + 1 < out@.len(),
            }),
        decreases edges - j,
    {
        let cand: Option<(i64, CircleHit)> = match circle_edge_eval(
            c,
            u,
            r,
            out[j],
            out[j + 1],
            dt,
        ) {
            None => None,
            Some(th) => Some((th.0, CircleHit::Edge { j, side_pos: th.1 })),
        };
        acc = match cand {
            None => acc,
            Some(bb) => match acc {
                None => Some(bb),
                Some(aa) => if bb.0 < aa.0 {
                    Some(bb)
                } else {
                    Some(aa)
                },
            },
        };
        j += 1;
    }
    acc
}

/// Compute the hit's normal out of the disk.
fn circle_normal(c: V2, u: V2, r: i64, out: &Vec<V2>, t: i64, hit: CircleHit) -> (res: V2)
    requires
        c.wf(),
        u.wf(),
        forall|k: int| 0 <= k < out@.len() ==> (#[trigger] out@[k]).wf(),
        match hit {
            CircleHit::Vertex { i } => i < out@.len(),
            CircleHit::Edge { j, .. } => j + 1 < out@.len(),
        },
    ensures
        res == circle_hit_normal(c, u, r, out@, t, hit),
        res.wf(),
{
    match hit {
        CircleHit::Vertex { i } => {
            let ct = add_v(c, scale_v(u, t));
            let d = sub_v(out[i], ct);
            let n1 = norm_v(d);
            if !(n1.x == 0 && n1.y == 0) {
                n1
            } else {
                V2 { x: 0, y: SCALE }
            }
        },
        CircleHit::Edge { j, side_pos } => {
            let n: usize = out.len();
            let pp = norm_v(perp(sub_v(out[j + 1], out[j])));
            if side_pos {
                neg_v(pp)
            } else {
                pp
            }
        },
    }
}

/// The earliest candidate event between the two swept bodies, with its
/// normal still in world space.
#[verifier::opaque]
pub open spec fn best_cand_spec(a: Motion, sa: ShapeV, b: Motion, sb: ShapeV, dt: i64) -> Option<
    Cand,
> {
    if (sa matches ShapeV::Disk { .. }) && (sb matches ShapeV::Disk { .. }) {
        disk_disk_spec(a, sa->Disk_radius, b, sb->Disk_radius, dt)
    } else if sa matches ShapeV::Disk { .. } {
        let r = sa->Disk_radius;
        let outb = world_pts_spec(b.pos, b.rot as int, outline_of(sb));
        let u = sub_v_spec(a.vel, b.vel);
        match circle_best(a.pos, u, r, outb, dt) {
            None => None,
            Some(th) => {
                let n = circle_hit_normal(a.pos, u, r, outb, th.0, th.1);
                Some(
                    Cand {
                        toi: th.0,
                        n_world: n,
                        witness: rotate_spec(-(a.rot as int), scale_v_spec(n, r as int)),
                    },
                )
            },
        }
    } else if sb matches ShapeV::Disk { .. } {
        let r = sb->Disk_radius;
        let outa = world_pts_spec(a.pos, a.rot as int, outline_of(sa));
        let u = sub_v_spec(b.vel, a.vel);
        match circle_best(b.pos, u, r, outa, dt) {
            None => None,
            Some(th) => {
                let nb = circle_hit_normal(b.pos, u, r, outa, th.0, th.1);
                let contact = add_v_spec(
                    add_v_spec(b.pos, scale_v_spec(b.vel, th.0 as int)),
                    scale_v_spec(nb, r as int),
                );
                let a_at = add_v_spec(a.pos, scale_v_spec(a.vel, th.0 as int));
                Some(
                    Cand {
                        toi: th.0,
                        n_world: neg_v_spec(nb),
                        witness: rotate_spec(-(a.rot as int), sub_v_spec(contact, a_at)),
                    },
                )
            },
        }
    } else {
        let la = outline_of(sa);
        let outa = world_pts_spec(a.pos, a.rot as int, la);
        let outb = world_pts_spec(b.pos, b.rot as int, outline_of(sb));
        let w = sub_v_spec(a.vel, b.vel);
        fold2(
            fold1(None::<Cand>, la, outa, outb, w, dt, la.len() as int),
            outb,
            outa,
            w,
            dt,
            a.pos,
            a.rot,
            outb.len() as int,
        )
    }
}

/// What the detector returns: the earliest first-touch event within the
/// slice, its normal and witness carried into the first body's local frame.
#[verifier::opaque]
pub open spec fn detect_spec(a: Motion, sa: ShapeV, b: Motion, sb: ShapeV, dt: i64) -> Option<
    Impact,
> {
    match best_cand_spec(a, sa, b, sb, dt) {
        None => None,
        Some(c) => Some(
            Impact {
                toi: c.toi,
                normal: rotate_spec(-(a.rot as int), c.n_world),
                witness: c.witness,
            },
        ),
    }
}

/// Compute whether the two bodies' shapes, swept along their velocities
/// over `[0, dt]` with rotation held constant, first touch within the
/// slice; if so, the earliest time of impact, and the contact normal and
/// witness point in the first body's local frame.
///
/// Only the first body's record is produced here; the swapped pair is
/// detected through its own call, and yields the same time of impact.
pub fn detect(a: &Motion, sa: &Shape, b: &Motion, sb: &Shape, dt: i64) -> (r: Option<Impact>)
    requires
        a.wf(),
        b.wf(),
        sa@.wf(),
        sb@.wf(),
        0 <= dt <= MAX_FX,
    ensures
        r == detect_spec(*a, sa@, *b, sb@, dt),
        r matches Some(im) ==> 0 <= im.toi <= dt && im.normal.wf() && im.witness.wf(),
{
    proof {
        reveal(crate::detect::detect_spec);
        reveal(crate::detect::best_cand_spec);
    }
    let best: Option<Cand> = match (sa, sb) {
        (Shape::Disk { radius: ra }, Shape::Disk { radius: rb }) => disk_disk(
            a,
            *ra,
            b,
            *rb,
            dt,
        ),
        (Shape::Disk { radius: ra }, _) => {
            let lb = sb.outline();
            proof {
                crate::shape::lemma_outline_wf(sb@);
            }
            let outb = world_pts(b.pos, b.rot, &lb);
            let u = sub_v(a.vel, b.vel);
            match circle_sweep(a.pos, u, *ra, &outb, dt) {
                None => None,
                Some((t, hit)) => {
                    let n = circle_normal(a.pos, u, *ra, &outb, t, hit);
                    Some(
                        Cand {
                            toi: t,
                            n_world: n,
                            witness: rotate_v(-a.rot, scale_v(n, *ra)),
                        },
                    )
                },
            }
        },
        (_, Shape::Disk { radius: rb }) => {
            let la = sa.outline();
            proof {
                crate::shape::lemma_outline_wf(sa@);
            }
            let outa = world_pts(a.pos, a.rot, &la);
            let u = sub_v(b.vel, a.vel);
            match circle_sweep(b.pos, u, *rb, &outa, dt) {
                None => None,
                Some((t, hit)) => {
                    let nb = circle_normal(b.pos, u, *rb, &outa, t, hit);
                    let contact = add_v(add_v(b.pos, scale_v(b.vel, t)), scale_v(nb, *rb));
                    let a_at = add_v(a.pos, scale_v(a.vel, t));
                    Some(
                        Cand {
                            toi: t,
                            n_world: neg_v(nb),
                            witness: rotate_v(-a.rot, sub_v(contact, a_at)),
                        },
                    )
                },
            }
        },
        _ => {
            let la = sa.outline();
            let lb = sb.outline();
            proof {
                crate::shape::lemma_outline_wf(sa@);
                crate::shape::lemma_outline_wf(sb@);
            }
            let outa = world_pts(a.pos, a.rot, &la);
            let outb = world_pts(b.pos, b.rot, &lb);
            let w = sub_v(a.vel, b.vel);
            sweep_outlines(&la, &outa, &outb, w, dt, a.pos, a.rot)
        },
    };
    match best {
        None => None,
        Some(c) => Some(
            Impact { toi: c.toi, normal: rotate_v(-a.rot, c.n_world), witness: c.witness },
        ),
    }
}

} // verus!
