//! Laws of the simulation, proved against the tick's specification.

use vstd::prelude::*;
use crate::control::Key;
use crate::fx::{in_range, mul_fx_spec, sub_fx_spec, tdiv, SCALE};
use crate::settings::Settings;
use crate::store::EntV;
use crate::heli::update_spec;
use crate::systems::{
    alive, apply_recs, collision_recs, ctl_ents, ctl_step, drag_ents, drag_step, mortal_ents,
    nt_ents, nt_step, pair_rec, quit_ent, quit_held, rec_at, recs_row, recs_upto, toots_result,
    toots_step, CRec,
};
use crate::vec2::V2;

verus! {

/// The world after `n` whole ticks under the same settings, input and
/// timing.
pub open spec fn iter_update(
    ents: Seq<EntV>,
    next: u64,
    s: Settings,
    input: Seq<Key>,
    dt: i64,
    now: i64,
    n: int,
) -> (Seq<EntV>, u64)
    decreases n,
{
    if n <= 0 {
        (ents, next)
    } else {
        let p = iter_update(ents, next, s, input, dt, now, n - 1);
        update_spec(p.0, p.1, s, input, dt, now)
    }
}

/// An entity that only falls: a gravity tag and a velocity, with nothing
/// for the other systems to act on.
pub open spec fn gravity_only(e: EntV) -> bool {
    &&& e.controls is None
    &&& e.shape is None
    &&& e.toots is None
    &&& e.mortal is None
    &&& e.boost is None
    &&& e.grav
    &&& !e.drag
    &&& e.vel is Some
}

/// An entity that only coasts through drag: a drag tag and a velocity,
/// with no other force and nothing to collide with.
pub open spec fn drag_only(e: EntV) -> bool {
    &&& e.controls is None
    &&& e.shape is None
    &&& e.toots is None
    &&& e.mortal is None
    &&& e.boost is None
    &&& !e.grav
    &&& e.drag
    &&& e.vel is Some
}

/// Every record of one detection row reacts on behalf of entity `ia`, and
/// a shapeless entity contributes no row at all.
proof fn lemma_row_recs(ents: Seq<EntV>, dt: i64, ia: int, ib: int)
    requires
        0 <= ia < ents.len(),
        ents.len() <= usize::MAX,
    ensures
        forall|k: int| 0 <= k < recs_row(ents, dt, ia, ib).len() ==> (#[trigger] recs_row(
            ents,
            dt,
            ia,
            ib,
        )[k]).a == ia,
        ents[ia].shape is None ==> recs_row(ents, dt, ia, ib).len() == 0,
    decreases ib,
{
    reveal(crate::systems::pair_rec);
    if ib > 0 {
        lemma_row_recs(ents, dt, ia, ib - 1);
        let row = recs_row(ents, dt, ia, ib);
        let prev = recs_row(ents, dt, ia, ib - 1);
        let tail = rec_at(ents, dt, ia, ib - 1);
        assert(row == prev + tail);
        assert forall|k: int| 0 <= k < row.len() implies (#[trigger] row[k]).a == ia by {
            if k < prev.len() {
                assert(row[k] == prev[k]);
            } else {
                assert(row[k] == tail[k - prev.len()]);
                assert(tail.len() == 1 && tail[0].a == ia as usize);
            }
        };
    }
}

/// Every collected record points inside the store, at an entity with a
/// shape.
proof fn lemma_upto_recs(ents: Seq<EntV>, dt: i64, ia: int)
    requires
        ia <= ents.len(),
        ents.len() <= usize::MAX,
    ensures
        forall|k: int| 0 <= k < recs_upto(ents, dt, ia).len() ==> 0 <= (#[trigger] recs_upto(
            ents,
            dt,
            ia,
        )[k]).a < ia && ents[recs_upto(ents, dt, ia)[k].a as int].shape is Some,
    decreases ia,
{
    if ia > 0 {
        lemma_upto_recs(ents, dt, ia - 1);
        lemma_row_recs(ents, dt, ia - 1, ents.len() as int);
        if ents[ia - 1].shape is Some {
        } else {
        }
    }
}

/// The collected collision records come out sorted by the reacting
/// entity's position in the store.  Handles increase along the store and
/// the detector already returns the earliest event per ordered pair, so
/// this is the tick's ordering-and-deduplication rule: one record per
/// pair, processed in handle-then-time order.
pub proof fn lemma_records_in_handle_order(ents: Seq<EntV>, dt: i64, ia: int)
    requires
        ia <= ents.len(),
        ents.len() <= usize::MAX,
    ensures
        forall|k1: int, k2: int|
            0 <= k1 < k2 < recs_upto(ents, dt, ia).len() ==> (#[trigger] recs_upto(
                ents,
                dt,
                ia,
            )[k1]).a <= (#[trigger] recs_upto(ents, dt, ia)[k2]).a,
    decreases ia,
{
    if ia > 0 {
        lemma_records_in_handle_order(ents, dt, ia - 1);
        lemma_upto_recs(ents, dt, ia - 1);
        lemma_row_recs(ents, dt, ia - 1, ents.len() as int);
        let whole = recs_upto(ents, dt, ia);
        let prev = recs_upto(ents, dt, ia - 1);
        let row = recs_row(ents, dt, ia - 1, ents.len() as int);
        assert(whole == prev + row);
        assert forall|k1: int, k2: int| 0 <= k1 < k2 < whole.len() implies (
        #[trigger] whole[k1]).a <= (#[trigger] whole[k2]).a by {
            if k2 < prev.len() {
                assert(whole[k1] == prev[k1] && whole[k2] == prev[k2]);
            } else if k1 < prev.len() {
                assert(whole[k1] == prev[k1] && whole[k2] == row[k2 - prev.len()]);
                assert(prev[k1].a < ia - 1);
                assert(row[k2 - prev.len()].a == ia - 1);
            } else {
                assert(whole[k1] == row[k1 - prev.len()] && whole[k2] == row[k2 - prev.len()]);
            }
        };
    }
}

/// Applying records never changes the store's length.
proof fn lemma_apply_len(ents: Seq<EntV>, recs: Seq<CRec>, s: Settings, dt: i64, k: int)
    ensures
        apply_recs(ents, recs, s, dt, k).len() == ents.len(),
    decreases k,
{
    if k > 0 {
        lemma_apply_len(ents, recs, s, dt, k - 1);
    }
}

/// An entity named by no record comes out of the response phase as it
/// went in.
proof fn lemma_apply_frame(ents: Seq<EntV>, recs: Seq<CRec>, s: Settings, dt: i64, k: int, i: int)
    requires
        0 <= i < ents.len(),
        k <= recs.len(),
        forall|j: int| 0 <= j < recs.len() ==> (#[trigger] recs[j]).a != i,
    ensures
        apply_recs(ents, recs, s, dt, k)[i] == ents[i],
    decreases k,
{
    lemma_apply_len(ents, recs, s, dt, k);
    if k > 0 {
        lemma_apply_frame(ents, recs, s, dt, k - 1, i);
        lemma_apply_len(ents, recs, s, dt, k - 1);
    }
}

/// Entities below the cadence cursor are stepped in place; those above are
/// untouched; nothing is lost.
proof fn lemma_toots_frame(ents: Seq<EntV>, now: i64, next: u64, j: int, i: int)
    requires
        0 <= i < ents.len(),
        0 <= j <= ents.len(),
    ensures
        toots_result(ents, now, next, j).0.len() >= ents.len(),
        i < j ==> toots_result(ents, now, next, j).0[i] == toots_step(ents[i], now),
        i >= j ==> toots_result(ents, now, next, j).0[i] == ents[i],
    decreases j,
{
    if j > 0 {
        lemma_toots_frame(ents, now, next, j - 1, i);
    }
}

/// An entity that has not expired survives the lifetime sweep.
proof fn lemma_mortal_keeps(ents: Seq<EntV>, now: i64, i: int)
    requires
        0 <= i < ents.len(),
        alive(ents[i], now),
    ensures
        exists|j: int| 0 <= j < mortal_ents(ents, now).len() && mortal_ents(ents, now)[j]
            == ents[i],
    decreases ents.len(),
{
    if i == ents.len() - 1 {
        assert(mortal_ents(ents, now).last() == ents[i]);
    } else {
        lemma_mortal_keeps(ents.drop_last(), now, i);
        let j = choose|j: int| 0 <= j < mortal_ents(ents.drop_last(), now).len() && mortal_ents(
            ents.drop_last(),
            now,
        )[j] == ents.drop_last()[i];
        if alive(ents.last(), now) {
            assert(mortal_ents(ents, now)[j] == ents[i]);
        } else {
            assert(mortal_ents(ents, now)[j] == ents[i]);
        }
    }
}

/// One tick carries an untouched, gravity-only entity exactly through the
/// force integrator and nothing else.
proof fn lemma_untouched_tick(
    ents: Seq<EntV>,
    next: u64,
    s: Settings,
    input: Seq<Key>,
    dt: i64,
    now: i64,
    i: int,
)
    requires
        0 <= i < ents.len(),
        ents.len() < usize::MAX,
        gravity_only(ents[i]) || drag_only(ents[i]),
    ensures
        exists|j: int|
            0 <= j < update_spec(ents, next, s, input, dt, now).0.len() && update_spec(
                ents,
                next,
                s,
                input,
                dt,
                now,
            ).0[j] == nt_step(drag_step(ents[i], s, dt), s, dt),
{
    let e = ents[i];
    let a = ctl_ents(ents, s, dt, input);
    assert(a[i] == ctl_step(e, s, dt, input));
    assert(ctl_step(e, s, dt, input) == e);
    let b = if quit_held(input) && next < u64::MAX {
        a.push(quit_ent(next))
    } else {
        a
    };
    assert(b[i] == e);
    assert(b.len() >= ents.len());
    let recs = collision_recs(b, dt);
    lemma_upto_recs(b, dt, b.len() as int);
    assert forall|j: int| 0 <= j < recs.len() implies (#[trigger] recs[j]).a != i by {
        assert(b[recs[j].a as int].shape is Some);
    };
    let c = apply_recs(b, recs, s, dt, recs.len() as int);
    lemma_apply_frame(b, recs, s, dt, recs.len() as int, i);
    lemma_apply_len(b, recs, s, dt, recs.len() as int);
    let d = drag_ents(c, s, dt);
    assert(d[i] == drag_step(e, s, dt));
    let e2 = nt_ents(d, s, dt);
    assert(e2[i] == nt_step(drag_step(e, s, dt), s, dt));
    let target = nt_step(drag_step(e, s, dt), s, dt);
    let fr = toots_result(e2, now, update_spec(ents, next, s, input, dt, now).1, e2.len() as int);
    lemma_toots_frame(
        e2,
        now,
        if quit_held(input) && next < u64::MAX {
            (next + 1) as u64
        } else {
            next
        },
        e2.len() as int,
        i,
    );
    assert(toots_step(target, now) == target);
    let f = toots_result(
        e2,
        now,
        if quit_held(input) && next < u64::MAX {
            (next + 1) as u64
        } else {
            next
        },
        e2.len() as int,
    ).0;
    assert(f[i] == target);
    assert(alive(target, now));
    lemma_mortal_keeps(f, now, i);
    let j = choose|j: int|
        0 <= j < mortal_ents(f, now).len() && mortal_ents(f, now)[j] == f[i];
    assert(update_spec(ents, next, s, input, dt, now).0 == mortal_ents(f, now));
    assert(update_spec(ents, next, s, input, dt, now).0[j] == target);
}

/// For all entities carrying only a gravity tag and a velocity, with no
/// collisions possible, the vertical velocity after `n` ticks at a fixed
/// time slice is exactly the initial value plus `gravity * dt` accumulated
/// `n` times (while it stays in the representable range); the horizontal
/// component never moves.
pub proof fn lemma_gravity_accumulates(
    ents: Seq<EntV>,
    next: u64,
    s: Settings,
    input: Seq<Key>,
    dt: i64,
    now: i64,
    i: int,
    n: int,
)
    requires
        0 <= i < ents.len(),
        gravity_only(ents[i]),
        n >= 0,
        forall|k: int| 0 <= k < n ==> #[trigger] iter_update(
            ents,
            next,
            s,
            input,
            dt,
            now,
            k,
        ).0.len() < usize::MAX,
        forall|k: int| 0 <= k <= n ==> #[trigger] in_range(
            ents[i].vel->0.y + k * mul_fx_spec(s.gravity as int, dt as int),
        ),
    ensures
        exists|j: int|
            {
                &&& 0 <= j < iter_update(ents, next, s, input, dt, now, n).0.len()
                &&& gravity_only(#[trigger] iter_update(ents, next, s, input, dt, now, n).0[j])
                &&& iter_update(ents, next, s, input, dt, now, n).0[j].vel->0.x
                    == ents[i].vel->0.x
                &&& iter_update(ents, next, s, input, dt, now, n).0[j].vel->0.y
                    == ents[i].vel->0.y + n * mul_fx_spec(s.gravity as int, dt as int)
            },
    decreases n,
{
    let v0 = ents[i].vel->0;
    let gdt = mul_fx_spec(s.gravity as int, dt as int);
    if n == 0 {
        assert(0 * gdt == 0);
        let out = iter_update(ents, next, s, input, dt, now, 0).0;
        assert(out[i] == ents[i]);
        assert(gravity_only(out[i]) && out[i].vel->0.x == v0.x && out[i].vel->0.y == v0.y
            + 0 * gdt);
    } else {
        lemma_gravity_accumulates(ents, next, s, input, dt, now, i, n - 1);
        let p = iter_update(ents, next, s, input, dt, now, n - 1);
        let j = choose|j: int|
            {
                &&& 0 <= j < iter_update(ents, next, s, input, dt, now, n - 1).0.len()
                &&& gravity_only(
                    #[trigger] iter_update(ents, next, s, input, dt, now, n - 1).0[j],
                )
                &&& iter_update(ents, next, s, input, dt, now, n - 1).0[j].vel->0.x == v0.x
                &&& iter_update(ents, next, s, input, dt, now, n - 1).0[j].vel->0.y == v0.y + (n
                    - 1) * gdt
            };
        let e = p.0[j];
        assert(p.0.len() < usize::MAX) by {
            assert(iter_update(ents, next, s, input, dt, now, n - 1).0.len() < usize::MAX);
        };
        lemma_untouched_tick(p.0, p.1, s, input, dt, now, j);
        let target = nt_step(drag_step(e, s, dt), s, dt);
        assert(drag_step(e, s, dt) == e);
        assert(in_range(v0.y + (n - 1) * gdt + gdt)) by {
            assert((n - 1) * gdt + gdt == n * gdt) by (nonlinear_arith);
            assert(in_range(v0.y + n * gdt));
        };
        assert(target.vel->0.y == v0.y + (n - 1) * gdt + gdt);
        assert((n - 1) * gdt + gdt == n * gdt) by (nonlinear_arith);
        assert(gravity_only(target) && target.vel->0.x == v0.x);
        let j2 = choose|j2: int|
            0 <= j2 < update_spec(p.0, p.1, s, input, dt, now).0.len() && update_spec(
                p.0,
                p.1,
                s,
                input,
                dt,
                now,
            ).0[j2] == target;
        assert(iter_update(ents, next, s, input, dt, now, n).0 == update_spec(
            p.0,
            p.1,
            s,
            input,
            dt,
            now,
        ).0);
        assert(iter_update(ents, next, s, input, dt, now, n).0[j2] == target);
    }
}

/// One dragged component keeps its sign and cannot grow in magnitude.
proof fn lemma_drag_component(x: int, m: int)
    requires
        in_range(x),
        0 <= m <= SCALE,
    ensures
        x >= 0 ==> 0 <= sub_fx_spec(x, mul_fx_spec(x, m)) <= x,
        x < 0 ==> x <= sub_fx_spec(x, mul_fx_spec(x, m)) <= 0,
{
    if x >= 0 {
        assert(0 <= x * m <= x * SCALE) by (nonlinear_arith)
            requires
                x >= 0,
                0 <= m <= SCALE,
        ;
        assert(tdiv(x * m, SCALE as int) == (x * m) / (SCALE as int));
        vstd::arithmetic::div_mod::lemma_div_pos_is_pos(x * m, SCALE as int);
        vstd::arithmetic::div_mod::lemma_div_is_ordered(x * m, x * SCALE, SCALE as int);
        crate::rot::lemma_cancel_scale(x);
    } else {
        let y = -x;
        assert(0 <= y * m <= y * SCALE) by (nonlinear_arith)
            requires
                y >= 0,
                0 <= m <= SCALE,
        ;
        assert(x * m == -(y * m)) by (nonlinear_arith)
            requires
                y == -x,
        ;
        assert(tdiv(x * m, SCALE as int) == -((y * m) / (SCALE as int)));
        vstd::arithmetic::div_mod::lemma_div_pos_is_pos(y * m, SCALE as int);
        vstd::arithmetic::div_mod::lemma_div_is_ordered(y * m, y * SCALE, SCALE as int);
        crate::rot::lemma_cancel_scale(y);
        assert(y * SCALE == SCALE as int * y) by (nonlinear_arith);
    }
}

/// Magnitudes order squares.
proof fn lemma_square_mono(a: int, b: int)
    requires
        (0 <= a <= b) || (b <= a <= 0),
    ensures
        a * a <= b * b,
{
    assert(a * a <= b * b) by (nonlinear_arith)
        requires
            (0 <= a <= b) || (b <= a <= 0),
    ;
}

/// For all drag-tagged entities with no other force and nothing to collide
/// with, one tick can only shrink the velocity: each component keeps its
/// sign, and the squared magnitude never grows.
pub proof fn lemma_drag_slows(
    ents: Seq<EntV>,
    next: u64,
    s: Settings,
    input: Seq<Key>,
    dt: i64,
    now: i64,
    i: int,
)
    requires
        0 <= i < ents.len(),
        ents.len() < usize::MAX,
        drag_only(ents[i]),
        ents[i].vel->0.wf(),
        0 <= mul_fx_spec(dt as int, s.drag_coefficient as int) <= SCALE,
    ensures
        exists|j: int|
            {
                &&& 0 <= j < update_spec(ents, next, s, input, dt, now).0.len()
                &&& drag_only(#[trigger] update_spec(ents, next, s, input, dt, now).0[j])
                &&& update_spec(ents, next, s, input, dt, now).0[j].vel->0.x
                    * ents[i].vel->0.x >= 0
                &&& update_spec(ents, next, s, input, dt, now).0[j].vel->0.y
                    * ents[i].vel->0.y >= 0
                &&& update_spec(ents, next, s, input, dt, now).0[j].vel->0.x * update_spec(
                    ents,
                    next,
                    s,
                    input,
                    dt,
                    now,
                ).0[j].vel->0.x + update_spec(ents, next, s, input, dt, now).0[j].vel->0.y
                    * update_spec(ents, next, s, input, dt, now).0[j].vel->0.y <= ents[i].vel->0.x
                    * ents[i].vel->0.x + ents[i].vel->0.y * ents[i].vel->0.y
            },
{
    let e = ents[i];
    let v = e.vel->0;
    let m = mul_fx_spec(dt as int, s.drag_coefficient as int);
    lemma_untouched_tick(ents, next, s, input, dt, now, i);
    let target = nt_step(drag_step(e, s, dt), s, dt);
    let w = drag_step(e, s, dt).vel->0;
    lemma_drag_component(v.x as int, m);
    lemma_drag_component(v.y as int, m);
    lemma_square_mono(w.x as int, v.x as int);
    lemma_square_mono(w.y as int, v.y as int);
    assert(target.vel->0 == w);
    assert(w.x * v.x >= 0 && w.y * v.y >= 0) by (nonlinear_arith)
        requires
            (0 <= w.x <= v.x) || (v.x <= w.x <= 0),
            (0 <= w.y <= v.y) || (v.y <= w.y <= 0),
    ;
    let j2 = choose|j2: int|
        0 <= j2 < update_spec(ents, next, s, input, dt, now).0.len() && update_spec(
            ents,
            next,
            s,
            input,
            dt,
            now,
        ).0[j2] == target;
    assert(update_spec(ents, next, s, input, dt, now).0[j2] == target);
    assert(drag_only(target));
}

/// With no energy loss, a head-on collision against an axis-aligned wall
/// exactly reverses the normal component of the velocity and preserves the
/// tangential component; a velocity already separating is left alone.
/// Stated for an upright body (`ra == 0`), whose local frame is the world
/// frame, against the four axis normals.
pub proof fn lemma_elastic_reflection(e: EntV, imp: crate::detect::Impact, s: Settings, dt: i64)
    requires
        e.vel is Some,
        e.pos is Some,
        e.vel->0.wf(),
        in_range(2 * e.vel->0.x),
        in_range(2 * e.vel->0.y),
        s.collision_energy_loss == 0,
    ensures
        imp.normal == (V2 { x: 0, y: (-SCALE) as i64 }) ==> crate::systems::respond(
            e,
            imp,
            0,
            s,
            dt,
        ).vel == (if e.vel->0.y < 0 {
            Some(V2 { x: e.vel->0.x, y: (-e.vel->0.y) as i64 })
        } else {
            e.vel
        }),
        imp.normal == (V2 { x: SCALE, y: 0 }) ==> crate::systems::respond(
            e,
            imp,
            0,
            s,
            dt,
        ).vel == (if e.vel->0.x > 0 {
            Some(V2 { x: (-e.vel->0.x) as i64, y: e.vel->0.y })
        } else {
            e.vel
        }),
{
    let v = e.vel->0;
    crate::rot::lemma_trig_zero();
    if imp.normal == (V2 { x: 0, y: (-SCALE) as i64 }) {
        crate::rot::lemma_rotate_zero(imp.normal);
        let n = crate::rot::rotate_spec(0, imp.normal);
        assert(n == imp.normal);
        crate::rot::lemma_cancel_scale(-(v.y as int));
        assert(v.x * n.x + v.y * n.y == (-(v.y as int)) * SCALE) by (nonlinear_arith)
            requires
                n.x == 0 && n.y == -(SCALE as int),
        ;
        let d = crate::vec2::dot_spec(v, n);
        assert(d == -(v.y as int));
        if d > 0 {
            crate::rot::lemma_cancel_scale(-(SCALE as int) * (2 * d) / (SCALE as int));
            assert(n.x * (2 * d) == 0) by (nonlinear_arith)
                requires
                    n.x == 0,
            ;
            assert(n.y * (2 * d) == -(2 * d) * SCALE) by (nonlinear_arith)
                requires
                    n.y == -(SCALE as int),
            ;
            crate::rot::lemma_cancel_scale(-(2 * d));
            let v2 = crate::vec2::sub_v_spec(v, crate::vec2::scale_v_spec(n, 2 * d));
            assert(v2.x == v.x && v2.y == -(v.y as int));
            crate::rot::lemma_cancel_scale(v2.x as int);
            crate::rot::lemma_cancel_scale(v2.y as int);
            let v3 = crate::vec2::scale_v_spec(v2, SCALE - 0);
            assert(v3 == v2);
        }
    }
    if imp.normal == (V2 { x: SCALE, y: 0 }) {
        crate::rot::lemma_rotate_zero(imp.normal);
        let n = crate::rot::rotate_spec(0, imp.normal);
        assert(n == imp.normal);
        crate::rot::lemma_cancel_scale(v.x as int);
        assert(v.x * n.x + v.y * n.y == (v.x as int) * SCALE) by (nonlinear_arith)
            requires
                n.x == SCALE as int && n.y == 0,
        ;
        let d = crate::vec2::dot_spec(v, n);
        assert(d == v.x as int);
        if d > 0 {
            assert(n.y * (2 * d) == 0) by (nonlinear_arith)
                requires
                    n.y == 0,
            ;
            assert(n.x * (2 * d) == (2 * d) * SCALE) by (nonlinear_arith)
                requires
                    n.x == SCALE as int,
            ;
            crate::rot::lemma_cancel_scale(2 * d);
            let v2 = crate::vec2::sub_v_spec(v, crate::vec2::scale_v_spec(n, 2 * d));
            assert(v2.x == -(v.x as int) && v2.y == v.y);
            crate::rot::lemma_cancel_scale(v2.x as int);
            crate::rot::lemma_cancel_scale(v2.y as int);
            let v3 = crate::vec2::scale_v_spec(v2, SCALE - 0);
            assert(v3 == v2);
        }
    }
}

/// The time of a candidate, if any.
pub open spec fn toi_of(c: Option<crate::detect::Cand>) -> Option<i64> {
    match c {
        None => None,
        Some(cc) => Some(cc.toi),
    }
}

/// The time of an impact, if any.
pub open spec fn imp_toi(r: Option<crate::detect::Impact>) -> Option<i64> {
    match r {
        None => None,
        Some(im) => Some(im.toi),
    }
}

/// The smaller of two optional times.
pub open spec fn min_toi(a: Option<i64>, b: Option<i64>) -> Option<i64> {
    match b {
        None => a,
        Some(t) => match a {
            None => Some(t),
            Some(u) => if t < u {
                Some(t)
            } else {
                Some(u)
            },
        },
    }
}

/// `min_toi` is associative and commutative, with `None` as its unit.
proof fn lemma_min_toi_algebra(a: Option<i64>, b: Option<i64>, c: Option<i64>)
    ensures
        min_toi(min_toi(a, b), c) == min_toi(a, min_toi(b, c)),
        min_toi(a, b) == min_toi(b, a),
        min_toi(None, a) == a,
{
}

/// The earliest crossing time of one swept point over the first `m` edges
/// of an outline.
pub open spec fn cand_min_row(p: V2, oute: Seq<V2>, u: V2, dt: i64, m: int) -> Option<i64>
    decreases m,
{
    if m <= 0 {
        None
    } else {
        min_toi(
            cand_min_row(p, oute, u, dt, m - 1),
            crate::detect::cand_toi(p, oute[m - 1], oute[m], u, dt),
        )
    }
}

/// The earliest crossing time of the first `i` points of one outline over
/// every edge of the other.
pub open spec fn cand_min(pts: Seq<V2>, oute: Seq<V2>, u: V2, dt: i64, i: int) -> Option<i64>
    decreases i,
{
    if i <= 0 {
        None
    } else {
        min_toi(
            cand_min(pts, oute, u, dt, i - 1),
            cand_min_row(pts[i - 1], oute, u, dt, crate::detect::edge_count(oute)),
        )
    }
}

/// The first-class row fold keeps exactly the earliest time.
proof fn lemma_fold1_row_toi(
    acc: Option<crate::detect::Cand>,
    lp: V2,
    p: V2,
    outb: Seq<V2>,
    w: V2,
    dt: i64,
    m: int,
)
    ensures
        toi_of(crate::detect::fold1_row(acc, lp, p, outb, w, dt, m)) == min_toi(
            toi_of(acc),
            cand_min_row(p, outb, w, dt, m),
        ),
    decreases m,
{
    if m > 0 {
        lemma_fold1_row_toi(acc, lp, p, outb, w, dt, m - 1);
        lemma_min_toi_algebra(
            toi_of(acc),
            cand_min_row(p, outb, w, dt, m - 1),
            crate::detect::cand_toi(p, outb[m - 1], outb[m], w, dt),
        );
    }
}

/// The second-class row fold keeps exactly the earliest time, at the
/// negated relative velocity.
proof fn lemma_fold2_row_toi(
    acc: Option<crate::detect::Cand>,
    p: V2,
    outa: Seq<V2>,
    w: V2,
    dt: i64,
    pos_a: V2,
    rot_a: i64,
    m: int,
)
    ensures
        toi_of(crate::detect::fold2_row(acc, p, outa, w, dt, pos_a, rot_a, m)) == min_toi(
            toi_of(acc),
            cand_min_row(p, outa, crate::vec2::neg_v_spec(w), dt, m),
        ),
    decreases m,
{
    if m > 0 {
        lemma_fold2_row_toi(acc, p, outa, w, dt, pos_a, rot_a, m - 1);
        lemma_min_toi_algebra(
            toi_of(acc),
            cand_min_row(p, outa, crate::vec2::neg_v_spec(w), dt, m - 1),
            crate::detect::cand_toi(
                p,
                outa[m - 1],
                outa[m],
                crate::vec2::neg_v_spec(w),
                dt,
            ),
        );
    }
}

/// The first-class fold keeps exactly the earliest time over its rows.
proof fn lemma_fold1_toi(
    acc: Option<crate::detect::Cand>,
    la: Seq<V2>,
    outa: Seq<V2>,
    outb: Seq<V2>,
    w: V2,
    dt: i64,
    i: int,
)
    ensures
        toi_of(crate::detect::fold1(acc, la, outa, outb, w, dt, i)) == min_toi(
            toi_of(acc),
            cand_min(outa, outb, w, dt, i),
        ),
    decreases i,
{
    if i > 0 {
        lemma_fold1_toi(acc, la, outa, outb, w, dt, i - 1);
        lemma_fold1_row_toi(
            crate::detect::fold1(acc, la, outa, outb, w, dt, i - 1),
            la[i - 1],
            outa[i - 1],
            outb,
            w,
            dt,
            crate::detect::edge_count(outb),
        );
        lemma_min_toi_algebra(
            toi_of(acc),
            cand_min(outa, outb, w, dt, i - 1),
            cand_min_row(outa[i - 1], outb, w, dt, crate::detect::edge_count(outb)),
        );
    }
}

/// The second-class fold keeps exactly the earliest time over its rows.
proof fn lemma_fold2_toi(
    acc: Option<crate::detect::Cand>,
    outb: Seq<V2>,
    outa: Seq<V2>,
    w: V2,
    dt: i64,
    pos_a: V2,
    rot_a: i64,
    i: int,
)
    ensures
        toi_of(crate::detect::fold2(acc, outb, outa, w, dt, pos_a, rot_a, i)) == min_toi(
            toi_of(acc),
            cand_min(outb, outa, crate::vec2::neg_v_spec(w), dt, i),
        ),
    decreases i,
{
    if i > 0 {
        lemma_fold2_toi(acc, outb, outa, w, dt, pos_a, rot_a, i - 1);
        lemma_fold2_row_toi(
            crate::detect::fold2(acc, outb, outa, w, dt, pos_a, rot_a, i - 1),
            outb[i - 1],
            outa,
            w,
            dt,
            pos_a,
            rot_a,
            crate::detect::edge_count(outa),
        );
        lemma_min_toi_algebra(
            toi_of(acc),
            cand_min(outb, outa, crate::vec2::neg_v_spec(w), dt, i - 1),
            cand_min_row(
                outb[i - 1],
                outa,
                crate::vec2::neg_v_spec(w),
                dt,
                crate::detect::edge_count(outa),
            ),
        );
    }
}

/// Swapping the operands of a clamped difference negates it exactly.
proof fn lemma_sub_v_antisym(x: V2, y: V2)
    requires
        x.wf(),
        y.wf(),
    ensures
        crate::vec2::sub_v_spec(y, x) == crate::vec2::neg_v_spec(crate::vec2::sub_v_spec(x, y)),
        crate::vec2::neg_v_spec(crate::vec2::neg_v_spec(crate::vec2::sub_v_spec(x, y)))
            == crate::vec2::sub_v_spec(x, y),
{
}

/// The swept-disk quadratic cares only about relative quantities, so
/// swapping the two disks leaves its time unchanged.
proof fn lemma_point_circle_sym(dx: int, dy: int, wx: int, wy: int, rr: int, dt: i64)
    ensures
        crate::detect::point_circle_toi(dx, dy, wx, wy, rr, dt) == crate::detect::point_circle_toi(
            -dx,
            -dy,
            -wx,
            -wy,
            rr,
            dt,
        ),
{
    assert((-dx) * (-wx) == dx * wx && (-dy) * (-wy) == dy * wy && (-wx) * (-wx) == wx * wx
        && (-wy) * (-wy) == wy * wy && (-dx) * (-dx) == dx * dx && (-dy) * (-dy) == dy * dy)
        by (nonlinear_arith);
}

/// Detector symmetry: detecting the swapped pair yields the very same
/// time of impact (and an event exactly when the first order has one) —
/// the contact normals differ, each living in its own body's frame.
pub proof fn lemma_detect_symmetric(
    a: crate::detect::Motion,
    sa: crate::shape::ShapeV,
    b: crate::detect::Motion,
    sb: crate::shape::ShapeV,
    dt: i64,
)
    requires
        a.wf(),
        b.wf(),
    ensures
        imp_toi(crate::detect::detect_spec(a, sa, b, sb, dt)) == imp_toi(
            crate::detect::detect_spec(b, sb, a, sa, dt),
        ),
{
    reveal(crate::detect::detect_spec);
    reveal(crate::detect::best_cand_spec);
    let w = crate::vec2::sub_v_spec(a.vel, b.vel);
    let w2 = crate::vec2::sub_v_spec(b.vel, a.vel);
    lemma_sub_v_antisym(a.vel, b.vel);
    lemma_sub_v_antisym(b.vel, a.vel);
    if (sa matches crate::shape::ShapeV::Disk { .. }) && (sb
        matches crate::shape::ShapeV::Disk { .. }) {
        lemma_point_circle_sym(
            b.pos.x - a.pos.x,
            b.pos.y - a.pos.y,
            a.vel.x - b.vel.x,
            a.vel.y - b.vel.y,
            sa->Disk_radius + sb->Disk_radius,
            dt,
        );
    } else if sa matches crate::shape::ShapeV::Disk { .. } {
        // Both orders of a mixed pair funnel into the same circle sweep,
        // with the disk's own state and the outline of the other body.
    } else if sb matches crate::shape::ShapeV::Disk { .. } {
    } else {
        let la = crate::shape::outline_of(sa);
        let lb = crate::shape::outline_of(sb);
        let outa = crate::shape::world_pts_spec(a.pos, a.rot as int, la);
        let outb = crate::shape::world_pts_spec(b.pos, b.rot as int, lb);
        let f1 = crate::detect::fold1(None, la, outa, outb, w, dt, la.len() as int);
        lemma_fold1_toi(None, la, outa, outb, w, dt, la.len() as int);
        lemma_fold2_toi(f1, outb, outa, w, dt, a.pos, a.rot, outb.len() as int);
        let g1 = crate::detect::fold1(None, lb, outb, outa, w2, dt, lb.len() as int);
        lemma_fold1_toi(None, lb, outb, outa, w2, dt, lb.len() as int);
        lemma_fold2_toi(g1, outa, outb, w2, dt, b.pos, b.rot, outa.len() as int);
        assert(w2 == crate::vec2::neg_v_spec(w));
        assert(crate::vec2::neg_v_spec(w2) == w);
        lemma_min_toi_algebra(
            cand_min(outa, outb, w, dt, la.len() as int),
            cand_min(outb, outa, crate::vec2::neg_v_spec(w), dt, outb.len() as int),
            None,
        );
        assert(la.len() == outa.len() && lb.len() == outb.len());
    }
}

} // verus!
