//! The per-tick systems, in their fixed order: control mapping, collision
//! (detection, response, drag), force integration, emission cadence,
//! lifetime expiry.
//!
//! Each system is specified by a per-entity step function; the store-level
//! contract says that every entity is carried through its step, so a tick
//! is pure computation over the store, a time delta and an input snapshot.

use vstd::prelude::*;
use crate::control::{InputState, Key};
use crate::fx::{
    add_fx, add_fx_spec, in_range, mul_fx, mul_fx_spec, sub_fx, sub_fx_spec, MAX_FX, SCALE,
};
use crate::rot::{norm_angle, norm_angle_spec};
use crate::settings::Settings;
use crate::detect::{Impact, Motion};
use crate::store::{EntV, Store};
use crate::vec2::{add_v, add_v_spec, scale_v, scale_v_spec, sub_v, sub_v_spec, V2};

verus! {

/// Whether a key is held in the snapshot.
pub open spec fn held(input: Seq<Key>, k: Key) -> bool {
    input.contains(k)
}

/// The thrust a controllable entity carries after reading its axes: reset
/// to zero, then the full boost power up or down — never accumulated.
pub open spec fn boost_after(e: EntV, s: Settings, input: Seq<Key>) -> Option<i64> {
    match (e.controls, e.boost) {
        (Some(c), Some(_)) => {
            let b1: int = if held(input, c.up) {
                add_fx_spec(0, s.boost_power as int)
            } else {
                0
            };
            let b2: int = if held(input, c.down) {
                sub_fx_spec(b1, s.boost_power as int)
            } else {
                b1
            };
            Some(b2 as i64)
        },
        _ => e.boost,
    }
}

/// The angular velocity after the left/right axes: an additive nudge of
/// `rotational_acceleration * dt` each way.
pub open spec fn rotvel_after_keys(e: EntV, s: Settings, dt: i64, input: Seq<Key>) -> Option<
    i64,
> {
    match (e.controls, e.rotvel) {
        (Some(c), Some(rv)) => {
            let step = mul_fx_spec(s.rotational_acceleration as int, dt as int);
            let r1: int = if held(input, c.left) {
                add_fx_spec(rv as int, step)
            } else {
                rv as int
            };
            let r2: int = if held(input, c.right) {
                sub_fx_spec(r1, step)
            } else {
                r1
            };
            Some(r2 as i64)
        },
        _ => e.rotvel,
    }
}

/// One entity through the control mapper: thrust from the up/down axes,
/// angular velocity from the left/right axes, and, while thrust is
/// significantly positive, an auto-leveling correction of
/// `-rotation_error * auto_up_power * dt` steering the craft upright.
pub open spec fn ctl_step(e: EntV, s: Settings, dt: i64, input: Seq<Key>) -> EntV {
    if e.controls is None {
        e
    } else {
        let b = boost_after(e, s, input);
        let rv = rotvel_after_keys(e, s, dt, input);
        let rv2 = match (rv, e.rot, b) {
            (Some(r), Some(rot), Some(bv)) => if bv >= 100 {
                let err = norm_angle_spec(rot as int);
                let delta = mul_fx_spec(
                    mul_fx_spec(sub_fx_spec(0, err), s.auto_up_power as int),
                    dt as int,
                );
                Some(add_fx_spec(r as int, delta) as i64)
            } else {
                rv
            },
            _ => rv,
        };
        EntV { boost: b, rotvel: rv2, ..e }
    }
}

/// An entity that marks the simulation as over.
pub open spec fn quit_ent(id: u64) -> EntV {
    EntV { id, quit: true, ..crate::store::blank_ent() }
}

/// Whether the snapshot asks to quit.
pub open spec fn quit_held(input: Seq<Key>) -> bool {
    held(input, Key::Escape) || held(input, Key::Q)
}

/// The whole store through the control mapper.
pub open spec fn ctl_ents(ents: Seq<EntV>, s: Settings, dt: i64, input: Seq<Key>) -> Seq<
    EntV,
> {
    ents.map_values(|e: EntV| ctl_step(e, s, dt, input))
}

/// The control mapper over the whole store: every entity through
/// `ctl_step`, and on a quit signal one termination entity appended (the
/// rest of the state is untouched).
pub fn controls_sys(store: &mut Store, s: &Settings, dt: i64, input: &InputState)
    requires
        old(store).wf(),
        s.valid(),
        0 <= dt <= MAX_FX,
    ensures
        final(store).wf(),
        !quit_held(input@) ==> final(store)@ == ctl_ents(old(store)@, *s, dt, input@)
            && final(store).next_id == old(store).next_id,
        quit_held(input@) && old(store).next_id < u64::MAX ==> final(store)@ == ctl_ents(
            old(store)@,
            *s,
            dt,
            input@,
        ).push(quit_ent(old(store).next_id)) && final(store).next_id == old(store).next_id
            + 1,
        quit_held(input@) && old(store).next_id == u64::MAX ==> final(store)@ == ctl_ents(
            old(store)@,
            *s,
            dt,
            input@,
        ) && final(store).next_id == old(store).next_id,
{
    let n = store.ents.len();
    proof {
        assert forall|k: int| 0 <= k < n implies (#[trigger] store.ents@[k])@.wf() by {
            assert(store@[k] == store.ents@[k]@);
            assert(store@[k].wf());
        };
    }
    let mut i: usize = 0;
    while i < n
        invariant
            i <= n,
            n == store@.len(),
            store@.len() == old(store)@.len(),
            store.next_id == old(store).next_id,
            old(store).wf(),
            s.valid(),
            0 <= dt <= MAX_FX,
            store.ents@.len() == n,
            old(store).ents@.len() == n,
            forall|k: int| 0 <= k < i ==> (#[trigger] store.ents@[k])@ == ctl_step(
                old(store).ents@[k]@,
                *s,
                dt,
                input@,
            ),
            forall|k: int| i <= k < n ==> (#[trigger] store.ents@[k])@ == old(
                store,
            ).ents@[k]@,
            forall|k: int| 0 <= k < n ==> (#[trigger] store.ents@[k])@.wf(),
        decreases n - i,
    {
        let e = &store.ents[i];
        let ctl = e.controls;
        if let Some(c) = ctl {
            let boost0 = e.boost;
            let rotvel0 = e.rotvel;
            let rot0 = e.rot;
            let b_new: Option<i64> = match boost0 {
                Some(_) => {
                    let mut b: i64 = 0;
                    if input.is_held(c.up) {
                        b = add_fx(b, s.boost_power);
                    }
                    if input.is_held(c.down) {
                        b = sub_fx(b, s.boost_power);
                    }
                    Some(b)
                },
                None => None,
            };
            let rv_new: Option<i64> = match rotvel0 {
                Some(rv) => {
                    let step = mul_fx(s.rotational_acceleration, dt);
                    let mut r = rv;
                    if input.is_held(c.left) {
                        r = add_fx(r, step);
                    }
                    if input.is_held(c.right) {
                        r = sub_fx(r, step);
                    }
                    Some(r)
                },
                None => None,
            };
            let rv2: Option<i64> = match (rv_new, rot0, b_new) {
                (Some(r), Some(rot), Some(bv)) => if bv >= 100 {
                    let err = norm_angle(rot);
                    let delta = mul_fx(mul_fx(sub_fx(0, err), s.auto_up_power), dt);
                    Some(add_fx(r, delta))
                } else {
                    Some(r)
                },
                _ => rv_new,
            };
            store.ents[i].boost = b_new;
            store.ents[i].rotvel = rv2;
            proof {
                let e0 = old(store).ents@[i as int]@;
                assert(b_new == boost_after(e0, *s, input@));
                assert(rv2 == ctl_step(e0, *s, dt, input@).rotvel);
                assert(store.ents@[i as int]@ == ctl_step(e0, *s, dt, input@));
                assert(store.ents@[i as int]@.wf());
            }
        } else {
            proof {
                let e0 = old(store).ents@[i as int]@;
                assert(store.ents@[i as int]@ == ctl_step(e0, *s, dt, input@));
            }
        }
        i += 1;
    }
    proof {
        assert forall|k: int| 0 <= k < n implies store@[k] == ctl_ents(
            old(store)@,
            *s,
            dt,
            input@,
        )[k] by {
            assert(store@[k] == store.ents@[k]@);
            assert(old(store)@[k] == old(store).ents@[k]@);
        };
        assert(store@ =~= ctl_ents(old(store)@, *s, dt, input@));
    }
    if input.is_held(Key::Escape) || input.is_held(Key::Q) {
        let mut q = crate::store::Ent::blank();
        q.quit = true;
        let ghost pre = store@;
        let ghost pre_next = store.next_id;
        store.spawn(q);
        proof {
            assert(pre =~= ctl_ents(old(store)@, *s, dt, input@));
            if pre_next < u64::MAX {
                assert(q@.with_id(pre_next) == quit_ent(pre_next));
            }
        }
    } else {
        proof {
            assert(store@ =~= ctl_ents(old(store)@, *s, dt, input@));
        }
    }
}

/// A collected collision record: the reacting entity (by store index), the
/// detector's impact, and the entity's rotation as read at detection time.
#[derive(Clone, Copy, Debug, PartialEq, Eq, Structural)]
pub struct CRec {
    pub a: usize,
    pub imp: Impact,
    pub ra: i64,
}

/// The detector's verdict for one ordered pair of entities, when both
/// carry velocity, position, shape and rotation.
#[verifier::opaque]
pub open spec fn pair_rec(ents: Seq<EntV>, dt: i64, ia: int, ib: int) -> Option<Impact> {
    let ea = ents[ia];
    let eb = ents[ib];
    if ia == ib {
        None
    } else {
        match (ea.vel, ea.pos, ea.shape, ea.rot, eb.vel, eb.pos, eb.shape, eb.rot) {
            (
                Some(va),
                Some(pa),
                Some(sa),
                Some(ra),
                Some(vb),
                Some(pb),
                Some(sb),
                Some(rb),
            ) => crate::detect::detect_spec(
                Motion { pos: pa, rot: ra, vel: va },
                sa,
                Motion { pos: pb, rot: rb, vel: vb },
                sb,
                dt,
            ),
            _ => None,
        }
    }
}

/// An entity's rotation, zero when absent.
pub open spec fn rot_of(e: EntV) -> i64 {
    match e.rot {
        Some(r) => r,
        None => 0i64,
    }
}

/// The records contributed by one ordered pair: at most one.
pub open spec fn rec_at(ents: Seq<EntV>, dt: i64, ia: int, ib: int) -> Seq<CRec> {
    match pair_rec(ents, dt, ia, ib) {
        None => Seq::empty(),
        Some(imp) => seq![
            CRec { a: ia as usize, imp, ra: rot_of(ents[ia]) },
        ],
    }
}

/// The records of entity `ia` against the first `ib` others, in order.
pub open spec fn recs_row(ents: Seq<EntV>, dt: i64, ia: int, ib: int) -> Seq<CRec>
    decreases ib,
{
    if ib <= 0 {
        Seq::empty()
    } else {
        recs_row(ents, dt, ia, ib - 1) + rec_at(ents, dt, ia, ib - 1)
    }
}

/// The records of the first `ia` entities, each against everyone.
pub open spec fn recs_upto(ents: Seq<EntV>, dt: i64, ia: int) -> Seq<CRec>
    decreases ia,
{
    if ia <= 0 {
        Seq::empty()
    } else {
        recs_upto(ents, dt, ia - 1) + recs_row(ents, dt, ia - 1, ents.len() as int)
    }
}

/// All collision records of the tick.  The detector returns the earliest
/// event per ordered pair, and pairs are visited in ascending handle
/// order, so the sequence is already sorted by (first handle, second
/// handle, time of impact) with one record per pair — the ordering and
/// deduplication rule holds by construction.
pub open spec fn collision_recs(ents: Seq<EntV>, dt: i64) -> Seq<CRec> {
    recs_upto(ents, dt, ents.len() as int)
}

/// The fixed moment of inertia behind the simplified angular impulse
/// (ten whole units, in thousandths).
pub const MOMENT_OF_INERTIA: i64 = 10000;

/// The angular impulse of a contact: the lever arm (local witness point)
/// crossed with the impulse direction, scaled by the impulse magnitude
/// over a fixed moment of inertia.  Zero-length vectors normalize to zero,
/// so degenerate contacts impart no torque.
pub open spec fn rotvel_delta_spec(witness: V2, impulse: V2) -> int {
    let cr = crate::vec2::cross_spec(
        crate::vec2::norm_spec(witness),
        crate::vec2::norm_spec(impulse),
    );
    sub_fx_spec(
        0,
        crate::fx::div_fx_spec(
            mul_fx_spec(cr, crate::vec2::len_spec(impulse)),
            MOMENT_OF_INERTIA as int,
        ),
    )
}

/// Compute the angular impulse of a contact.
pub fn rotvel_delta_on_impact(witness: V2, impulse: V2) -> (r: i64)
    requires
        witness.wf(),
        impulse.wf(),
    ensures
        r == rotvel_delta_spec(witness, impulse),
        in_range(r as int),
{
    let wn = crate::vec2::norm_v(witness);
    let im = crate::vec2::norm_v(impulse);
    let cr = crate::vec2::cross(wn, im);
    let l = crate::vec2::len_v(impulse);
    proof {
        assert(crate::vec2::len_spec(impulse) == l as int);
    }
    sub_fx(0, crate::fx::div_fx(mul_fx(cr, l), MOMENT_OF_INERTIA))
}

/// One entity's response to one of its collision records, per the fixed
/// sequence: carry the local normal to world space with the rotation read
/// at detection time; skip if the velocity already separates; reflect the
/// velocity about the normal; advance the position by `(v - v') * toi` so
/// the entity sits on the contact boundary at the moment of impact; add
/// the angular impulse; then apply energy loss, moving the position
/// forward a tick at the pre-loss velocity and back at the post-loss
/// velocity so the tick-end position matches the post-loss velocity.
pub open spec fn respond(e: EntV, imp: Impact, ra: i64, s: Settings, dt: i64) -> EntV {
    match (e.vel, e.pos) {
        (Some(v), Some(p)) => {
            let n = crate::rot::rotate_spec(ra as int, imp.normal);
            let d = crate::vec2::dot_spec(v, n);
            if d <= 0 {
                e
            } else {
                let v2 = sub_v_spec(v, scale_v_spec(n, 2 * d));
                let p2 = add_v_spec(p, scale_v_spec(sub_v_spec(v, v2), imp.toi as int));
                let rv2 = match e.rotvel {
                    Some(rv) => Some(
                        add_fx_spec(
                            rv as int,
                            rotvel_delta_spec(
                                imp.witness,
                                scale_v_spec(imp.normal, crate::vec2::len_spec(v)),
                            ),
                        ) as i64,
                    ),
                    None => None,
                };
                let p3 = add_v_spec(p2, scale_v_spec(v2, dt as int));
                let v3 = scale_v_spec(v2, sub_fx_spec(SCALE as int, s.collision_energy_loss as int));
                let p4 = sub_v_spec(p3, scale_v_spec(v3, dt as int));
                EntV { vel: Some(v3), pos: Some(p4), rotvel: rv2, ..e }
            }
        },
        _ => e,
    }
}

/// The store after the first `k` records have been applied, in order.
/// Each record only ever touches the entity that reacted; its partner is
/// resolved through the record of the swapped pair.
pub open spec fn apply_recs(ents: Seq<EntV>, recs: Seq<CRec>, s: Settings, dt: i64, k: int) -> Seq<
    EntV,
>
    decreases k,
{
    if k <= 0 {
        ents
    } else {
        let prev = apply_recs(ents, recs, s, dt, k - 1);
        let r = recs[k - 1];
        if 0 <= r.a < prev.len() {
            prev.update(r.a as int, respond(prev[r.a as int], r.imp, r.ra, s, dt))
        } else {
            prev
        }
    }
}

/// Apply one collision record to one entity.
fn respond_ent(e: &mut crate::store::Ent, imp: Impact, ra: i64, s: &Settings, dt: i64)
    requires
        old(e)@.wf(),
        imp.normal.wf(),
        imp.witness.wf(),
        in_range(ra as int),
        in_range(imp.toi as int),
        s.valid(),
        0 <= dt <= MAX_FX,
    ensures
        final(e)@ == respond(old(e)@, imp, ra, *s, dt),
        final(e)@.wf(),
{
    let vel0 = e.vel;
    let pos0 = e.pos;
    let rotvel0 = e.rotvel;
    if let (Some(v), Some(p)) = (vel0, pos0) {
        let n = crate::rot::rotate_v(ra, imp.normal);
        let d = crate::vec2::dot(v, n);
        if d <= 0 {
            return;
        }
        let v2 = sub_v(v, scale_v(n, 2 * d));
        let p2 = add_v(p, scale_v(sub_v(v, v2), imp.toi));
        if let Some(rv) = rotvel0 {
            let lv = crate::vec2::len_v(v);
            let delta = rotvel_delta_on_impact(imp.witness, scale_v(imp.normal, lv));
            e.rotvel = Some(add_fx(rv, delta));
        }
        let p3 = add_v(p2, scale_v(v2, dt));
        let v3 = scale_v(v2, sub_fx(SCALE, s.collision_energy_loss));
        let p4 = sub_v(p3, scale_v(v3, dt));
        e.vel = Some(v3);
        e.pos = Some(p4);
    }
}

/// The collision resolver: detect every ordered pair over this tick's
/// slice, then apply the surviving records in handle-then-time order.
#[verifier::rlimit(80)]
pub fn collision_sys(store: &mut Store, s: &Settings, dt: i64)
    requires
        old(store).wf(),
        s.valid(),
        0 <= dt <= MAX_FX,
    ensures
        final(store).wf(),
        final(store)@ == apply_recs(
            old(store)@,
            collision_recs(old(store)@, dt),
            *s,
            dt,
            collision_recs(old(store)@, dt).len() as int,
        ),
        final(store).next_id == old(store).next_id,
{
    let n = store.ents.len();
    proof {
        assert forall|k: int| 0 <= k < n implies (#[trigger] store.ents@[k])@.wf() by {
            assert(store@[k] == store.ents@[k]@);
            assert(store@[k].wf());
        };
    }
    let ghost v0 = store@;
    let mut recs: Vec<CRec> = Vec::new();
    let mut ia: usize = 0;
    while ia < n
        invariant
            ia <= n,
            n == store@.len(),
            store@ == v0,
            store.ents@.len() == n,
            forall|k: int| 0 <= k < n ==> (#[trigger] store.ents@[k])@.wf(),
            forall|k: int| 0 <= k < n ==> store@[k] == store.ents@[k]@,
            s.valid(),
            0 <= dt <= MAX_FX,
            recs@ == recs_upto(v0, dt, ia as int),
            forall|k: int| 0 <= k < recs@.len() ==> (#[trigger] recs@[k]).a < n,
            forall|k: int| 0 <= k < recs@.len() ==> in_range((#[trigger] recs@[k]).ra as int)
                && recs@[k].imp.normal.wf() && recs@[k].imp.witness.wf() && in_range(
                recs@[k].imp.toi as int,
            ),
        decreases n - ia,
    {
        let mut ib: usize = 0;
        while ib < n
            invariant
                ia < n,
                ib <= n,
                n == store@.len(),
                store@ == v0,
                store.ents@.len() == n,
                forall|k: int| 0 <= k < n ==> (#[trigger] store.ents@[k])@.wf(),
                forall|k: int| 0 <= k < n ==> store@[k] == store.ents@[k]@,
                s.valid(),
                0 <= dt <= MAX_FX,
                recs@ == recs_upto(v0, dt, ia as int) + recs_row(v0, dt, ia as int, ib as int),
                forall|k: int| 0 <= k < recs@.len() ==> (#[trigger] recs@[k]).a < n,
                forall|k: int| 0 <= k < recs@.len() ==> in_range(
                    (#[trigger] recs@[k]).ra as int,
                ) && recs@[k].imp.normal.wf() && recs@[k].imp.witness.wf() && in_range(
                    recs@[k].imp.toi as int,
                ),
            decreases n - ib,
        {
            if ia != ib {
                let ea = &store.ents[ia];
                let eb = &store.ents[ib];
                if ea.vel.is_some() && ea.pos.is_some() && ea.shape.is_some() && ea.rot.is_some()
                    && eb.vel.is_some() && eb.pos.is_some() && eb.shape.is_some()
                    && eb.rot.is_some() {
                    let ma = Motion {
                        pos: ea.pos.unwrap(),
                        rot: ea.rot.unwrap(),
                        vel: ea.vel.unwrap(),
                    };
                    let mb = Motion {
                        pos: eb.pos.unwrap(),
                        rot: eb.rot.unwrap(),
                        vel: eb.vel.unwrap(),
                    };
                    let sa = ea.shape.as_ref().unwrap();
                    let sb = eb.shape.as_ref().unwrap();
                    let found = crate::detect::detect(&ma, sa, &mb, sb, dt);
                    if let Some(imp) = found {
                        let ra = ma.rot;
                        recs.push(CRec { a: ia, imp, ra });
                    }
                }
            }
            proof {
                reveal(crate::systems::pair_rec);
                assert(recs@ =~= recs_upto(v0, dt, ia as int) + recs_row(
                    v0,
                    dt,
                    ia as int,
                    ib as int + 1,
                ));
            }
            ib += 1;
        }
        proof {
            assert(recs@ =~= recs_upto(v0, dt, ia as int + 1));
        }
        ia += 1;
    }
    let m = recs.len();
    let mut k: usize = 0;
    while k < m
        invariant
            k <= m,
            m == recs@.len(),
            recs@ == collision_recs(v0, dt),
            store@.len() == v0.len(),
            store.ents@.len() == v0.len(),
            store.next_id == old(store).next_id,
            forall|j: int| 0 <= j < m ==> (#[trigger] recs@[j]).a < v0.len(),
            forall|j: int| 0 <= j < m ==> in_range((#[trigger] recs@[j]).ra as int)
                && recs@[j].imp.normal.wf() && recs@[j].imp.witness.wf() && in_range(
                recs@[j].imp.toi as int,
            ),
            s.valid(),
            0 <= dt <= MAX_FX,
            old(store).wf(),
            v0 == old(store)@,
            store@ == apply_recs(v0, recs@, *s, dt, k as int),
            forall|j: int| 0 <= j < store@.len() ==> (#[trigger] store@[j]).id == v0[j].id,
            forall|j: int| 0 <= j < store@.len() ==> (#[trigger] store.ents@[j])@.wf(),
            forall|j: int| 0 <= j < store@.len() ==> store@[j] == store.ents@[j]@,
        decreases m - k,
    {
        let rec = recs[k];
        let e = &mut store.ents[rec.a];
        respond_ent(e, rec.imp, rec.ra, s, dt);
        proof {
            assert(store@ =~= apply_recs(v0, recs@, *s, dt, k as int).update(
                rec.a as int,
                respond(
                    apply_recs(v0, recs@, *s, dt, k as int)[rec.a as int],
                    rec.imp,
                    rec.ra,
                    *s,
                    dt,
                ),
            ));
            assert forall|j: int| 0 <= j < store@.len() implies store@[j] == store.ents@[j]@ by {
            };
        }
        k += 1;
    }
    proof {
        assert forall|j: int| 0 <= j < store@.len() implies (#[trigger] store@[j]).wf()
            && store@[j].id < store.next_id by {
            assert(store@[j] == store.ents@[j]@);
            assert(v0[j].wf() && v0[j].id < old(store).next_id);
        };
        assert forall|i2: int, j2: int| 0 <= i2 < j2 < store@.len() implies store@[i2].id
            < store@[j2].id by {
            assert(v0[i2].id < v0[j2].id);
        };
    }
}

/// One entity through drag: `v -= v * (dt * drag_coefficient)` for tagged
/// entities, and the same for angular velocity with the rotational
/// coefficient.  Applied whether or not the entity collided this tick.
pub open spec fn drag_step(e: EntV, s: Settings, dt: i64) -> EntV {
    let v1 = match e.vel {
        Some(v) => if e.drag {
            Some(
                sub_v_spec(v, scale_v_spec(v, mul_fx_spec(dt as int, s.drag_coefficient as int))),
            )
        } else {
            Some(v)
        },
        None => None,
    };
    let rv1 = match e.rotvel {
        Some(rv) => if e.drag {
            Some(
                sub_fx_spec(
                    rv as int,
                    mul_fx_spec(
                        rv as int,
                        mul_fx_spec(dt as int, s.rotational_drag_coefficient as int),
                    ),
                ) as i64,
            )
        } else {
            Some(rv)
        },
        None => None,
    };
    EntV { vel: v1, rotvel: rv1, ..e }
}

/// The whole store through drag.
pub open spec fn drag_ents(ents: Seq<EntV>, s: Settings, dt: i64) -> Seq<EntV> {
    ents.map_values(|e: EntV| drag_step(e, s, dt))
}

/// Apply drag to every tagged entity.
pub fn drag_sys(store: &mut Store, s: &Settings, dt: i64)
    requires
        old(store).wf(),
        s.valid(),
        0 <= dt <= MAX_FX,
    ensures
        final(store).wf(),
        final(store)@ == drag_ents(old(store)@, *s, dt),
        final(store).next_id == old(store).next_id,
{
    let n = store.ents.len();
    proof {
        assert forall|k: int| 0 <= k < n implies (#[trigger] store.ents@[k])@.wf() by {
            assert(store@[k] == store.ents@[k]@);
            assert(store@[k].wf());
        };
    }
    let mut i: usize = 0;
    while i < n
        invariant
            i <= n,
            n == store@.len(),
            store@.len() == old(store)@.len(),
            store.next_id == old(store).next_id,
            s.valid(),
            0 <= dt <= MAX_FX,
            store.ents@.len() == n,
            old(store).ents@.len() == n,
            forall|k: int| 0 <= k < i ==> (#[trigger] store.ents@[k])@ == drag_step(
                old(store).ents@[k]@,
                *s,
                dt,
            ),
            forall|k: int| i <= k < n ==> (#[trigger] store.ents@[k])@ == old(
                store,
            ).ents@[k]@,
            forall|k: int| 0 <= k < n ==> (#[trigger] store.ents@[k])@.wf(),
        decreases n - i,
    {
        let e = &store.ents[i];
        let dragged = e.drag;
        let vel0 = e.vel;
        let rotvel0 = e.rotvel;
        if dragged {
            if let Some(v) = vel0 {
                let m = mul_fx(dt, s.drag_coefficient);
                store.ents[i].vel = Some(sub_v(v, scale_v(v, m)));
            }
            if let Some(rv) = rotvel0 {
                let mr = mul_fx(dt, s.rotational_drag_coefficient);
                store.ents[i].rotvel = Some(sub_fx(rv, mul_fx(rv, mr)));
            }
        }
        proof {
            assert(store.ents@[i as int]@ == drag_step(old(store).ents@[i as int]@, *s, dt));
            assert(store.ents@[i as int]@.wf());
        }
        i += 1;
    }
    proof {
        assert forall|k: int| 0 <= k < n implies store@[k] == drag_ents(old(store)@, *s, dt)[k] by {
            assert(store@[k] == store.ents@[k]@);
            assert(old(store)@[k] == old(store).ents@[k]@);
        };
        assert(store@ =~= drag_ents(old(store)@, *s, dt));
    }
}

/// One entity through the force integrator, in this order: gravity into
/// velocity, thrust into velocity, velocity into position, angular
/// velocity into rotation.  Forces are applied before the position moves,
/// so the position step uses this tick's post-force velocity.
pub open spec fn nt_step(e: EntV, s: Settings, dt: i64) -> EntV {
    let v1 = match e.vel {
        Some(v) => {
            let va = if e.grav {
                V2 { x: v.x, y: add_fx_spec(v.y as int, mul_fx_spec(s.gravity as int, dt as int)) as i64 }
            } else {
                v
            };
            let vb = match (e.boost, e.rot) {
                (Some(b), Some(rot)) => add_v_spec(
                    va,
                    crate::rot::rotate_spec(
                        rot as int,
                        V2 { x: 0, y: mul_fx_spec(b as int, dt as int) as i64 },
                    ),
                ),
                _ => va,
            };
            Some(vb)
        },
        None => None,
    };
    let p1 = match (e.pos, v1) {
        (Some(p), Some(v)) => Some(add_v_spec(p, scale_v_spec(v, dt as int))),
        _ => e.pos,
    };
    let r1 = match (e.rot, e.rotvel) {
        (Some(r), Some(rv)) => Some(
            add_fx_spec(r as int, mul_fx_spec(rv as int, dt as int)) as i64,
        ),
        _ => e.rot,
    };
    EntV { vel: v1, pos: p1, rot: r1, ..e }
}

/// The whole store through the force integrator.
pub open spec fn nt_ents(ents: Seq<EntV>, s: Settings, dt: i64) -> Seq<EntV> {
    ents.map_values(|e: EntV| nt_step(e, s, dt))
}

/// Apply gravity, thrust, velocity and angular velocity to every entity.
pub fn newtonian_sys(store: &mut Store, s: &Settings, dt: i64)
    requires
        old(store).wf(),
        s.valid(),
        0 <= dt <= MAX_FX,
    ensures
        final(store).wf(),
        final(store)@ == nt_ents(old(store)@, *s, dt),
        final(store).next_id == old(store).next_id,
{
    let n = store.ents.len();
    proof {
        assert forall|k: int| 0 <= k < n implies (#[trigger] store.ents@[k])@.wf() by {
            assert(store@[k] == store.ents@[k]@);
            assert(store@[k].wf());
        };
    }
    let mut i: usize = 0;
    while i < n
        invariant
            i <= n,
            n == store@.len(),
            store@.len() == old(store)@.len(),
            store.next_id == old(store).next_id,
            s.valid(),
            0 <= dt <= MAX_FX,
            store.ents@.len() == n,
            old(store).ents@.len() == n,
            forall|k: int| 0 <= k < i ==> (#[trigger] store.ents@[k])@ == nt_step(
                old(store).ents@[k]@,
                *s,
                dt,
            ),
            forall|k: int| i <= k < n ==> (#[trigger] store.ents@[k])@ == old(
                store,
            ).ents@[k]@,
            forall|k: int| 0 <= k < n ==> (#[trigger] store.ents@[k])@.wf(),
        decreases n - i,
    {
        let e = &store.ents[i];
        let grav = e.grav;
        let vel0 = e.vel;
        let pos0 = e.pos;
        let rot0 = e.rot;
        let rotvel0 = e.rotvel;
        let boost0 = e.boost;
        let v1: Option<V2> = match vel0 {
            Some(v) => {
                let va = if grav {
                    V2 { x: v.x, y: add_fx(v.y, mul_fx(s.gravity, dt)) }
                } else {
                    v
                };
                let vb = match (boost0, rot0) {
                    (Some(b), Some(rot)) => {
                        let tv = mul_fx(b, dt);
                        add_v(va, crate::rot::rotate_v(rot, V2 { x: 0, y: tv }))
                    },
                    _ => va,
                };
                Some(vb)
            },
            None => None,
        };
        if let Some(v) = v1 {
            store.ents[i].vel = Some(v);
            if let Some(p) = pos0 {
                store.ents[i].pos = Some(add_v(p, scale_v(v, dt)));
            }
        }
        if let Some(r) = rot0 {
            if let Some(rv) = rotvel0 {
                store.ents[i].rot = Some(add_fx(r, mul_fx(rv, dt)));
            }
        }
        proof {
            assert(store.ents@[i as int]@ == nt_step(old(store).ents@[i as int]@, *s, dt));
            assert(store.ents@[i as int]@.wf());
        }
        i += 1;
    }
    proof {
        assert forall|k: int| 0 <= k < n implies store@[k] == nt_ents(old(store)@, *s, dt)[k] by {
            assert(store@[k] == store.ents@[k]@);
            assert(old(store)@[k] == old(store).ents@[k]@);
        };
        assert(store@ =~= nt_ents(old(store)@, *s, dt));
    }
}

/// An entity's thrust for the trail's direction; absent thrust counts as
/// one whole unit, matching the effect spawner's fallback.
pub open spec fn boost_of(e: EntV) -> i64 {
    match e.boost {
        Some(b) => b,
        None => 1000i64,
    }
}

/// An entity through the emission cadence: the next emission time jumps
/// past `now` in whole `every` steps (clamped at the representable edge).
pub open spec fn toots_step(e: EntV, now: i64) -> EntV {
    match (e.boost, e.toots) {
        (Some(b), Some(t)) => if t.next_toot <= now {
            let k = (now - t.next_toot) / (t.every as int) + 1;
            let next2 = crate::fx::clamp_fx(t.next_toot + k * t.every) as i64;
            EntV { toots: Some(crate::store::BoostToots { every: t.every, next_toot: next2 }), ..e }
        } else {
            e
        },
        _ => e,
    }
}

/// How many trail entities the cadence owes this tick: one per elapsed
/// step, and none at all while the thrust is exactly zero.
pub open spec fn toots_emits(e: EntV, now: i64) -> int {
    match (e.boost, e.toots) {
        (Some(b), Some(t)) => if t.next_toot <= now && b != 0 {
            (now - t.next_toot) / (t.every as int) + 1
        } else {
            0int
        },
        _ => 0int,
    }
}

/// The exhaust-trail speck spawned behind a boosting entity: nudged
/// backward along the source's heading, pushed away hard, spinning, under
/// gravity and drag, and destroyed two seconds later.
pub open spec fn trail_ent(e: EntV, now: i64, id: u64) -> EntV {
    let rot = rot_of(e);
    let vel = match e.vel {
        Some(v) => v,
        None => V2 { x: 0, y: 0 },
    };
    let sgn_pos = boost_of(e) >= 0;
    let off_vel0 = crate::rot::rotate_spec(rot as int, V2 { x: 0, y: -200000i64 });
    let off_pos0 = crate::rot::rotate_spec(rot as int, V2 { x: 0, y: -10000i64 });
    let off_vel = if sgn_pos {
        off_vel0
    } else {
        crate::vec2::neg_v_spec(off_vel0)
    };
    let off_pos = if sgn_pos {
        off_pos0
    } else {
        crate::vec2::neg_v_spec(off_pos0)
    };
    EntV {
        id,
        pos: Some(add_v_spec(e.pos->0, off_pos)),
        vel: Some(add_v_spec(vel, off_vel)),
        rot: Some(rot),
        rotvel: Some(if sgn_pos { 15000i64 } else { -15000i64 }),
        grav: true,
        drag: true,
        paint: e.paint,
        outline: Some(crate::constants::trash_wireframe_spec()),
        mortal: Some(crate::store::Mortal { erase_at: add_fx_spec(now as int, 2000) as i64 }),
        ..crate::store::blank_ent()
    }
}

/// The trail entities one source owes, with the handles they receive; a
/// source with no position spawns nothing.
pub open spec fn trails_for(e: EntV, now: i64, next: u64, k: int) -> (Seq<EntV>, u64)
    decreases k,
{
    if k <= 0 || e.pos is None {
        (Seq::empty(), next)
    } else {
        let (prev, np) = trails_for(e, now, next, k - 1);
        if np < u64::MAX {
            (prev.push(trail_ent(e, now, np)), (np + 1) as u64)
        } else {
            (prev, np)
        }
    }
}

/// The store after the first `i` entities have run their cadence: each
/// stepped in place, its trail entities appended in order.
pub open spec fn toots_result(ents: Seq<EntV>, now: i64, next: u64, i: int) -> (Seq<EntV>, u64)
    decreases i,
{
    if i <= 0 {
        (ents, next)
    } else {
        let (prev, np) = toots_result(ents, now, next, i - 1);
        let e0 = prev[i - 1];
        let e1 = toots_step(e0, now);
        let k = toots_emits(e0, now);
        let (tr, np2) = trails_for(e1, now, np, k);
        (prev.update(i - 1, e1) + tr, np2)
    }
}

/// The cadence count is small and its catch-up jump stays representable.
proof fn lemma_cadence_bounds(now: int, next: int, every: int, k: int)
    requires
        next <= now,
        1 <= every,
        k == (now - next) / every + 1,
    ensures
        1 <= k,
        k <= now - next + 1,
        k * every <= now - next + every,
{
    let d = now - next;
    let q = d / every;
    vstd::arithmetic::div_mod::lemma_div_pos_is_pos(d, every);
    vstd::arithmetic::div_mod::lemma_fundamental_div_mod(d, every);
    vstd::arithmetic::div_mod::lemma_mod_division_less_than_divisor(d, every);
    assert(q * every <= d) by (nonlinear_arith)
        requires
            every * q + d % every == d,
            0 <= d % every,
    ;
    assert(k * every == q * every + every) by (nonlinear_arith)
        requires
            k == q + 1,
    ;
    assert(q <= q * every) by (nonlinear_arith)
        requires
            0 <= q,
            1 <= every,
    ;
}

/// Run the emission cadence: step every entity's timer, spawning the owed
/// trail entities behind it, in store order.
pub fn toots_sys(store: &mut Store, now: i64)
    requires
        old(store).wf(),
        in_range(now as int),
    ensures
        final(store).wf(),
        final(store)@ == toots_result(
            old(store)@,
            now,
            old(store).next_id,
            old(store)@.len() as int,
        ).0,
        final(store).next_id == toots_result(
            old(store)@,
            now,
            old(store).next_id,
            old(store)@.len() as int,
        ).1,
{
    let n = store.ents.len();
    let ghost v0 = store@;
    let ghost n0 = store.next_id;
    let mut i: usize = 0;
    while i < n
        invariant
            i <= n,
            n == v0.len(),
            in_range(now as int),
            store.wf(),
            store@.len() >= n,
            store@ == toots_result(v0, now, n0, i as int).0,
            store.next_id == toots_result(v0, now, n0, i as int).1,
        decreases n - i,
    {
        proof {
            assert(store@[i as int] == store.ents@[i as int]@);
            assert(store@[i as int].wf());
        }
        let e = &store.ents[i];
        let boost0 = e.boost;
        let toots0 = e.toots;
        let pos0 = e.pos;
        let vel0 = e.vel;
        let rot0 = e.rot;
        let paint0 = e.paint;
        let ghost e0 = store@[i as int];
        let ghost pre = store@;
        let ghost np = store.next_id;
        let mut emits: u64 = 0;
        if let (Some(b), Some(t)) = (boost0, toots0) {
            if t.next_toot <= now {
                let k: u64 = ((now - t.next_toot) as u64) / (t.every as u64) + 1;
                proof {
                    assert((now - t.next_toot) as u64 == now - t.next_toot
                        && t.every as u64 == t.every);
                    assert(k == (now - t.next_toot) / (t.every as int) + 1);
                    lemma_cadence_bounds(
                        now as int,
                        t.next_toot as int,
                        t.every as int,
                        k as int,
                    );
                }
                let next2 = crate::fx::clamp128(
                    t.next_toot as i128 + (k as i128) * (t.every as i128),
                );
                store.ents[i].toots = Some(
                    crate::store::BoostToots { every: t.every, next_toot: next2 },
                );
                if b != 0 {
                    emits = k;
                }
            }
        }
        proof {
            assert(store@ =~= pre.update(i as int, toots_step(e0, now)));
            assert(emits == toots_emits(e0, now));
            assert(store@[i as int] == toots_step(e0, now));
            assert(store@[i as int].wf());
        }
        let ghost e1 = toots_step(e0, now);
        let ghost stepped = store@;
        let mut j: u64 = 0;
        if pos0.is_some() {
            let srcpos = pos0.unwrap();
            while j < emits
                invariant
                    j <= emits,
                    emits == toots_emits(e0, now),
                    in_range(now as int),
                    store.wf(),
                    e1.pos is Some,
                    e1 == toots_step(e0, now),
                    srcpos == e1.pos->0,
                    vel0 == e1.vel,
                    rot0 == e1.rot,
                    paint0 == e1.paint,
                    boost0 == e1.boost,
                    e1.wf(),
                    store@ == stepped + trails_for(e1, now, np, j as int).0,
                    store.next_id == trails_for(e1, now, np, j as int).1,
                decreases emits - j,
            {
                let rot = match rot0 {
                    Some(r) => r,
                    None => 0,
                };
                let vel = match vel0 {
                    Some(v) => v,
                    None => V2 { x: 0, y: 0 },
                };
                let bsign = match boost0 {
                    Some(b) => b,
                    None => 1000,
                };
                let off_vel0 = crate::rot::rotate_v(rot, V2 { x: 0, y: -200000 });
                let off_pos0 = crate::rot::rotate_v(rot, V2 { x: 0, y: -10000 });
                let (off_vel, off_pos, rv) = if bsign >= 0 {
                    (off_vel0, off_pos0, 15000i64)
                } else {
                    (crate::vec2::neg_v(off_vel0), crate::vec2::neg_v(off_pos0), -15000i64)
                };
                let mut tr = crate::store::Ent::blank();
                tr.pos = Some(add_v(srcpos, off_pos));
                tr.vel = Some(add_v(vel, off_vel));
                tr.rot = Some(rot);
                tr.rotvel = Some(rv);
                tr.grav = true;
                tr.drag = true;
                tr.paint = paint0;
                tr.outline = Some(crate::constants::trash_wireframe());
                tr.mortal = Some(crate::store::Mortal { erase_at: add_fx(now, 2000) });
                let ghost pre_spawn = store@;
                let ghost pre_next = store.next_id;
                let ghost trv = tr@;
                let _id: u64 = store.spawn(tr);
                proof {
                    if pre_next < u64::MAX {
                        assert(trv.with_id(pre_next) == trail_ent(e1, now, pre_next));
                        assert(store@ =~= stepped + trails_for(e1, now, np, j as int + 1).0);
                    } else {
                        assert(store@ =~= stepped + trails_for(e1, now, np, j as int + 1).0);
                    }
                }
                j += 1;
            }
        }
        proof {
            assert(store@ =~= toots_result(v0, now, n0, i as int + 1).0);
            assert(store.next_id == toots_result(v0, now, n0, i as int + 1).1);
        }
        i += 1;
    }
}

/// Whether an entity survives the lifetime check.
pub open spec fn alive(e: EntV, now: i64) -> bool {
    !(e.mortal matches Some(m) && m.erase_at <= now)
}

/// The store with every expired entity destroyed, order kept.
pub open spec fn mortal_ents(ents: Seq<EntV>, now: i64) -> Seq<EntV>
    decreases ents.len(),
{
    if ents.len() == 0 {
        Seq::empty()
    } else {
        let rest = mortal_ents(ents.drop_last(), now);
        if alive(ents.last(), now) {
            rest.push(ents.last())
        } else {
            rest
        }
    }
}

/// Destroy every entity whose lifetime has expired.
pub fn mortal_sys(store: &mut Store, now: i64)
    requires
        old(store).wf(),
    ensures
        final(store).wf(),
        final(store)@ == mortal_ents(old(store)@, now),
        final(store).next_id == old(store).next_id,
{
    let ghost v0 = store@;
    let mut i: usize = 0;
    let ghost j: int = 0;
    proof {
        assert(mortal_ents(v0.take(0), now) =~= Seq::<EntV>::empty());
        assert(store@ =~= mortal_ents(v0.take(0), now) + v0.skip(0));
    }
    while i < store.ents.len()
        invariant
            0 <= i,
            i == mortal_ents(v0.take(j), now).len(),
            0 <= j <= v0.len(),
            store.wf(),
            store.next_id == old(store).next_id,
            v0 == old(store)@,
            store@ == mortal_ents(v0.take(j), now) + v0.skip(j),
            store@.len() == i + v0.len() - j,
        decreases v0.len() - j,
    {
        proof {
            assert(v0.take(j + 1).drop_last() =~= v0.take(j));
            assert(v0.take(j + 1).last() == v0[j]);
            assert(store@[i as int] == v0[j]);
            assert(store@[i as int] == store.ents@[i as int]@);
        }
        let e = &store.ents[i];
        let expired: bool = match e.mortal {
            Some(m) => m.erase_at <= now,
            None => false,
        };
        if expired {
            let ghost pre_ents = store.ents@;
            let ghost pre_view = store@;
            let _gone: crate::store::Ent = store.ents.remove(i);
            proof {
                assert(mortal_ents(v0.take(j + 1), now) == mortal_ents(v0.take(j), now));
                assert forall|k: int| 0 <= k < store@.len() implies store@[k] == (mortal_ents(
                    v0.take(j + 1),
                    now,
                ) + v0.skip(j + 1))[k] by {
                    assert(store@[k] == store.ents@[k]@);
                    if k < i {
                        assert(store.ents@[k] == pre_ents[k]);
                        assert(pre_view[k] == pre_ents[k]@);
                    } else {
                        assert(store.ents@[k] == pre_ents[k + 1]);
                        assert(pre_view[k + 1] == pre_ents[k + 1]@);
                        assert(pre_view[k + 1] == v0.skip(j)[k + 1 - i]);
                        assert(v0.skip(j)[k + 1 - i] == v0[j + 1 + k - i]);
                        assert(v0.skip(j + 1)[k - i] == v0[j + 1 + k - i]);
                    }
                };
                assert(store@ =~= mortal_ents(v0.take(j + 1), now) + v0.skip(j + 1));
                assert forall|k1: int, k2: int| 0 <= k1 < k2 < store@.len() implies store@[k1].id
                    < store@[k2].id by {
                    let p1: int = if k1 < i { k1 } else { k1 + 1 };
                    let p2: int = if k2 < i { k2 } else { k2 + 1 };
                    assert(store@[k1] == pre_view[p1] && store@[k2] == pre_view[p2]);
                };
                assert forall|k: int| 0 <= k < store@.len() implies (#[trigger] store@[k]).wf()
                    && store@[k].id < store.next_id by {
                    let p: int = if k < i { k } else { k + 1 };
                    assert(store@[k] == pre_view[p]);
                };
            }
        } else {
            i += 1;
            proof {
                assert(store@ =~= mortal_ents(v0.take(j + 1), now) + v0.skip(j + 1));
            }
        }
        proof {
            j = j + 1;
        }
    }
    proof {
        assert(v0.take(v0.len() as int) =~= v0);
        assert(v0.skip(v0.len() as int) =~= Seq::<EntV>::empty());
        assert(store@ =~= mortal_ents(v0, now));
    }
}

} // verus!
