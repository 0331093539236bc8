//! The simulation itself: a world of craft and boundary geometry advanced
//! one tick at a time.
//!
//! A tick runs the systems in fixed order — control mapping, collision
//! detection and response, drag, force integration, emission cadence,
//! lifetime expiry — and always runs to completion.  The settings record is
//! owned here and passed into every system, so exactly one exists by
//! construction.

use vstd::prelude::*;
use crate::constants::{bounds_wireframe, bounds_wireframe_spec, player_wireframe,
    player_wireframe_spec};
use crate::control::{Controls, InputState, Key};
use crate::fx::{in_range, mul_fx_spec, MAX_FX, SCALE};
use crate::settings::{default_settings, Settings};
use crate::shape::{Shape, ShapeV};
use crate::store::{blank_ent, BoostToots, Ent, EntV, Store};
use crate::systems::{
    apply_recs, collision_recs, collision_sys, controls_sys, ctl_ents, drag_ents, drag_sys,
    mortal_ents, mortal_sys, newtonian_sys, nt_ents, quit_ent, quit_held, toots_result,
    toots_sys,
};
use crate::vec2::{add_v, add_v_spec, scale_v, scale_v_spec, V2};

verus! {

/// One whole simulation: the entity store plus the tunable coefficients.
#[derive(Debug)]
pub struct Heli {
    pub store: Store,
    pub settings: Settings,
}

/// A player craft: controllable, boosting, under gravity and drag, with
/// the craft outline both as collision shape and as drawable wireframe,
/// trailing exhaust while boosting.
pub open spec fn player_ent(id: u64, c: Controls, pos: V2, paint: u8, now: i64) -> EntV {
    EntV {
        id,
        pos: Some(pos),
        vel: Some(V2 { x: 0, y: 0 }),
        rot: Some(0i64),
        rotvel: Some(0i64),
        boost: Some(0i64),
        grav: true,
        drag: true,
        controls: Some(c),
        shape: Some(ShapeV::Polyline { pts: player_wireframe_spec() }),
        outline: Some(player_wireframe_spec()),
        paint: Some(paint),
        toots: Some(BoostToots { every: 16, next_toot: now }),
        ..blank_ent()
    }
}

/// The world box: static boundary geometry that everything bounces off.
pub open spec fn walls_ent(id: u64) -> EntV {
    EntV {
        id,
        pos: Some(V2 { x: 0, y: 0 }),
        vel: Some(V2 { x: 0, y: 0 }),
        rot: Some(0i64),
        shape: Some(ShapeV::Polyline { pts: bounds_wireframe_spec() }),
        outline: Some(bounds_wireframe_spec()),
        paint: Some(2u8),
        ..blank_ent()
    }
}

/// The backdrop color holder.
pub open spec fn background_ent(id: u64) -> EntV {
    EntV { id, background: Some(3u8), ..blank_ent() }
}

/// The initial world: two player craft on independent control schemes,
/// the boundary box, and the backdrop.
pub open spec fn initial_ents(now: i64) -> Seq<EntV> {
    seq![
        player_ent(
            0,
            Controls { up: Key::Up, down: Key::Down, left: Key::Left, right: Key::Right },
            V2 { x: 0, y: 0 },
            0u8,
            now,
        ),
        player_ent(
            1,
            Controls { up: Key::W, down: Key::S, left: Key::A, right: Key::D },
            V2 { x: crate::constants::PLAYER_SIZE, y: crate::constants::PLAYER_SIZE },
            1u8,
            now,
        ),
        walls_ent(2),
        background_ent(3),
    ]
}

/// One tick over the whole world: the store and the next handle after the
/// fixed pipeline has run on the given input, time slice and clock.
pub open spec fn update_spec(
    ents: Seq<EntV>,
    next: u64,
    s: Settings,
    input: Seq<Key>,
    dt: i64,
    now: i64,
) -> (Seq<EntV>, u64) {
    let a = ctl_ents(ents, s, dt, input);
    let b = if quit_held(input) && next < u64::MAX {
        a.push(quit_ent(next))
    } else {
        a
    };
    let n1: u64 = if quit_held(input) && next < u64::MAX {
        (next + 1) as u64
    } else {
        next
    };
    let recs = collision_recs(b, dt);
    let c = apply_recs(b, recs, s, dt, recs.len() as int);
    let d = drag_ents(c, s, dt);
    let e = nt_ents(d, s, dt);
    let fr = toots_result(e, now, n1, e.len() as int);
    (mortal_ents(fr.0, now), fr.1)
}

impl Heli {
    /// The store is well formed and the coefficients are in range.
    pub open spec fn wf(self) -> bool {
        self.store.wf() && self.settings.valid()
    }

    /// Build the initial world at clock `now`, under default settings.
    pub fn new(now: i64) -> (r: Heli)
        requires
            in_range(now as int),
        ensures
            r.wf(),
            r.store@ == initial_ents(now),
            r.store.next_id == 4,
            r.settings == default_settings(),
    {
        let mut store = Store::new();

        let mut p1 = Ent::blank();
        p1.pos = Some(V2 { x: 0, y: 0 });
        p1.vel = Some(V2 { x: 0, y: 0 });
        p1.rot = Some(0);
        p1.rotvel = Some(0);
        p1.boost = Some(0);
        p1.grav = true;
        p1.drag = true;
        p1.controls = Some(
            Controls { up: Key::Up, down: Key::Down, left: Key::Left, right: Key::Right },
        );
        p1.shape = Some(Shape::Polyline { pts: player_wireframe() });
        p1.outline = Some(player_wireframe());
        p1.paint = Some(0);
        p1.toots = Some(BoostToots { every: 16, next_toot: now });
        let _id1: u64 = store.spawn(p1);

        let mut p2 = Ent::blank();
        p2.pos = Some(V2 { x: crate::constants::PLAYER_SIZE, y: crate::constants::PLAYER_SIZE });
        p2.vel = Some(V2 { x: 0, y: 0 });
        p2.rot = Some(0);
        p2.rotvel = Some(0);
        p2.boost = Some(0);
        p2.grav = true;
        p2.drag = true;
        p2.controls = Some(Controls { up: Key::W, down: Key::S, left: Key::A, right: Key::D });
        p2.shape = Some(Shape::Polyline { pts: player_wireframe() });
        p2.outline = Some(player_wireframe());
        p2.paint = Some(1);
        p2.toots = Some(BoostToots { every: 16, next_toot: now });
        let _id2: u64 = store.spawn(p2);

        let mut walls = Ent::blank();
        walls.pos = Some(V2 { x: 0, y: 0 });
        walls.vel = Some(V2 { x: 0, y: 0 });
        walls.rot = Some(0);
        walls.shape = Some(Shape::Polyline { pts: bounds_wireframe() });
        walls.outline = Some(bounds_wireframe());
        walls.paint = Some(2);
        let _id3: u64 = store.spawn(walls);

        let mut bg = Ent::blank();
        bg.background = Some(3);
        let _id4: u64 = store.spawn(bg);

        proof {
            assert(store@ =~= initial_ents(now));
        }
        Heli { store, settings: Settings::default() }
    }

    /// Run one full tick: control intake, collision detection and
    /// response, drag, force integration, emission, lifetime expiry.
    /// The products `dt * drag_coefficient` and
    /// `dt * rotational_drag_coefficient` must stay below one, or drag
    /// would overshoot and flip signs.
    pub fn update(&mut self, input: &InputState, dt: i64, now: i64)
        requires
            old(self).wf(),
            0 <= dt <= MAX_FX,
            in_range(now as int),
            mul_fx_spec(dt as int, old(self).settings.drag_coefficient as int) < SCALE,
            mul_fx_spec(dt as int, old(self).settings.rotational_drag_coefficient as int)
                < SCALE,
        ensures
            final(self).wf(),
            final(self).settings == old(self).settings,
            final(self).store@ == update_spec(
                old(self).store@,
                old(self).store.next_id,
                old(self).settings,
                input@,
                dt,
                now,
            ).0,
            final(self).store.next_id == update_spec(
                old(self).store@,
                old(self).store.next_id,
                old(self).settings,
                input@,
                dt,
                now,
            ).1,
    {
        let s = self.settings;
        controls_sys(&mut self.store, &s, dt, input);
        collision_sys(&mut self.store, &s, dt);
        drag_sys(&mut self.store, &s, dt);
        newtonian_sys(&mut self.store, &s, dt);
        toots_sys(&mut self.store, now);
        mortal_sys(&mut self.store, now);
    }

    /// Whether any entity carries the termination marker; the host polls
    /// this once per frame to decide whether to stop.
    pub fn should_quit(&self) -> (r: bool)
        ensures
            r == exists|i: int| 0 <= i < self.store@.len() && (#[trigger] self.store@[i]).quit,
    {
        let n = self.store.ents.len();
        let mut i: usize = 0;
        while i < n
            invariant
                i <= n,
                n == self.store@.len(),
                forall|k: int| 0 <= k < i ==> !(#[trigger] self.store@[k]).quit,
                forall|k: int| 0 <= k < n ==> self.store@[k] == self.store.ents@[k]@,
            decreases n - i,
        {
            if self.store.ents[i].quit {
                proof {
                    assert(self.store@[i as int].quit);
                }
                return true;
            }
            i += 1;
        }
        false
    }

    /// The coefficients in force this tick.  Exactly one settings record
    /// exists, owned by the simulation, so no singleton scan is needed.
    pub fn get_settings(&self) -> (r: Settings)
        ensures
            r == self.settings,
    {
        self.settings
    }

    /// Replace the coefficients (the host may do this live between ticks);
    /// an out-of-range record is refused.
    pub fn set_settings(&mut self, s: Settings)
        requires
            old(self).wf(),
        ensures
            final(self).wf(),
            final(self).store == old(self).store,
            s.valid() ==> final(self).settings == s,
            !s.valid() ==> final(self).settings == old(self).settings,
    {
        let ok = Settings::new(
            s.gravity,
            s.rotational_acceleration,
            s.rotational_drag_coefficient,
            s.drag_coefficient,
            s.boost_power,
            s.auto_up_power,
            s.collision_energy_loss,
        );
        if let Some(v) = ok {
            self.settings = v;
        }
    }
}

/// An outline point carried to the screen: rotated, translated, then
/// scaled by one over the world height (the screen spans one world height
/// of meters).
pub open spec fn screen_pt_spec(pos: V2, rot: int, p: V2) -> V2 {
    scale_v_spec(add_v_spec(pos, crate::rot::rotate_spec(rot, p)), 2)
}

impl Heli {
    /// The data the host needs to draw one entity: its outline carried to
    /// screen coordinates, and its palette index.  Entities without a
    /// position, rotation and outline draw nothing.
    pub fn screen_outline(&self, i: usize) -> (r: Option<(Vec<V2>, Option<u8>)>)
        requires
            self.wf(),
            i < self.store@.len(),
        ensures
            r is Some <==> self.store@[i as int].pos is Some && self.store@[i as int].rot is Some
                && self.store@[i as int].outline is Some,
            r matches Some(pair) ==> {
                &&& pair.0@.len() == self.store@[i as int].outline->0.len()
                &&& forall|k: int| 0 <= k < pair.0@.len() ==> pair.0@[k] == screen_pt_spec(
                    self.store@[i as int].pos->0,
                    self.store@[i as int].rot->0 as int,
                    self.store@[i as int].outline->0[k],
                )
                &&& pair.1 == self.store@[i as int].paint
            },
    {
        proof {
            assert(self.store@[i as int] == self.store.ents@[i as int]@);
            assert(self.store@[i as int].wf());
        }
        let e = &self.store.ents[i];
        let pos = e.pos;
        let rot = e.rot;
        if let (Some(p), Some(rt), Some(ol)) = (pos, rot, &e.outline) {
            proof {
                assert(self.store@[i as int].outline == Some(ol@));
                assert forall|m: int| 0 <= m < ol@.len() implies (#[trigger] ol@[m]).wf() by {
                    assert(self.store@[i as int].outline->0[m] == ol@[m]);
                };
            }
            let n = ol.len();
            let mut out: Vec<V2> = Vec::new();
            let mut k: usize = 0;
            while k < n
                invariant
                    k <= n,
                    n == ol@.len(),
                    p.wf(),
                    in_range(rt as int),
                    forall|m: int| 0 <= m < n ==> (#[trigger] ol@[m]).wf(),
                    out@.len() == k,
                    forall|m: int| 0 <= m < k ==> out@[m] == screen_pt_spec(
                        p,
                        rt as int,
                        ol@[m],
                    ),
                decreases n - k,
            {
                let sp = scale_v(add_v(p, crate::rot::rotate_v(rt, ol[k])), 2);
                out.push(sp);
                k += 1;
            }
            Some((out, e.paint))
        } else {
            None
        }
    }

    /// The backdrop's palette index: that of the first entity carrying
    /// one, if any does.
    pub fn background_paint(&self) -> (r: Option<u8>)
        ensures
            r is Some <==> exists|i: int| 0 <= i < self.store@.len() && (
            #[trigger] self.store@[i]).background is Some,
    {
        let n = self.store.ents.len();
        let mut i: usize = 0;
        while i < n
            invariant
                i <= n,
                n == self.store@.len(),
                forall|k: int| 0 <= k < i ==> (#[trigger] self.store@[k]).background is None,
                forall|k: int| 0 <= k < n ==> self.store@[k] == self.store.ents@[k]@,
            decreases n - i,
        {
            if let Some(b) = self.store.ents[i].background {
                proof {
                    assert(self.store@[i as int].background is Some);
                }
                return Some(b);
            }
            i += 1;
        }
        None
    }
}

} // verus!
