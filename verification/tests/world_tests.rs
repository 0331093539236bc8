use heli::control::{Controls, InputState, Key};
use heli::heli::Heli;
use heli::settings::Settings;
use heli::shape::Shape;
use heli::store::{BoostToots, Ent, Store};
use heli::vec2::V2;

fn no_input() -> InputState {
    InputState::none()
}

fn quiet_settings(cel: i64) -> Settings {
    Settings::new(0, 0, 0, 0, 0, 0, cel).unwrap()
}

fn body(pos: (i64, i64), vel: (i64, i64)) -> Ent {
    let mut e = Ent::blank();
    e.pos = Some(V2 { x: pos.0, y: pos.1 });
    e.vel = Some(V2 { x: vel.0, y: vel.1 });
    e.rot = Some(0);
    e
}

#[test]
fn handles_are_stable_and_never_reused() {
    let mut st = Store::new();
    let a = st.spawn(Ent::blank());
    let b = st.spawn(Ent::blank());
    assert_eq!(a, 0);
    assert_eq!(b, 1);
    assert_eq!(st.len(), 2);
    assert_eq!(st.ents[0].id, 0);
    assert_eq!(st.ents[1].id, 1);
}

#[test]
fn the_initial_world_has_two_craft_the_walls_and_a_backdrop() {
    let h = Heli::new(0);
    assert_eq!(h.store.ents.len(), 4);
    assert!(h.store.ents[0].controls.is_some());
    assert!(h.store.ents[1].controls.is_some());
    assert!(h.store.ents[2].shape.is_some());
    assert!(h.store.ents[3].background.is_some());
    assert!(!h.should_quit());
    assert_eq!(h.get_settings(), Settings::default());
}

#[test]
fn quit_input_raises_the_termination_marker() {
    let mut h = Heli::new(0);
    let mut input = InputState::none();
    input.hold(Key::Escape);
    h.update(&input, 16, 16);
    assert!(h.should_quit());
}

#[test]
fn gravity_pulls_velocity_down_linearly() {
    // An entity with only a gravity tag and a velocity: after n ticks the
    // vertical velocity is exactly n * gravity * dt.
    let mut st = Store::new();
    let mut e = body((0, 100000), (0, 0));
    e.grav = true;
    st.spawn(e);
    let mut h = Heli { store: st, settings: Settings::default() };
    let dt = 100;
    for _ in 0..10 {
        h.update(&no_input(), dt, 0);
    }
    // gravity * dt = -9800 * 100 / 1000 = -980 per tick.
    assert_eq!(h.store.ents[0].vel.unwrap(), V2 { x: 0, y: -9800 });
}

#[test]
fn drag_shrinks_speed_and_keeps_its_direction() {
    let mut st = Store::new();
    let mut e = body((0, 0), (10000, -5000));
    e.drag = true;
    st.spawn(e);
    let mut h = Heli {
        store: st,
        settings: Settings::new(0, 0, 0, 500, 0, 0, 0).unwrap(),
    };
    let mut last = h.store.ents[0].vel.unwrap();
    for _ in 0..20 {
        h.update(&no_input(), 100, 0);
        let v = h.store.ents[0].vel.unwrap();
        assert!(v.x >= 0 && v.x <= last.x);
        assert!(v.y <= 0 && v.y >= last.y);
        assert!(
            (v.x as i128) * (v.x as i128) + (v.y as i128) * (v.y as i128)
                <= (last.x as i128) * (last.x as i128) + (last.y as i128) * (last.y as i128)
        );
        last = v;
    }
    // drag * dt = 500 * 100 / 1000 = 50 thousandths shed per tick.
    assert!(last.x < 10000);
}

#[test]
fn hover_thrust_exactly_cancels_gravity() {
    // Thrust equal to the gravity-compensating magnitude, upright heading:
    // the vertical velocity never moves.
    let mut st = Store::new();
    let mut e = body((0, 0), (0, 0));
    e.grav = true;
    e.boost = Some(9800);
    st.spawn(e);
    let mut h = Heli { store: st, settings: Settings::default() };
    for _ in 0..50 {
        h.update(&no_input(), 100, 0);
        assert_eq!(h.store.ents[0].vel.unwrap(), V2 { x: 0, y: 0 });
    }
}

#[test]
fn a_falling_craft_bounces_with_the_documented_energy_loss() {
    // A body at rest above a floor, under gravity only: it falls, and the
    // bounce tick reverses the vertical velocity with the configured
    // fraction of speed lost, before gravity for that tick applies.
    let mut st = Store::new();
    let mut e = body((0, 5000), (0, 0));
    e.grav = true;
    e.shape = Some(Shape::Polyline {
        pts: vec![V2 { x: -1000, y: -1000 }, V2 { x: 1000, y: -1000 }],
    });
    st.spawn(e);
    let mut floor = Ent::blank();
    floor.pos = Some(V2 { x: 0, y: 0 });
    floor.vel = Some(V2 { x: 0, y: 0 });
    floor.rot = Some(0);
    floor.shape = Some(Shape::Polyline {
        pts: vec![V2 { x: -100000, y: 0 }, V2 { x: 100000, y: 0 }],
    });
    st.spawn(floor);
    let settings = Settings::new(-9800, 0, 0, 0, 0, 0, 100).unwrap();
    let mut h = Heli { store: st, settings };
    let dt = 100;
    let g_per_tick = -980;
    let mut bounced = false;
    let mut v_pre = 0i64;
    for _ in 0..200 {
        let before = h.store.ents[0].vel.unwrap().y;
        h.update(&no_input(), dt, 0);
        let after = h.store.ents[0].vel.unwrap().y;
        if before < 0 && after > 0 {
            v_pre = before;
            // reflected exactly, scaled by (1 - collision_energy_loss),
            // then this tick's gravity.
            let reflected = -before;
            let after_loss = reflected * (1000 - 100) / 1000;
            assert_eq!(after, after_loss + g_per_tick);
            bounced = true;
            break;
        }
    }
    assert!(bounced);
    assert!(v_pre < 0);
}

#[test]
fn head_on_equal_and_opposite_craft_swap_velocities_elastically() {
    // Two identical bodies approaching head-on with no energy loss: both
    // leave with their velocities exactly reversed, so the relative
    // approach speed equals the relative separation speed.
    let mut st = Store::new();
    let mut a = body((-5000, 0), (2000, 0));
    a.shape = Some(Shape::Polyline {
        pts: vec![V2 { x: 0, y: -1000 }, V2 { x: 0, y: 1000 }],
    });
    let mut b = body((5000, 0), (-2000, 0));
    b.shape = Some(Shape::Polyline {
        pts: vec![V2 { x: 0, y: -1000 }, V2 { x: 0, y: 1000 }],
    });
    st.spawn(a);
    st.spawn(b);
    let mut h = Heli { store: st, settings: quiet_settings(0) };
    h.update(&no_input(), 3000, 0);
    assert_eq!(h.store.ents[0].vel.unwrap(), V2 { x: -2000, y: 0 });
    assert_eq!(h.store.ents[1].vel.unwrap(), V2 { x: 2000, y: 0 });
}

#[test]
fn controls_set_thrust_and_nudge_rotation() {
    let mut st = Store::new();
    let mut e = body((0, 0), (0, 0));
    e.boost = Some(0);
    e.rotvel = Some(0);
    e.controls = Some(Controls { up: Key::Up, down: Key::Down, left: Key::Left, right: Key::Right });
    st.spawn(e);
    let settings = Settings::new(0, 10000, 0, 0, 30000, 0, 0).unwrap();
    let mut h = Heli { store: st, settings };
    let mut input = InputState::none();
    input.hold(Key::Up);
    input.hold(Key::Left);
    h.update(&input, 100, 0);
    assert_eq!(h.store.ents[0].boost.unwrap(), 30000);
    // rotational_acceleration * dt = 10000 * 100 / 1000 = 1000.
    assert_eq!(h.store.ents[0].rotvel.unwrap(), 1000);
    // Thrust is reset, not accumulated.
    h.update(&no_input(), 100, 0);
    assert_eq!(h.store.ents[0].boost.unwrap(), 0);
}

#[test]
fn boosting_trails_exhaust_that_later_expires() {
    let mut st = Store::new();
    let mut e = body((0, 0), (0, 0));
    e.rot = None;
    e.boost = Some(1000);
    e.toots = Some(BoostToots { every: 16, next_toot: 0 });
    st.spawn(e);
    let mut h = Heli { store: st, settings: quiet_settings(0) };
    h.update(&no_input(), 16, 0);
    assert_eq!(h.store.ents.len(), 2);
    let trail = &h.store.ents[1];
    assert!(trail.grav && trail.drag);
    assert_eq!(trail.mortal.unwrap().erase_at, 2000);
    assert_eq!(trail.vel.unwrap(), V2 { x: 0, y: -200000 });
    // Long after the expiry stamp the trail is destroyed.
    let mut h2 = h;
    h2.store.ents[0].boost = Some(0);
    h2.update(&no_input(), 16, 3000);
    assert_eq!(h2.store.ents.len(), 1);
    assert_eq!(h2.store.ents[0].id, 0);
}

#[test]
fn idle_cadence_spawns_nothing() {
    let mut st = Store::new();
    let mut e = body((0, 0), (0, 0));
    e.boost = Some(0);
    e.toots = Some(BoostToots { every: 16, next_toot: 0 });
    st.spawn(e);
    let mut h = Heli { store: st, settings: quiet_settings(0) };
    h.update(&no_input(), 16, 0);
    assert_eq!(h.store.ents.len(), 1);
}

#[test]
fn screen_outline_carries_points_to_screen_space() {
    let mut st = Store::new();
    let mut e = body((1000, 2000), (0, 0));
    e.outline = Some(vec![V2 { x: 500, y: 0 }]);
    e.paint = Some(7);
    st.spawn(e);
    let h = Heli { store: st, settings: Settings::default() };
    let (pts, paint) = h.screen_outline(0).unwrap();
    // (pos + p) / WORLD_HEIGHT: 1500 * 2 / 1000 = 3, 2000 * 2 / 1000 = 4.
    assert_eq!(pts, vec![V2 { x: 3, y: 4 }]);
    assert_eq!(paint, Some(7));
    assert_eq!(h.background_paint(), None);
}

#[test]
fn live_settings_changes_are_validated() {
    let mut h = Heli::new(0);
    let mut s = Settings::default();
    s.collision_energy_loss = 5000;
    h.set_settings(s);
    assert_eq!(h.get_settings(), Settings::default());
    s.collision_energy_loss = 500;
    h.set_settings(s);
    assert_eq!(h.get_settings().collision_energy_loss, 500);
}
