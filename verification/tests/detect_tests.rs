use heli::detect::{detect, Motion};
use heli::shape::Shape;
use heli::vec2::V2;

fn seg(a: (i64, i64), b: (i64, i64)) -> Shape {
    Shape::Polyline { pts: vec![V2 { x: a.0, y: a.1 }, V2 { x: b.0, y: b.1 }] }
}

#[test]
fn falling_segment_hits_floor_at_the_exact_time() {
    // A short vertical segment 4 m above a wide floor, falling at 2 m/s:
    // its lower end touches after exactly 2 s.
    let a = Motion { pos: V2 { x: 0, y: 5000 }, rot: 0, vel: V2 { x: 0, y: -2000 } };
    let sa = seg((0, -1000), (0, 1000));
    let b = Motion { pos: V2 { x: 0, y: 0 }, rot: 0, vel: V2 { x: 0, y: 0 } };
    let sb = seg((-10000, 0), (10000, 0));
    let imp = detect(&a, &sa, &b, &sb, 3000).unwrap();
    assert_eq!(imp.toi, 2000);
    assert_eq!(imp.normal, V2 { x: 0, y: -1000 });
    assert_eq!(imp.witness, V2 { x: 0, y: -1000 });
}

#[test]
fn separating_bodies_never_collide() {
    let a = Motion { pos: V2 { x: 0, y: 5000 }, rot: 0, vel: V2 { x: 0, y: 2000 } };
    let sa = seg((0, -1000), (0, 1000));
    let b = Motion { pos: V2 { x: 0, y: 0 }, rot: 0, vel: V2 { x: 0, y: 0 } };
    let sb = seg((-10000, 0), (10000, 0));
    assert!(detect(&a, &sa, &b, &sb, 3000).is_none());
}

#[test]
fn too_short_a_slice_sees_nothing() {
    let a = Motion { pos: V2 { x: 0, y: 5000 }, rot: 0, vel: V2 { x: 0, y: -2000 } };
    let sa = seg((0, -1000), (0, 1000));
    let b = Motion { pos: V2 { x: 0, y: 0 }, rot: 0, vel: V2 { x: 0, y: 0 } };
    let sb = seg((-10000, 0), (10000, 0));
    assert!(detect(&a, &sa, &b, &sb, 1999).is_none());
}

#[test]
fn a_miss_beside_the_segment_is_no_event() {
    // Falls past the right-hand end of a short floor.
    let a = Motion { pos: V2 { x: 20000, y: 5000 }, rot: 0, vel: V2 { x: 0, y: -2000 } };
    let sa = seg((0, -1000), (0, 1000));
    let b = Motion { pos: V2 { x: 0, y: 0 }, rot: 0, vel: V2 { x: 0, y: 0 } };
    let sb = seg((-10000, 0), (10000, 0));
    assert!(detect(&a, &sa, &b, &sb, 3000).is_none());
}

#[test]
fn detection_is_symmetric_in_the_two_bodies() {
    let a = Motion { pos: V2 { x: 0, y: 5000 }, rot: 0, vel: V2 { x: 0, y: -2000 } };
    let sa = seg((0, -1000), (0, 1000));
    let b = Motion { pos: V2 { x: 0, y: 0 }, rot: 0, vel: V2 { x: 0, y: 0 } };
    let sb = seg((-10000, 0), (10000, 0));
    let ab = detect(&a, &sa, &b, &sb, 3000).unwrap();
    let ba = detect(&b, &sb, &a, &sa, 3000).unwrap();
    assert_eq!(ab.toi, ba.toi);
    // The normals live in each body's own frame and face its own approach.
    assert_eq!(ba.normal, V2 { x: 0, y: 1000 });
}

#[test]
fn swept_disks_touch_at_the_exact_time() {
    let a = Motion { pos: V2 { x: -5000, y: 0 }, rot: 0, vel: V2 { x: 1000, y: 0 } };
    let sa = Shape::Disk { radius: 1000 };
    let b = Motion { pos: V2 { x: 5000, y: 0 }, rot: 0, vel: V2 { x: 0, y: 0 } };
    let sb = Shape::Disk { radius: 1000 };
    let imp = detect(&a, &sa, &b, &sb, 10000).unwrap();
    assert_eq!(imp.toi, 8000);
    assert_eq!(imp.normal, V2 { x: 1000, y: 0 });
    assert_eq!(imp.witness, V2 { x: 1000, y: 0 });
    let ba = detect(&b, &sb, &a, &sa, 10000).unwrap();
    assert_eq!(ba.toi, 8000);
}

#[test]
fn overlapping_converging_disks_touch_at_time_zero() {
    let a = Motion { pos: V2 { x: 0, y: 0 }, rot: 0, vel: V2 { x: 1000, y: 0 } };
    let sa = Shape::Disk { radius: 1000 };
    let b = Motion { pos: V2 { x: 1500, y: 0 }, rot: 0, vel: V2 { x: 0, y: 0 } };
    let sb = Shape::Disk { radius: 1000 };
    let imp = detect(&a, &sa, &b, &sb, 1000).unwrap();
    assert_eq!(imp.toi, 0);
}

#[test]
fn a_disk_falls_onto_a_segment_at_the_exact_time() {
    // Disk of radius 1 m, 4 m above a wide floor, falling at 2 m/s: its rim
    // touches after (4 - 1) / 2 = 1.5 s... with the center starting 5 m up,
    // the center reaches height 1 m after exactly 2 s.
    let a = Motion { pos: V2 { x: 0, y: 5000 }, rot: 0, vel: V2 { x: 0, y: -2000 } };
    let sa = Shape::Disk { radius: 1000 };
    let b = Motion { pos: V2 { x: 0, y: 0 }, rot: 0, vel: V2 { x: 0, y: 0 } };
    let sb = seg((-10000, 0), (10000, 0));
    let imp = detect(&a, &sa, &b, &sb, 3000).unwrap();
    assert_eq!(imp.toi, 2000);
    assert_eq!(imp.normal, V2 { x: 0, y: -1000 });
    assert_eq!(imp.witness, V2 { x: 0, y: -1000 });
    // The swapped order reports the same time, with the normal now out of
    // the floor, toward the disk.
    let ba = detect(&b, &sb, &a, &sa, 3000).unwrap();
    assert_eq!(ba.toi, 2000);
    assert_eq!(ba.normal, V2 { x: 0, y: 1000 });
}

#[test]
fn a_disk_grazes_a_segment_endpoint_through_its_vertex() {
    // Falling straight down over the floor's right-hand endpoint: the rim
    // meets the corner, not the face beyond it.
    let a = Motion { pos: V2 { x: 10000, y: 5000 }, rot: 0, vel: V2 { x: 0, y: -2000 } };
    let sa = Shape::Disk { radius: 1000 };
    let b = Motion { pos: V2 { x: 0, y: 0 }, rot: 0, vel: V2 { x: 0, y: 0 } };
    let sb = seg((-10000, 0), (10000, 0));
    let imp = detect(&a, &sa, &b, &sb, 3000).unwrap();
    assert_eq!(imp.toi, 2000);
    assert_eq!(imp.normal, V2 { x: 0, y: -1000 });
}

#[test]
fn a_disk_wide_of_the_segment_misses() {
    let a = Motion { pos: V2 { x: 20000, y: 5000 }, rot: 0, vel: V2 { x: 0, y: -2000 } };
    let sa = Shape::Disk { radius: 1000 };
    let b = Motion { pos: V2 { x: 0, y: 0 }, rot: 0, vel: V2 { x: 0, y: 0 } };
    let sb = seg((-10000, 0), (10000, 0));
    assert!(detect(&a, &sa, &b, &sb, 3000).is_none());
}

#[test]
fn box_outline_collides_like_its_polyline() {
    // A box falling squarely onto a floor: its bottom corners touch
    // together after exactly 1 s.
    let a = Motion { pos: V2 { x: 0, y: 3000 }, rot: 0, vel: V2 { x: 0, y: -2000 } };
    let sa = Shape::Rect { half_w: 1000, half_h: 1000 };
    let b = Motion { pos: V2 { x: 0, y: 0 }, rot: 0, vel: V2 { x: 0, y: 0 } };
    let sb = seg((-10000, 0), (10000, 0));
    let imp = detect(&a, &sa, &b, &sb, 3000).unwrap();
    assert_eq!(imp.toi, 1000);
    assert_eq!(imp.normal, V2 { x: 0, y: -1000 });
}
