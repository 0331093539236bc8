//! Collision geometry.
//!
//! A shape is immutable for the lifetime of its entity and lives in the
//! entity's local frame: a disk, an axis-aligned box, or an open or closed
//! polyline.  For swept detection a box is traversed as its closed outline,
//! and a disk is handled by its own circle arithmetic.

use vstd::prelude::*;
use crate::fx::{in_range, MAX_FX};
use crate::rot::rotate_spec;
use crate::rot::rotate_v;
use crate::vec2::{add_v, add_v_spec, V2};

verus! {

/// A collision shape in the entity's local frame.
#[derive(Debug)]
pub enum Shape {
    /// A disk of the given radius around the local origin.
    Disk { radius: i64 },
    /// An axis-aligned box around the local origin, by half-extents.
    Rect { half_w: i64, half_h: i64 },
    /// A chain of segments through the given points (closed when the last
    /// point repeats the first).
    Polyline { pts: Vec<V2> },
}

/// The mathematical value of a `Shape`.
pub ghost enum ShapeV {
    Disk { radius: i64 },
    Rect { half_w: i64, half_h: i64 },
    Polyline { pts: Seq<V2> },
}

impl View for Shape {
    type V = ShapeV;

    open spec fn view(&self) -> ShapeV {
        match self {
            Shape::Disk { radius } => ShapeV::Disk { radius: *radius },
            Shape::Rect { half_w, half_h } => ShapeV::Rect {
                half_w: *half_w,
                half_h: *half_h,
            },
            Shape::Polyline { pts } => ShapeV::Polyline { pts: pts@ },
        }
    }
}

impl ShapeV {
    /// Radii and extents are positive and in range; polyline points are in
    /// range and form at least one segment.
    pub open spec fn wf(self) -> bool {
        match self {
            ShapeV::Disk { radius } => 0 < radius <= MAX_FX,
            ShapeV::Rect { half_w, half_h } => 0 < half_w <= MAX_FX && 0 < half_h <= MAX_FX,
            ShapeV::Polyline { pts } => pts.len() >= 2 && forall|i: int|
                0 <= i < pts.len() ==> (#[trigger] pts[i]).wf(),
        }
    }
}

/// The shape's outline in its local frame: the polyline's own points, the
/// box's four corners closed back onto the first, and nothing for a disk.
pub open spec fn outline_of(s: ShapeV) -> Seq<V2> {
    match s {
        ShapeV::Polyline { pts } => pts,
        ShapeV::Rect { half_w, half_h } => seq![
            V2 { x: (-(half_w as int)) as i64, y: (-(half_h as int)) as i64 },
            V2 { x: (-(half_w as int)) as i64, y: half_h },
            V2 { x: half_w, y: half_h },
            V2 { x: half_w, y: (-(half_h as int)) as i64 },
            V2 { x: (-(half_w as int)) as i64, y: (-(half_h as int)) as i64 },
        ],
        ShapeV::Disk { .. } => Seq::empty(),
    }
}

impl Shape {
    /// Materialize the local outline.
    pub fn outline(&self) -> (r: Vec<V2>)
        requires
            self@.wf(),
        ensures
            r@ == outline_of(self@),
    {
        match self {
            Shape::Polyline { pts } => copy_pts(pts),
            Shape::Rect { half_w, half_h } => {
                let mut v: Vec<V2> = Vec::new();
                v.push(V2 { x: -*half_w, y: -*half_h });
                v.push(V2 { x: -*half_w, y: *half_h });
                v.push(V2 { x: *half_w, y: *half_h });
                v.push(V2 { x: *half_w, y: -*half_h });
                v.push(V2 { x: -*half_w, y: -*half_h });
                proof {
                    assert(v@ =~= outline_of(self@));
                }
                v
            },
            Shape::Disk { .. } => Vec::new(),
        }
    }
}

/// Duplicate a point list.
fn copy_pts(pts: &Vec<V2>) -> (r: Vec<V2>)
    ensures
        r@ == pts@,
{
    let mut r: Vec<V2> = Vec::new();
    let n = pts.len();
    let mut i: usize = 0;
    while i < n
        invariant
            i <= n,
            n == pts@.len(),
            r@ == pts@.take(i as int),
        decreases n - i,
    {
        r.push(pts[i]);
        proof {
            assert(r@ =~= pts@.take(i as int + 1));
        }
        i += 1;
    }
    proof {
        assert(r@ =~= pts@);
    }
    r
}

/// A well-formed shape has a well-formed outline.
pub proof fn lemma_outline_wf(s: ShapeV)
    requires
        s.wf(),
    ensures
        forall|i: int| 0 <= i < outline_of(s).len() ==> (#[trigger] outline_of(s)[i]).wf(),
{
    match s {
        ShapeV::Polyline { pts } => {
        },
        ShapeV::Rect { half_w, half_h } => {
            assert forall|i: int| 0 <= i < outline_of(s).len() implies (
            #[trigger] outline_of(s)[i]).wf() by {
                assert(0 <= i < 5);
            };
        },
        ShapeV::Disk { .. } => {
        },
    }
}

/// Local points carried into world space: rotated by the heading, then
/// translated by the position, each coordinate clamped.
pub open spec fn world_pts_spec(pos: V2, rot: int, pts: Seq<V2>) -> Seq<V2> {
    pts.map(|i: int, p: V2| add_v_spec(pos, rotate_spec(rot, p)))
}

/// Transform a local outline into world space.
pub fn world_pts(pos: V2, rot: i64, pts: &Vec<V2>) -> (r: Vec<V2>)
    requires
        in_range(rot as int),
        forall|i: int| 0 <= i < pts@.len() ==> (#[trigger] pts@[i]).wf(),
    ensures
        r@ == world_pts_spec(pos, rot as int, pts@),
        forall|i: int| 0 <= i < r@.len() ==> (#[trigger] r@[i]).wf(),
{
    let mut r: Vec<V2> = Vec::new();
    let n = pts.len();
    let mut i: usize = 0;
    while i < n
        invariant
            i <= n,
            n == pts@.len(),
            in_range(rot as int),
            forall|k: int| 0 <= k < pts@.len() ==> (#[trigger] pts@[k]).wf(),
            r@ == world_pts_spec(pos, rot as int, pts@.take(i as int)),
            forall|k: int| 0 <= k < r@.len() ==> (#[trigger] r@[k]).wf(),
        decreases n - i,
    {
        let p = add_v(pos, rotate_v(rot, pts[i]));
        r.push(p);
        proof {
            assert(r@ =~= world_pts_spec(pos, rot as int, pts@.take(i as int + 1)));
        }
        i += 1;
    }
    proof {
        assert(pts@.take(n as int) =~= pts@);
    }
    r
}

} // verus!
