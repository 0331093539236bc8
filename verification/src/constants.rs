//! World geometry constants, in fixed point.

use vstd::prelude::*;
use crate::vec2::V2;

verus! {

/// Player craft width and height, thousandths of a meter.
pub const PLAYER_SIZE: i64 = 10000;

/// Height of the world box, thousandths of a meter.
pub const WORLD_HEIGHT: i64 = 500000;

/// The player craft outline: a closed arrowhead.
pub open spec fn player_wireframe_spec() -> Seq<V2> {
    seq![
        V2 { x: -5000i64, y: -5000i64 },
        V2 { x: -1000i64, y: 5000i64 },
        V2 { x: 1000i64, y: 5000i64 },
        V2 { x: 5000i64, y: -5000i64 },
        V2 { x: 0i64, y: 0i64 },
        V2 { x: -5000i64, y: -5000i64 },
    ]
}

/// Materialize the player outline.
pub fn player_wireframe() -> (r: Vec<V2>)
    ensures
        r@ == player_wireframe_spec(),
{
    let mut v: Vec<V2> = Vec::new();
    v.push(V2 { x: -5000, y: -5000 });
    v.push(V2 { x: -1000, y: 5000 });
    v.push(V2 { x: 1000, y: 5000 });
    v.push(V2 { x: 5000, y: -5000 });
    v.push(V2 { x: 0, y: 0 });
    v.push(V2 { x: -5000, y: -5000 });
    proof {
        assert(v@ =~= player_wireframe_spec());
    }
    v
}

/// The world boundary: a closed square, `WORLD_HEIGHT` on a side.
pub open spec fn bounds_wireframe_spec() -> Seq<V2> {
    seq![
        V2 { x: -250000i64, y: -250000i64 },
        V2 { x: -250000i64, y: 250000i64 },
        V2 { x: 250000i64, y: 250000i64 },
        V2 { x: 250000i64, y: -250000i64 },
        V2 { x: -250000i64, y: -250000i64 },
    ]
}

/// Materialize the boundary outline.
pub fn bounds_wireframe() -> (r: Vec<V2>)
    ensures
        r@ == bounds_wireframe_spec(),
{
    let mut v: Vec<V2> = Vec::new();
    v.push(V2 { x: -250000, y: -250000 });
    v.push(V2 { x: -250000, y: 250000 });
    v.push(V2 { x: 250000, y: 250000 });
    v.push(V2 { x: 250000, y: -250000 });
    v.push(V2 { x: -250000, y: -250000 });
    proof {
        assert(v@ =~= bounds_wireframe_spec());
    }
    v
}

/// The exhaust-trail speck: a small closed diamond.
pub open spec fn trash_wireframe_spec() -> Seq<V2> {
    seq![
        V2 { x: 0i64, y: -500i64 },
        V2 { x: -500i64, y: 0i64 },
        V2 { x: 0i64, y: 500i64 },
        V2 { x: 500i64, y: 0i64 },
        V2 { x: 0i64, y: -500i64 },
    ]
}

/// Materialize the trail outline.
pub fn trash_wireframe() -> (r: Vec<V2>)
    ensures
        r@ == trash_wireframe_spec(),
{
    let mut v: Vec<V2> = Vec::new();
    v.push(V2 { x: 0, y: -500 });
    v.push(V2 { x: -500, y: 0 });
    v.push(V2 { x: 0, y: 500 });
    v.push(V2 { x: 500, y: 0 });
    v.push(V2 { x: 0, y: -500 });
    proof {
        assert(v@ =~= trash_wireframe_spec());
    }
    v
}

} // verus!
