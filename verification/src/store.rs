//! The entity store.
//!
//! An entity is nothing but the set of components it currently holds; no
//! component ever implies another.  Entities are identified by opaque
//! handles that are handed out in increasing order and never reused, so a
//! handle stays valid until its entity is destroyed.

use vstd::prelude::*;
use crate::control::Controls;
use crate::fx::in_range;
use crate::shape::{Shape, ShapeV};
use crate::vec2::V2;

verus! {

/// A lifetime component: the entity is destroyed once the clock passes
/// `erase_at` (fixed-point seconds).
#[derive(Clone, Copy, Debug, PartialEq, Eq, Structural)]
pub struct Mortal {
    pub erase_at: i64,
}

/// An emission cadence: while the entity is boosting, a trail entity is
/// spawned every `every` seconds, next at `next_toot`.
#[derive(Clone, Copy, Debug, PartialEq, Eq, Structural)]
pub struct BoostToots {
    pub every: i64,
    pub next_toot: i64,
}

/// One entity: a stable handle plus an independently attachable component
/// of each kind (`None` / `false` meaning the component is absent).
#[derive(Debug)]
pub struct Ent {
    /// The opaque handle; assigned by the store, never reused.
    pub id: u64,
    /// World position, meters.
    pub pos: Option<V2>,
    /// World velocity, meters per second.
    pub vel: Option<V2>,
    /// World heading, radians.
    pub rot: Option<i64>,
    /// Angular velocity, radians per second.
    pub rotvel: Option<i64>,
    /// Thrust magnitude, recomputed from input every tick.
    pub boost: Option<i64>,
    /// Gravity applies to this entity.
    pub grav: bool,
    /// Drag applies to this entity.
    pub drag: bool,
    /// Binding to control axes.
    pub controls: Option<Controls>,
    /// Collision shape, immutable for the entity's lifetime.
    pub shape: Option<Shape>,
    /// Drawable outline, local frame.
    pub outline: Option<Vec<V2>>,
    /// Palette index for presentation.
    pub paint: Option<u8>,
    /// Expiry timestamp.
    pub mortal: Option<Mortal>,
    /// Exhaust-trail cadence.
    pub toots: Option<BoostToots>,
    /// The simulation should stop.
    pub quit: bool,
    /// Palette index for the backdrop.
    pub background: Option<u8>,
}

/// The mathematical value of an entity.
pub ghost struct EntV {
    pub id: u64,
    pub pos: Option<V2>,
    pub vel: Option<V2>,
    pub rot: Option<i64>,
    pub rotvel: Option<i64>,
    pub boost: Option<i64>,
    pub grav: bool,
    pub drag: bool,
    pub controls: Option<Controls>,
    pub shape: Option<ShapeV>,
    pub outline: Option<Seq<V2>>,
    pub paint: Option<u8>,
    pub mortal: Option<Mortal>,
    pub toots: Option<BoostToots>,
    pub quit: bool,
    pub background: Option<u8>,
}

impl View for Ent {
    type V = EntV;

    open spec fn view(&self) -> EntV {
        EntV {
            id: self.id,
            pos: self.pos,
            vel: self.vel,
            rot: self.rot,
            rotvel: self.rotvel,
            boost: self.boost,
            grav: self.grav,
            drag: self.drag,
            controls: self.controls,
            shape: match self.shape {
                Some(ref s) => Some(s@),
                None => None,
            },
            outline: match self.outline {
                Some(ref o) => Some(o@),
                None => None,
            },
            paint: self.paint,
            mortal: self.mortal,
            toots: self.toots,
            quit: self.quit,
            background: self.background,
        }
    }
}

impl EntV {
    /// Every present component is within its representable range.
    pub open spec fn wf(self) -> bool {
        &&& (self.pos matches Some(p) ==> p.wf())
        &&& (self.vel matches Some(v) ==> v.wf())
        &&& (self.rot matches Some(r) ==> in_range(r as int))
        &&& (self.rotvel matches Some(r) ==> in_range(r as int))
        &&& (self.boost matches Some(b) ==> in_range(b as int))
        &&& (self.shape matches Some(s) ==> s.wf())
        &&& (self.outline matches Some(o) ==> forall|i: int|
            0 <= i < o.len() ==> (#[trigger] o[i]).wf())
        &&& (self.mortal matches Some(m) ==> in_range(m.erase_at as int))
        &&& (self.toots matches Some(t) ==> 1 <= t.every && in_range(t.every as int)
            && in_range(t.next_toot as int))
    }

    /// The same entity under another handle.
    pub open spec fn with_id(self, id: u64) -> EntV {
        EntV { id, ..self }
    }
}

impl Ent {
    /// An entity with no components at all.
    pub fn blank() -> (r: Ent)
        ensures
            r@ == blank_ent(),
            r@.wf(),
    {
        Ent {
            id: 0,
            pos: None,
            vel: None,
            rot: None,
            rotvel: None,
            boost: None,
            grav: false,
            drag: false,
            controls: None,
            shape: None,
            outline: None,
            paint: None,
            mortal: None,
            toots: None,
            quit: false,
            background: None,
        }
    }
}

/// The empty entity value.
pub open spec fn blank_ent() -> EntV {
    EntV {
        id: 0,
        pos: None,
        vel: None,
        rot: None,
        rotvel: None,
        boost: None,
        grav: false,
        drag: false,
        controls: None,
        shape: None,
        outline: None,
        paint: None,
        mortal: None,
        toots: None,
        quit: false,
        background: None,
    }
}

/// The associative container of entities.  Handles are assigned in
/// increasing order and never reused while the store lives.
#[derive(Debug)]
pub struct Store {
    pub ents: Vec<Ent>,
    pub next_id: u64,
}

impl View for Store {
    type V = Seq<EntV>;

    open spec fn view(&self) -> Seq<EntV> {
        self.ents@.map_values(|e: Ent| e@)
    }
}

impl Store {
    /// Every entity is well formed; handles are strictly increasing along
    /// the store and all below the next free handle.
    pub open spec fn wf(self) -> bool {
        &&& forall|i: int| 0 <= i < self@.len() ==> (#[trigger] self@[i]).wf()
        &&& forall|i: int| 0 <= i < self@.len() ==> (#[trigger] self@[i]).id < self.next_id
        &&& forall|i: int, j: int| 0 <= i < j < self@.len() ==> self@[i].id < self@[j].id
    }

    /// An empty store.
    pub fn new() -> (r: Store)
        ensures
            r@ == Seq::<EntV>::empty(),
            r.next_id == 0,
            r.wf(),
    {
        let s = Store { ents: Vec::new(), next_id: 0 };
        proof {
            assert(s@ =~= Seq::<EntV>::empty());
        }
        s
    }

    /// How many entities live in the store.
    pub fn len(&self) -> (r: usize)
        ensures
            r == self@.len(),
    {
        self.ents.len()
    }

    /// Attach a fresh handle to the entity and add it.  Returns the handle;
    /// if the handle space is exhausted the store is left unchanged and the
    /// sentinel `u64::MAX` (never a live handle) comes back.
    pub fn spawn(&mut self, e: Ent) -> (r: u64)
        requires
            old(self).wf(),
            e@.wf(),
        ensures
            final(self).wf(),
            old(self).next_id < u64::MAX ==> {
                &&& final(self)@ == old(self)@.push(e@.with_id(old(self).next_id))
                &&& final(self).next_id == old(self).next_id + 1
                &&& r == old(self).next_id
            },
            old(self).next_id == u64::MAX ==> final(self)@ == old(self)@
                && final(self).next_id == old(self).next_id && r == u64::MAX,
    {
        if self.next_id == u64::MAX {
            return u64::MAX;
        }
        let id = self.next_id;
        let mut e = e;
        e.id = id;
        self.ents.push(e);
        self.next_id = id + 1;
        proof {
            assert(final(self)@ =~= old(self)@.push(e@));
        }
        id
    }
}

} // verus!
