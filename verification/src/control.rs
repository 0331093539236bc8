//! Abstract control input.
//!
//! The simulation never polls a device: the host hands in a snapshot of
//! which logical keys are held this tick, and each controllable entity
//! carries its own binding of the four directional axes, so several craft
//! can fly on independent schemes.

use vstd::prelude::*;

verus! {

/// A logical key the simulation can be bound to.
#[derive(Clone, Copy, Debug, PartialEq, Eq, Structural)]
pub enum Key {
    Up,
    Down,
    Left,
    Right,
    W,
    A,
    S,
    D,
    Escape,
    Q,
}

/// An entity's binding of the four directional control axes.
#[derive(Clone, Copy, Debug, PartialEq, Eq, Structural)]
pub struct Controls {
    pub up: Key,
    pub down: Key,
    pub left: Key,
    pub right: Key,
}

/// The keys held during one tick, as sampled by the host.
#[derive(Debug)]
pub struct InputState {
    pub held: Vec<Key>,
}

impl View for InputState {
    type V = Seq<Key>;

    open spec fn view(&self) -> Seq<Key> {
        self.held@
    }
}

impl InputState {
    /// A snapshot with nothing held.
    pub fn none() -> (r: InputState)
        ensures
            r@ == Seq::<Key>::empty(),
    {
        InputState { held: Vec::new() }
    }

    /// Record a key as held.
    pub fn hold(&mut self, k: Key)
        ensures
            final(self)@ == old(self)@.push(k),
    {
        self.held.push(k);
    }

    /// Whether a key is held in this snapshot.
    pub fn is_held(&self, k: Key) -> (r: bool)
        ensures
            r == self@.contains(k),
    {
        let n = self.held.len();
        let mut i: usize = 0;
        while i < n
            invariant
                i <= n,
                n == self.held@.len(),
                forall|j: int| 0 <= j < i ==> self.held@[j] != k,
            decreases n - i,
        {
            if self.held[i] == k {
                return true;
            }
            i += 1;
        }
        false
    }
}

} // verus!
