//! Device input: a point-in-time snapshot of the currently held keys, and
//! the input capability trait.

use vstd::prelude::*;

verus! {

/// A key the runtime distinguishes.
#[derive(Clone, Copy, Debug, PartialEq, Eq, Structural)]
pub enum Key {
    W,
    S,
    Up,
    Down,
    Escape,
}

/// A snapshot of the device state: the set of keys held at the moment the
/// input phase began. Every input handler of a frame sees the same snapshot.
pub struct InputMap {
    pub keyboard: Vec<Key>,
}

impl InputMap {
    /// Whether the key is held in this snapshot.
    pub open spec fn pressed(self, key: Key) -> bool {
        self.keyboard@.contains(key)
    }

    /// An empty snapshot: no key held.
    pub fn new() -> (m: InputMap)
        ensures
            forall|k: Key| !m.pressed(k),
            m.keyboard@ == Seq::<Key>::empty(),
    {
        let m = InputMap { keyboard: Vec::new() };
        proof {
            assert(m.keyboard@ =~= Seq::<Key>::empty());
        }
        m
    }

    /// Records one more held key.
    pub fn press(&mut self, key: Key)
        ensures
            final(self).keyboard@ == old(self).keyboard@.push(key),
    {
        self.keyboard.push(key);
    }

    /// Reports whether the key is held.
    pub fn is_scancode_pressed(&self, key: Key) -> (r: bool)
        ensures
            r == self.pressed(key),
    {
        let mut i: usize = 0;
        while i < self.keyboard.len()
            invariant
                i <= self.keyboard.len(),
                forall|j: int| 0 <= j < i ==> self.keyboard@[j] != key,
            decreases self.keyboard.len() - i,
        {
            if self.keyboard[i] == key {
                proof {
                    assert(self.keyboard@[i as int] == key);
                }
                return true;
            }
            i = i + 1;
        }
        proof {
            assert(!self.keyboard@.contains(key));
        }
        false
    }
}

/// Reads the device-state snapshot and mutates only its owning value.
pub trait Input: Sized {
    /// When the handler may run: bounds that keep its arithmetic inside
    /// machine limits.
    spec fn input_wf(self) -> bool;

    /// The owning value after handling the snapshot.
    spec fn input_spec(self, input: InputMap) -> Self;

    /// Applies the snapshot: the new value is exactly `input_spec`.
    fn input(&mut self, input: &InputMap)
        requires
            old(self).input_wf(),
        ensures
            *final(self) == old(self).input_spec(*input),
    ;
}

/// The default input capability: it changes nothing.
pub struct VoidInput {}

impl Input for VoidInput {
    open spec fn input_wf(self) -> bool {
        true
    }

    open spec fn input_spec(self, input: InputMap) -> VoidInput {
        self
    }

    fn input(&mut self, input: &InputMap) {
    }
}

} // verus!
