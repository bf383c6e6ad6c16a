//! Sixteen-key input matrix: one boolean slot per logical key 0x0..=0xF,
//! overwritten by the host on each press or release transition and read by
//! the interpreter's skip-if-pressed opcodes. It is a level-triggered
//! snapshot; edge detection for the key-wait opcode is the host's concern.

use vstd::prelude::*;

verus! {

/// Number of logical keys.
pub const NUM_KEYS: usize = 16;

/// A key state is valid when it has one slot per logical key.
pub open spec fn keys_wf(k: Seq<bool>) -> bool {
    k.len() == 16
}

/// Whether `key` is held in snapshot `k`; an index outside the matrix is
/// never pressed.
pub open spec fn key_pressed(k: Seq<bool>, key: u8) -> bool {
    key < 16 && k[key as int]
}

pub struct Keyboard {
    keys: Vec<bool>,
}

impl View for Keyboard {
    type V = Seq<bool>;

    closed spec fn view(&self) -> Seq<bool> {
        self.keys@
    }
}

impl Keyboard {
    pub open spec fn wf(&self) -> bool {
        keys_wf(self@)
    }

    /// A fresh matrix with every key released.
    pub fn new() -> (k: Keyboard)
        ensures
            k.wf(),
            forall|i: int| 0 <= i < 16 ==> !k@[i],
    {
        let mut keys: Vec<bool> = Vec::new();
        while keys.len() < NUM_KEYS
            invariant
                keys@.len() <= 16,
                forall|i: int| 0 <= i < keys@.len() ==> !keys@[i],
            decreases 16 - keys@.len(),
        {
            keys.push(false);
        }
        Keyboard { keys }
    }

    /// Overwrite one slot with the new level.
    pub fn set_pressed(&mut self, key: u8, pressed: bool)
        requires
            old(self).wf(),
            key < 16,
        ensures
            final(self).wf(),
            final(self)@ == old(self)@.update(key as int, pressed),
    {
        self.keys[key as usize] = pressed;
    }

    /// Read one slot; an index outside the matrix reads as released.
    pub fn is_key_pressed(&self, key: u8) -> (r: bool)
        requires
            self.wf(),
        ensures
            r == key_pressed(self@, key),
    {
        if key < 16 {
            self.keys[key as usize]
        } else {
            false
        }
    }
}

} // verus!
