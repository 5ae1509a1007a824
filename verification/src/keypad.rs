//! The input surface: a 16-element boolean key-state vector, replaced
//! wholesale once per cycle by the input collaborator and queried by the
//! engine. The mapping from a physical keyboard to these 16 keys lives
//! outside the library.

use vstd::prelude::*;

verus! {

/// Number of keys on the hexadecimal keypad.
pub const KEY_COUNT: usize = 16;

/// The state of all 16 keys at one instant.
pub type KeypadState = [bool; 16];

/// The sixteen keys of the hexadecimal keypad, `K0` through `KF`.
#[derive(Clone, Copy, Debug, PartialEq, Eq, Structural)]
pub enum Keys {
    K0,
    K1,
    K2,
    K3,
    K4,
    K5,
    K6,
    K7,
    K8,
    K9,
    KA,
    KB,
    KC,
    KD,
    KE,
    KF,
}

impl Keys {
    /// The key's position in a `KeypadState`.
    pub open spec fn index_spec(self) -> int {
        match self {
            Keys::K0 => 0,
            Keys::K1 => 1,
            Keys::K2 => 2,
            Keys::K3 => 3,
            Keys::K4 => 4,
            Keys::K5 => 5,
            Keys::K6 => 6,
            Keys::K7 => 7,
            Keys::K8 => 8,
            Keys::K9 => 9,
            Keys::KA => 10,
            Keys::KB => 11,
            Keys::KC => 12,
            Keys::KD => 13,
            Keys::KE => 14,
            Keys::KF => 15,
        }
    }

    /// The key's position in a `KeypadState`.
    pub fn index(self) -> (r: usize)
        ensures
            r == self.index_spec(),
            r < KEY_COUNT,
    {
        match self {
            Keys::K0 => 0,
            Keys::K1 => 1,
            Keys::K2 => 2,
            Keys::K3 => 3,
            Keys::K4 => 4,
            Keys::K5 => 5,
            Keys::K6 => 6,
            Keys::K7 => 7,
            Keys::K8 => 8,
            Keys::K9 => 9,
            Keys::KA => 10,
            Keys::KB => 11,
            Keys::KC => 12,
            Keys::KD => 13,
            Keys::KE => 14,
            Keys::KF => 15,
        }
    }
}

/// The keypad as the engine sees it: the most recently reported key states.
pub struct Keypad {
    keypad: KeypadState,
}

impl Keypad {
    /// The key states as a sequence of 16 booleans.
    pub closed spec fn keys_view(&self) -> Seq<bool> {
        self.keypad@
    }

    /// A keypad with no key pressed.
    pub fn new() -> (r: Keypad)
        ensures
            r.keys_view() == Seq::<bool>::new(KEY_COUNT as nat, |k: int| false),
            r.keys_view().len() == KEY_COUNT,
    {
        let keypad: KeypadState = [false; 16];
        proof {
            assert(keypad@ =~= Seq::<bool>::new(KEY_COUNT as nat, |k: int| false));
        }
        Keypad { keypad }
    }

    /// Replaces all 16 key states at once.
    pub fn update_state(&mut self, keypad_state: KeypadState)
        ensures
            final(self).keys_view() == keypad_state@,
    {
        self.keypad = keypad_state;
    }

    /// Whether the key at position `key` is currently pressed.
    pub fn is_key_pressed(&self, key: usize) -> (r: bool)
        requires
            key < KEY_COUNT,
        ensures
            r == self.keys_view()[key as int],
    {
        self.keypad[key]
    }
}

} // verus!
