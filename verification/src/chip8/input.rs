//! What the machine asks of a keypad.

use vstd::prelude::*;

verus! {

/// A backend that reads the 16 keys of the keypad.
pub trait KeyInput {
    /// Whether the key with the code `key` is down. The machine only ever
    /// asks about the codes 0x0 to 0xF.
    fn is_key_pressed(&self, key: u8) -> bool
        requires
            key < 16,
    ;

    /// Waits until a key is pressed and gives its code.
    fn get_key(&mut self) -> u8;
}

} // verus!
