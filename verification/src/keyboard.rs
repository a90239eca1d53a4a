use vstd::prelude::*;

verus! {

/// Snapshot of the 16-key input pad: the key currently recorded as
/// pressed, if any.  The host updates it; the interpreter only reads a
/// consistent snapshot at the instant it executes a step.
pub struct Keyboard {
    key: Option<u8>,
}

impl View for Keyboard {
    type V = Option<u8>;

    closed spec fn view(&self) -> Option<u8> {
        self.key
    }
}

impl Keyboard {
    /// A pad with no key pressed.
    pub fn new() -> (k: Keyboard)
        ensures
            k@ == None::<u8>,
    {
        Keyboard { key: None }
    }

    /// Whether the key with code `key_code` is currently pressed.
    pub fn key_pressed(&self, key_code: u8) -> (r: bool)
        ensures
            r == (self@ == Some(key_code)),
    {
        match self.key {
            Some(k) => k == key_code,
            None => false,
        }
    }

    /// The key currently recorded as pressed, if any.
    pub fn get_key_pressed(&self) -> (r: Option<u8>)
        ensures
            r == self@,
    {
        self.key
    }

    /// Records which key is down, or `None` for all keys released.
    pub fn set_key_pressed(&mut self, key: Option<u8>)
        ensures
            final(self)@ == key,
    {
        self.key = key;
    }
}

} // verus!
