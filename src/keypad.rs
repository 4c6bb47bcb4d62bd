use vstd::prelude::*;

verus! {

/// Number of keys on the hexadecimal keypad.
pub const KEY_COUNT: usize = 16;

/// The sixteen-key input device: each cell tells whether that key is held.
pub struct Keypad {
    pub keys: [bool; 16],
}

impl View for Keypad {
    type V = Seq<bool>;

    open spec fn view(&self) -> Seq<bool> {
        self.keys@
    }
}

impl Keypad {
    /// A keypad with every key released.
    pub fn new() -> (r: Keypad)
        ensures
            forall|k: int| 0 <= k < KEY_COUNT ==> !#[trigger] r@[k],
    {
        Keypad { keys: [false; 16] }
    }

    /// Marks key `i` as held.
    pub fn key_down(&mut self, i: usize)
        requires
            i < KEY_COUNT,
        ensures
            final(self)@ == old(self)@.update(i as int, true),
    {
        self.keys[i] = true;
    }

    /// Marks key `i` as released.
    pub fn key_up(&mut self, i: usize)
        requires
            i < KEY_COUNT,
        ensures
            final(self)@ == old(self)@.update(i as int, false),
    {
        self.keys[i] = false;
    }

    /// Whether key `i` is currently held.
    pub fn is_key_down(&self, i: usize) -> (r: bool)
        requires
            i < KEY_COUNT,
        ensures
            r == self@[i as int],
    {
        self.keys[i]
    }
}

} // verus!
