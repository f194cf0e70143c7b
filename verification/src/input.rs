//! The keys of the device as the client sends them.
//!
//! The state of the eight keys is one byte, a bit for each key, set while
//! the key is down. Whenever the byte changes it is sent to the device
//! behind the keyboard command byte.

use vstd::prelude::*;

verus! {

/// Command byte in front of a key state.
pub const KEYBOARD_COMMAND: u8 = 0x43;

/// The keys of the device.
#[derive(Clone, Copy, Debug, PartialEq, Eq, Structural)]
pub enum Key {
    Up,
    Down,
    Left,
    Right,
    Shift,
    Play,
    Z,
    X,
}

/// The place of a key's bit in the state byte.
pub open spec fn key_bit(key: Key) -> u8 {
    match key {
        Key::Left => 7,
        Key::Up => 6,
        Key::Down => 5,
        Key::Shift => 4,
        Key::Play => 3,
        Key::Right => 2,
        Key::Z => 1,
        Key::X => 0,
    }
}

/// The state byte after a key went down or up: the key's bit is set or
/// cleared, the other bits stay.
pub open spec fn key_state_after(state: u8, key: Key, down: bool) -> u8 {
    if down {
        state | (1u8 << key_bit(key))
    } else {
        state & !(1u8 << key_bit(key))
    }
}

/// The message that carries a key state.
pub open spec fn key_message(state: u8) -> Seq<u8> {
    seq![KEYBOARD_COMMAND, state]
}

/// Whether the bit at place `bit` is set in `state`.
pub open spec fn bit_is_set(state: u8, bit: u8) -> bool {
    state & (1u8 << bit) != 0
}

/// After a key went down its bit is set, after it went up its bit is
/// clear, and the bit of every other key is as it was.
pub proof fn lemma_key_changes_its_bit_only(state: u8, key: Key, down: bool, other: Key)
    ensures
        bit_is_set(key_state_after(state, key, down), key_bit(key)) == down,
        other != key ==> bit_is_set(key_state_after(state, key, down), key_bit(other))
            == bit_is_set(state, key_bit(other)),
{
    let k = key_bit(key);
    let o = key_bit(other);
    assert((state | (1u8 << k)) & (1u8 << k) != 0) by (bit_vector)
        requires
            k < 8,
    ;
    assert((state & !(1u8 << k)) & (1u8 << k) == 0) by (bit_vector)
        requires
            k < 8,
    ;
    if other != key {
        assert((state | (1u8 << k)) & (1u8 << o) == state & (1u8 << o)) by (bit_vector)
            requires
                k < 8,
                o < 8,
                k != o,
        ;
        assert((state & !(1u8 << k)) & (1u8 << o) == state & (1u8 << o)) by (bit_vector)
            requires
                k < 8,
                o < 8,
                k != o,
        ;
    }
}

impl Key {
    /// The place of the key's bit in the state byte.
    pub fn bit(self) -> (bit: u8)
        ensures
            bit == key_bit(self),
            bit < 8,
    {
        match self {
            Key::Left => 7,
            Key::Up => 6,
            Key::Down => 5,
            Key::Shift => 4,
            Key::Play => 3,
            Key::Right => 2,
            Key::Z => 1,
            Key::X => 0,
        }
    }
}

/// Keeps the state of the keys.
pub struct InputProcessor {
    key_state: u8,
}

impl View for InputProcessor {
    type V = u8;

    closed spec fn view(&self) -> u8 {
        self.key_state
    }
}

impl InputProcessor {
    /// A processor with every key up.
    pub fn new() -> (processor: Self)
        ensures
            processor@ == 0,
    {
        InputProcessor { key_state: 0 }
    }

    /// The state byte.
    pub fn key_state(&self) -> (state: u8)
        ensures
            state == self@,
    {
        self.key_state
    }

    /// Takes in that a key went down or up. Where that changes the state
    /// byte, the message for the device is returned; a key that is held,
    /// or released twice, sends nothing.
    pub fn process_key(&mut self, key: Key, down: bool) -> (message: Option<Vec<u8>>)
        ensures
            final(self)@ == key_state_after(old(self)@, key, down),
            match message {
                Some(bytes) => final(self)@ != old(self)@ && bytes@ == key_message(final(self)@),
                None => final(self)@ == old(self)@,
            },
    {
        let mask: u8 = 1u8 << key.bit();
        let new_state = if down {
            self.key_state | mask
        } else {
            self.key_state & !mask
        };
        if new_state == self.key_state {
            return None;
        }
        self.key_state = new_state;
        let mut bytes: Vec<u8> = Vec::new();
        bytes.push(KEYBOARD_COMMAND);
        bytes.push(new_state);
        Some(bytes)
    }
}

} // verus!
