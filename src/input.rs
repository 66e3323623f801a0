//! The per-player input bitmask and its decoding into directional intents.

use vstd::prelude::*;

verus! {

/// Bit set while the "up" direction is held.
pub const INPUT_UP: u8 = 1;

/// Bit set while the "down" direction is held.
pub const INPUT_DOWN: u8 = 2;

/// Bit set while the "left" direction is held.
pub const INPUT_LEFT: u8 = 4;

/// Bit set while the "right" direction is held.
pub const INPUT_RIGHT: u8 = 8;

/// One player's input for one frame, as it travels over the network.
#[derive(Clone, Copy, PartialEq, Eq, Structural, Debug)]
pub struct BoxInput {
    pub inp: u8,
}

/// The four directional intents carried by an input bitmask.
#[derive(Clone, Copy, PartialEq, Eq, Structural, Debug)]
pub struct Intent {
    pub up: bool,
    pub down: bool,
    pub left: bool,
    pub right: bool,
}

/// Whether bit `mask` is set in `inp`.
pub open spec fn has_bit(inp: u8, mask: u8) -> bool {
    inp & mask != 0
}

/// The intents that a bitmask stands for; bits above the low four are ignored.
pub open spec fn intent_of(inp: u8) -> Intent {
    Intent {
        up: has_bit(inp, INPUT_UP),
        down: has_bit(inp, INPUT_DOWN),
        left: has_bit(inp, INPUT_LEFT),
        right: has_bit(inp, INPUT_RIGHT),
    }
}

/// The bitmask with exactly the bits of the held directions set.
pub open spec fn bits_of(up: bool, down: bool, left: bool, right: bool) -> u8 {
    ((if up { INPUT_UP } else { 0u8 }) | (if down { INPUT_DOWN } else { 0u8 }) | (if left {
        INPUT_LEFT
    } else {
        0u8
    }) | (if right { INPUT_RIGHT } else { 0u8 })) as u8
}

/// Builds the input of one frame from which directions are held.
pub fn input(up: bool, down: bool, left: bool, right: bool) -> (r: BoxInput)
    ensures
        r.inp == bits_of(up, down, left, right),
        r.inp < 16,
        intent_of(r.inp) == (Intent { up, down, left, right }),
{
    let u: u8 = if up { INPUT_UP } else { 0 };
    let d: u8 = if down { INPUT_DOWN } else { 0 };
    let l: u8 = if left { INPUT_LEFT } else { 0 };
    let rt: u8 = if right { INPUT_RIGHT } else { 0 };
    let inp: u8 = u | d | l | rt;
    assert(inp == bits_of(up, down, left, right)) by (bit_vector)
        requires
            inp == ((if up { 1u8 } else { 0u8 }) | (if down { 2u8 } else { 0u8 }) | (if left {
                4u8
            } else {
                0u8
            }) | (if right { 8u8 } else { 0u8 })),
    ;
    assert(inp < 16 && ((inp & 1 != 0) == up) && ((inp & 2 != 0) == down) && ((inp & 4 != 0)
        == left) && ((inp & 8 != 0) == right)) by (bit_vector)
        requires
            inp == ((if up { 1u8 } else { 0u8 }) | (if down { 2u8 } else { 0u8 }) | (if left {
                4u8
            } else {
                0u8
            }) | (if right { 8u8 } else { 0u8 })),
    ;
    BoxInput { inp }
}

/// Decodes a bitmask into its four directional intents. Every bitmask is
/// accepted, contradictory ones included.
pub fn decode(inp: u8) -> (r: Intent)
    ensures
        r == intent_of(inp),
{
    Intent {
        up: inp & INPUT_UP != 0,
        down: inp & INPUT_DOWN != 0,
        left: inp & INPUT_LEFT != 0,
        right: inp & INPUT_RIGHT != 0,
    }
}

} // verus!
