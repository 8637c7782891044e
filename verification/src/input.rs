//! The shared controller state handed to every machine: one 64-bit button
//! word per player.
use vstd::prelude::*;

verus! {

pub const UP: u64 = 1 << 0;
pub const DOWN: u64 = 1 << 1;
pub const LEFT: u64 = 1 << 2;
pub const RIGHT: u64 = 1 << 3;
pub const FACE_SOUTH: u64 = 1 << 4;
pub const FACE_EAST: u64 = 1 << 5;
pub const FACE_WEST: u64 = 1 << 6;
pub const FACE_NORTH: u64 = 1 << 7;
pub const L1: u64 = 1 << 8;
pub const R1: u64 = 1 << 9;
pub const L2: u64 = 1 << 10;
pub const R2: u64 = 1 << 11;
pub const SELECT: u64 = 1 << 12;
pub const START: u64 = 1 << 13;

/// Buttons held by each of the four players.
pub struct InputState {
    pub buttons: [u64; 4],
}

impl Default for InputState {
    fn default() -> (s: Self)
        ensures
            forall|p: int| 0 <= p < 4 ==> s.buttons[p] == 0,
    {
        InputState { buttons: [0u64; 4] }
    }
}

} // verus!
