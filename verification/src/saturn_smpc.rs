//! Saturn System Manager and Peripheral Control: command register, CPU
//! power control and the INTBACK controller report.
use vstd::prelude::*;
use crate::input::{InputState, UP, DOWN, LEFT, RIGHT, START, FACE_SOUTH, FACE_EAST, FACE_NORTH,
    FACE_WEST, L1, R1};

verus! {

pub const SMPC_REGS_SIZE: usize = 0x80;

pub struct SaturnSmpc {
    pub regs: Vec<u8>,
    pub slave_on: bool,
    pub sound_on: bool,
    pub interrupt_pending: bool,
    pub pad: [u16; 2],
}

/// The active-low digital pad word for a player's buttons: each held button
/// clears its bit (Up, Down, Left, Right, Start, A, B, C, X, Y, Z/R in bits 0..=10).
pub open spec fn saturn_pad_word(buttons: u64) -> u16 {
    (0xffff - ((if buttons & UP != 0 { 0x0001int } else { 0 }) + (if buttons & DOWN != 0 {
        0x0002int
    } else {
        0
    }) + (if buttons & LEFT != 0 { 0x0004int } else { 0 }) + (if buttons & RIGHT != 0 {
        0x0008int
    } else {
        0
    }) + (if buttons & START != 0 { 0x0010int } else { 0 }) + (if buttons & FACE_SOUTH != 0 {
        0x0020int
    } else {
        0
    }) + (if buttons & FACE_EAST != 0 { 0x0040int } else { 0 }) + (if buttons & FACE_NORTH != 0 {
        0x0080int
    } else {
        0
    }) + (if buttons & FACE_WEST != 0 { 0x0100int } else { 0 }) + (if buttons & L1 != 0 {
        0x0200int
    } else {
        0
    }) + (if buttons & R1 != 0 { 0x0400int } else { 0 }))) as u16
}

/// Register file after a command is issued: the command byte is latched,
/// the status reads busy-clear, and INTBACK (0x10) reports both pads.
pub open spec fn smpc_command_regs(regs: Seq<u8>, value: u8, pad: Seq<u16>) -> Seq<u8> {
    let r1 = regs.update(0x1f, value).update(0x61, 0x40);
    let r2 = if value == 0x10 {
        r1.update(0x21, 0x10).update(0x23, (pad[0] / 0x100) as u8).update(
            0x25,
            (pad[0] % 0x100) as u8,
        ).update(0x27, (pad[1] / 0x100) as u8).update(0x29, (pad[1] % 0x100) as u8)
    } else {
        r1
    };
    r2.update(0x63, 0)
}

impl SaturnSmpc {
    pub open spec fn wf(&self) -> bool {
        self.regs@.len() == SMPC_REGS_SIZE
    }

    pub fn new() -> (s: Self)
        ensures
            s.wf(),
            s.regs@ == Seq::new(SMPC_REGS_SIZE as nat, |i: int| 0u8),
            !s.slave_on,
            !s.sound_on,
            !s.interrupt_pending,
            s.pad@ == seq![0xffffu16, 0xffffu16],
    {
        let s = SaturnSmpc {
            regs: vec![0u8; SMPC_REGS_SIZE],
            slave_on: false,
            sound_on: false,
            interrupt_pending: false,
            pad: [0xffff; 2],
        };
        assert(s.regs@ =~= Seq::new(SMPC_REGS_SIZE as nat, |i: int| 0u8));
        assert(s.pad@ =~= seq![0xffffu16, 0xffffu16]);
        s
    }

    pub fn reset(&mut self)
        ensures
            final(self).wf(),
            final(self).regs@ == Seq::new(SMPC_REGS_SIZE as nat, |i: int| 0u8),
            !final(self).slave_on,
            !final(self).sound_on,
            !final(self).interrupt_pending,
            final(self).pad@ == seq![0xffffu16, 0xffffu16],
    {
        *self = Self::new();
    }

    /// Latches the pads of players one and two.
    pub fn set_input(&mut self, input: &InputState)
        ensures
            final(self).regs == old(self).regs,
            final(self).slave_on == old(self).slave_on,
            final(self).sound_on == old(self).sound_on,
            final(self).interrupt_pending == old(self).interrupt_pending,
            final(self).pad[0] == saturn_pad_word(input.buttons[0]),
            final(self).pad[1] == saturn_pad_word(input.buttons[1]),
    {
        self.pad[0] = pad_word(input.buttons[0]);
        self.pad[1] = pad_word(input.buttons[1]);
    }

    /// Executes an SMPC command.
    pub fn command(&mut self, value: u8)
        requires
            old(self).wf(),
        ensures
            final(self).wf(),
            final(self).regs@ == smpc_command_regs(old(self).regs@, value, old(self).pad@),
            final(self).pad == old(self).pad,
            final(self).interrupt_pending,
            final(self).slave_on == (if value == 0x02 {
                true
            } else if value == 0x03 || value == 0x0d {
                false
            } else {
                old(self).slave_on
            }),
            final(self).sound_on == (if value == 0x06 {
                true
            } else if value == 0x07 || value == 0x0d {
                false
            } else {
                old(self).sound_on
            }),
    {
        self.regs.set(0x1f, value);
        self.regs.set(0x61, 0x40);
        if value == 0x02 {
            self.slave_on = true;
        } else if value == 0x03 {
            self.slave_on = false;
        } else if value == 0x06 {
            self.sound_on = true;
        } else if value == 0x07 {
            self.sound_on = false;
        } else if value == 0x0d {
            self.slave_on = false;
            self.sound_on = false;
        } else if value == 0x10 {
            let p1 = self.pad[0];
            let p2 = self.pad[1];
            self.regs.set(0x21, 0x10);
            self.regs.set(0x23, (p1 / 0x100) as u8);
            self.regs.set(0x25, (p1 % 0x100) as u8);
            self.regs.set(0x27, (p2 / 0x100) as u8);
            self.regs.set(0x29, (p2 % 0x100) as u8);
        }
        self.regs.set(0x63, 0);
        self.interrupt_pending = true;
        assert(self.regs@ =~= smpc_command_regs(old(self).regs@, value, old(self).pad@));
    }

    pub fn read8(&self, offset: usize) -> (r: u8)
        requires
            self.wf(),
        ensures
            r == self.regs@[offset as int % 0x80],
    {
        self.regs[offset % 0x80]
    }

    /// A host write; writing the command register (0x1f) issues the command.
    pub fn write8(&mut self, offset: usize, value: u8)
        requires
            old(self).wf(),
        ensures
            final(self).wf(),
            offset % 0x80 != 0x1f ==> final(self).regs@ == old(self).regs@.update(
                offset as int % 0x80,
                value,
            ) && final(self).slave_on == old(self).slave_on && final(self).sound_on == old(
                self,
            ).sound_on && final(self).interrupt_pending == old(self).interrupt_pending
                && final(self).pad == old(self).pad,
            offset % 0x80 == 0x1f ==> final(self).regs@ == smpc_command_regs(
                old(self).regs@,
                value,
                old(self).pad@,
            ) && final(self).interrupt_pending && final(self).pad == old(self).pad,
            offset % 0x80 == 0x1f && value == 0x02 ==> final(self).slave_on,
            offset % 0x80 == 0x1f && (value == 0x03 || value == 0x0d) ==> !final(self).slave_on,
    {
        let offset = offset % 0x80;
        self.regs.set(offset, value);
        if offset == 0x1f {
            let ghost mid = self.regs@;
            self.command(value);
            assert(smpc_command_regs(mid, value, old(self).pad@) =~= smpc_command_regs(
                old(self).regs@,
                value,
                old(self).pad@,
            ));
        }
    }
}

/// The active-low pad word for one player.
pub fn pad_word(buttons: u64) -> (r: u16)
    ensures
        r == saturn_pad_word(buttons),
{
    let mut held: u16 = 0;
    if buttons & UP != 0 { held = held + 0x0001; }
    if buttons & DOWN != 0 { held = held + 0x0002; }
    if buttons & LEFT != 0 { held = held + 0x0004; }
    if buttons & RIGHT != 0 { held = held + 0x0008; }
    if buttons & START != 0 { held = held + 0x0010; }
    if buttons & FACE_SOUTH != 0 { held = held + 0x0020; }
    if buttons & FACE_EAST != 0 { held = held + 0x0040; }
    if buttons & FACE_NORTH != 0 { held = held + 0x0080; }
    if buttons & FACE_WEST != 0 { held = held + 0x0100; }
    if buttons & L1 != 0 { held = held + 0x0200; }
    if buttons & R1 != 0 { held = held + 0x0400; }
    0xffff - held
}

proof fn lemma_pad_bits(b0: bool, b1: bool, b2: bool, b3: bool, b4: bool, b5: bool, b6: bool, b7: bool, b8: bool, b9: bool, b10: bool, v: u16)
    by (bit_vector)
    requires
        v as int + ((if b0 { 0x1u16 } else { 0u16 }) + (if b1 { 0x2u16 } else { 0u16 }) + (if b2 { 0x4u16 } else { 0u16 }) + (if b3 { 0x8u16 } else { 0u16 }) + (if b4 { 0x10u16 } else { 0u16 }) + (if b5 { 0x20u16 } else { 0u16 }) + (if b6 { 0x40u16 } else { 0u16 }) + (if b7 { 0x80u16 } else { 0u16 }) + (if b8 { 0x100u16 } else { 0u16 }) + (if b9 { 0x200u16 } else { 0u16 }) + (if b10 { 0x400u16 } else { 0u16 })) == 0xffff,
    ensures
        (v >> 0u16) & 1 == 0 <==> b0,
        (v >> 1u16) & 1 == 0 <==> b1,
        (v >> 2u16) & 1 == 0 <==> b2,
        (v >> 3u16) & 1 == 0 <==> b3,
        (v >> 4u16) & 1 == 0 <==> b4,
        (v >> 5u16) & 1 == 0 <==> b5,
        (v >> 6u16) & 1 == 0 <==> b6,
        (v >> 7u16) & 1 == 0 <==> b7,
        (v >> 8u16) & 1 == 0 <==> b8,
        (v >> 9u16) & 1 == 0 <==> b9,
        (v >> 10u16) & 1 == 0 <==> b10,
        v >> 11u16 == 0x1f,
{
}

/// The pad word is active low and holds each button at its documented
/// bit: Up 0, Down 1, Left 2, Right 3, Start 4, A 5, B 6, C 7, X 8, Y 9,
/// Z 10. A bit is clear exactly when its button is held, and bits 11-15
/// are always set.
pub proof fn pad_word_bit_per_button(buttons: u64)
    ensures
        (saturn_pad_word(buttons) >> 0u16) & 1 == 0 <==> buttons & UP != 0,
        (saturn_pad_word(buttons) >> 1u16) & 1 == 0 <==> buttons & DOWN != 0,
        (saturn_pad_word(buttons) >> 2u16) & 1 == 0 <==> buttons & LEFT != 0,
        (saturn_pad_word(buttons) >> 3u16) & 1 == 0 <==> buttons & RIGHT != 0,
        (saturn_pad_word(buttons) >> 4u16) & 1 == 0 <==> buttons & START != 0,
        (saturn_pad_word(buttons) >> 5u16) & 1 == 0 <==> buttons & FACE_SOUTH != 0,
        (saturn_pad_word(buttons) >> 6u16) & 1 == 0 <==> buttons & FACE_EAST != 0,
        (saturn_pad_word(buttons) >> 7u16) & 1 == 0 <==> buttons & FACE_NORTH != 0,
        (saturn_pad_word(buttons) >> 8u16) & 1 == 0 <==> buttons & FACE_WEST != 0,
        (saturn_pad_word(buttons) >> 9u16) & 1 == 0 <==> buttons & L1 != 0,
        (saturn_pad_word(buttons) >> 10u16) & 1 == 0 <==> buttons & R1 != 0,
        saturn_pad_word(buttons) >> 11u16 == 0x1f,
{
    lemma_pad_bits(buttons & UP != 0, buttons & DOWN != 0, buttons & LEFT != 0, buttons & RIGHT != 0, buttons & START != 0, buttons & FACE_SOUTH != 0, buttons & FACE_EAST != 0, buttons & FACE_NORTH != 0, buttons & FACE_WEST != 0, buttons & L1 != 0, buttons & R1 != 0, saturn_pad_word(buttons));
}

/// INTBACK reports each pad word high byte first: player 1's word is
/// bytes $23 and $25 read as one big-endian word, player 2's bytes $27
/// and $29, after the status byte $10 at $21.
pub proof fn intback_reports_pad_words(regs: Seq<u8>, pad: Seq<u16>)
    requires
        regs.len() == SMPC_REGS_SIZE,
        pad.len() == 2,
    ensures
        smpc_command_regs(regs, 0x10, pad)[0x21] == 0x10,
        smpc_command_regs(regs, 0x10, pad)[0x23] as int * 0x100 + smpc_command_regs(regs, 0x10, pad)[0x25] == pad[0],
        smpc_command_regs(regs, 0x10, pad)[0x27] as int * 0x100 + smpc_command_regs(regs, 0x10, pad)[0x29] == pad[1],
{
}

impl Default for SaturnSmpc {
    fn default() -> (s: Self)
        ensures
            s.wf(),
            s.regs@ == Seq::new(SMPC_REGS_SIZE as nat, |i: int| 0u8),
            !s.slave_on,
            !s.sound_on,
            !s.interrupt_pending,
            s.pad@ == seq![0xffffu16, 0xffffu16],
    {
        Self::new()
    }
}

} // verus!
