//! Sega CD register chip: the register file shared by the main and sub CPUs,
//! word-RAM ownership, the sub-CPU reset and bus request, the interrupt
//! timer and pending sub-CPU interrupts.
use vstd::prelude::*;
use vstd::array::spec_array_update;

verus! {

pub const WORD_RAM_SIZE: usize = 0x4_0000;

pub struct SegaCdGate {
    pub regs: [u16; 0x100],
    pub pending: u8,
    pub timer_remaining: u64,
    pub sub_reset_pulse: bool,
}

/// Register byte `offset` (mirrored every 512 bytes; even bytes are high).
pub open spec fn byte_of(regs: [u16; 0x100], offset: u16) -> u8 {
    let word = regs[(offset as int % 0x200) / 2] as int;
    (if offset % 2 == 0 { word / 0x100 } else { word % 0x100 }) as u8
}

/// The register file with byte `offset` replaced by `value`.
pub open spec fn with_byte(regs: [u16; 0x100], offset: u16, value: u8) -> [u16; 0x100] {
    let i = (offset as int % 0x200) / 2;
    let word = regs[i] as int;
    spec_array_update(
        regs,
        i,
        (if offset % 2 == 0 { value as int * 0x100 + word % 0x100 } else { word / 0x100 * 0x100 + value as int }) as u16,
    )
}

/// Writing a register byte and reading it back gives the value written, and
/// every byte at another offset (within the 512-byte mirror) keeps its value.
pub proof fn byte_write_read_back(regs: [u16; 0x100], offset: u16, value: u8, other: u16)
    ensures
        byte_of(with_byte(regs, offset, value), offset) == value,
        other % 0x200 != offset % 0x200 ==> byte_of(with_byte(regs, offset, value), other) == byte_of(regs, other),
{
    let i = (offset as int % 0x200) / 2;
    let j = (other as int % 0x200) / 2;
    let w = regs[i] as int;
    let v = value as int;
    let written = with_byte(regs, offset, value);
    let nw: int = if offset % 2 == 0 { v * 0x100 + w % 0x100 } else { w / 0x100 * 0x100 + v };
    assert(0 <= nw <= 0xffff) by (nonlinear_arith)
        requires
            0 <= w <= 0xffff,
            0 <= v <= 0xff,
            nw == (if offset % 2 == 0 { v * 0x100 + w % 0x100 } else { w / 0x100 * 0x100 + v }),
    ;
    assert(written[i] == nw as u16);
    if offset % 2 == 0 {
        assert((v * 0x100 + w % 0x100) / 0x100 == v) by (nonlinear_arith)
            requires
                0 <= v <= 0xff,
                0 <= w,
        ;
        assert((v * 0x100 + w % 0x100) % 0x100 == w % 0x100) by (nonlinear_arith)
            requires
                0 <= v <= 0xff,
                0 <= w,
        ;
    } else {
        assert((w / 0x100 * 0x100 + v) % 0x100 == v) by (nonlinear_arith)
            requires
                0 <= v <= 0xff,
                0 <= w,
        ;
        assert((w / 0x100 * 0x100 + v) / 0x100 == w / 0x100) by (nonlinear_arith)
            requires
                0 <= v <= 0xff,
                0 <= w,
        ;
    }
    if other % 0x200 != offset % 0x200 && j != i {
        assert(written[j] == regs[j]);
    }
}

impl SegaCdGate {
    pub open spec fn byte_spec(&self, offset: u16) -> u8 {
        byte_of(self.regs, offset)
    }

    pub open spec fn memory_mode_spec(&self) -> u8 {
        self.byte_spec(0x03)
    }

    pub open spec fn one_meg_spec(&self) -> bool {
        self.memory_mode_spec() & 0x04 != 0
    }

    pub open spec fn main_has_word_ram_spec(&self) -> bool {
        self.one_meg_spec() || self.memory_mode_spec() & 0x01 != 0
    }

    pub open spec fn sub_has_word_ram_spec(&self) -> bool {
        self.one_meg_spec() || !self.main_has_word_ram_spec()
    }

    /// The register chip at power-on: the sub CPU held in bus request, main
    /// word-RAM ownership, and the documented reset values elsewhere.
    pub fn new() -> (g: Self)
        ensures
            g.regs[0] == 0x0002 && g.regs[1] == 0x0001 && g.regs[4] == 0xffff && g.regs[5] == 0xffff,
            g.regs[0x1b] == 0x0100 && g.regs[0x20] == 0x000f,
            forall|i: int| 0x21 <= i <= 0x25 ==> g.regs[i] == 0xffff,
            forall|i: int|
                0 <= i < 0x100 && i != 0 && i != 1 && i != 4 && i != 5 && i != 0x1b && !(0x20 <= i <= 0x25)
                    ==> g.regs[i] == 0,
            g.pending == 0,
            g.timer_remaining == 0,
            !g.sub_reset_pulse,
    {
        let mut regs = [0u16; 0x100];
        regs[0x00] = 0x0002;
        regs[0x01] = 0x0001;
        regs[0x04] = 0xffff;
        regs[0x05] = 0xffff;
        regs[0x1b] = 0x0100;
        regs[0x20] = 0x000f;
        regs[0x21] = 0xffff;
        regs[0x22] = 0xffff;
        regs[0x23] = 0xffff;
        regs[0x24] = 0xffff;
        regs[0x25] = 0xffff;
        SegaCdGate { regs, pending: 0, timer_remaining: 0, sub_reset_pulse: false }
    }

    /// Register byte `offset`.
    pub fn byte(&self, offset: u16) -> (r: u8)
        ensures
            r == self.byte_spec(offset),
    {
        let word = self.regs[((offset % 0x200) / 2) as usize];
        (if offset % 2 == 0 { word / 0x100 } else { word % 0x100 }) as u8
    }

    /// Replaces register byte `offset`.
    pub fn set_byte(&mut self, offset: u16, value: u8)
        ensures
            final(self).regs == with_byte(old(self).regs, offset, value),
            final(self).pending == old(self).pending,
            final(self).timer_remaining == old(self).timer_remaining,
            final(self).sub_reset_pulse == old(self).sub_reset_pulse,
    {
        let i = ((offset % 0x200) / 2) as usize;
        let word = self.regs[i];
        self.regs[i] = if offset % 2 == 0 { value as u16 * 0x100 + word % 0x100 } else { word / 0x100 * 0x100 + value as u16 };
    }

    /// The main CPU's view after writing register byte `offset` (mirrored
    /// every 64 bytes): a rising reset bit pulses the sub CPU's reset, and a
    /// cleared reset bit forces the bus request on.
    pub open spec fn after_main_write(&self, offset: u16, value: u8) -> SegaCdGate {
        let o = (offset % 0x40) as u16;
        if o <= 1 {
            let previous = self.byte_spec(0x01);
            let written = with_byte(self.regs, o, value);
            let current = byte_of(written, 0x01);
            SegaCdGate {
                regs: if current & 0x01 == 0 { with_byte(written, 0x01, 0x02) } else { written },
                sub_reset_pulse: self.sub_reset_pulse || (previous & 0x01 == 0 && current & 0x01 != 0),
                ..*self
            }
        } else {
            SegaCdGate { regs: with_byte(self.regs, o, value), ..*self }
        }
    }

    pub fn main_write(&mut self, offset: u16, value: u8)
        ensures
            *final(self) == old(self).after_main_write(offset, value),
    {
        let offset = offset % 0x40;
        if offset <= 1 {
            let previous = self.byte(0x01);
            self.set_byte(offset, value);
            let current = self.byte(0x01);
            if previous & 0x01 == 0 && current & 0x01 != 0 {
                self.sub_reset_pulse = true;
            }
            if current & 0x01 == 0 {
                self.set_byte(0x01, 0x02);
            }
        } else {
            self.set_byte(offset, value);
        }
    }

    /// The sub CPU's view after writing register byte `offset`: the
    /// communication flags and timer go to their low bytes, the timer
    /// reloads, clearing the timer interrupt enable drops its pending
    /// request, the graphics registers keep only their defined bits, and the
    /// read-only registers ignore writes.
    pub open spec fn after_sub_write(&self, offset: u16, value: u8) -> SegaCdGate {
        let o = (offset % 0x200) as u16;
        if o == 0x0e || o == 0x0f {
            SegaCdGate { regs: with_byte(self.regs, 0x0f, value), ..*self }
        } else if 0x10 <= o <= 0x1f || o == 0x58 || o == 0x5c || o == 0x60 || o == 0x64 {
            *self
        } else if 0x20 <= o <= 0x2f {
            SegaCdGate { regs: with_byte(self.regs, o, value), ..*self }
        } else if o == 0x30 || o == 0x31 {
            SegaCdGate { regs: with_byte(self.regs, 0x31, value), timer_remaining: (value as int * 384) as u64, ..*self }
        } else if o == 0x32 || o == 0x33 {
            SegaCdGate { regs: with_byte(self.regs, 0x33, value), pending: self.pending & (0xfd | (value & 0x02)), ..*self }
        } else if o == 0x59 {
            SegaCdGate { regs: with_byte(self.regs, 0x59, value & 0x07), ..*self }
        } else if o == 0x5d {
            SegaCdGate { regs: with_byte(self.regs, 0x5d, value & 0x1f), ..*self }
        } else if o == 0x61 {
            SegaCdGate { regs: with_byte(self.regs, 0x61, value & 0x3f), ..*self }
        } else if o == 0x62 {
            SegaCdGate { regs: with_byte(self.regs, 0x62, value & 0x01), ..*self }
        } else {
            SegaCdGate { regs: with_byte(self.regs, o, value), ..*self }
        }
    }

    pub fn sub_write(&mut self, offset: u16, value: u8)
        ensures
            *final(self) == old(self).after_sub_write(offset, value),
    {
        let o = offset % 0x200;
        if o == 0x0e || o == 0x0f {
            self.set_byte(0x0f, value);
        } else if (0x10 <= o && o <= 0x1f) || o == 0x58 || o == 0x5c || o == 0x60 || o == 0x64 {
        } else if 0x20 <= o && o <= 0x2f {
            self.set_byte(o, value);
        } else if o == 0x30 || o == 0x31 {
            self.set_byte(0x31, value);
            self.timer_remaining = value as u64 * 384;
        } else if o == 0x32 || o == 0x33 {
            self.set_byte(0x33, value);
            self.pending = self.pending & (0xfd | (value & 0x02));
        } else if o == 0x59 {
            self.set_byte(0x59, value & 0x07);
        } else if o == 0x5d {
            self.set_byte(0x5d, value & 0x1f);
        } else if o == 0x61 {
            self.set_byte(0x61, value & 0x3f);
        } else if o == 0x62 {
            self.set_byte(0x62, value & 0x01);
        } else {
            self.set_byte(o, value);
        }
    }

    /// The sub CPU runs when out of reset and not bus-requested.
    pub fn sub_running(&self) -> (r: bool)
        ensures
            r == (self.byte_spec(0x01) & 0x01 != 0 && self.byte_spec(0x01) & 0x02 == 0),
    {
        let control = self.byte(0x01);
        control & 0x01 != 0 && control & 0x02 == 0
    }

    pub fn main_prg_access(&self) -> (r: bool)
        ensures
            r == (self.byte_spec(0x01) & 0x02 != 0),
    {
        self.byte(0x01) & 0x02 != 0
    }

    pub fn memory_mode(&self) -> (r: u8)
        ensures
            r == self.memory_mode_spec(),
    {
        self.byte(0x03)
    }

    /// The 128 KiB PRG-RAM bank the main CPU sees.
    pub fn prg_bank(&self) -> (r: usize)
        ensures
            r == self.memory_mode_spec() as int / 0x40 % 4,
    {
        (self.memory_mode() / 0x40 % 4) as usize
    }

    pub fn one_meg_mode(&self) -> (r: bool)
        ensures
            r == self.one_meg_spec(),
    {
        self.memory_mode() & 0x04 != 0
    }

    /// The main CPU owns word RAM in 2M mode when RET is set, and always has
    /// a bank in 1M mode.
    pub fn main_has_word_ram(&self) -> (r: bool)
        ensures
            r == self.main_has_word_ram_spec(),
    {
        self.one_meg_mode() || self.memory_mode() & 0x01 != 0
    }

    pub fn sub_has_word_ram(&self) -> (r: bool)
        ensures
            r == self.sub_has_word_ram_spec(),
    {
        self.one_meg_mode() || !self.main_has_word_ram()
    }

    /// The word-RAM byte a main-CPU address reaches: its 128 KiB bank in 1M
    /// mode, all 256 KiB in 2M mode.
    pub fn main_word_offset(&self, address: u32) -> (r: usize)
        ensures
            r == (if self.one_meg_spec() {
                (self.memory_mode_spec() as int % 2) * 0x2_0000 + address as int % 0x2_0000
            } else {
                address as int % 0x4_0000
            }),
            r < WORD_RAM_SIZE,
    {
        if self.one_meg_mode() {
            (self.memory_mode() % 2) as usize * 0x2_0000 + (address % 0x2_0000) as usize
        } else {
            (address % 0x4_0000) as usize
        }
    }

    /// The word-RAM byte a sub-CPU address reaches: the other 128 KiB bank
    /// in 1M mode.
    pub fn sub_word_offset(&self, address: u32) -> (r: usize)
        ensures
            r == (if self.one_meg_spec() {
                (1 - self.memory_mode_spec() as int % 2) * 0x2_0000 + address as int % 0x2_0000
            } else {
                address as int % 0x4_0000
            }),
            r < WORD_RAM_SIZE,
    {
        if self.one_meg_mode() {
            (1 - self.memory_mode() % 2) as usize * 0x2_0000 + (address % 0x2_0000) as usize
        } else {
            (address % 0x4_0000) as usize
        }
    }

    /// Runs the interrupt timer for `sub_cycles`: on expiry it reloads from
    /// its register (384 cycles per count) and requests level 3.
    pub fn tick(&mut self, sub_cycles: u32)
        ensures
            final(self).regs == old(self).regs,
            final(self).sub_reset_pulse == old(self).sub_reset_pulse,
            old(self).timer_remaining == 0 ==> *final(self) == *old(self),
            old(self).timer_remaining != 0 && sub_cycles >= old(self).timer_remaining ==> final(self).timer_remaining
                == old(self).byte_spec(0x31) as int * 384 && final(self).pending == old(self).pending | 0x08,
            old(self).timer_remaining != 0 && sub_cycles < old(self).timer_remaining ==> final(self).timer_remaining
                == old(self).timer_remaining - sub_cycles && final(self).pending == old(self).pending,
    {
        if self.timer_remaining == 0 {
            return;
        }
        let used = sub_cycles as u64;
        if used >= self.timer_remaining {
            self.timer_remaining = self.byte(0x31) as u64 * 384;
            self.pending = self.pending | 0x08;
        } else {
            self.timer_remaining = self.timer_remaining - used;
        }
    }

    /// The highest sub-CPU interrupt level (5 down to 1) both pending and
    /// enabled, or 0.
    pub open spec fn highest_sub_irq_spec(&self) -> u8 {
        let active = self.pending & self.byte_spec(0x33);
        if active & 0x20 != 0 {
            5
        } else if active & 0x10 != 0 {
            4
        } else if active & 0x08 != 0 {
            3
        } else if active & 0x04 != 0 {
            2
        } else if active & 0x02 != 0 {
            1
        } else {
            0
        }
    }

    pub fn highest_sub_irq(&self) -> (r: u8)
        ensures
            r == self.highest_sub_irq_spec(),
    {
        let active = self.pending & self.byte(0x33);
        if active & 0x20 != 0 {
            5
        } else if active & 0x10 != 0 {
            4
        } else if active & 0x08 != 0 {
            3
        } else if active & 0x04 != 0 {
            2
        } else if active & 0x02 != 0 {
            1
        } else {
            0
        }
    }

    /// Clears the pending request of interrupt `level` (levels above 7 clear 7).
    pub fn acknowledge_sub_irq(&mut self, level: u8)
        ensures
            final(self).pending == old(self).pending & !(1u8 << (if level > 7 { 7u8 } else { level })),
            final(self).regs == old(self).regs,
            final(self).timer_remaining == old(self).timer_remaining,
            final(self).sub_reset_pulse == old(self).sub_reset_pulse,
    {
        let l = if level > 7 { 7u8 } else { level };
        self.pending = self.pending & !(1u8 << l);
    }
}

impl Default for SegaCdGate {
    fn default() -> (g: Self)
        ensures
            g.pending == 0,
            g.timer_remaining == 0,
            !g.sub_reset_pulse,
    {
        Self::new()
    }
}

} // verus!
