//! Saturn System Control Unit: interrupt status and mask, DMA start factors
//! and the two H-blank timers.
use vstd::prelude::*;
use vstd::arithmetic::power2::pow2;
use crate::bytes::{be16, be32, be16_at, be32_at, be32_byte, be32_byte_of, put_be32, with_be32};

verus! {

/// Size of the SCU register file in bytes.
pub const SCU_REGS_SIZE: usize = 0xd0;
/// Master SH-2 clock in Hz.
pub const SH2_HZ: u64 = 28_636_360;
pub const FRAME_RATE_NUM: u64 = 60_000;
pub const FRAME_RATE_DEN: u64 = 1_001;
pub const NTSC_TOTAL_LINES: u64 = 263;
/// Phase units that make up one H-blank: `SH2_HZ * FRAME_RATE_DEN`.
pub const HBLANK_THRESHOLD: u64 = 28_664_996_360;
/// Phase units added per SH-2 cycle: `FRAME_RATE_NUM * NTSC_TOTAL_LINES`.
pub const HBLANK_PHASE_PER_CYCLE: u64 = 15_780_000;

/// One DMA transfer that the SCU hands to the bus.
#[derive(Clone, Copy, Debug, PartialEq, Eq)]
pub struct ScuDmaRequest {
    pub source: u32,
    pub destination: u32,
    pub count: u32,
    pub source_step: u32,
    pub destination_step: u32,
    pub indirect: bool,
    pub read_update: bool,
    pub write_update: bool,
}

pub struct SaturnScu {
    pub regs: Vec<u8>,
    pub irq_status: u32,
    pub irq_mask: u32,
    pub dma_pending: [bool; 3],
    pub hblank_phase: u64,
    pub timer0_counter: u16,
    pub timer1_countdown: u32,
    pub timer1_armed: bool,
}

/// The mathematical state of the SCU.
#[verifier::ext_equal]
pub struct ScuModel {
    pub regs: Seq<u8>,
    pub irq_status: u32,
    pub irq_mask: u32,
    pub dma_pending: Seq<bool>,
    pub hblank_phase: u64,
    pub timer0_counter: u16,
    pub timer1_countdown: u32,
    pub timer1_armed: bool,
}

impl View for SaturnScu {
    type V = ScuModel;

    open spec fn view(&self) -> ScuModel {
        ScuModel {
            regs: self.regs@,
            irq_status: self.irq_status,
            irq_mask: self.irq_mask,
            dma_pending: self.dma_pending@,
            hblank_phase: self.hblank_phase,
            timer0_counter: self.timer0_counter,
            timer1_countdown: self.timer1_countdown,
            timer1_armed: self.timer1_armed,
        }
    }
}

/// The long word containing `offset` (offsets are rounded down to a multiple of four).
pub open spec fn reg32_of(regs: Seq<u8>, offset: int) -> u32 {
    be32_at(regs, offset - offset % 4)
}

/// Interrupt level for each SCU status bit; level 0 means the source never interrupts.
pub open spec fn scu_level(bit: int) -> u8 {
    if bit == 0 { 15 }
    else if bit == 1 { 14 }
    else if bit == 2 { 13 }
    else if bit == 3 { 12 }
    else if bit == 4 { 11 }
    else if bit == 5 { 10 }
    else if bit == 6 { 9 }
    else if bit == 7 || bit == 8 { 8 }
    else if bit == 9 || bit == 10 { 6 }
    else if bit == 11 { 5 }
    else if bit == 12 { 3 }
    else if bit == 13 { 2 }
    else if 16 <= bit <= 19 { 7 }
    else if 20 <= bit <= 23 { 4 }
    else if 24 <= bit <= 31 { 1 }
    else { 0 }
}

/// Index of the lowest set bit of a nonzero value.
pub open spec fn lowest_set_bit(v: u32) -> nat
    decreases v,
{
    if v == 0 || v % 2 == 1 {
        0
    } else {
        1 + lowest_set_bit(v / 2)
    }
}

impl ScuModel {
    pub open spec fn wf(self) -> bool {
        self.regs.len() == SCU_REGS_SIZE && self.dma_pending.len() == 3
    }

    pub open spec fn with_pending(self, pending: Seq<bool>) -> ScuModel {
        ScuModel { dma_pending: pending, ..self }
    }

    pub open spec fn with_phase(self, phase: u64) -> ScuModel {
        ScuModel { hblank_phase: phase, ..self }
    }

    pub open spec fn reg32(self, offset: int) -> u32 {
        reg32_of(self.regs, offset)
    }

    pub open spec fn dma_enabled(self, channel: int) -> bool {
        0 <= channel < 3 && self.reg32(channel * 0x20 + 0x10) & 0x0100 != 0
    }

    pub open spec fn dma_start_factor(self, channel: int) -> u8 {
        if channel >= 3 {
            7
        } else {
            (self.reg32(channel * 0x20 + 0x14) % 8) as u8
        }
    }

    /// Bit 5 of nibble `channel` reports a pending DMA on that channel.
    pub open spec fn dma_status(self) -> u32 {
        ((if self.dma_pending[0] { 0x20int } else { 0 }) + (if self.dma_pending[1] {
            0x200int
        } else {
            0
        }) + (if self.dma_pending[2] { 0x2000int } else { 0 })) as u32
    }

    /// The state after a start event: every enabled channel whose start
    /// factor is `event` becomes pending.
    pub open spec fn after_dma_event(self, event: u8) -> ScuModel {
        ScuModel {
            dma_pending: Seq::new(
                3,
                |c: int| self.dma_pending[c] || (self.dma_enabled(c) && self.dma_start_factor(c) == event),
            ),
            ..self
        }
    }

    pub open spec fn after_raise(self, bit: u8) -> ScuModel {
        ScuModel {
            irq_status: self.irq_status | (1u32 << (if bit > 31 { 31u8 } else { bit })),
            ..self
        }
    }

    pub open spec fn timers_enabled(self) -> bool {
        be16_at(self.regs, 0x9a) & 1 != 0
    }

    pub open spec fn timer1_mode(self) -> bool {
        be16_at(self.regs, 0x9a) & 0x0100 != 0
    }

    pub open spec fn timer0_compare(self) -> u16 {
        (self.reg32(0x90) % 0x400) as u16
    }

    pub open spec fn timer1_set(self) -> u16 {
        (self.reg32(0x94) % 0x200) as u16
    }

    /// Timer 1 counts down `4 * set` cycles; a zero setting fires at once.
    pub open spec fn after_arm_timer1(self) -> ScuModel {
        if self.timer1_set() == 0 {
            ScuModel {
                timer1_countdown: 0,
                timer1_armed: false,
                ..self.after_dma_event(4).after_raise(4)
            }
        } else {
            ScuModel {
                timer1_countdown: (self.timer1_set() * 4) as u32,
                timer1_armed: true,
                ..self
            }
        }
    }

    pub open spec fn after_vblank_out(self) -> ScuModel {
        ScuModel { timer0_counter: 0, ..self.after_dma_event(1).after_raise(1) }
    }

    pub open spec fn after_vblank_in(self) -> ScuModel {
        self.after_dma_event(0).after_raise(0)
    }

    pub open spec fn timer0_hit(self) -> bool {
        self.timer0_compare() & 0x0200 == 0 && self.timer0_counter == self.timer0_compare() % 0x200
    }

    pub open spec fn after_hblank_in(self) -> ScuModel {
        let s1 = self.after_dma_event(2).after_raise(2);
        let s2 = if self.timers_enabled() && self.timer0_hit() {
            s1.after_dma_event(3).after_raise(3)
        } else {
            s1
        };
        let s3 = if self.timers_enabled() && (self.timer0_hit() || !self.timer1_mode()) {
            s2.after_arm_timer1()
        } else {
            s2
        };
        ScuModel { timer0_counter: ((self.timer0_counter as int + 1) % 0x200) as u16, ..s3 }
    }

    pub open spec fn after_hblanks(self, n: nat) -> ScuModel
        decreases n,
    {
        if n == 0 {
            self
        } else {
            self.after_hblank_in().after_hblanks((n - 1) as nat)
        }
    }

    /// Timer 1 fires once its countdown is used up.
    pub open spec fn after_timer1_cycles(self, cycles: u32) -> ScuModel {
        if !self.timer1_armed {
            self
        } else if self.timer1_countdown <= cycles {
            ScuModel {
                timer1_countdown: 0,
                timer1_armed: false,
                ..self.after_dma_event(4).after_raise(4)
            }
        } else {
            ScuModel { timer1_countdown: (self.timer1_countdown - cycles) as u32, ..self }
        }
    }

    /// The H-blank phase after `cycles` SH-2 cycles, before whole lines are taken out.
    pub open spec fn phase_total(self, cycles: u32) -> int {
        let added = cycles as int * HBLANK_PHASE_PER_CYCLE as int;
        if self.hblank_phase as int + added > u64::MAX as int {
            u64::MAX as int
        } else {
            self.hblank_phase as int + added
        }
    }

    /// The state after `cycles` SH-2 cycles: timer 1 runs down, then one
    /// H-blank is raised for each whole line of phase.
    pub open spec fn after_tick_timing(self, cycles: u32) -> ScuModel {
        let total = self.phase_total(cycles);
        let timed = ScuModel { hblank_phase: total as u64, ..self.after_timer1_cycles(cycles) };
        ScuModel {
            hblank_phase: (total % HBLANK_THRESHOLD as int) as u64,
            ..timed.after_hblanks((total / HBLANK_THRESHOLD as int) as nat)
        }
    }

    /// The pending, unmasked source with the lowest bit, as (level, vector).
    pub open spec fn interrupt(self) -> Option<(u8, u8)> {
        let pending = self.irq_status & !self.irq_mask;
        if pending == 0 {
            None
        } else {
            let bit = lowest_set_bit(pending) as int;
            if scu_level(bit) == 0 {
                None
            } else {
                Some((scu_level(bit), (0x40 + bit) as u8))
            }
        }
    }

    /// The byte a host read at `offset` returns.
    pub open spec fn read8(self, offset: int) -> u8 {
        if 0x5c <= offset <= 0x5f {
            be32_byte(self.dma_status(), offset - 0x5c)
        } else if 0x7c <= offset <= 0x7f {
            be32_byte(self.dma_status(), offset - 0x7c)
        } else if 0xa0 <= offset <= 0xa3 {
            be32_byte(self.irq_mask, offset - 0xa0)
        } else if 0xa4 <= offset <= 0xa7 {
            be32_byte(self.irq_status, offset - 0xa4)
        } else if 0xc8 <= offset <= 0xcb {
            be32_byte(4, offset - 0xc8)
        } else if offset < 0xcf {
            self.regs[offset]
        } else {
            self.regs[0xcf]
        }
    }

    /// The state after a host write of `value` at `offset`.
    pub open spec fn after_write8(self, offset: int, value: u8) -> ScuModel {
        if offset >= SCU_REGS_SIZE {
            self
        } else {
            let regs = self.regs.update(offset, value);
            let s1 = ScuModel { regs, ..self };
            let s2 = if 0xa0 <= offset <= 0xa3 {
                ScuModel { irq_mask: be32_at(regs, 0xa0), ..s1 }
            } else if 0xa4 <= offset <= 0xa7 {
                ScuModel { irq_status: s1.irq_status & !be32_at(regs, 0xa4), ..s1 }
            } else {
                s1
            };
            let s3 = if (offset == 0x9a || offset == 0x9b) && be16_at(regs, 0x9a) & 1 == 0 {
                ScuModel { timer0_counter: 0, timer1_countdown: 0, timer1_armed: false, ..s2 }
            } else {
                s2
            };
            ScuModel {
                dma_pending: Seq::new(
                    3,
                    |c: int|
                        s3.dma_pending[c] || (offset == c * 0x20 + 0x13 && s3.dma_enabled(c)
                            && s3.dma_start_factor(c) == 7 && s3.reg32(c * 0x20 + 0x10) % 2 == 1),
                ),
                ..s3
            }
        }
    }

    /// The transfer described by channel `channel`'s registers.
    pub open spec fn dma_request(self, channel: int) -> ScuDmaRequest {
        let base = channel * 0x20;
        let address_control = self.reg32(base + 0x0c);
        let mode = self.reg32(base + 0x14);
        let count_modulus: int = if channel == 0 { 0x10_0000 } else { 0x1000 };
        let raw_count = self.reg32(base + 8) as int % count_modulus;
        let destination_shift = address_control % 8;
        ScuDmaRequest {
            source: self.reg32(base) & 0x27ff_ffff,
            destination: self.reg32(base + 4) & 0x27ff_ffff,
            count: (if raw_count == 0 { count_modulus } else { raw_count }) as u32,
            source_step: if address_control & 0x0100 != 0 { 2 } else { 0 },
            destination_step: if destination_shift == 0 {
                0
            } else {
                (1u32 << destination_shift) as u32
            },
            indirect: mode & 0x0100_0000 != 0,
            read_update: mode & 0x0001_0000 != 0,
            write_update: mode & 0x0000_0100 != 0,
        }
    }

    /// The state after channel `channel` finishes a transfer.
    pub open spec fn after_complete_dma(
        self,
        channel: int,
        final_source: u32,
        final_destination: u32,
        read_update: bool,
        write_update: bool,
    ) -> ScuModel {
        let base = channel * 0x20;
        let r1 = if read_update { with_be32(self.regs, base, final_source) } else { self.regs };
        let r2 = if write_update {
            with_be32(r1, base + 4, final_destination)
        } else {
            r1
        };
        let enable = reg32_of(r2, base + 0x10) & !1u32;
        ScuModel { regs: with_be32(r2, base + 0x10, enable), ..self }.after_raise(
            (11 - channel) as u8,
        )
    }
}

/// A byte written to an ordinary register reads back unchanged; the DMA
/// status, interrupt mask and status, and version registers read computed
/// values instead.
pub proof fn scu_register_reads_back(s: ScuModel, offset: int, value: u8)
    requires
        s.wf(),
        0 <= offset < 0xcf,
        !(0x5c <= offset <= 0x5f),
        !(0x7c <= offset <= 0x7f),
        !(0xa0 <= offset <= 0xa7),
        !(0xc8 <= offset <= 0xcb),
    ensures
        s.after_write8(offset, value).read8(offset) == value,
{
}

impl SaturnScu {
    pub open spec fn wf(&self) -> bool {
        self@.wf()
    }

    /// A powered-on SCU: every source but the A-bus ones masked.
    pub fn new() -> (s: Self)
        ensures
            s.wf(),
            s@.regs == Seq::new(SCU_REGS_SIZE as nat, |i: int| 0u8),
            s.irq_status == 0,
            s.irq_mask == 0x0000_bfff,
            s.dma_pending@ == seq![false, false, false],
            s.hblank_phase == 0,
            s.timer0_counter == 0,
            s.timer1_countdown == 0,
            !s.timer1_armed,
    {
        let s = SaturnScu {
            regs: vec![0u8; SCU_REGS_SIZE],
            irq_status: 0,
            irq_mask: 0x0000_bfff,
            dma_pending: [false; 3],
            hblank_phase: 0,
            timer0_counter: 0,
            timer1_countdown: 0,
            timer1_armed: false,
        };
        assert(s@.regs =~= Seq::new(SCU_REGS_SIZE as nat, |i: int| 0u8));
        assert(s.dma_pending@ =~= seq![false, false, false]);
        s
    }

    pub fn reset(&mut self)
        ensures
            final(self).wf(),
            final(self)@.regs == Seq::new(SCU_REGS_SIZE as nat, |i: int| 0u8),
            final(self).irq_status == 0,
            final(self).irq_mask == 0x0000_bfff,
            final(self).dma_pending@ == seq![false, false, false],
            final(self).hblank_phase == 0,
            final(self).timer0_counter == 0,
            final(self).timer1_countdown == 0,
            !final(self).timer1_armed,
    {
        *self = Self::new();
    }
}


impl SaturnScu {
    /// The long word containing `offset`.
    pub fn reg32(&self, offset: usize) -> (r: u32)
        requires
            self.wf(),
            offset < SCU_REGS_SIZE,
        ensures
            r == self@.reg32(offset as int),
    {
        let offset = offset - offset % 4;
        be32(self.regs.as_slice(), offset)
    }

    pub fn dma_status(&self) -> (r: u32)
        requires
            self.wf(),
        ensures
            r == self@.dma_status(),
    {
        let mut status = 0u32;
        if self.dma_pending[0] {
            status = status + 0x20;
        }
        if self.dma_pending[1] {
            status = status + 0x200;
        }
        if self.dma_pending[2] {
            status = status + 0x2000;
        }
        status
    }

    pub fn read8(&self, offset: usize) -> (r: u8)
        requires
            self.wf(),
        ensures
            r == self@.read8(offset as int),
    {
        if 0x5c <= offset && offset <= 0x5f {
            be32_byte_of(self.dma_status(), offset - 0x5c)
        } else if 0x7c <= offset && offset <= 0x7f {
            be32_byte_of(self.dma_status(), offset - 0x7c)
        } else if 0xa0 <= offset && offset <= 0xa3 {
            be32_byte_of(self.irq_mask, offset - 0xa0)
        } else if 0xa4 <= offset && offset <= 0xa7 {
            be32_byte_of(self.irq_status, offset - 0xa4)
        } else if 0xc8 <= offset && offset <= 0xcb {
            be32_byte_of(4, offset - 0xc8)
        } else if offset < 0xcf {
            self.regs[offset]
        } else {
            self.regs[0xcf]
        }
    }

    pub fn dma_enabled(&self, channel: usize) -> (r: bool)
        requires
            self.wf(),
        ensures
            r == self@.dma_enabled(channel as int),
    {
        channel < 3 && self.reg32(channel * 0x20 + 0x10) & 0x0100 != 0
    }

    pub fn dma_start_factor(&self, channel: usize) -> (r: u8)
        requires
            self.wf(),
        ensures
            r == self@.dma_start_factor(channel as int),
    {
        if channel >= 3 {
            return 7;
        }
        (self.reg32(channel * 0x20 + 0x14) % 8) as u8
    }

    pub fn dma_event(&mut self, event: u8)
        requires
            old(self).wf(),
        ensures
            final(self)@ == old(self)@.after_dma_event(event),
    {
        let ghost start = self@;
        if self.dma_enabled(0) && self.dma_start_factor(0) == event {
            self.dma_pending[0] = true;
        }
        if self.dma_enabled(1) && self.dma_start_factor(1) == event {
            self.dma_pending[1] = true;
        }
        if self.dma_enabled(2) && self.dma_start_factor(2) == event {
            self.dma_pending[2] = true;
        }
        assert(self@ =~= start.after_dma_event(event));
    }

    pub fn raise(&mut self, bit: u8)
        ensures
            final(self)@ == old(self)@.after_raise(bit),
    {
        let shift = if bit > 31 { 31u8 } else { bit };
        self.irq_status = self.irq_status | (1u32 << shift);
        assert(self@ =~= old(self)@.after_raise(bit));
    }

    pub fn timers_enabled(&self) -> (r: bool)
        requires
            self.wf(),
        ensures
            r == self@.timers_enabled(),
    {
        be16(self.regs.as_slice(), 0x9a) & 1 != 0
    }

    pub fn timer1_mode(&self) -> (r: bool)
        requires
            self.wf(),
        ensures
            r == self@.timer1_mode(),
    {
        be16(self.regs.as_slice(), 0x9a) & 0x0100 != 0
    }

    pub fn timer0_compare(&self) -> (r: u16)
        requires
            self.wf(),
        ensures
            r == self@.timer0_compare(),
    {
        (self.reg32(0x90) % 0x400) as u16
    }

    pub fn timer1_set(&self) -> (r: u16)
        requires
            self.wf(),
        ensures
            r == self@.timer1_set(),
    {
        (self.reg32(0x94) % 0x200) as u16
    }

    pub fn arm_timer1(&mut self)
        requires
            old(self).wf(),
        ensures
            final(self)@ == old(self)@.after_arm_timer1(),
    {
        let cycles = (self.timer1_set() as u32) * 4;
        if cycles == 0 {
            self.dma_event(4);
            self.raise(4);
            self.timer1_countdown = 0;
            self.timer1_armed = false;
        } else {
            self.timer1_countdown = cycles;
            self.timer1_armed = true;
        }
        assert(self@ =~= old(self)@.after_arm_timer1());
    }

    pub fn vblank_out(&mut self)
        requires
            old(self).wf(),
        ensures
            final(self)@ == old(self)@.after_vblank_out(),
    {
        self.dma_event(1);
        self.raise(1);
        self.timer0_counter = 0;
        assert(self@ =~= old(self)@.after_vblank_out());
    }

    pub fn vblank_in(&mut self)
        requires
            old(self).wf(),
        ensures
            final(self)@ == old(self)@.after_vblank_in(),
    {
        self.dma_event(0);
        self.raise(0);
    }

    pub fn hblank_in(&mut self)
        requires
            old(self).wf(),
        ensures
            final(self)@ == old(self)@.after_hblank_in(),
    {
        let ghost start = self@;
        self.dma_event(2);
        self.raise(2);
        if self.timers_enabled() {
            let compare = self.timer0_compare();
            let timer0_hit = compare & 0x0200 == 0 && self.timer0_counter == compare % 0x200;
            assert(timer0_hit == start.timer0_hit());
            if timer0_hit {
                self.dma_event(3);
                self.raise(3);
            }
            if timer0_hit || !self.timer1_mode() {
                self.arm_timer1();
            }
        }
        self.timer0_counter = ((self.timer0_counter as u32 + 1) % 0x200) as u16;
        assert(self@ =~= start.after_hblank_in());
    }

    pub fn tick_timing(&mut self, sh_cycles: u32)
        requires
            old(self).wf(),
        ensures
            final(self)@ == old(self)@.after_tick_timing(sh_cycles),
    {
        let ghost start = self@;
        if self.timer1_armed {
            if self.timer1_countdown <= sh_cycles {
                self.timer1_countdown = 0;
                self.timer1_armed = false;
                self.dma_event(4);
                self.raise(4);
            } else {
                self.timer1_countdown = self.timer1_countdown - sh_cycles;
            }
        }
        assert(self@ =~= start.after_timer1_cycles(sh_cycles));
        assert(sh_cycles as u64 * HBLANK_PHASE_PER_CYCLE <= 0xffff_ffff * 15_780_000)
            by (nonlinear_arith)
            requires
                sh_cycles <= 0xffff_ffff,
        ;
        let added = sh_cycles as u64 * HBLANK_PHASE_PER_CYCLE;
        self.hblank_phase = self.hblank_phase.saturating_add(added);
        let ghost total = start.phase_total(sh_cycles);
        let ghost timed = ScuModel { hblank_phase: total as u64, ..start.after_timer1_cycles(sh_cycles) };
        assert(self@ =~= timed);
        let ghost mut k: nat = 0;
        while self.hblank_phase >= HBLANK_THRESHOLD
            invariant
                self.wf(),
                0 <= total <= u64::MAX,
                self.hblank_phase as int + k * HBLANK_THRESHOLD as int == total,
                self@.with_phase(total as u64) == timed.after_hblanks(k),
            decreases self.hblank_phase,
        {
            self.hblank_phase = self.hblank_phase - HBLANK_THRESHOLD;
            let ghost before = self@;
            self.hblank_in();
            proof {
                lemma_hblanks_step(timed, k);
                lemma_hblank_ignores_phase(before, total as u64);
                k = k + 1;
            }
            assert(self@.with_phase(total as u64) =~= timed.after_hblanks(k));
        }
        proof {
            vstd::arithmetic::div_mod::lemma_fundamental_div_mod_converse(
                total,
                HBLANK_THRESHOLD as int,
                k as int,
                self.hblank_phase as int,
            );
            lemma_hblanks_keep_phase(timed, k);
        }
        assert(self@ =~= start.after_tick_timing(sh_cycles));
    }

    /// The highest-priority pending interrupt as (level, vector).
    pub fn interrupt(&self) -> (r: Option<(u8, u8)>)
        ensures
            r == self@.interrupt(),
    {
        let pending = self.irq_status & !self.irq_mask;
        if pending == 0 {
            return None;
        }
        let mut rest = pending;
        let mut bit: u32 = 0;
        proof {
            vstd::arithmetic::power2::lemma2_to64();
            lemma_lowest_bit_bound(pending, 32);
        }
        while rest % 2 == 0
            invariant
                rest != 0,
                bit as int + lowest_set_bit(rest) == lowest_set_bit(pending),
                lowest_set_bit(pending) < 32,
            decreases rest,
        {
            rest = rest / 2;
            bit = bit + 1;
        }
        let level = level_of_bit(bit);
        if level == 0 {
            None
        } else {
            Some((level, (0x40 + bit) as u8))
        }
    }

    /// Hands out the pending transfer of `channel` and clears its pending flag.
    pub fn take_dma(&mut self, channel: usize) -> (r: Option<ScuDmaRequest>)
        requires
            old(self).wf(),
        ensures
            final(self).wf(),
            channel >= 3 || !old(self).dma_pending[channel as int] ==> r.is_none() && final(self)@
                == old(self)@,
            channel < 3 && old(self).dma_pending[channel as int] ==> r == Some(
                old(self)@.dma_request(channel as int),
            ) && final(self)@ == old(self)@.with_pending(
                old(self)@.dma_pending.update(channel as int, false),
            ),
    {
        if channel >= 3 || !self.dma_pending[channel] {
            return None;
        }
        self.dma_pending[channel] = false;
        let base = channel * 0x20;
        let address_control = self.reg32(base + 0x0c);
        let mode = self.reg32(base + 0x14);
        let count_modulus: u32 = if channel == 0 { 0x10_0000 } else { 0x1000 };
        let raw_count = self.reg32(base + 8) % count_modulus;
        let count = if raw_count == 0 { count_modulus } else { raw_count };
        let destination_shift = address_control % 8;
        let destination_step = if destination_shift == 0 {
            0
        } else {
            1u32 << destination_shift
        };
        let request = ScuDmaRequest {
            source: self.reg32(base) & 0x27ff_ffff,
            destination: self.reg32(base + 4) & 0x27ff_ffff,
            count,
            source_step: if address_control & 0x0100 != 0 { 2 } else { 0 },
            destination_step,
            indirect: mode & 0x0100_0000 != 0,
            read_update: mode & 0x0001_0000 != 0,
            write_update: mode & 0x0000_0100 != 0,
        };
        Some(request)
    }

    /// Writes back the final addresses a transfer reached, clears the
    /// channel's enable bit and raises its end interrupt.
    pub fn complete_dma(
        &mut self,
        channel: usize,
        final_source: u32,
        final_destination: u32,
        read_update: bool,
        write_update: bool,
    )
        requires
            old(self).wf(),
        ensures
            final(self).wf(),
            channel >= 3 ==> final(self)@ == old(self)@,
            channel < 3 ==> final(self)@ == old(self)@.after_complete_dma(
                channel as int,
                final_source,
                final_destination,
                read_update,
                write_update,
            ),
    {
        if channel >= 3 {
            return;
        }
        let base = channel * 0x20;
        if read_update {
            put_be32(self.regs.as_mut_slice(), base, final_source);
        }
        if write_update {
            put_be32(self.regs.as_mut_slice(), base + 4, final_destination);
        }
        let enable = self.reg32(base + 0x10) & !1u32;
        put_be32(self.regs.as_mut_slice(), base + 0x10, enable);
        self.raise((11 - channel) as u8);
    }

    pub fn write8(&mut self, offset: usize, value: u8)
        requires
            old(self).wf(),
        ensures
            final(self).wf(),
            final(self)@ == old(self)@.after_write8(offset as int, value),
    {
        if offset >= SCU_REGS_SIZE {
            return;
        }
        self.regs.set(offset, value);
        if 0xa0 <= offset && offset <= 0xa3 {
            self.irq_mask = be32(self.regs.as_slice(), 0xa0);
        } else if 0xa4 <= offset && offset <= 0xa7 {
            let clear = be32(self.regs.as_slice(), 0xa4);
            self.irq_status = self.irq_status & !clear;
        }
        if (offset == 0x9a || offset == 0x9b) && be16(self.regs.as_slice(), 0x9a) & 1 == 0 {
            self.timer0_counter = 0;
            self.timer1_countdown = 0;
            self.timer1_armed = false;
        }
        let ghost mid = self@;
        let mut channel: usize = 0;
        while channel < 3
            invariant
                self.wf(),
                channel <= 3,
                self@.regs == mid.regs,
                forall|c: int|
                    0 <= c < 3 ==> #[trigger] self@.dma_pending[c] == (mid.dma_pending[c] || (c
                        < channel && offset == c * 0x20 + 0x13 && mid.dma_enabled(c)
                        && mid.dma_start_factor(c) == 7 && mid.reg32(c * 0x20 + 0x10) % 2 == 1)),
                self@ == mid.with_pending(self@.dma_pending),
            decreases 3 - channel,
        {
            let base = channel * 0x20;
            if offset == base + 0x13 && self.dma_enabled(channel) && self.dma_start_factor(channel)
                == 7 && self.reg32(base + 0x10) % 2 == 1 {
                self.dma_pending[channel] = true;
            }
            channel = channel + 1;
        }
        assert(self@ =~= old(self)@.after_write8(offset as int, value));
    }
}

/// Interrupt level of an SCU status bit.
fn level_of_bit(bit: u32) -> (r: u8)
    ensures
        r == scu_level(bit as int),
{
    if bit == 0 { 15 }
    else if bit == 1 { 14 }
    else if bit == 2 { 13 }
    else if bit == 3 { 12 }
    else if bit == 4 { 11 }
    else if bit == 5 { 10 }
    else if bit == 6 { 9 }
    else if bit == 7 || bit == 8 { 8 }
    else if bit == 9 || bit == 10 { 6 }
    else if bit == 11 { 5 }
    else if bit == 12 { 3 }
    else if bit == 13 { 2 }
    else if 16 <= bit && bit <= 19 { 7 }
    else if 20 <= bit && bit <= 23 { 4 }
    else if 24 <= bit && bit <= 31 { 1 }
    else { 0 }
}

proof fn lemma_lowest_bit_bound(v: u32, n: nat)
    requires
        v != 0,
        v < pow2(n),
    ensures
        lowest_set_bit(v) < n,
    decreases n,
{
    if n == 0 {
        vstd::arithmetic::power2::lemma2_to64();
    } else {
        vstd::arithmetic::power2::lemma_pow2_unfold(n);
        if v % 2 == 0 {
            lemma_lowest_bit_bound(v / 2, (n - 1) as nat);
        }
    }
}

proof fn lemma_hblanks_step(s: ScuModel, k: nat)
    ensures
        s.after_hblanks(k + 1) == s.after_hblanks(k).after_hblank_in(),
    decreases k,
{
    assert(s.after_hblanks(k + 1) == s.after_hblank_in().after_hblanks(k));
    if k > 0 {
        lemma_hblanks_step(s.after_hblank_in(), (k - 1) as nat);
        assert(s.after_hblanks(k) == s.after_hblank_in().after_hblanks((k - 1) as nat));
    } else {
        assert(s.after_hblank_in().after_hblanks(0) == s.after_hblank_in());
    }
}

proof fn lemma_hblank_ignores_phase(s: ScuModel, phase: u64)
    ensures
        s.after_hblank_in().with_phase(phase) =~= s.with_phase(phase).after_hblank_in(),
{
    let t = s.with_phase(phase);
    assert(t.after_dma_event(2).after_raise(2) =~= s.after_dma_event(2).after_raise(2).with_phase(phase));
    let s1 = s.after_dma_event(2).after_raise(2);
    let t1 = t.after_dma_event(2).after_raise(2);
    assert(t1.after_dma_event(3).after_raise(3) =~= s1.after_dma_event(3).after_raise(3).with_phase(phase));
    let s2 = if s.timers_enabled() && s.timer0_hit() { s1.after_dma_event(3).after_raise(3) } else { s1 };
    let t2 = if t.timers_enabled() && t.timer0_hit() { t1.after_dma_event(3).after_raise(3) } else { t1 };
    assert(t2 =~= s2.with_phase(phase));
    assert(t2.after_arm_timer1() =~= s2.after_arm_timer1().with_phase(phase)) by {
        assert(t2.after_dma_event(4).after_raise(4) =~= s2.after_dma_event(4).after_raise(4).with_phase(phase));
    }
    let s3 = if s.timers_enabled() && (s.timer0_hit() || !s.timer1_mode()) { s2.after_arm_timer1() } else { s2 };
    let t3 = if t.timers_enabled() && (t.timer0_hit() || !t.timer1_mode()) { t2.after_arm_timer1() } else { t2 };
    assert(t3 =~= s3.with_phase(phase));
    assert(s.after_hblank_in() == ScuModel { timer0_counter: ((s.timer0_counter as int + 1) % 0x200) as u16, ..s3 });
    assert(t.after_hblank_in() == ScuModel { timer0_counter: ((s.timer0_counter as int + 1) % 0x200) as u16, ..t3 });
}

proof fn lemma_hblanks_keep_phase(s: ScuModel, k: nat)
    ensures
        s.after_hblanks(k).hblank_phase == s.hblank_phase,
    decreases k,
{
    if k > 0 {
        lemma_hblanks_keep_phase(s.after_hblank_in(), (k - 1) as nat);
    }
}

impl Default for SaturnScu {
    fn default() -> (s: Self)
        ensures
            s.wf(),
            s@.regs == Seq::new(SCU_REGS_SIZE as nat, |i: int| 0u8),
            s.irq_status == 0,
            s.irq_mask == 0x0000_bfff,
            s.dma_pending@ == seq![false, false, false],
            s.hblank_phase == 0,
            s.timer0_counter == 0,
            s.timer1_countdown == 0,
            !s.timer1_armed,
    {
        Self::new()
    }
}

} // verus!
