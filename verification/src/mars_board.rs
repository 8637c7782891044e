//! The 32X board outside the SH-2 CPUs: SDRAM, the two framebuffers and
//! palette, the communication ports, the adapter and interrupt registers,
//! the DREQ FIFO that feeds the SH-2s from the 68000 side, the PWM unit and
//! the VDP's fill and display-buffer registers.
use vstd::prelude::*;
use std::collections::VecDeque;
use crate::sega_32x::{MarsHeader, SDRAM_SIZE, parse_error, header_of};
use crate::mars_pwm::{MarsPwm, PwmState, pwm_reset, SH2_HZ};
use crate::video::{VideoBuffer, Rgba, shows};

verus! {

/// Bytes of each framebuffer.
pub const FRAMEBUFFER_SIZE: usize = 0x2_0000;
/// The 32X picture's width.
pub const MARS_WIDTH: u32 = 320;
/// The 32X picture's height.
pub const MARS_HEIGHT: u32 = 224;
/// 68000 cycles per scan line.
pub const MAIN_CYCLES_PER_LINE: u64 = 488;
/// The Genesis 68000 clock in Hz.
pub const M68K_HZ: u64 = 7_670_454;
/// Words the DREQ FIFO holds.
pub const DREQ_FIFO_DEPTH: usize = 4;
/// Interrupt request bits, per SH-2 side.
pub const IRQ_PWM: u8 = 1;
pub const IRQ_CMD: u8 = 2;
pub const IRQ_H: u8 = 4;
pub const IRQ_V: u8 = 8;
pub const IRQ_VRES: u8 = 16;

pub struct MarsBoard {
    pub header: MarsHeader,
    pub sdram: Vec<u8>,
    pub framebuffers: Vec<Vec<u8>>,
    pub palette: [u16; 256],
    pub comm: [u16; 8],
    pub adapter_control: u16,
    pub interrupt_command: u16,
    pub rom_bank: u8,
    pub dreq_control: u16,
    pub dreq_source: u32,
    pub dreq_destination: u32,
    pub dreq_length: u16,
    pub dreq_remaining: u32,
    pub dreq_fifo: VecDeque<u16>,
    pub sh_mask: [u16; 2],
    pub h_count: u8,
    pub h_phase: u64,
    pub pending: [u8; 2],
    pub bitmap_mode: u16,
    pub screen_shift: u16,
    pub fill_length: u8,
    pub fill_start: u16,
    pub fill_data: u16,
    pub fill_busy_cycles: u64,
    pub display_buffer: usize,
    pub requested_display_buffer: usize,
    pub vblank: bool,
    pub pwm: MarsPwm,
    pub pwm_clock_phase: u64,
    pub pwm_dreq_pending: [u32; 2],
    pub video: VideoBuffer,
}

/// The board as values.
pub struct MarsView {
    pub header: MarsHeader,
    pub sdram: Seq<u8>,
    pub fb0: Seq<u8>,
    pub fb1: Seq<u8>,
    pub palette: Seq<u16>,
    pub comm: Seq<u16>,
    pub adapter_control: u16,
    pub interrupt_command: u16,
    pub rom_bank: u8,
    pub dreq_control: u16,
    pub dreq_source: u32,
    pub dreq_destination: u32,
    pub dreq_length: u16,
    pub dreq_remaining: u32,
    pub dreq_fifo: Seq<u16>,
    pub sh_mask: Seq<u16>,
    pub h_count: u8,
    pub h_phase: u64,
    pub pending: Seq<u8>,
    pub bitmap_mode: u16,
    pub screen_shift: u16,
    pub fill_length: u8,
    pub fill_start: u16,
    pub fill_data: u16,
    pub fill_busy_cycles: u64,
    pub display_buffer: usize,
    pub requested_display_buffer: usize,
    pub vblank: bool,
    pub pwm: PwmState,
    pub pwm_clock_phase: u64,
    pub pwm_dreq_pending: Seq<u32>,
    pub video: Seq<u8>,
}

impl View for MarsBoard {
    type V = MarsView;

    open spec fn view(&self) -> MarsView {
        MarsView {
            header: self.header,
            sdram: self.sdram@,
            fb0: self.framebuffers@[0]@,
            fb1: self.framebuffers@[1]@,
            palette: self.palette@,
            comm: self.comm@,
            adapter_control: self.adapter_control,
            interrupt_command: self.interrupt_command,
            rom_bank: self.rom_bank,
            dreq_control: self.dreq_control,
            dreq_source: self.dreq_source,
            dreq_destination: self.dreq_destination,
            dreq_length: self.dreq_length,
            dreq_remaining: self.dreq_remaining,
            dreq_fifo: self.dreq_fifo@,
            sh_mask: self.sh_mask@,
            h_count: self.h_count,
            h_phase: self.h_phase,
            pending: self.pending@,
            bitmap_mode: self.bitmap_mode,
            screen_shift: self.screen_shift,
            fill_length: self.fill_length,
            fill_start: self.fill_start,
            fill_data: self.fill_data,
            fill_busy_cycles: self.fill_busy_cycles,
            display_buffer: self.display_buffer,
            requested_display_buffer: self.requested_display_buffer,
            vblank: self.vblank,
            pwm: self.pwm@,
            pwm_clock_phase: self.pwm_clock_phase,
            pwm_dreq_pending: self.pwm_dreq_pending@,
            video: self.video.pixels@,
        }
    }
}

/// The communication ports after the boot handshake: "M_OK" and "S_OK".
pub open spec fn handshake_comm() -> Seq<u16> {
    seq![0x4d5fu16, 0x4f4b, 0x535f, 0x4f4b, 0, 0, 0, 0]
}

/// A DREQ length as a transfer count: zero means 65536 words.
pub open spec fn dreq_count_of(length: u16) -> u32 {
    if length == 0 {
        0x1_0000
    } else {
        length as u32
    }
}

impl MarsView {
    pub open spec fn wf(self) -> bool {
        &&& self.sdram.len() == SDRAM_SIZE
        &&& self.fb0.len() == FRAMEBUFFER_SIZE
        &&& self.fb1.len() == FRAMEBUFFER_SIZE
        &&& self.dreq_fifo.len() <= DREQ_FIFO_DEPTH
        &&& self.display_buffer < 2
        &&& self.requested_display_buffer < 2
        &&& self.pwm.wf()
        &&& self.pwm_clock_phase < M68K_HZ
        &&& self.video.len() == 4 * MARS_WIDTH * MARS_HEIGHT
        &&& self.comm.len() == 8
        &&& self.palette.len() == 256
        &&& self.sh_mask.len() == 2
        &&& self.pending.len() == 2
        &&& self.pwm_dreq_pending.len() == 2
    }

    /// The framebuffer `index`.
    pub open spec fn framebuffer(self, index: int) -> Seq<u8> {
        if index == 0 {
            self.fb0
        } else {
            self.fb1
        }
    }

    /// The board with framebuffer `index` replaced.
    pub open spec fn with_framebuffer(self, index: int, fb: Seq<u8>) -> MarsView {
        if index == 0 {
            MarsView { fb0: fb, ..self }
        } else {
            MarsView { fb1: fb, ..self }
        }
    }

    /// The board after the boot handshake is reset: every register, the
    /// framebuffers and palette cleared, the ports holding "M_OK" and
    /// "S_OK"; the header and SDRAM kept.
    pub open spec fn handshake_reset(self) -> MarsView {
        MarsView {
            comm: handshake_comm(),
            adapter_control: 0x0080,
            interrupt_command: 0,
            rom_bank: 0,
            dreq_control: 0,
            dreq_source: 0,
            dreq_destination: 0,
            dreq_length: 0,
            dreq_remaining: 0,
            dreq_fifo: Seq::empty(),
            sh_mask: seq![0u16, 0],
            h_count: 0,
            h_phase: 0,
            pending: seq![0u8, 0],
            bitmap_mode: 0,
            screen_shift: 0,
            fill_length: 0,
            fill_start: 0,
            fill_data: 0,
            fill_busy_cycles: 0,
            display_buffer: 0,
            requested_display_buffer: 0,
            vblank: false,
            pwm: pwm_reset(),
            pwm_clock_phase: 0,
            pwm_dreq_pending: seq![0u32, 0],
            fb0: Seq::new(FRAMEBUFFER_SIZE as nat, |i: int| 0u8),
            fb1: Seq::new(FRAMEBUFFER_SIZE as nat, |i: int| 0u8),
            palette: Seq::new(256, |i: int| 0u16),
            ..self
        }
    }

    /// Whether both SH-2s may run: the adapter enabled and reset released,
    /// and the first four communication words cleared by the 68000.
    pub open spec fn sh_boot_ready(self) -> bool {
        &&& self.adapter_control & 0x0003 == 0x0003
        &&& self.comm[0] == 0 && self.comm[1] == 0 && self.comm[2] == 0 && self.comm[3] == 0
    }

    pub open spec fn dreq_active(self) -> bool {
        self.dreq_control & 0x0004 != 0
    }

    pub open spec fn dreq_full(self) -> bool {
        self.dreq_fifo.len() >= DREQ_FIFO_DEPTH
    }

    /// The DREQ count register: the words still to come, 65536 reading as
    /// zero.
    pub open spec fn dreq_count_register(self) -> u16 {
        if self.dreq_remaining == 0x1_0000 {
            0
        } else {
            self.dreq_remaining as u16
        }
    }

    /// A write of the DREQ control register: only the 68000-write and
    /// DREQ-enable bits are kept; starting a transfer loads the count from
    /// the length and empties the FIFO, stopping one clears both.
    pub open spec fn after_dreq_control(self, value: u16) -> MarsView {
        let was_active = self.dreq_active();
        let now = MarsView { dreq_control: value & 0x0005, ..self };
        if now.dreq_active() && !was_active {
            MarsView { dreq_remaining: dreq_count_of(self.dreq_length), dreq_fifo: Seq::empty(), ..now }
        } else if !now.dreq_active() {
            MarsView { dreq_remaining: 0, dreq_fifo: Seq::empty(), ..now }
        } else {
            now
        }
    }

    /// A write of the DREQ length, in whole long words; a running transfer
    /// restarts its count.
    pub open spec fn after_dreq_length(self, value: u16) -> MarsView {
        let now = MarsView { dreq_length: value & 0xfffc, ..self };
        if self.dreq_active() {
            MarsView { dreq_remaining: dreq_count_of(value & 0xfffc), ..now }
        } else {
            now
        }
    }

    /// A word written by the 68000 into the DREQ FIFO: kept while a
    /// transfer runs and there is room.
    pub open spec fn after_dreq_push(self, value: u16) -> MarsView {
        if self.dreq_active() && !self.dreq_full() {
            MarsView { dreq_fifo: self.dreq_fifo.push(value), ..self }
        } else {
            self
        }
    }

    /// A word read by an SH-2 from the DREQ FIFO, and the board after it:
    /// zero when no transfer runs or the FIFO is empty; the last counted
    /// word ends the transfer.
    pub open spec fn dreq_pop(self) -> (u16, MarsView) {
        if !self.dreq_active() || self.dreq_fifo.len() == 0 {
            (0, self)
        } else {
            let value = self.dreq_fifo[0];
            let rest = MarsView { dreq_fifo: self.dreq_fifo.drop_first(), ..self };
            if self.dreq_remaining == 0 {
                (value, rest)
            } else if self.dreq_remaining == 1 {
                (
                    value,
                    MarsView {
                        dreq_remaining: 0,
                        dreq_control: self.dreq_control & 0xfffb,
                        dreq_fifo: Seq::empty(),
                        ..self
                    },
                )
            } else {
                (value, MarsView { dreq_remaining: (self.dreq_remaining - 1) as u32, ..rest })
            }
        }
    }

    /// The DREQ control register as the 68000 reads it: bit 7 for a full
    /// FIFO.
    pub open spec fn main_dreq_control(self) -> u16 {
        self.dreq_control | (if self.dreq_full() { 0x0080u16 } else { 0 })
    }

    /// The DREQ control register as an SH-2 reads it: bit 15 for full, bit
    /// 14 for empty.
    pub open spec fn sh_dreq_control(self) -> u16 {
        self.dreq_control | (if self.dreq_full() { 0x8000u16 } else { 0 }) | (if self.dreq_fifo.len() == 0 {
            0x4000u16
        } else {
            0
        })
    }

    /// Whether `offset` selects a communication port (words $20-$2E).
    pub open spec fn is_comm(offset: u32) -> bool {
        0x20 <= (offset & 0x3e) <= 0x2e
    }

    /// The system-register offsets an access may use: a communication port
    /// is reached only through offsets below $30.
    pub open spec fn system_offset_ok(offset: u32) -> bool {
        Self::is_comm(offset) ==> offset < 0x30
    }

    /// The 68000's view of the system registers.
    pub open spec fn main_read16(self, offset: u32) -> u16 {
        let o = offset & 0x3e;
        if o == 0 {
            self.adapter_control
        } else if o == 2 {
            self.interrupt_command
        } else if o == 4 {
            (self.rom_bank % 4) as u16
        } else if o == 6 {
            self.main_dreq_control()
        } else if o == 8 {
            (self.dreq_source / 0x1_0000) as u16
        } else if o == 0x0a {
            (self.dreq_source % 0x1_0000) as u16
        } else if o == 0x0c {
            (self.dreq_destination / 0x1_0000) as u16
        } else if o == 0x0e {
            (self.dreq_destination % 0x1_0000) as u16
        } else if o == 0x10 {
            self.dreq_count_register()
        } else if Self::is_comm(offset) {
            self.comm[(offset - 0x20) / 2]
        } else if 0x30 <= o <= 0x38 {
            self.pwm.read((offset - 0x30) as u32)
        } else {
            0
        }
    }

    /// The DREQ source or destination after a write of its high or low
    /// half; the low half keeps even addresses only.
    pub open spec fn with_half(address: u32, high: bool, value: u16) -> u32 {
        if high {
            (value as int * 0x1_0000 + address % 0x1_0000) as u32
        } else {
            (address / 0x1_0000 * 0x1_0000 + (value & 0xfffe)) as u32
        }
    }

    /// The board after a 68000 write of a system register.
    pub open spec fn after_main_write16(self, offset: u32, value: u16) -> MarsView {
        let o = offset & 0x3e;
        if o == 0 {
            MarsView { adapter_control: 0x0080 | (value & 0x8003) | (self.adapter_control & 0x0003), ..self }
        } else if o == 2 {
            MarsView {
                interrupt_command: self.interrupt_command | (value & 3),
                pending: seq![
                    if value & 1 != 0 { self.pending[0] | IRQ_CMD } else { self.pending[0] },
                    if value & 2 != 0 { self.pending[1] | IRQ_CMD } else { self.pending[1] },
                ],
                ..self
            }
        } else if o == 4 {
            MarsView { rom_bank: (value % 4) as u8, ..self }
        } else if o == 6 {
            self.after_dreq_control(value)
        } else if o == 8 || o == 0x0a {
            MarsView { dreq_source: Self::with_half(self.dreq_source, o == 8, value), ..self }
        } else if o == 0x0c || o == 0x0e {
            MarsView { dreq_destination: Self::with_half(self.dreq_destination, o == 0x0c, value), ..self }
        } else if o == 0x10 {
            self.after_dreq_length(value)
        } else if o == 0x12 {
            self.after_dreq_push(value)
        } else if Self::is_comm(offset) {
            MarsView { comm: self.comm.update((offset - 0x20) / 2, value), ..self }
        } else if 0x30 <= o <= 0x38 {
            MarsView { pwm: self.pwm.after_write((offset - 0x30) as u32, value), ..self }
        } else {
            self
        }
    }

    /// An SH-2's read of a system register, and the board after it (a read
    /// of the DREQ FIFO takes a word).
    pub open spec fn sh_read16(self, side: int, offset: u32) -> (u16, MarsView) {
        let o = offset & 0x3e;
        if o == 0 {
            (
                (self.adapter_control & 0x8000) | ((self.adapter_control & 1) * 0x200) as u16 | (self.sh_mask[side]
                    & 0x008f),
                self,
            )
        } else if o == 4 {
            (self.h_count as u16, self)
        } else if o == 6 {
            (self.sh_dreq_control(), self)
        } else if o == 0x12 {
            self.dreq_pop()
        } else if o == 2 {
            (0, self)
        } else {
            (self.main_read16(offset), self)
        }
    }

    /// The board after an SH-2's write of a system register.
    pub open spec fn after_sh_write16(self, side: int, offset: u32, value: u16) -> MarsView {
        let o = offset & 0x3e;
        if o == 0 {
            MarsView {
                sh_mask: self.sh_mask.update(side, value & 0x008f),
                adapter_control: if value & 0x8000 != 0 {
                    self.adapter_control | 0x8000
                } else {
                    self.adapter_control & 0x7fff
                },
                ..self
            }
        } else if o == 4 {
            MarsView { h_count: value as u8, ..self }
        } else if o == 8 || o == 0x0a {
            MarsView { dreq_source: Self::with_half(self.dreq_source, o == 8, value), ..self }
        } else if o == 0x0c || o == 0x0e {
            MarsView { dreq_destination: Self::with_half(self.dreq_destination, o == 0x0c, value), ..self }
        } else if 0x14 <= o <= 0x1c {
            let cleared: u8 = if o == 0x14 {
                IRQ_VRES
            } else if o == 0x16 {
                IRQ_V
            } else if o == 0x18 {
                IRQ_H
            } else if o == 0x1a {
                IRQ_CMD
            } else {
                IRQ_PWM
            };
            MarsView {
                pending: self.pending.update(side, self.pending[side] & !cleared),
                interrupt_command: if o == 0x1a {
                    self.interrupt_command & !(if side == 0 { 1u16 } else { 2u16 })
                } else {
                    self.interrupt_command
                },
                ..self
            }
        } else if Self::is_comm(offset) {
            MarsView { comm: self.comm.update((offset - 0x20) / 2, value), ..self }
        } else if 0x30 <= o <= 0x38 {
            MarsView { pwm: self.pwm.after_write((offset - 0x30) as u32, value), ..self }
        } else {
            self
        }
    }

    /// The board's own interrupt request to one SH-2, as (level, vector):
    /// reset, then V, H, command and PWM, each but reset only when the
    /// side's mask enables it.
    pub open spec fn external_interrupt(self, side: int) -> Option<(u8, u8)> {
        let pending = self.pending[side];
        let mask = self.sh_mask[side];
        if pending & IRQ_VRES != 0 {
            Some((14u8, 71u8))
        } else if pending & IRQ_V != 0 && mask & 0x08 != 0 {
            Some((12u8, 70u8))
        } else if pending & IRQ_H != 0 && mask & 0x04 != 0 {
            Some((10u8, 69u8))
        } else if pending & IRQ_CMD != 0 && mask & 0x02 != 0 {
            Some((8u8, 68u8))
        } else if pending & IRQ_PWM != 0 && mask & 0x01 != 0 {
            Some((6u8, 67u8))
        } else {
            None
        }
    }

    /// Both sides' pending bits with `bit` raised.
    pub open spec fn raised(self, bit: u8) -> Seq<u8> {
        seq![self.pending[0] | bit, self.pending[1] | bit]
    }

    /// The H interrupt side of `main_cycles` 68000 cycles: one line
    /// interrupt counts `h_count + 1` lines.
    pub open spec fn after_lines(self, main_cycles: u32) -> MarsView {
        let total = self.h_phase.saturating_add(main_cycles as u64);
        let interval = MAIN_CYCLES_PER_LINE * (self.h_count + 1);
        if total >= interval {
            MarsView { h_phase: (total as int % interval) as u64, pending: self.raised(IRQ_H), ..self }
        } else {
            MarsView { h_phase: total, ..self }
        }
    }

    /// SH-2 clocks that `main_cycles` 68000 cycles make from the
    /// accumulated phase.
    pub open spec fn sh_clocks_of(self, main_cycles: u32) -> int {
        (self.pwm_clock_phase + main_cycles * SH2_HZ) / M68K_HZ as int
    }

    /// The board after `main_cycles` 68000 cycles: line interrupts, the
    /// fill engine's busy time and the PWM unit advanced by the SH-2
    /// clocks that pass, whose timer events raise the PWM interrupt and, in
    /// DREQ mode, count PWM transfer requests.
    pub open spec fn after_main_cycles(self, main_cycles: u32) -> MarsView {
        let lined = self.after_lines(main_cycles);
        let phase = self.pwm_clock_phase + main_cycles * SH2_HZ;
        let clocks = phase / M68K_HZ as int;
        let timed = MarsView { pwm_clock_phase: (phase % M68K_HZ as int) as u64, ..lined };
        if clocks == 0 {
            timed
        } else {
            let sh_clocks = if clocks > u32::MAX { u32::MAX as nat } else { clocks as nat };
            let (pwm, events) = timed.pwm.cycles(sh_clocks);
            let ran = MarsView {
                fill_busy_cycles: if timed.fill_busy_cycles >= clocks {
                    (timed.fill_busy_cycles - clocks) as u64
                } else {
                    0
                },
                pwm,
                ..timed
            };
            if events == 0 {
                ran
            } else {
                MarsView {
                    pending: ran.raised(IRQ_PWM),
                    pwm_dreq_pending: if pwm.control & 0x0080 != 0 {
                        seq![
                            ran.pwm_dreq_pending[0].saturating_add(events as u32),
                            ran.pwm_dreq_pending[1].saturating_add(events as u32),
                        ]
                    } else {
                        ran.pwm_dreq_pending
                    },
                    ..ran
                }
            }
        }
    }
}

/// The big-endian byte `k` (0 or 1) of a word.
pub open spec fn word_byte(value: u16, k: int) -> u8 {
    if k == 0 {
        (value / 0x100) as u8
    } else {
        (value % 0x100) as u8
    }
}

/// Whether the fill starting at `fill_start` for `fill_length + 1` words
/// covers framebuffer word `word`: the fill stays in its 256-word page,
/// wrapping at the page's end.
pub open spec fn fill_covers(fill_start: u16, fill_length: u8, word: int) -> bool {
    &&& word / 0x100 == fill_start / 0x100
    &&& (word % 0x100 - fill_start % 0x100) % 0x100 <= fill_length
}

/// A framebuffer after the fill of `value`.
pub open spec fn filled(fb: Seq<u8>, fill_start: u16, fill_length: u8, value: u16) -> Seq<u8> {
    Seq::new(
        fb.len(),
        |i: int|
            if fill_covers(fill_start, fill_length, i / 2) {
                word_byte(value, i % 2)
            } else {
                fb[i]
            },
    )
}

impl MarsView {
    /// A read of the VDP registers.
    pub open spec fn read_vdp16(self, offset: u32) -> u16 {
        let o = offset & 0x0e;
        if o == 0 {
            self.bitmap_mode | 0x8000
        } else if o == 2 {
            self.screen_shift
        } else if o == 4 {
            self.fill_length as u16
        } else if o == 6 {
            self.fill_start
        } else if o == 8 {
            self.fill_data
        } else if o == 0x0a {
            ((if self.vblank { 0x8000int } else { 0 }) + 0x2000 + (if self.fill_busy_cycles != 0 { 2int } else { 0 })
                + self.display_buffer) as u16
        } else {
            0
        }
    }

    /// The board after a write of the VDP registers. A write of the fill
    /// data runs the fill into the drawing buffer (the one not shown),
    /// leaves the start at the last word filled, and keeps the engine busy
    /// for 7 + 3 cycles per word.
    pub open spec fn after_write_vdp16(self, offset: u32, value: u16) -> MarsView {
        let o = offset & 0x0e;
        if o == 0 {
            MarsView { bitmap_mode: value & 0x00c3, ..self }
        } else if o == 2 {
            MarsView { screen_shift: value & 1, ..self }
        } else if o == 4 {
            MarsView { fill_length: value as u8, ..self }
        } else if o == 6 {
            MarsView { fill_start: value, ..self }
        } else if o == 8 {
            let draw = 1 - self.display_buffer;
            MarsView {
                fill_data: value,
                fill_start: (self.fill_start / 0x100 * 0x100 + (self.fill_start % 0x100 + self.fill_length) % 0x100) as u16,
                fill_busy_cycles: (7 + 3 * (self.fill_length + 1)) as u64,
                ..self.with_framebuffer(
                    draw,
                    filled(self.framebuffer(draw), self.fill_start, self.fill_length, value),
                )
            }
        } else if o == 0x0a {
            MarsView { requested_display_buffer: (value % 2) as usize, ..self }
        } else {
            self
        }
    }

    /// The drawing buffer: the one not being displayed.
    pub open spec fn draw_buffer(self) -> Seq<u8> {
        self.framebuffer(1 - self.display_buffer)
    }

    /// The drawing buffer with byte `i` set to `value`.
    pub open spec fn with_draw_byte(self, i: int, value: u8) -> MarsView {
        self.with_framebuffer(1 - self.display_buffer, self.draw_buffer().update(i, value))
    }

    /// A byte write to the drawing buffer: zero bytes are never written.
    pub open spec fn after_framebuffer_write8(self, offset: usize, value: u8) -> MarsView {
        if value == 0 {
            self
        } else {
            self.with_draw_byte(offset as int % FRAMEBUFFER_SIZE as int, value)
        }
    }

    /// A word write to the drawing buffer; in overwrite mode zero bytes are
    /// left alone.
    pub open spec fn after_framebuffer_write16(self, offset: usize, value: u16, overwrite: bool) -> MarsView {
        let base = offset as int % FRAMEBUFFER_SIZE as int;
        let next = (base + 1) % FRAMEBUFFER_SIZE as int;
        let high = word_byte(value, 0);
        let low = word_byte(value, 1);
        let first = if !overwrite || high != 0 {
            self.with_draw_byte(base, high)
        } else {
            self
        };
        if !overwrite || low != 0 {
            first.with_draw_byte(next, low)
        } else {
            first
        }
    }
}

/// The communication ports are one register file seen from both sides: a
/// word the 68000 writes reads back on either SH-2, and a word an SH-2
/// writes reads back on the 68000.
pub proof fn comm_ports_are_shared(v: MarsView, offset: u32, value: u16, side: int)
    requires
        v.wf(),
        MarsView::is_comm(offset),
        offset < 0x30,
        0 <= side < 2,
    ensures
        v.after_main_write16(offset, value).sh_read16(side, offset).0 == value,
        v.after_sh_write16(side, offset, value).main_read16(offset) == value,
{
    assert((offset & 0x3e) <= offset) by (bit_vector);
    assert(offset >= 0x20);
}

/// The DREQ FIFO is first in, first out: while a transfer runs and the
/// FIFO has room, the word an SH-2 reads next is the oldest one queued,
/// which is the word just pushed when the FIFO was empty.
pub proof fn dreq_fifo_is_first_in_first_out(v: MarsView, value: u16)
    requires
        v.wf(),
        v.dreq_active(),
        v.dreq_fifo.len() < DREQ_FIFO_DEPTH,
    ensures
        v.after_dreq_push(value).dreq_pop().0 == (if v.dreq_fifo.len() == 0 {
            value
        } else {
            v.dreq_fifo[0]
        }),
{
}

/// A non-zero byte written to the drawing buffer reads back from it.
pub proof fn framebuffer_byte_reads_back(v: MarsView, offset: usize, value: u8)
    requires
        v.wf(),
        value != 0,
    ensures
        v.after_framebuffer_write8(offset, value).draw_buffer()[offset as int % FRAMEBUFFER_SIZE as int] == value,
{
}

/// The number of indices in `r`.
pub open spec fn range_len(r: core::ops::Range<usize>) -> int {
    if r.end >= r.start {
        r.end - r.start
    } else {
        0
    }
}

/// Whether `image` holds a program `MarsBoard::new` loads: a valid header.
pub open spec fn loads(image: Seq<u8>) -> bool {
    parse_error(image).is_none()
}

/// SDRAM after the program of `image` is loaded into zeroed SDRAM.
pub open spec fn loaded_sdram(image: Seq<u8>) -> Seq<u8> {
    let h = header_of(image);
    Seq::new(
        SDRAM_SIZE as nat,
        |i: int|
            if h.destination <= i < h.destination + h.size {
                image[h.source + (i - h.destination)]
            } else {
                0u8
            },
    )
}

impl MarsBoard {
    pub open spec fn wf(&self) -> bool {
        &&& self.framebuffers@.len() == 2
        &&& self@.wf()
        &&& self.video.wf()
        &&& self.video.width == MARS_WIDTH
        &&& self.video.height == MARS_HEIGHT
    }

    /// The board for a cartridge: its MARS program copied into SDRAM and
    /// the handshake state set; an error when the header is unusable.
    pub fn new(rom: &[u8]) -> (r: Result<Self, String>)
        ensures
            r.is_ok() <==> loads(rom@),
            r matches Err(e) ==> Some(e@) == parse_error(rom@),
            r matches Ok(b) ==> {
                &&& b.wf()
                &&& b@.header == header_of(rom@)
                &&& b@.sdram == loaded_sdram(rom@)
                &&& b@ == (MarsView { video: b@.video, ..b@.handshake_reset() })
                &&& forall|p: int|
                    0 <= p < MARS_WIDTH * MARS_HEIGHT ==> shows(b@.video, p, Rgba { r: 0, g: 0, b: 0, a: 255 })
            },
    {
        let (header, source) = match MarsHeader::parse(rom) {
            Ok(parsed) => parsed,
            Err(e) => return Err(e),
        };
        let mut board = MarsBoard {
            header,
            sdram: vec![0u8; SDRAM_SIZE],
            framebuffers: vec![vec![0u8; FRAMEBUFFER_SIZE], vec![0u8; FRAMEBUFFER_SIZE]],
            palette: [0u16; 256],
            comm: [0u16; 8],
            adapter_control: 0x0080,
            interrupt_command: 0,
            rom_bank: 0,
            dreq_control: 0,
            dreq_source: 0,
            dreq_destination: 0,
            dreq_length: 0,
            dreq_remaining: 0,
            dreq_fifo: VecDeque::with_capacity(DREQ_FIFO_DEPTH),
            sh_mask: [0u16; 2],
            h_count: 0,
            h_phase: 0,
            pending: [0u8; 2],
            bitmap_mode: 0,
            screen_shift: 0,
            fill_length: 0,
            fill_start: 0,
            fill_data: 0,
            fill_busy_cycles: 0,
            display_buffer: 0,
            requested_display_buffer: 0,
            vblank: false,
            pwm: MarsPwm::new(),
            pwm_clock_phase: 0,
            pwm_dreq_pending: [0u32; 2],
            video: VideoBuffer::new(MARS_WIDTH, MARS_HEIGHT),
        };
        assert(board.sdram@ =~= Seq::new(SDRAM_SIZE as nat, |i: int| 0u8));
        match board.load_program(rom, source) {
            Ok(()) => {},
            Err(e) => return Err(e),
        }
        board.reset_handshake();
        Ok(board)
    }

    /// Copies the cartridge bytes `source` to the header's SDRAM
    /// destination; an error when the destination leaves SDRAM or the two
    /// ranges differ in length.
    pub fn load_program(&mut self, rom: &[u8], source: core::ops::Range<usize>) -> (r: Result<(), String>)
        requires
            old(self).wf(),
            old(self).header.destination + old(self).header.size <= SDRAM_SIZE && range_len(source)
                == old(self).header.size ==> source.start <= source.end <= rom@.len(),
        ensures
            final(self).wf(),
            r.is_ok() <==> (old(self).header.destination + old(self).header.size <= SDRAM_SIZE
                && range_len(source) == old(self).header.size),
            r matches Err(e) ==> e@ == (if old(self).header.destination + old(self).header.size <= SDRAM_SIZE {
                "32X MARS source and destination lengths disagree"@
            } else {
                "32X MARS destination is outside SDRAM"@
            }),
            r is Err ==> final(self)@ == old(self)@,
            r is Ok ==> final(self)@ == (MarsView {
                sdram: Seq::new(
                    SDRAM_SIZE as nat,
                    |i: int|
                        if old(self).header.destination <= i < old(self).header.destination
                            + old(self).header.size {
                            rom@[source.start + (i - old(self).header.destination)]
                        } else {
                            old(self)@.sdram[i]
                        },
                ),
                ..old(self)@
            }),
    {
        let destination = self.header.destination as u64;
        let size = self.header.size as u64;
        if destination + size > SDRAM_SIZE as u64 {
            return Err("32X MARS destination is outside SDRAM".to_string());
        }
        let source_len: usize = if source.end >= source.start { source.end - source.start } else { 0 };
        if source_len as u64 != size {
            return Err("32X MARS source and destination lengths disagree".to_string());
        }
        let destination = destination as usize;
        let ghost before = self.sdram@;
        let mut k: usize = 0;
        while k < source_len
            invariant
                k <= source_len,
                source_len == size,
                destination + size <= SDRAM_SIZE,
                source.start + source_len <= rom@.len(),
                source.end >= source.start && source.end - source.start == source_len,
                self.sdram@.len() == SDRAM_SIZE,
                forall|i: int| 0 <= i < SDRAM_SIZE ==> #[trigger] self.sdram@[i] == if destination <= i < destination + k {
                    rom@[source.start + (i - destination)]
                } else {
                    before[i]
                },
                self.header == old(self).header,
                self.framebuffers@ == old(self).framebuffers@,
                self.video == old(self).video,
                self.pwm == old(self).pwm,
                self.dreq_fifo == old(self).dreq_fifo,
                self.palette == old(self).palette,
                self.comm == old(self).comm,
                self.adapter_control == old(self).adapter_control,
                self.interrupt_command == old(self).interrupt_command,
                self.rom_bank == old(self).rom_bank,
                self.dreq_control == old(self).dreq_control,
                self.dreq_source == old(self).dreq_source,
                self.dreq_destination == old(self).dreq_destination,
                self.dreq_length == old(self).dreq_length,
                self.dreq_remaining == old(self).dreq_remaining,
                self.sh_mask == old(self).sh_mask,
                self.h_count == old(self).h_count,
                self.h_phase == old(self).h_phase,
                self.pending == old(self).pending,
                self.bitmap_mode == old(self).bitmap_mode,
                self.screen_shift == old(self).screen_shift,
                self.fill_length == old(self).fill_length,
                self.fill_start == old(self).fill_start,
                self.fill_data == old(self).fill_data,
                self.fill_busy_cycles == old(self).fill_busy_cycles,
                self.display_buffer == old(self).display_buffer,
                self.requested_display_buffer == old(self).requested_display_buffer,
                self.vblank == old(self).vblank,
                self.pwm_clock_phase == old(self).pwm_clock_phase,
                self.pwm_dreq_pending == old(self).pwm_dreq_pending,
            decreases source_len - k,
        {
            let byte = rom[source.start + k];
            self.sdram.set(destination + k, byte);
            k = k + 1;
        }
        proof {
            assert(self.sdram@ =~= Seq::new(
                SDRAM_SIZE as nat,
                |i: int|
                    if old(self).header.destination <= i < old(self).header.destination + old(self).header.size {
                        rom@[source.start + (i - old(self).header.destination)]
                    } else {
                        old(self)@.sdram[i]
                    },
            ));
        }
        Ok(())
    }

    /// Resets the boot handshake and every register (see
    /// `MarsView::handshake_reset`), and paints the picture black.
    pub fn reset_handshake(&mut self)
        requires
            old(self).wf(),
        ensures
            final(self).wf(),
            final(self)@ == (MarsView { video: final(self)@.video, ..old(self)@.handshake_reset() }),
            forall|p: int|
                0 <= p < MARS_WIDTH * MARS_HEIGHT ==> shows(final(self)@.video, p, Rgba { r: 0, g: 0, b: 0, a: 255 }),
    {
        self.comm = [0x4d5fu16, 0x4f4b, 0x535f, 0x4f4b, 0, 0, 0, 0];
        self.adapter_control = 0x0080;
        self.interrupt_command = 0;
        self.rom_bank = 0;
        self.dreq_control = 0;
        self.dreq_source = 0;
        self.dreq_destination = 0;
        self.dreq_length = 0;
        self.dreq_remaining = 0;
        self.dreq_fifo.clear();
        self.sh_mask = [0u16; 2];
        self.h_count = 0;
        self.h_phase = 0;
        self.pending = [0u8; 2];
        self.bitmap_mode = 0;
        self.screen_shift = 0;
        self.fill_length = 0;
        self.fill_start = 0;
        self.fill_data = 0;
        self.fill_busy_cycles = 0;
        self.display_buffer = 0;
        self.requested_display_buffer = 0;
        self.vblank = false;
        self.pwm = MarsPwm::new();
        self.pwm_clock_phase = 0;
        self.pwm_dreq_pending = [0u32; 2];
        self.framebuffers = vec![vec![0u8; FRAMEBUFFER_SIZE], vec![0u8; FRAMEBUFFER_SIZE]];
        self.palette = [0u16; 256];
        self.video.clear(Rgba { r: 0, g: 0, b: 0, a: 255 });
        assert(self@.comm =~= handshake_comm());
        assert(self@.sh_mask =~= seq![0u16, 0]);
        assert(self@.pending =~= seq![0u8, 0]);
        assert(self@.pwm_dreq_pending =~= seq![0u32, 0]);
        assert(self@.palette =~= Seq::new(256, |i: int| 0u16));
        assert(self@.fb0 =~= Seq::new(FRAMEBUFFER_SIZE as nat, |i: int| 0u8));
        assert(self@.fb1 =~= Seq::new(FRAMEBUFFER_SIZE as nat, |i: int| 0u8));
    }

    /// Whether both SH-2s may run.
    pub fn sh_boot_ready(&self) -> (r: bool)
        ensures
            r == self@.sh_boot_ready(),
    {
        self.adapter_control & 0x0003 == 0x0003 && self.comm[0] == 0 && self.comm[1] == 0 && self.comm[2] == 0
            && self.comm[3] == 0
    }

    /// Whether the 68000 has handed the VDP to the SH-2s (adapter FM bit).
    pub fn fm(&self) -> (r: bool)
        ensures
            r == (self.adapter_control & 0x8000 != 0),
    {
        self.adapter_control & 0x8000 != 0
    }

    pub fn dreq_active(&self) -> (r: bool)
        ensures
            r == self@.dreq_active(),
    {
        self.dreq_control & 0x0004 != 0
    }

    pub fn dreq_full(&self) -> (r: bool)
        ensures
            r == self@.dreq_full(),
    {
        self.dreq_fifo.len() >= DREQ_FIFO_DEPTH
    }

    pub fn dreq_empty(&self) -> (r: bool)
        ensures
            r == (self@.dreq_fifo.len() == 0),
    {
        self.dreq_fifo.len() == 0
    }

    pub fn dreq_count_register(&self) -> (r: u16)
        ensures
            r == self@.dreq_count_register(),
    {
        if self.dreq_remaining == 0x1_0000 {
            0
        } else {
            self.dreq_remaining as u16
        }
    }

    fn dreq_count(length: u16) -> (r: u32)
        ensures
            r == dreq_count_of(length),
    {
        if length == 0 {
            0x1_0000
        } else {
            length as u32
        }
    }

    /// A write of the DREQ control register.
    pub fn set_dreq_control(&mut self, value: u16)
        requires
            old(self).wf(),
        ensures
            final(self).wf(),
            final(self)@ == old(self)@.after_dreq_control(value),
    {
        let was_active = self.dreq_active();
        self.dreq_control = value & 0x0005;
        let active = self.dreq_active();
        if active && !was_active {
            self.dreq_remaining = Self::dreq_count(self.dreq_length);
            self.dreq_fifo.clear();
        } else if !active {
            self.dreq_remaining = 0;
            self.dreq_fifo.clear();
        }
    }

    /// A write of the DREQ length register.
    pub fn set_dreq_length(&mut self, value: u16)
        requires
            old(self).wf(),
        ensures
            final(self).wf(),
            final(self)@ == old(self)@.after_dreq_length(value),
    {
        self.dreq_length = value & 0xfffc;
        if self.dreq_active() {
            self.dreq_remaining = Self::dreq_count(self.dreq_length);
        }
    }

    /// A 68000 write into the DREQ FIFO.
    pub fn push_dreq_word(&mut self, value: u16)
        requires
            old(self).wf(),
        ensures
            final(self).wf(),
            final(self)@ == old(self)@.after_dreq_push(value),
    {
        if self.dreq_active() && !self.dreq_full() {
            self.dreq_fifo.push_back(value);
        }
    }

    /// An SH-2 read of the DREQ FIFO.
    pub fn pop_dreq_word(&mut self) -> (r: u16)
        requires
            old(self).wf(),
        ensures
            final(self).wf(),
            (r, final(self)@) == old(self)@.dreq_pop(),
    {
        if !self.dreq_active() {
            return 0;
        }
        let value = match self.dreq_fifo.pop_front() {
            Some(value) => value,
            None => return 0,
        };
        if self.dreq_remaining != 0 {
            self.dreq_remaining = self.dreq_remaining - 1;
            if self.dreq_remaining == 0 {
                self.dreq_control = self.dreq_control & 0xfffb;
                self.dreq_fifo.clear();
            }
        }
        value
    }

    pub fn main_dreq_control(&self) -> (r: u16)
        ensures
            r == self@.main_dreq_control(),
    {
        self.dreq_control | (if self.dreq_full() { 0x0080u16 } else { 0 })
    }

    pub fn sh_dreq_control(&self) -> (r: u16)
        ensures
            r == self@.sh_dreq_control(),
    {
        self.dreq_control | (if self.dreq_full() { 0x8000u16 } else { 0 }) | (if self.dreq_empty() {
            0x4000u16
        } else {
            0
        })
    }

    /// A 68000 read of the system registers.
    pub fn main_system_read16(&self, offset: u32) -> (r: u16)
        requires
            self.wf(),
            MarsView::system_offset_ok(offset),
        ensures
            r == self@.main_read16(offset),
    {
        let o = offset & 0x3e;
        assert(o <= offset) by (bit_vector)
            requires o == offset & 0x3e;
        if o == 0 {
            self.adapter_control
        } else if o == 2 {
            self.interrupt_command
        } else if o == 4 {
            (self.rom_bank % 4) as u16
        } else if o == 6 {
            self.main_dreq_control()
        } else if o == 8 {
            (self.dreq_source / 0x1_0000) as u16
        } else if o == 0x0a {
            (self.dreq_source % 0x1_0000) as u16
        } else if o == 0x0c {
            (self.dreq_destination / 0x1_0000) as u16
        } else if o == 0x0e {
            (self.dreq_destination % 0x1_0000) as u16
        } else if o == 0x10 {
            self.dreq_count_register()
        } else if 0x20 <= o && o <= 0x2e {
            self.comm[((offset - 0x20) / 2) as usize]
        } else if 0x30 <= o && o <= 0x38 {
            self.pwm.read(offset - 0x30)
        } else {
            0
        }
    }

    fn with_half(address: u32, high: bool, value: u16) -> (r: u32)
        ensures
            r == MarsView::with_half(address, high, value),
    {
        if high {
            value as u32 * 0x1_0000 + address % 0x1_0000
        } else {
            address / 0x1_0000 * 0x1_0000 + (value & 0xfffe) as u32
        }
    }

    /// A 68000 write of the system registers.
    pub fn main_system_write16(&mut self, offset: u32, value: u16)
        requires
            old(self).wf(),
            MarsView::system_offset_ok(offset),
        ensures
            final(self).wf(),
            final(self)@ == old(self)@.after_main_write16(offset, value),
    {
        let o = offset & 0x3e;
        assert(o <= offset) by (bit_vector)
            requires o == offset & 0x3e;
        if o == 0 {
            self.adapter_control = 0x0080 | (value & 0x8003) | (self.adapter_control & 0x0003);
        } else if o == 2 {
            self.interrupt_command = self.interrupt_command | (value & 3);
            if value & 1 != 0 {
                self.pending[0] = self.pending[0] | IRQ_CMD;
            }
            if value & 2 != 0 {
                self.pending[1] = self.pending[1] | IRQ_CMD;
            }
            assert(self@.pending =~= seq![
                if value & 1 != 0 { old(self).pending[0] | IRQ_CMD } else { old(self).pending[0] },
                if value & 2 != 0 { old(self).pending[1] | IRQ_CMD } else { old(self).pending[1] },
            ]);
        } else if o == 4 {
            self.rom_bank = (value % 4) as u8;
        } else if o == 6 {
            self.set_dreq_control(value);
        } else if o == 8 || o == 0x0a {
            self.dreq_source = Self::with_half(self.dreq_source, o == 8, value);
        } else if o == 0x0c || o == 0x0e {
            self.dreq_destination = Self::with_half(self.dreq_destination, o == 0x0c, value);
        } else if o == 0x10 {
            self.set_dreq_length(value);
        } else if o == 0x12 {
            self.push_dreq_word(value);
        } else if 0x20 <= o && o <= 0x2e {
            self.comm[((offset - 0x20) / 2) as usize] = value;
            assert(self@.comm =~= old(self)@.comm.update((offset - 0x20) / 2, value));
        } else if 0x30 <= o && o <= 0x38 {
            self.pwm.write(offset - 0x30, value);
        }
    }

    /// An SH-2's read of the system registers; `side` 0 is the master.
    pub fn sh_system_read16(&mut self, side: usize, offset: u32) -> (r: u16)
        requires
            old(self).wf(),
            side < 2,
            MarsView::system_offset_ok(offset),
        ensures
            final(self).wf(),
            (r, final(self)@) == old(self)@.sh_read16(side as int, offset),
    {
        let o = offset & 0x3e;
        assert(o <= offset) by (bit_vector)
            requires o == offset & 0x3e;
        if o == 0 {
            let ac = self.adapter_control;
            assert(ac & 1 <= 1) by (bit_vector);
            (ac & 0x8000) | ((ac & 1) * 0x200) | (self.sh_mask[side] & 0x008f)
        } else if o == 4 {
            self.h_count as u16
        } else if o == 6 {
            self.sh_dreq_control()
        } else if o == 0x12 {
            self.pop_dreq_word()
        } else if o == 2 {
            0
        } else {
            self.main_system_read16(offset)
        }
    }

    /// An SH-2's write of the system registers; `side` 0 is the master.
    pub fn sh_system_write16(&mut self, side: usize, offset: u32, value: u16)
        requires
            old(self).wf(),
            side < 2,
            MarsView::system_offset_ok(offset),
        ensures
            final(self).wf(),
            final(self)@ == old(self)@.after_sh_write16(side as int, offset, value),
    {
        let o = offset & 0x3e;
        assert(o <= offset) by (bit_vector)
            requires o == offset & 0x3e;
        if o == 0 {
            self.sh_mask[side] = value & 0x008f;
            if value & 0x8000 != 0 {
                self.adapter_control = self.adapter_control | 0x8000;
            } else {
                self.adapter_control = self.adapter_control & 0x7fff;
            }
            assert(self@.sh_mask =~= old(self)@.sh_mask.update(side as int, value & 0x008f));
        } else if o == 4 {
            self.h_count = value as u8;
        } else if o == 8 || o == 0x0a {
            self.dreq_source = Self::with_half(self.dreq_source, o == 8, value);
        } else if o == 0x0c || o == 0x0e {
            self.dreq_destination = Self::with_half(self.dreq_destination, o == 0x0c, value);
        } else if 0x14 <= o && o <= 0x1c {
            let cleared: u8 = if o == 0x14 {
                IRQ_VRES
            } else if o == 0x16 {
                IRQ_V
            } else if o == 0x18 {
                IRQ_H
            } else if o == 0x1a {
                IRQ_CMD
            } else {
                IRQ_PWM
            };
            self.pending[side] = self.pending[side] & !cleared;
            if o == 0x1a {
                let bit: u16 = if side == 0 { 1 } else { 2 };
                self.interrupt_command = self.interrupt_command & !bit;
            }
            assert(self@.pending =~= old(self)@.pending.update(side as int, old(self)@.pending[side as int] & !cleared));
        } else if 0x20 <= o && o <= 0x2e {
            self.comm[((offset - 0x20) / 2) as usize] = value;
            assert(self@.comm =~= old(self)@.comm.update((offset - 0x20) / 2, value));
        } else if 0x30 <= o && o <= 0x38 {
            self.pwm.write(offset - 0x30, value);
        }
    }

    /// The board's own interrupt request to an SH-2 side.
    pub fn external_interrupt(&self, side: usize) -> (r: Option<(u8, u8)>)
        requires
            side < 2,
        ensures
            r == self@.external_interrupt(side as int),
    {
        let pending = self.pending[side];
        let mask = self.sh_mask[side];
        if pending & IRQ_VRES != 0 {
            Some((14, 71))
        } else if pending & IRQ_V != 0 && mask & 0x08 != 0 {
            Some((12, 70))
        } else if pending & IRQ_H != 0 && mask & 0x04 != 0 {
            Some((10, 69))
        } else if pending & IRQ_CMD != 0 && mask & 0x02 != 0 {
            Some((8, 68))
        } else if pending & IRQ_PWM != 0 && mask & 0x01 != 0 {
            Some((6, 67))
        } else {
            None
        }
    }

    fn raise(&mut self, bit: u8)
        requires
            old(self).wf(),
        ensures
            final(self).wf(),
            final(self)@ == (MarsView { pending: old(self)@.raised(bit), ..old(self)@ }),
    {
        self.pending[0] = self.pending[0] | bit;
        self.pending[1] = self.pending[1] | bit;
        assert(self@.pending =~= old(self)@.raised(bit));
    }

    /// Advances the board by `main_cycles` 68000 cycles. Returns the SH-2
    /// clocks the CPUs' on-chip peripherals advance by: those that passed
    /// once both CPUs have booted, else zero.
    pub fn tick_main_cycles(&mut self, main_cycles: u32) -> (r: u32)
        requires
            old(self).wf(),
        ensures
            final(self).wf(),
            final(self)@ == old(self)@.after_main_cycles(main_cycles),
            r == (if old(self)@.sh_boot_ready() {
                let c = old(self)@.sh_clocks_of(main_cycles);
                if c > u32::MAX { u32::MAX as int } else { c }
            } else {
                0
            }),
    {
        self.h_phase = self.h_phase.saturating_add(main_cycles as u64);
        let interval = MAIN_CYCLES_PER_LINE * (self.h_count as u64 + 1);
        if self.h_phase >= interval {
            self.h_phase = self.h_phase % interval;
            self.raise(IRQ_H);
        }
        let ghost lined = self@;
        assert(lined == old(self)@.after_lines(main_cycles));
        assert(main_cycles as int * SH2_HZ <= u32::MAX as int * SH2_HZ) by (nonlinear_arith)
            requires main_cycles <= u32::MAX;
        self.pwm_clock_phase = self.pwm_clock_phase + main_cycles as u64 * SH2_HZ;
        let clocks = self.pwm_clock_phase / M68K_HZ;
        self.pwm_clock_phase = self.pwm_clock_phase % M68K_HZ;
        if clocks == 0 {
            return 0;
        }
        let sh_clocks: u32 = if clocks > u32::MAX as u64 { u32::MAX } else { clocks as u32 };
        let ready = self.sh_boot_ready();
        self.fill_busy_cycles = self.fill_busy_cycles.saturating_sub(clocks);
        let timer_events = self.pwm.tick(sh_clocks);
        if timer_events != 0 {
            self.raise(IRQ_PWM);
            if self.pwm.control & 0x0080 != 0 {
                self.pwm_dreq_pending[0] = self.pwm_dreq_pending[0].saturating_add(timer_events);
                self.pwm_dreq_pending[1] = self.pwm_dreq_pending[1].saturating_add(timer_events);
                assert(self@.pwm_dreq_pending =~= seq![
                    old(self)@.pwm_dreq_pending[0].saturating_add(timer_events),
                    old(self)@.pwm_dreq_pending[1].saturating_add(timer_events),
                ]);
            }
        }
        if ready {
            sh_clocks
        } else {
            0
        }
    }

    /// The start of vertical blank: the requested display buffer is shown
    /// and both sides get the V interrupt.
    pub fn on_vblank(&mut self)
        requires
            old(self).wf(),
        ensures
            final(self).wf(),
            final(self)@ == (MarsView {
                vblank: true,
                display_buffer: old(self)@.requested_display_buffer,
                pending: old(self)@.raised(IRQ_V),
                ..old(self)@
            }),
    {
        self.vblank = true;
        self.display_buffer = self.requested_display_buffer % 2;
        self.raise(IRQ_V);
    }

    /// The end of vertical blank.
    pub fn end_vblank(&mut self)
        ensures
            final(self)@ == (MarsView { vblank: false, ..old(self)@ }),
    {
        self.vblank = false;
    }

    /// A read of the VDP registers.
    pub fn read_vdp16(&self, offset: u32) -> (r: u16)
        requires
            self.wf(),
        ensures
            r == self@.read_vdp16(offset),
    {
        let o = offset & 0x0e;
        if o == 0 {
            self.bitmap_mode | 0x8000
        } else if o == 2 {
            self.screen_shift
        } else if o == 4 {
            self.fill_length as u16
        } else if o == 6 {
            self.fill_start
        } else if o == 8 {
            self.fill_data
        } else if o == 0x0a {
            (if self.vblank { 0x8000u16 } else { 0 }) + 0x2000 + (if self.fill_busy_cycles != 0 { 2u16 } else { 0 })
                + self.display_buffer as u16
        } else {
            0
        }
    }

    /// Fills `words` words of the page at `page` from word `start` on,
    /// wrapping in the page.
    fn fill_words(fb: &mut Vec<u8>, fill_start: u16, fill_length: u8, value: u16)
        requires
            old(fb)@.len() == FRAMEBUFFER_SIZE,
        ensures
            final(fb)@ == filled(old(fb)@, fill_start, fill_length, value),
    {
        let page = fill_start / 0x100 * 0x100;
        let start = fill_start % 0x100;
        let words = fill_length as u16 + 1;
        let high = (value / 0x100) as u8;
        let low = (value % 0x100) as u8;
        let ghost before = fb@;
        let mut index: u16 = 0;
        while index < words
            invariant
                index <= words,
                words == fill_length + 1,
                page == fill_start / 0x100 * 0x100,
                start == fill_start % 0x100,
                high == word_byte(value, 0),
                low == word_byte(value, 1),
                before.len() == FRAMEBUFFER_SIZE,
                fb@.len() == FRAMEBUFFER_SIZE,
                forall|i: int| 0 <= i < FRAMEBUFFER_SIZE ==> #[trigger] fb@[i] == if i / 2 / 0x100 == fill_start / 0x100
                    && (i / 2 % 0x100 - fill_start % 0x100) % 0x100 < index {
                    word_byte(value, i % 2)
                } else {
                    before[i]
                },
            decreases words - index,
        {
            let word = page + (start + index) % 0x100;
            let offset = word as usize * 2;
            fb.set(offset, high);
            fb.set(offset + 1, low);
            proof {
                assert forall|i: int| 0 <= i < FRAMEBUFFER_SIZE implies #[trigger] fb@[i] == if i / 2 / 0x100
                    == fill_start / 0x100 && (i / 2 % 0x100 - fill_start % 0x100) % 0x100 < index + 1 {
                    word_byte(value, i % 2)
                } else {
                    before[i]
                } by {
                    let w = i / 2;
                    if w == word {
                        assert(w / 0x100 == fill_start / 0x100);
                        assert((w % 0x100 - fill_start % 0x100) % 0x100 == index);
                    } else if w / 0x100 == fill_start / 0x100 {
                        assert((w % 0x100 - fill_start % 0x100) % 0x100 != index);
                    }
                }
            }
            index = index + 1;
        }
        proof {
            assert(fb@ =~= filled(before, fill_start, fill_length, value));
        }
    }

    /// A write of the VDP registers.
    pub fn write_vdp16(&mut self, offset: u32, value: u16)
        requires
            old(self).wf(),
        ensures
            final(self).wf(),
            final(self)@ == old(self)@.after_write_vdp16(offset, value),
    {
        let o = offset & 0x0e;
        if o == 0 {
            self.bitmap_mode = value & 0x00c3;
        } else if o == 2 {
            self.screen_shift = value & 1;
        } else if o == 4 {
            self.fill_length = value as u8;
        } else if o == 6 {
            self.fill_start = value;
        } else if o == 8 {
            self.fill_data = value;
            let draw = 1 - self.display_buffer;
            let mut fb: Vec<u8> = Vec::new();
            std::mem::swap(&mut fb, &mut self.framebuffers[draw]);
            Self::fill_words(&mut fb, self.fill_start, self.fill_length, value);
            std::mem::swap(&mut fb, &mut self.framebuffers[draw]);
            self.fill_start = self.fill_start / 0x100 * 0x100 + (self.fill_start % 0x100 + self.fill_length as u16)
                % 0x100;
            self.fill_busy_cycles = 7 + 3 * (self.fill_length as u64 + 1);
        } else if o == 0x0a {
            self.requested_display_buffer = (value % 2) as usize;
        }
    }

    /// A read of the palette.
    pub fn palette_read16(&self, offset: u32) -> (r: u16)
        ensures
            r == self@.palette[(offset / 2 % 0x100) as int],
    {
        self.palette[(offset / 2 % 0x100) as usize]
    }

    /// A write of the palette.
    pub fn palette_write16(&mut self, offset: u32, value: u16)
        ensures
            final(self)@ == (MarsView {
                palette: old(self)@.palette.update((offset / 2 % 0x100) as int, value),
                ..old(self)@
            }),
    {
        self.palette[(offset / 2 % 0x100) as usize] = value;
        assert(self@.palette =~= old(self)@.palette.update((offset / 2 % 0x100) as int, value));
    }

    /// A byte read of the drawing buffer.
    pub fn framebuffer_read8(&self, offset: usize) -> (r: u8)
        requires
            self.wf(),
        ensures
            r == self@.draw_buffer()[offset as int % FRAMEBUFFER_SIZE as int],
    {
        self.framebuffers[1 - self.display_buffer][offset % FRAMEBUFFER_SIZE]
    }

    fn set_draw_byte(&mut self, i: usize, value: u8)
        requires
            old(self).wf(),
            i < FRAMEBUFFER_SIZE,
        ensures
            final(self).wf(),
            final(self)@ == old(self)@.with_draw_byte(i as int, value),
    {
        let draw = 1 - self.display_buffer;
        self.framebuffers[draw].set(i, value);
        assert(self.framebuffers@[draw as int]@ =~= old(self).framebuffers@[draw as int]@.update(i as int, value));
    }

    /// A byte write to the drawing buffer; zero bytes are skipped.
    pub fn framebuffer_write8(&mut self, offset: usize, value: u8, _overwrite: bool)
        requires
            old(self).wf(),
        ensures
            final(self).wf(),
            final(self)@ == old(self)@.after_framebuffer_write8(offset, value),
    {
        if value == 0 {
            return;
        }
        self.set_draw_byte(offset % FRAMEBUFFER_SIZE, value);
    }

    /// A word write to the drawing buffer.
    pub fn framebuffer_write16(&mut self, offset: usize, value: u16, overwrite: bool)
        requires
            old(self).wf(),
        ensures
            final(self).wf(),
            final(self)@ == old(self)@.after_framebuffer_write16(offset, value, overwrite),
    {
        let base = offset % FRAMEBUFFER_SIZE;
        let high = (value / 0x100) as u8;
        let low = (value % 0x100) as u8;
        if !overwrite || high != 0 {
            self.set_draw_byte(base, high);
        }
        let next = (base + 1) % FRAMEBUFFER_SIZE;
        if !overwrite || low != 0 {
            self.set_draw_byte(next, low);
        }
    }
}

} // verus!
