//! Saturn SCSP sound chip, its integer side: the register file, slot key-on
//! and key-off, loop cursors, the MIDI FIFOs, the three timers, interrupt
//! routing, the ring buffer and DSP windows, and the DMA engine. The
//! envelope levels and the mix are floating point and live with the audio
//! output; the functions here report which slots keyed on or stopped so
//! that side can follow.
use vstd::prelude::*;
use crate::bytes::{be16_at, with_be16, be16, put_be16};
use crate::saturn_scu::SH2_HZ;
use crate::saturn_scsp_dsp::{SaturnScspDsp, DspModel, dsp_reset, ring_length, ram_word_spec, with_ram_word};

verus! {

/// Bytes of the SCSP register file.
pub const SCSP_REGS_SIZE: usize = 0x1000;
/// MIDI bytes the serial port moves per second.
pub const MIDI_BYTES_PER_SECOND: u64 = 3_125;

pub struct SaturnScsp {
    pub regs: Vec<u8>,
    pub phase: [u32; 32],
    pub keyed: [bool; 32],
    pub backwards: [bool; 32],
    pub envelope_state: [u8; 32],
    pub pitch_lfo_phase: [u32; 32],
    pub amplitude_lfo_phase: [u32; 32],
    pub ring_buffer: [i16; 64],
    pub ring_ptr: u8,
    pub monitor_slot: u8,
    pub noise_state: u32,
    pub dma_pending: bool,
    pub dma_irq_pending: bool,
    pub dsp: SaturnScspDsp,
    pub midi_in: [u8; 32],
    pub midi_in_read: u8,
    pub midi_in_write: u8,
    pub midi_in_count: u8,
    pub midi_out: [u8; 32],
    pub midi_out_read: u8,
    pub midi_out_write: u8,
    pub midi_out_count: u8,
    pub midi_overflow: bool,
    pub midi_out_phase: u64,
    pub timer_phase: [u32; 3],
    pub sample_phase: u64,
}

/// The chip's integer state as values.
pub struct ScspModel {
    pub regs: Seq<u8>,
    pub phase: Seq<u32>,
    pub keyed: Seq<bool>,
    pub backwards: Seq<bool>,
    pub envelope_state: Seq<u8>,
    pub pitch_lfo_phase: Seq<u32>,
    pub amplitude_lfo_phase: Seq<u32>,
    pub ring_buffer: Seq<i16>,
    pub ring_ptr: u8,
    pub monitor_slot: u8,
    pub noise_state: u32,
    pub dma_pending: bool,
    pub dma_irq_pending: bool,
    pub dsp: DspModel,
    pub midi_in: Seq<u8>,
    pub midi_in_read: u8,
    pub midi_in_write: u8,
    pub midi_in_count: u8,
    pub midi_out: Seq<u8>,
    pub midi_out_read: u8,
    pub midi_out_write: u8,
    pub midi_out_count: u8,
    pub midi_overflow: bool,
    pub midi_out_phase: u64,
    pub timer_phase: Seq<u32>,
    pub sample_phase: u64,
}

impl View for SaturnScsp {
    type V = ScspModel;

    open spec fn view(&self) -> ScspModel {
        ScspModel {
            regs: self.regs@,
            phase: self.phase@,
            keyed: self.keyed@,
            backwards: self.backwards@,
            envelope_state: self.envelope_state@,
            pitch_lfo_phase: self.pitch_lfo_phase@,
            amplitude_lfo_phase: self.amplitude_lfo_phase@,
            ring_buffer: self.ring_buffer@,
            ring_ptr: self.ring_ptr,
            monitor_slot: self.monitor_slot,
            noise_state: self.noise_state,
            dma_pending: self.dma_pending,
            dma_irq_pending: self.dma_irq_pending,
            dsp: self.dsp@,
            midi_in: self.midi_in@,
            midi_in_read: self.midi_in_read,
            midi_in_write: self.midi_in_write,
            midi_in_count: self.midi_in_count,
            midi_out: self.midi_out@,
            midi_out_read: self.midi_out_read,
            midi_out_write: self.midi_out_write,
            midi_out_count: self.midi_out_count,
            midi_overflow: self.midi_overflow,
            midi_out_phase: self.midi_out_phase,
            timer_phase: self.timer_phase@,
            sample_phase: self.sample_phase,
        }
    }
}

/// Byte `k` (0 high, 1 low) of `word` replaced by `value`.
pub open spec fn set_byte(word: u16, k: int, value: u8) -> u16 {
    if k == 0 {
        (value as int * 0x100 + word as int % 0x100) as u16
    } else {
        (word as int / 0x100 * 0x100 + value as int) as u16
    }
}

/// Byte `k` (0 high, 1 low) of `word`.
pub open spec fn byte_of(word: u16, k: int) -> u8 {
    if k == 0 {
        (word as int / 0x100) as u8
    } else {
        (word as int % 0x100) as u8
    }
}

/// The chip at reset: all slots released, FIFOs empty, registers clear.
pub open spec fn scsp_reset() -> ScspModel {
    ScspModel {
        regs: Seq::new(SCSP_REGS_SIZE as nat, |i: int| 0u8),
        phase: Seq::new(32, |i: int| 0u32),
        keyed: Seq::new(32, |i: int| false),
        backwards: Seq::new(32, |i: int| false),
        envelope_state: Seq::new(32, |i: int| 3u8),
        pitch_lfo_phase: Seq::new(32, |i: int| 0u32),
        amplitude_lfo_phase: Seq::new(32, |i: int| 0u32),
        ring_buffer: Seq::new(64, |i: int| 0i16),
        ring_ptr: 0,
        monitor_slot: 0,
        noise_state: 0x5343_5350,
        dma_pending: false,
        dma_irq_pending: false,
        dsp: dsp_reset(),
        midi_in: Seq::new(32, |i: int| 0u8),
        midi_in_read: 0,
        midi_in_write: 0,
        midi_in_count: 0,
        midi_out: Seq::new(32, |i: int| 0u8),
        midi_out_read: 0,
        midi_out_write: 0,
        midi_out_count: 0,
        midi_overflow: false,
        midi_out_phase: 0,
        timer_phase: Seq::new(3, |i: int| 0u32),
        sample_phase: 0,
    }
}

impl ScspModel {
    pub open spec fn wf(self) -> bool {
        &&& self.regs.len() == SCSP_REGS_SIZE
        &&& self.phase.len() == 32
        &&& self.keyed.len() == 32
        &&& self.backwards.len() == 32
        &&& self.envelope_state.len() == 32
        &&& self.ring_buffer.len() == 64
        &&& self.midi_in.len() == 32
        &&& self.midi_out.len() == 32
        &&& self.timer_phase.len() == 3
        &&& self.midi_in_read < 32
        &&& self.midi_in_write < 32
        &&& self.midi_in_count <= 32
        &&& self.midi_out_read < 32
        &&& self.midi_out_write < 32
        &&& self.midi_out_count <= 32
        &&& self.midi_in_write == (self.midi_in_read + self.midi_in_count) % 32
        &&& self.midi_out_write == (self.midi_out_read + self.midi_out_count) % 32
    }

    /// The register word at `offset`.
    pub open spec fn reg16(self, offset: int) -> u16 {
        be16_at(self.regs, offset)
    }

    /// The model with register word `offset` set to `value`.
    pub open spec fn with_reg16(self, offset: int, value: u16) -> ScspModel {
        ScspModel { regs: with_be16(self.regs, offset, value), ..self }
    }

    /// The MIDI status word: output full and empty, overflow, input full,
    /// and input empty or else the next input byte.
    pub open spec fn midi_status_word(self) -> u16 {
        (if self.midi_out_count == 32 { 0x1000u16 } else { 0 }) | (if self.midi_out_count == 0 {
            0x0800u16
        } else {
            0
        }) | (if self.midi_overflow { 0x0400u16 } else { 0 }) | (if self.midi_in_count == 32 {
            0x0200u16
        } else {
            0
        }) | (if self.midi_in_count == 0 { 0x0100u16 } else { self.midi_in[self.midi_in_read as int] as u16 })
    }

    /// A byte arriving at the MIDI input: queued unless the FIFO is full
    /// (which flags overflow), raising the MIDI-input interrupt request.
    pub open spec fn after_midi_input(self, value: u8) -> ScspModel {
        if self.midi_in_count == 32 {
            ScspModel { midi_overflow: true, ..self }
        } else {
            ScspModel {
                midi_in: self.midi_in.update(self.midi_in_write as int, value),
                midi_in_write: ((self.midi_in_write + 1) % 32) as u8,
                midi_in_count: (self.midi_in_count + 1) as u8,
                ..self
            }.with_reg16(0x420, self.reg16(0x420) | 0x0008)
        }
    }

    /// The next MIDI input byte taken, and the model after: zero when the
    /// FIFO is empty; emptying it drops the interrupt request.
    pub open spec fn midi_pop(self) -> (u8, ScspModel) {
        if self.midi_in_count == 0 {
            (0, self)
        } else {
            let value = self.midi_in[self.midi_in_read as int];
            let m = ScspModel {
                midi_in_read: ((self.midi_in_read + 1) % 32) as u8,
                midi_in_count: (self.midi_in_count - 1) as u8,
                ..self
            };
            if m.midi_in_count == 0 {
                (value, m.with_reg16(0x420, self.reg16(0x420) & 0xfff7))
            } else {
                (value, m)
            }
        }
    }

    /// A byte written to the MIDI output: queued unless the FIFO is full
    /// (which flags overflow); the first byte starts the serial timing.
    pub open spec fn after_midi_output(self, value: u8) -> ScspModel {
        if self.midi_out_count == 32 {
            ScspModel { midi_overflow: true, ..self }
        } else {
            ScspModel {
                midi_out_phase: if self.midi_out_count == 0 { 0 } else { self.midi_out_phase },
                midi_out: self.midi_out.update(self.midi_out_write as int, value),
                midi_out_write: ((self.midi_out_write + 1) % 32) as u8,
                midi_out_count: (self.midi_out_count + 1) as u8,
                ..self
            }
        }
    }

    /// The MIDI output after `sh_cycles` CPU cycles: one byte leaves per
    /// serial byte time while any is queued; an empty FIFO keeps no time.
    pub open spec fn after_tick_midi(self, sh_cycles: u32) -> ScspModel {
        if self.midi_out_count == 0 {
            ScspModel { midi_out_phase: 0, ..self }
        } else {
            let total = self.midi_out_phase.saturating_add((sh_cycles as u64 * MIDI_BYTES_PER_SECOND) as u64);
            let due = total as int / SH2_HZ as int;
            let sent = if due < self.midi_out_count { due } else { self.midi_out_count as int };
            let left = self.midi_out_count - sent;
            ScspModel {
                midi_out_read: ((self.midi_out_read + sent) % 32) as u8,
                midi_out_count: left as u8,
                midi_out_phase: if left == 0 { 0 } else { (total - sent * SH2_HZ) as u64 },
                ..self
            }
        }
    }

    /// The slot monitor word for the monitored slot, given its envelope
    /// level in 1023ths: the loop cursor's top nibble, the envelope state,
    /// and the attenuation in 32nds.
    pub open spec fn monitor_word(self, envelope: u16) -> u16 {
        let slot = self.monitor_slot % 32;
        let current_address = (self.phase[slot as int] / 0x1000_0000) as int;
        let state = (self.envelope_state[slot as int] % 4) as int;
        let level = envelope / 32;
        let attenuation = if level >= 31 { 0 } else { 31 - level };
        (current_address * 0x80 + state * 0x20 + attenuation) as u16
    }

    /// A byte read of the register window at `offset` (mirrored every
    /// 4 KiB), and the model after it: the ring buffer, the DSP window, the
    /// MIDI status (its low byte takes the input byte), or the registers.
    #[verifier::opaque]
    pub open spec fn read8(self, offset: usize) -> (u8, ScspModel) {
        let o = offset as int % 0x1000;
        if 0x600 <= o < 0x700 {
            (byte_of(self.ring_buffer[((o - 0x600) / 2) % 64] as u16, o % 2), self)
        } else if o >= 0x700 {
            (byte_of(self.dsp.word_at((o / 2 * 2) as usize), o % 2), self)
        } else if o == 0x404 {
            (byte_of(self.midi_status_word(), 0), self)
        } else if o == 0x405 {
            (byte_of(self.midi_status_word(), 1), self.midi_pop().1)
        } else {
            (self.regs[o], self)
        }
    }

    /// The interrupt level (0-7) the three level-select registers give
    /// interrupt source `source`.
    pub open spec fn sci_level(self, source: u8) -> u8 {
        if source >= 8 {
            0
        } else {
            let mask = (1u16 << source);
            ((if self.reg16(0x424) & mask != 0 { 1int } else { 0 }) + (if self.reg16(0x426) & mask != 0 {
                2int
            } else {
                0
            }) + (if self.reg16(0x428) & mask != 0 { 4int } else { 0 })) as u8
        }
    }

    /// The interrupt the sound CPU sees, as (source, level, vector): the
    /// first enabled and pending of timer A, DMA end, timer B, timer C and
    /// MIDI input, when its level is not zero.
    pub open spec fn interrupt_source(self) -> Option<(u8, u8, u8)> {
        let enabled = self.reg16(0x41e);
        let active = enabled & self.reg16(0x420);
        let source: Option<u8> = if active & 0x0020 != 0 {
            Some(5u8)
        } else if self.dma_irq_pending && enabled & 0x0010 != 0 {
            Some(4u8)
        } else if active & 0x0040 != 0 {
            Some(6u8)
        } else if active & 0x0180 != 0 {
            Some(7u8)
        } else if active & 0x0008 != 0 {
            Some(3u8)
        } else {
            None
        };
        match source {
            Some(s) => {
                let level = self.sci_level(s);
                if level != 0 {
                    Some((s, level, (24 + level) as u8))
                } else {
                    None
                }
            },
            None => None,
        }
    }

    /// One timer's tick at the output sample rate: a counter below $FF
    /// counts up every 2^n samples (n from the register's high byte), and
    /// reaching $FF raises its interrupt request. Returns the model and
    /// whether the counter just reached $FF.
    pub open spec fn timer_ticked(self, timer: int) -> (ScspModel, bool) {
        let offset = 0x418 + timer * 2;
        let word = self.reg16(offset);
        let count = word % 0x100;
        if count == 0xff {
            (self, false)
        } else {
            let divider = pow2_u32(word / 0x100 % 8);
            let phase = self.timer_phase[timer].saturating_add(1);
            if phase < divider {
                (ScspModel { timer_phase: self.timer_phase.update(timer, phase), ..self }, false)
            } else {
                let new_count = count + 1;
                (
                    ScspModel {
                        timer_phase: self.timer_phase.update(timer, (phase - divider) as u32),
                        ..self
                    }.with_reg16(offset, (word / 0x100 * 0x100 + new_count) as u16),
                    new_count == 0xff,
                )
            }
        }
    }

    /// All three timers ticked, their requests merged into the pending
    /// registers (timer A also into the main CPU's).
    pub open spec fn after_tick_timers(self) -> ScspModel {
        let (a, fired_a) = self.timer_ticked(0);
        let (b, fired_b) = a.timer_ticked(1);
        let (c, fired_c) = b.timer_ticked(2);
        let pending = self.reg16(0x420) | (if fired_a { 0x0040u16 } else { 0 }) | (if fired_b { 0x0080u16 } else {
            0
        }) | (if fired_c { 0x0100u16 } else { 0 });
        let main = self.reg16(0x42c) | (if fired_a { 0x0040u16 } else { 0 });
        c.with_reg16(0x420, pending).with_reg16(0x42c, main)
    }
}

/// No slot keyed on.
pub open spec fn no_keys() -> Seq<bool> {
    Seq::new(32, |s: int| false)
}

impl ScspModel {
    /// Whether slot `s` keys on at a key-on execute: its key-on bit is set
    /// and it is not sounding (never keyed, or released).
    pub open spec fn keys_on(self, s: int) -> bool {
        self.reg16(s * 0x20) & 0x0800 != 0 && (!self.keyed[s] || self.envelope_state[s] == 3)
    }

    /// Whether slot `s` is released at a key-on execute: its key-on bit is
    /// clear and it is keyed.
    pub open spec fn keys_off(self, s: int) -> bool {
        self.reg16(s * 0x20) & 0x0800 == 0 && self.keyed[s]
    }

    /// The slots a key-on execute starts.
    pub open spec fn key_on_flags(self) -> Seq<bool> {
        Seq::new(32, |s: int| self.keys_on(s))
    }

    /// A key-on execute written through the control word at `base`: slots
    /// keying on restart from the beginning in attack, slots keying off
    /// enter release, and the execute bit clears.
    pub open spec fn key_executed(self, base: int) -> ScspModel {
        ScspModel {
            phase: Seq::new(32, |s: int| if self.keys_on(s) { 0u32 } else { self.phase[s] }),
            backwards: Seq::new(32, |s: int| if self.keys_on(s) { false } else { self.backwards[s] }),
            envelope_state: Seq::new(
                32,
                |s: int|
                    if self.keys_on(s) {
                        0u8
                    } else if self.keys_off(s) {
                        3u8
                    } else {
                        self.envelope_state[s]
                    },
            ),
            keyed: Seq::new(32, |s: int| if self.keys_on(s) { true } else { self.keyed[s] }),
            ..self
        }.with_reg16(base, self.reg16(base) & 0xefff)
    }

    /// The effect of a write to the global register at `offset`: ring
    /// buffer setup, DMA start, timer restart, and the clearing of
    /// interrupt requests (a timer at $FF requests again at once).
    pub open spec fn after_global_write(self, offset: int) -> ScspModel {
        let aligned = offset / 2 * 2;
        if aligned == 0x402 {
            let value = self.reg16(0x402);
            ScspModel { dsp: DspModel { rbl: ring_length(value), rbp: (value % 0x40) as u32, ..self.dsp }, ..self }
        } else if aligned == 0x416 {
            if self.reg16(0x416) & 0x1000 != 0 {
                ScspModel { dma_pending: true, ..self }
            } else {
                self
            }
        } else if 0x418 <= aligned <= 0x41c {
            ScspModel { timer_phase: self.timer_phase.update((aligned - 0x418) / 2, 0), ..self }
        } else if aligned == 0x422 {
            let reset = self.reg16(0x422);
            let pending = (self.reg16(0x420) & !reset) | (if reset & 0x0040 != 0 && self.reg16(0x418) & 0x00ff
                == 0x00ff {
                0x0040u16
            } else {
                0
            }) | (if reset & 0x0080 != 0 && self.reg16(0x41a) & 0x00ff == 0x00ff {
                0x0080u16
            } else {
                0
            }) | (if reset & 0x0100 != 0 && self.reg16(0x41c) & 0x00ff == 0x00ff {
                0x0100u16
            } else {
                0
            });
            self.with_reg16(0x420, pending)
        } else if aligned == 0x42e {
            self.with_reg16(0x42c, self.reg16(0x42c) & !self.reg16(0x42e))
        } else {
            self
        }
    }

    /// A byte write to the register window, and the slots it keyed on: the
    /// ring buffer, the DSP window, the MIDI output, or the registers (a
    /// slot control word's execute bit keys slots on and off).
    #[verifier::opaque]
    pub open spec fn after_write8(self, offset: usize, value: u8) -> (ScspModel, Seq<bool>) {
        let o = offset as int % 0x1000;
        if 0x600 <= o < 0x700 {
            let i = ((o - 0x600) / 2) % 64;
            (
                ScspModel {
                    ring_buffer: self.ring_buffer.update(i, set_byte(self.ring_buffer[i] as u16, o % 2, value) as i16),
                    ..self
                },
                no_keys(),
            )
        } else if o >= 0x700 {
            let a = (o / 2 * 2) as usize;
            (
                ScspModel { dsp: self.dsp.after_write(a, set_byte(self.dsp.word_at(a), o % 2, value)), ..self },
                no_keys(),
            )
        } else if o == 0x407 {
            (ScspModel { regs: self.regs.update(o, value), ..self }.after_midi_output(value), no_keys())
        } else if o == 0x404 || o == 0x405 {
            (self, no_keys())
        } else {
            let w = ScspModel { regs: self.regs.update(o, value), ..self };
            let w2 = if 0x408 <= o <= 0x409 {
                ScspModel { monitor_slot: ((w.reg16(0x408) / 0x800) % 32) as u8, ..w }
            } else {
                w
            };
            if o < 0x400 && o % 0x20 < 2 {
                let base = o / 0x20 * 0x20;
                if w2.reg16(base) & 0x1000 != 0 {
                    (w2.key_executed(base), w2.key_on_flags())
                } else {
                    (w2, no_keys())
                }
            } else if 0x400 <= o < 0x430 {
                (w2.after_global_write(o), no_keys())
            } else {
                (w2, no_keys())
            }
        }
    }

    /// A big-endian word write (low byte first), and the slots it keyed on.
    pub open spec fn after_write_word(self, offset: usize, value: u16) -> (ScspModel, Seq<bool>) {
        let (m1, k1) = self.after_write8(offset.wrapping_add(1), byte_of(value, 1));
        let (m2, k2) = m1.after_write8(offset, byte_of(value, 0));
        (m2, Seq::new(32, |s: int| k1[s] || k2[s]))
    }
}

/// Either slot set.
pub open spec fn either_keys(a: Seq<bool>, b: Seq<bool>) -> Seq<bool> {
    Seq::new(32, |s: int| a[s] || b[s])
}

impl ScspModel {
    /// A big-endian word read (high byte first), and the model after it.
    pub open spec fn read_word(self, offset: usize) -> (u16, ScspModel) {
        let (high, m) = self.read8(offset);
        let (low, m2) = m.read8(offset.wrapping_add(1));
        ((high as int * 0x100 + low as int) as u16, m2)
    }

    /// One word of a DMA between sound RAM at `dmea` and the registers at
    /// `drga`: to sound RAM a register word (zero when gated), else to the
    /// registers a sound RAM word (zero when gated). Gating holds the
    /// source address. Returns the model, sound RAM, slots keyed on, and
    /// the two addresses after it.
    #[verifier::opaque]
    pub open spec fn dma_word(self, ram: Seq<u8>, to_ram: bool, gate: bool, dmea: usize, drga: usize) -> (
        ScspModel,
        Seq<u8>,
        Seq<bool>,
        usize,
        usize,
    ) {
        if to_ram {
            let (value, m) = if gate { (0u16, self) } else { self.read_word(drga) };
            (
                m,
                with_ram_word(ram, dmea as int, value),
                no_keys(),
                ((dmea + 2) % 0x10_0000) as usize,
                if gate { drga } else { ((drga + 2) % 0x1000) as usize },
            )
        } else {
            let value = if gate { 0u16 } else { ram_word_spec(ram, dmea as int) };
            let (m, keys) = self.after_write_word(drga, value);
            (
                m,
                ram,
                keys,
                if gate { dmea } else { ((dmea + 2) % 0x10_0000) as usize },
                ((drga + 2) % 0x1000) as usize,
            )
        }
    }

    /// `n` words of a DMA.
    #[verifier::opaque]
    pub open spec fn dma_words(self, ram: Seq<u8>, to_ram: bool, gate: bool, dmea: usize, drga: usize, n: nat) -> (
        ScspModel,
        Seq<u8>,
        Seq<bool>,
        usize,
        usize,
    )
        decreases n,
    {
        if n == 0 {
            (self, ram, no_keys(), dmea, drga)
        } else {
            let (m, r, k, a, b) = self.dma_words(ram, to_ram, gate, dmea, drga, (n - 1) as nat);
            let (m2, r2, k2, a2, b2) = m.dma_word(r, to_ram, gate, a, b);
            (m2, r2, either_keys(k, k2), a2, b2)
        }
    }

    /// The sound RAM address a DMA starts at.
    pub open spec fn dma_ram_address(self) -> usize {
        ((self.reg16(0x414) & 0xf000) as int * 0x10 + (self.reg16(0x412) & 0xfffe) as int) as usize
    }

    /// A pending DMA run: the words move, a transfer into the registers
    /// leaves its own address and length registers as they were, the
    /// start bit clears, and the end interrupt is requested when enabled.
    /// Returns the model, sound RAM and slots keyed on.
    pub open spec fn after_dma(self, ram: Seq<u8>) -> (ScspModel, Seq<u8>, Seq<bool>) {
        if !self.dma_pending {
            (self, ram, no_keys())
        } else {
            let m0 = ScspModel { dma_pending: false, ..self };
            let control = self.reg16(0x416);
            let to_ram = control & 0x2000 != 0;
            let gate = control & 0x4000 != 0;
            let words = ((control & 0x0ffe) / 2) as nat;
            let (m1, ram1, keys) = if ram.len() == 0 {
                (m0, ram, no_keys())
            } else {
                let (a, b, c, d, e) = m0.dma_words(
                    ram,
                    to_ram,
                    gate,
                    self.dma_ram_address(),
                    (self.reg16(0x414) & 0x0ffe) as usize,
                    words,
                );
                (a, b, c)
            };
            let m2 = if !to_ram {
                ScspModel {
                    regs: Seq::new(
                        SCSP_REGS_SIZE as nat,
                        |i: int| if 0x412 <= i < 0x418 { self.regs[i] } else { m1.regs[i] },
                    ),
                    ..m1
                }
            } else {
                m1
            };
            let m3 = m2.with_reg16(0x416, m2.reg16(0x416) & 0xefff);
            (
                ScspModel {
                    dma_pending: false,
                    dma_irq_pending: if m3.reg16(0x41e) & 0x0010 != 0 { true } else { m3.dma_irq_pending },
                    ..m3
                },
                ram1,
                keys,
            )
        }
    }
}

/// `x * y` wrapped to 32 bits.
pub open spec fn mul32(x: u32, y: u32) -> u32 {
    ((x as nat * y as nat) % 0x1_0000_0000) as u32
}

/// The LFO noise table's entry `index`: a 32-bit integer hash of it.
pub open spec fn lfo_noise_spec(index: u8) -> u8 {
    let v1 = mul32((index + 1) as u32, 0x045d_9f3b);
    let v2 = v1 ^ (v1 >> 16u32);
    let v3 = mul32(v2, 0x045d_9f3b);
    let v4 = v3 ^ (v3 >> 16u32);
    v4 as u8
}

/// The pitch LFO's wave at `index` (0-255): sawtooth, square, triangle or
/// noise, centred on zero.
pub open spec fn pitch_lfo_wave_spec(index: u8, waveform: u16) -> i16 {
    let i = index as int;
    let w = waveform % 4;
    (if w == 0 {
        if i < 128 {
            i
        } else {
            i - 256
        }
    } else if w == 1 {
        if i < 128 {
            127
        } else {
            -128
        }
    } else if w == 2 {
        if i < 64 {
            i * 2
        } else if i < 128 {
            255 - i * 2
        } else if i < 192 {
            256 - i * 2
        } else {
            i * 2 - 511
        }
    } else {
        128 - lfo_noise_spec(index) as int
    }) as i16
}

/// The amplitude LFO's wave at `index` (0-255): falling sawtooth, square,
/// triangle or noise, from 0 to 255.
pub open spec fn amplitude_lfo_wave_spec(index: u8, waveform: u16) -> u16 {
    let i = index as int;
    let w = waveform % 4;
    (if w == 0 {
        255 - i
    } else if w == 1 {
        if i < 128 {
            255
        } else {
            0
        }
    } else if w == 2 {
        if i < 128 {
            255 - i * 2
        } else {
            i * 2 - 256
        }
    } else {
        lfo_noise_spec(index) as int
    }) as u16
}

/// `x` limited to the `u32` range.
pub open spec fn clamp32(x: int) -> u32 {
    if x < 0 {
        0
    } else if x > u32::MAX {
        u32::MAX
    } else {
        x as u32
    }
}

/// A loop cursor bouncing between `start` and `end` at most `n` times.
pub open spec fn bounce(phase: int, back: bool, start: int, end: int, n: nat) -> (int, bool)
    decreases n,
{
    if n == 0 {
        (phase, back)
    } else if !back && phase >= end {
        bounce(end - (phase - end), true, start, end, (n - 1) as nat)
    } else if back && phase < start {
        bounce(start + (start - phase), false, start, end, (n - 1) as nat)
    } else {
        (phase, back)
    }
}

/// `x` truncated towards zero when halved.
pub open spec fn half_toward_zero(x: int) -> int {
    if x >= 0 {
        x / 2
    } else {
        -((-x) / 2)
    }
}

impl ScspModel {
    /// The next noise sample and the generator state after it: a 32-bit
    /// xorshift (a zero state restarts from the seed), its high half.
    pub open spec fn noise_step(self) -> (i16, u32) {
        let v0 = if self.noise_state == 0 { 0x5343_5350u32 } else { self.noise_state };
        let v1 = v0 ^ (v0 << 13u32);
        let v2 = v1 ^ (v1 >> 17u32);
        let v3 = v2 ^ (v2 << 5u32);
        (((v3 >> 16u32) as u16) as i16, v3)
    }

    /// Slot `slot`'s ring modulation offset into sound RAM: the average of
    /// two ring buffer samples (chosen relative to the ring pointer),
    /// scaled by the modulation depth, in bytes for 8-bit samples and
    /// doubled for 16-bit ones.
    pub open spec fn ring_modulation_offset(self, slot: int, pcm8: bool) -> i32 {
        let modulation = self.reg16(slot * 0x20 + 0x0e);
        let depth = (modulation / 0x1000) % 0x10;
        let source_x = (modulation / 0x40) % 0x40;
        let source_y = modulation % 0x40;
        if depth == 0 && source_x == 0 && source_y == 0 {
            0
        } else {
            let pointer = self.ring_ptr as int;
            let average = half_toward_zero(
                self.ring_buffer[(pointer + source_x) % 64] as int + self.ring_buffer[(pointer + source_y) % 64] as int,
            ) as i32;
            let offset = ((average * 1024) as i32) >> ((26 - depth) as u32);
            if pcm8 {
                offset
            } else {
                (offset * 2) as i32
            }
        }
    }

    /// Slot `slot`'s phase step before the pitch LFO: $10000 plus the
    /// frequency number times 64, shifted by the signed octave.
    pub open spec fn pitch_step_base(self, slot: int) -> u32 {
        let word = self.reg16(slot * 0x20 + 0x10);
        let fns = word % 0x400;
        let octave = (word / 0x800) % 0x10;
        let step = (0x1_0000 + fns * 0x40) as u32;
        if octave >= 8 {
            step >> ((16 - octave) as u32)
        } else {
            step << (octave as u32)
        }
    }

    /// The envelope rate table index for `rate` on slot `slot`: twice the
    /// rate plus the key-rate scaling offset, limited to 0-63.
    pub open spec fn envelope_rate_index(self, slot: int, rate: u16) -> int {
        let pitch = self.reg16(slot * 0x20 + 0x10);
        let raw_octave = (pitch / 0x800) % 0x10;
        let octave = if raw_octave >= 8 { raw_octave - 16 } else { raw_octave as int };
        let krs = (self.reg16(slot * 0x20 + 0x0a) / 0x400) % 0x10;
        let base = if krs == 0x0f { 0 } else { octave + 2 * krs + (pitch / 0x200) % 2 };
        let index = base + rate * 2;
        if index < 0 {
            0
        } else if index > 63 {
            63
        } else {
            index
        }
    }

    /// Slot `slot` stopped: released, forwards, and its key-on bit cleared.
    pub open spec fn slot_stopped(self, slot: int) -> ScspModel {
        ScspModel {
            keyed: self.keyed.update(slot, false),
            backwards: self.backwards.update(slot, false),
            envelope_state: self.envelope_state.update(slot, 3),
            ..self
        }.with_reg16(slot * 0x20, self.reg16(slot * 0x20) & 0xf7ff)
    }

    /// Slot `slot`'s loop cursor after a step of `step`, and whether the
    /// slot stopped: a one-shot stops at the loop end; a forward loop wraps
    /// to the loop start; a reverse loop runs back from the end; an
    /// alternating loop bounces between the two. Passing the loop start in
    /// attack with the loop link set moves the envelope to decay.
    pub open spec fn advanced(self, slot: int, step: u32, loop_start: int, loop_end: int, loop_mode: u16) -> (
        ScspModel,
        bool,
    ) {
        let back = self.backwards[slot];
        let phase = if back { self.phase[slot] - step } else { self.phase[slot] + step };
        let start = loop_start * 0x1_0000;
        let end = loop_end * 0x1_0000;
        let span = if end - start > 1 { end - start } else { 1 };
        let link = self.reg16(slot * 0x20 + 0x0a) & 0x4000 != 0;
        let m = if !back && phase >= start && link && self.envelope_state[slot] == 0 {
            ScspModel { envelope_state: self.envelope_state.update(slot, 1), ..self }
        } else {
            self
        };
        if loop_mode == 0 {
            if phase >= end {
                (ScspModel { phase: m.phase.update(slot, clamp32(end)), ..m }.slot_stopped(slot), true)
            } else {
                (ScspModel { phase: m.phase.update(slot, clamp32(phase)), ..m }, false)
            }
        } else if loop_mode == 1 {
            let p = if phase >= end { start + (phase - end) % span } else { phase };
            (ScspModel { phase: m.phase.update(slot, clamp32(p)), ..m }, false)
        } else if loop_mode == 2 {
            let (p1, b1) = if !back && phase >= start { (end - (phase - start), true) } else { (phase, back) };
            let p2 = if b1 && p1 < start { end - (start - p1) % span } else { p1 };
            (ScspModel { phase: m.phase.update(slot, clamp32(p2)), backwards: m.backwards.update(slot, b1), ..m }, false)
        } else if loop_mode == 3 {
            let (p, b) = bounce(phase, back, start, end, 4);
            let p2 = if p < start { start } else if p > end { end } else { p };
            (ScspModel { phase: m.phase.update(slot, clamp32(p2)), backwards: m.backwards.update(slot, b), ..m }, false)
        } else {
            (ScspModel { phase: m.phase.update(slot, clamp32(phase)), ..m }, false)
        }
    }
}

/// The MIDI input is first in, first out: with room in the FIFO, the byte
/// read next is the oldest one queued, which is the byte just received
/// when the FIFO was empty.
pub proof fn midi_input_is_first_in_first_out(m: ScspModel, value: u8)
    requires
        m.wf(),
        m.midi_in_count < 32,
    ensures
        m.after_midi_input(value).midi_pop().0 == (if m.midi_in_count == 0 {
            value
        } else {
            m.midi_in[m.midi_in_read as int]
        }),
{
}

proof fn lemma_ring_write8(m: ScspModel, offset: usize, value: u8)
    requires
        0x600 <= offset as int % 0x1000 < 0x700,
    ensures
        m.after_write8(offset, value).0 == (ScspModel {
            ring_buffer: m.ring_buffer.update(
                ((offset as int % 0x1000 - 0x600) / 2) % 64,
                set_byte(
                    m.ring_buffer[((offset as int % 0x1000 - 0x600) / 2) % 64] as u16,
                    offset as int % 0x1000 % 2,
                    value,
                ) as i16,
            ),
            ..m
        }),
{
    reveal(ScspModel::after_write8);
}

proof fn lemma_ring_read8(m: ScspModel, offset: usize)
    requires
        0x600 <= offset as int % 0x1000 < 0x700,
    ensures
        m.read8(offset) == (
            byte_of(m.ring_buffer[((offset as int % 0x1000 - 0x600) / 2) % 64] as u16, offset as int % 0x1000 % 2),
            m,
        ),
{
    reveal(ScspModel::read8);
}

/// A word written to the ring buffer window reads back unchanged.
pub proof fn ring_buffer_word_reads_back(m: ScspModel, offset: usize, value: u16)
    requires
        m.wf(),
        0x600 <= offset as int % 0x1000 < 0x700,
        offset % 2 == 0,
    ensures
        m.after_write_word(offset, value).0.read_word(offset).0 == value,
{
    let o = offset as int % 0x1000;
    let next = offset.wrapping_add(1);
    assert(next == offset + 1);
    assert(next as int % 0x1000 == o + 1);
    let i = ((o - 0x600) / 2) % 64;
    assert(((o + 1 - 0x600) / 2) % 64 == i);
    assert(o % 2 == 0);
    lemma_ring_write8(m, next, byte_of(value, 1));
    let m1 = m.after_write8(next, byte_of(value, 1)).0;
    let w1 = set_byte(m.ring_buffer[i] as u16, 1, byte_of(value, 1));
    let w1s = w1 as i16;
    assert(w1s as u16 == w1) by (bit_vector)
        requires
            w1s == w1 as i16;
    assert(m1.ring_buffer[i] == w1s);
    lemma_ring_write8(m1, offset, byte_of(value, 0));
    let m2 = m1.after_write8(offset, byte_of(value, 0)).0;
    let w2 = set_byte(w1, 0, byte_of(value, 0));
    let w2s = w2 as i16;
    assert(w2s as u16 == w2) by (bit_vector)
        requires
            w2s == w2 as i16;
    assert(m2.ring_buffer[i] == w2s);
    assert(m.after_write_word(offset, value).0 == m2);
    lemma_ring_read8(m2, offset);
    lemma_ring_read8(m2, next);
    assert(byte_of(w2, 0) as int * 0x100 + byte_of(w2, 1) as int == value as int);
}

/// 2 to the power `n`, for `n` below 8.
pub open spec fn pow2_u32(n: u16) -> u32 {
    if n == 0 {
        1
    } else if n == 1 {
        2
    } else if n == 2 {
        4
    } else if n == 3 {
        8
    } else if n == 4 {
        16
    } else if n == 5 {
        32
    } else if n == 6 {
        64
    } else {
        128
    }
}

impl SaturnScsp {
    pub open spec fn wf(&self) -> bool {
        self@.wf()
    }

    /// The chip at reset.
    pub fn new() -> (s: Self)
        ensures
            s.wf(),
            s@ == scsp_reset(),
    {
        let s = SaturnScsp {
            regs: vec![0u8; SCSP_REGS_SIZE],
            phase: [0u32; 32],
            keyed: [false; 32],
            backwards: [false; 32],
            envelope_state: [3u8; 32],
            pitch_lfo_phase: [0u32; 32],
            amplitude_lfo_phase: [0u32; 32],
            ring_buffer: [0i16; 64],
            ring_ptr: 0,
            monitor_slot: 0,
            noise_state: 0x5343_5350,
            dma_pending: false,
            dma_irq_pending: false,
            dsp: SaturnScspDsp::new(),
            midi_in: [0u8; 32],
            midi_in_read: 0,
            midi_in_write: 0,
            midi_in_count: 0,
            midi_out: [0u8; 32],
            midi_out_read: 0,
            midi_out_write: 0,
            midi_out_count: 0,
            midi_overflow: false,
            midi_out_phase: 0,
            timer_phase: [0u32; 3],
            sample_phase: 0,
        };
        assert(s@.regs =~= scsp_reset().regs);
        assert(s@.phase =~= scsp_reset().phase);
        assert(s@.keyed =~= scsp_reset().keyed);
        assert(s@.backwards =~= scsp_reset().backwards);
        assert(s@.envelope_state =~= scsp_reset().envelope_state);
        assert(s@.pitch_lfo_phase =~= scsp_reset().pitch_lfo_phase);
        assert(s@.amplitude_lfo_phase =~= scsp_reset().amplitude_lfo_phase);
        assert(s@.ring_buffer =~= scsp_reset().ring_buffer);
        assert(s@.midi_in =~= scsp_reset().midi_in);
        assert(s@.midi_out =~= scsp_reset().midi_out);
        assert(s@.timer_phase =~= scsp_reset().timer_phase);
        s
    }

    /// Returns the chip to its reset state.
    pub fn reset(&mut self)
        ensures
            final(self).wf(),
            final(self)@ == scsp_reset(),
    {
        *self = Self::new();
    }

    /// The register word at `offset`.
    pub fn reg16(&self, offset: usize) -> (r: u16)
        requires
            self.wf(),
            offset + 1 < SCSP_REGS_SIZE,
        ensures
            r == self@.reg16(offset as int),
    {
        be16(self.regs.as_slice(), offset)
    }

    fn set_reg16(&mut self, offset: usize, value: u16)
        requires
            old(self).wf(),
            offset + 1 < SCSP_REGS_SIZE,
        ensures
            final(self).wf(),
            final(self)@ == old(self)@.with_reg16(offset as int, value),
    {
        put_be16(self.regs.as_mut_slice(), offset, value);
    }

    /// The MIDI status word.
    pub fn midi_status_word(&self) -> (r: u16)
        requires
            self.wf(),
        ensures
            r == self@.midi_status_word(),
    {
        (if self.midi_out_count == 32 { 0x1000u16 } else { 0 }) | (if self.midi_out_count == 0 {
            0x0800u16
        } else {
            0
        }) | (if self.midi_overflow { 0x0400u16 } else { 0 }) | (if self.midi_in_count == 32 {
            0x0200u16
        } else {
            0
        }) | (if self.midi_in_count == 0 { 0x0100u16 } else { self.midi_in[self.midi_in_read as usize] as u16 })
    }

    /// A byte arriving at the MIDI input.
    pub fn push_midi_input(&mut self, value: u8)
        requires
            old(self).wf(),
        ensures
            final(self).wf(),
            final(self)@ == old(self)@.after_midi_input(value),
    {
        if self.midi_in_count == 32 {
            self.midi_overflow = true;
            return;
        }
        let pending = self.reg16(0x420) | 0x0008;
        self.midi_in[self.midi_in_write as usize] = value;
        self.midi_in_write = (self.midi_in_write + 1) % 32;
        self.midi_in_count = self.midi_in_count + 1;
        self.set_reg16(0x420, pending);
    }

    /// Takes the next MIDI input byte.
    pub fn pop_midi_input(&mut self) -> (r: u8)
        requires
            old(self).wf(),
        ensures
            final(self).wf(),
            (r, final(self)@) == old(self)@.midi_pop(),
    {
        if self.midi_in_count == 0 {
            return 0;
        }
        let value = self.midi_in[self.midi_in_read as usize];
        self.midi_in_read = (self.midi_in_read + 1) % 32;
        self.midi_in_count = self.midi_in_count - 1;
        if self.midi_in_count == 0 {
            let pending = self.reg16(0x420) & 0xfff7;
            self.set_reg16(0x420, pending);
        }
        value
    }

    /// Queues a byte on the MIDI output.
    pub fn push_midi_output(&mut self, value: u8)
        requires
            old(self).wf(),
        ensures
            final(self).wf(),
            final(self)@ == old(self)@.after_midi_output(value),
    {
        if self.midi_out_count == 32 {
            self.midi_overflow = true;
            return;
        }
        if self.midi_out_count == 0 {
            self.midi_out_phase = 0;
        }
        self.midi_out[self.midi_out_write as usize] = value;
        self.midi_out_write = (self.midi_out_write + 1) % 32;
        self.midi_out_count = self.midi_out_count + 1;
    }

    /// Sends MIDI output for `sh_cycles` CPU cycles.
    pub fn tick_midi(&mut self, sh_cycles: u32)
        requires
            old(self).wf(),
        ensures
            final(self).wf(),
            final(self)@ == old(self)@.after_tick_midi(sh_cycles),
    {
        if self.midi_out_count == 0 {
            self.midi_out_phase = 0;
            return;
        }
        self.midi_out_phase = self.midi_out_phase.saturating_add((sh_cycles as u64 * MIDI_BYTES_PER_SECOND) as u64);
        let ghost total = self.midi_out_phase as int;
        let ghost sent: int = 0;
        while self.midi_out_count != 0 && self.midi_out_phase >= SH2_HZ
            invariant
                self.wf(),
                0 <= sent <= old(self).midi_out_count,
                self.midi_out_count == old(self).midi_out_count - sent,
                self.midi_out_read == (old(self).midi_out_read + sent) % 32,
                self.midi_out_phase == total - sent * SH2_HZ,
                total == old(self).midi_out_phase.saturating_add((sh_cycles as u64 * MIDI_BYTES_PER_SECOND) as u64),
                self@ == (ScspModel {
                    midi_out_read: self.midi_out_read,
                    midi_out_count: self.midi_out_count,
                    midi_out_phase: self.midi_out_phase,
                    ..old(self)@
                }),
            decreases self.midi_out_count,
        {
            self.midi_out_phase = self.midi_out_phase - SH2_HZ;
            self.midi_out_read = (self.midi_out_read + 1) % 32;
            self.midi_out_count = self.midi_out_count - 1;
            proof {
                sent = sent + 1;
            }
        }
        proof {
            let due = total / SH2_HZ as int;
            if self.midi_out_count != 0 {
                assert(self.midi_out_phase < SH2_HZ);
                assert(sent * SH2_HZ <= total < (sent + 1) * SH2_HZ);
                assert(due == sent) by (nonlinear_arith)
                    requires
                        sent * SH2_HZ <= total < (sent + 1) * SH2_HZ,
                        due == total / SH2_HZ as int,
                        0 <= sent;
            } else {
                assert(sent * SH2_HZ <= total);
                assert(due >= sent) by (nonlinear_arith)
                    requires
                        sent * SH2_HZ <= total,
                        due == total / SH2_HZ as int,
                        0 <= sent;
            }
        }
        if self.midi_out_count == 0 {
            self.midi_out_phase = 0;
        }
    }

    /// Refreshes the slot monitor word from the monitored slot's cursor,
    /// envelope state and `envelope` level (in 1023ths).
    pub fn refresh_slot_monitor(&mut self, envelope: u16)
        requires
            old(self).wf(),
        ensures
            final(self).wf(),
            final(self)@ == old(self)@.with_reg16(0x408, old(self)@.monitor_word(envelope)),
    {
        let slot = (self.monitor_slot % 32) as usize;
        let current_address = (self.phase[slot] / 0x1000_0000) as u16;
        let state = (self.envelope_state[slot] % 4) as u16;
        let level = envelope / 32;
        let attenuation: u16 = if level >= 31 { 0 } else { 31 - level };
        self.set_reg16(0x408, current_address * 0x80 + state * 0x20 + attenuation);
    }

    /// A byte read of the register window. The slot monitor reads as last
    /// refreshed.
    pub fn read8(&mut self, offset: usize) -> (r: u8)
        requires
            old(self).wf(),
        ensures
            final(self).wf(),
            (r, final(self)@) == old(self)@.read8(offset),
    {
        proof {
            reveal(ScspModel::read8);
        }
        let o = offset % 0x1000;
        if 0x600 <= o && o < 0x700 {
            let word = self.ring_buffer[((o - 0x600) / 2) % 64] as u16;
            return if o % 2 == 0 { (word / 0x100) as u8 } else { (word % 0x100) as u8 };
        }
        if o >= 0x700 {
            let word = self.dsp.read_word(o / 2 * 2);
            return if o % 2 == 0 { (word / 0x100) as u8 } else { (word % 0x100) as u8 };
        }
        if o == 0x404 || o == 0x405 {
            let word = self.midi_status_word();
            if o == 0x405 {
                let value = (word % 0x100) as u8;
                self.pop_midi_input();
                return value;
            }
            return (word / 0x100) as u8;
        }
        self.regs[o]
    }

    /// The big-endian word read at `offset` (high byte first).
    pub fn read_word(&mut self, offset: usize) -> (r: u16)
        requires
            old(self).wf(),
        ensures
            final(self).wf(),
            (r, final(self)@) == old(self)@.read_word(offset),
    {
        let high = self.read8(offset);
        let low = self.read8(offset.wrapping_add(1));
        high as u16 * 0x100 + low as u16
    }

    /// The interrupt level of source `source`.
    pub fn decode_sci_level(&self, source: u8) -> (r: u8)
        requires
            self.wf(),
        ensures
            r == self@.sci_level(source),
    {
        if source >= 8 {
            return 0;
        }
        let mask = 1u16 << source;
        let mut level: u8 = 0;
        if self.reg16(0x424) & mask != 0 {
            level = level + 1;
        }
        if self.reg16(0x426) & mask != 0 {
            level = level + 2;
        }
        if self.reg16(0x428) & mask != 0 {
            level = level + 4;
        }
        level
    }

    /// The sound CPU's interrupt, as (source, level, vector).
    pub fn interrupt_source(&self) -> (r: Option<(u8, u8, u8)>)
        requires
            self.wf(),
        ensures
            r == self@.interrupt_source(),
    {
        let enabled = self.reg16(0x41e);
        let active = enabled & self.reg16(0x420);
        let source: u8 = if active & 0x0020 != 0 {
            5
        } else if self.dma_irq_pending && enabled & 0x0010 != 0 {
            4
        } else if active & 0x0040 != 0 {
            6
        } else if active & 0x0180 != 0 {
            7
        } else if active & 0x0008 != 0 {
            3
        } else {
            return None;
        };
        let level = self.decode_sci_level(source);
        if level != 0 {
            Some((source, level, 24 + level))
        } else {
            None
        }
    }

    /// The sound CPU's interrupt, as (level, vector).
    pub fn interrupt(&self) -> (r: Option<(u8, u8)>)
        requires
            self.wf(),
        ensures
            r == (match self@.interrupt_source() {
                Some((source, level, vector)) => Some((level, vector)),
                None => None,
            }),
    {
        match self.interrupt_source() {
            Some((_, level, vector)) => Some((level, vector)),
            None => None,
        }
    }

    /// Acknowledges interrupt source `source`; the DMA end request clears.
    pub fn acknowledge_interrupt(&mut self, source: u8)
        ensures
            final(self)@ == (if source == 4 {
                ScspModel { dma_irq_pending: false, ..old(self)@ }
            } else {
                old(self)@
            }),
    {
        if source == 4 {
            self.dma_irq_pending = false;
        }
    }

    /// Whether the main CPU's sound interrupt is requested: enabled and
    /// pending bits in common.
    pub fn main_interrupt_pending(&self) -> (r: bool)
        requires
            self.wf(),
        ensures
            r == (self@.reg16(0x42a) & self@.reg16(0x42c) != 0),
    {
        self.reg16(0x42a) & self.reg16(0x42c) != 0
    }

    /// Sets the DSP's external inputs.
    pub fn set_external_inputs(&mut self, left: i16, right: i16)
        ensures
            final(self)@ == (ScspModel { dsp: DspModel { exts: seq![left, right], ..old(self)@.dsp }, ..old(self)@ }),
    {
        self.dsp.exts = [left, right];
        assert(self.dsp@.exts =~= seq![left, right]);
    }

    fn tick_timer(&mut self, timer: usize) -> (fired: bool)
        requires
            old(self).wf(),
            timer < 3,
        ensures
            final(self).wf(),
            (final(self)@, fired) == old(self)@.timer_ticked(timer as int),
    {
        let offset = 0x418 + timer * 2;
        let word = self.reg16(offset);
        let count = word % 0x100;
        if count == 0xff {
            return false;
        }
        let shift = word / 0x100 % 8;
        let divider: u32 = if shift == 0 {
            1
        } else if shift == 1 {
            2
        } else if shift == 2 {
            4
        } else if shift == 3 {
            8
        } else if shift == 4 {
            16
        } else if shift == 5 {
            32
        } else if shift == 6 {
            64
        } else {
            128
        };
        self.timer_phase[timer] = self.timer_phase[timer].saturating_add(1);
        if self.timer_phase[timer] < divider {
            return false;
        }
        let ghost phase = self.timer_phase[timer as int];
        self.timer_phase[timer] = self.timer_phase[timer] - divider;
        assert(self@.timer_phase =~= old(self)@.timer_phase.update(timer as int, (phase - divider) as u32));
        let new_count = count + 1;
        self.set_reg16(offset, word / 0x100 * 0x100 + new_count);
        new_count == 0xff
    }

    /// Ticks the three timers by one output sample.
    pub fn tick_timers(&mut self)
        requires
            old(self).wf(),
        ensures
            final(self).wf(),
            final(self)@ == old(self)@.after_tick_timers(),
    {
        let pending = self.reg16(0x420);
        let main = self.reg16(0x42c);
        let fired_a = self.tick_timer(0);
        let fired_b = self.tick_timer(1);
        let fired_c = self.tick_timer(2);
        let pending = pending | (if fired_a { 0x0040u16 } else { 0 }) | (if fired_b { 0x0080u16 } else { 0 }) | (if fired_c {
            0x0100u16
        } else {
            0
        });
        let main = main | (if fired_a { 0x0040u16 } else { 0 });
        self.set_reg16(0x420, pending);
        self.set_reg16(0x42c, main);
    }

    fn handle_global_write(&mut self, offset: usize)
        requires
            old(self).wf(),
            offset < SCSP_REGS_SIZE,
        ensures
            final(self).wf(),
            final(self)@ == old(self)@.after_global_write(offset as int),
    {
        let aligned = offset / 2 * 2;
        if aligned == 0x402 {
            let value = self.reg16(0x402);
            self.dsp.configure_ring(value);
        } else if aligned == 0x416 {
            if self.reg16(0x416) & 0x1000 != 0 {
                self.dma_pending = true;
            }
        } else if 0x418 <= aligned && aligned <= 0x41c {
            self.timer_phase[(aligned - 0x418) / 2] = 0;
            assert(self@.timer_phase =~= old(self)@.timer_phase.update((aligned - 0x418) / 2, 0));
        } else if aligned == 0x422 {
            let reset = self.reg16(0x422);
            let pending = (self.reg16(0x420) & !reset) | (if reset & 0x0040 != 0 && self.reg16(0x418) & 0x00ff
                == 0x00ff {
                0x0040u16
            } else {
                0
            }) | (if reset & 0x0080 != 0 && self.reg16(0x41a) & 0x00ff == 0x00ff {
                0x0080u16
            } else {
                0
            }) | (if reset & 0x0100 != 0 && self.reg16(0x41c) & 0x00ff == 0x00ff {
                0x0100u16
            } else {
                0
            });
            self.set_reg16(0x420, pending);
        } else if aligned == 0x42e {
            let pending = self.reg16(0x42c) & !self.reg16(0x42e);
            self.set_reg16(0x42c, pending);
        }
    }

    fn execute_keys(&mut self, base: usize) -> (keys: [bool; 32])
        requires
            old(self).wf(),
            base + 1 < 0x400,
        ensures
            final(self).wf(),
            final(self)@ == old(self)@.key_executed(base as int),
            keys@ == old(self)@.key_on_flags(),
    {
        let mut keys = [false; 32];
        let mut slot: usize = 0;
        while slot < 32
            invariant
                self.wf(),
                slot <= 32,
                self.regs@ == old(self).regs@,
                forall|s: int| 0 <= s < slot ==> keys@[s] == old(self)@.keys_on(s),
                forall|s: int| slot <= s < 32 ==> !keys@[s],
                forall|s: int| 0 <= s < slot ==> self.phase@[s] == (if old(self)@.keys_on(s) { 0u32 } else { old(self).phase@[s] }),
                forall|s: int| 0 <= s < slot ==> self.backwards@[s] == (if old(self)@.keys_on(s) { false } else { old(self).backwards@[s] }),
                forall|s: int| 0 <= s < slot ==> self.keyed@[s] == (if old(self)@.keys_on(s) { true } else { old(self).keyed@[s] }),
                forall|s: int| 0 <= s < slot ==> self.envelope_state@[s] == (if old(self)@.keys_on(s) {
                    0u8
                } else if old(self)@.keys_off(s) {
                    3u8
                } else {
                    old(self).envelope_state@[s]
                }),
                forall|s: int| slot <= s < 32 ==> self.phase@[s] == old(self).phase@[s],
                forall|s: int| slot <= s < 32 ==> self.backwards@[s] == old(self).backwards@[s],
                forall|s: int| slot <= s < 32 ==> self.keyed@[s] == old(self).keyed@[s],
                forall|s: int| slot <= s < 32 ==> self.envelope_state@[s] == old(self).envelope_state@[s],
                self@ == (ScspModel {
                    phase: self@.phase,
                    backwards: self@.backwards,
                    keyed: self@.keyed,
                    envelope_state: self@.envelope_state,
                    ..old(self)@
                }),
            decreases 32 - slot,
        {
            let word = self.reg16(slot * 0x20);
            let next = word & 0x0800 != 0;
            if next && (!self.keyed[slot] || self.envelope_state[slot] == 3) {
                self.phase[slot] = 0;
                self.backwards[slot] = false;
                self.envelope_state[slot] = 0;
                self.keyed[slot] = true;
                keys[slot] = true;
            } else if !next && self.keyed[slot] {
                self.envelope_state[slot] = 3;
            }
            slot = slot + 1;
        }
        let control = self.reg16(base) & 0xefff;
        proof {
            let k = old(self)@.key_executed(base as int);
            assert(self@.phase =~= Seq::new(32, |s: int| if old(self)@.keys_on(s) { 0u32 } else { old(self)@.phase[s] }));
            assert(self@.backwards =~= Seq::new(32, |s: int| if old(self)@.keys_on(s) { false } else { old(self)@.backwards[s] }));
            assert(self@.keyed =~= Seq::new(32, |s: int| if old(self)@.keys_on(s) { true } else { old(self)@.keyed[s] }));
            assert(self@.envelope_state =~= Seq::new(
                32,
                |s: int|
                    if old(self)@.keys_on(s) {
                        0u8
                    } else if old(self)@.keys_off(s) {
                        3u8
                    } else {
                        old(self)@.envelope_state[s]
                    },
            ));
            assert(keys@ =~= old(self)@.key_on_flags());
        }
        self.set_reg16(base, control);
        keys
    }

    /// A byte write to the register window; the slots it keyed on, whose
    /// envelopes restart.
    pub fn write8(&mut self, offset: usize, value: u8) -> (keys: [bool; 32])
        requires
            old(self).wf(),
        ensures
            final(self).wf(),
            (final(self)@, keys@) == old(self)@.after_write8(offset, value),
    {
        proof {
            reveal(ScspModel::after_write8);
        }
        let o = offset % 0x1000;
        let none = [false; 32];
        assert(none@ =~= no_keys());
        if 0x600 <= o && o < 0x700 {
            let index = ((o - 0x600) / 2) % 64;
            let word = self.ring_buffer[index] as u16;
            let updated = if o % 2 == 0 { value as u16 * 0x100 + word % 0x100 } else { word / 0x100 * 0x100 + value as u16 };
            self.ring_buffer[index] = updated as i16;
            assert(self@.ring_buffer =~= old(self)@.ring_buffer.update(index as int, set_byte(old(self)@.ring_buffer[index as int] as u16, o as int % 2, value) as i16));
            return none;
        }
        if o >= 0x700 {
            let aligned = o / 2 * 2;
            let word = self.dsp.read_word(aligned);
            let updated = if o % 2 == 0 { value as u16 * 0x100 + word % 0x100 } else { word / 0x100 * 0x100 + value as u16 };
            self.dsp.write_word(aligned, updated);
            return none;
        }
        if o == 0x407 {
            self.regs.set(o, value);
            self.push_midi_output(value);
            return none;
        }
        if o == 0x404 || o == 0x405 {
            return none;
        }
        self.regs.set(o, value);
        if 0x408 <= o && o <= 0x409 {
            self.monitor_slot = ((self.reg16(0x408) / 0x800) % 32) as u8;
        }
        if o < 0x400 && o % 0x20 < 2 {
            let base = o / 0x20 * 0x20;
            if self.reg16(base) & 0x1000 != 0 {
                return self.execute_keys(base);
            }
            none
        } else if 0x400 <= o && o < 0x430 {
            self.handle_global_write(o);
            none
        } else {
            none
        }
    }

    /// A big-endian word write (low byte first); the slots it keyed on.
    pub fn write_word(&mut self, offset: usize, value: u16) -> (keys: [bool; 32])
        requires
            old(self).wf(),
        ensures
            final(self).wf(),
            (final(self)@, keys@) == old(self)@.after_write_word(offset, value),
    {
        let low = self.write8(offset.wrapping_add(1), (value % 0x100) as u8);
        let high = self.write8(offset, (value / 0x100) as u8);
        let mut keys = [false; 32];
        let mut slot: usize = 0;
        while slot < 32
            invariant
                slot <= 32,
                forall|s: int| 0 <= s < slot ==> keys@[s] == (low@[s] || high@[s]),
            decreases 32 - slot,
        {
            keys[slot] = low[slot] || high[slot];
            slot = slot + 1;
        }
        assert(keys@ =~= Seq::new(32, |s: int| low@[s] || high@[s]));
        keys
    }

    fn dma_word(&mut self, sound_ram: &mut [u8], to_ram: bool, gate: bool, dmea: usize, drga: usize) -> (r: (
        [bool; 32],
        usize,
        usize,
    ))
        requires
            old(self).wf(),
            dmea < 0x10_0000,
            drga < 0x1000,
        ensures
            final(self).wf(),
            (final(self)@, final(sound_ram)@, r.0@, r.1, r.2) == old(self)@.dma_word(
                old(sound_ram)@,
                to_ram,
                gate,
                dmea,
                drga,
            ),
            r.1 < 0x10_0000,
            r.2 < 0x1000,
            final(sound_ram)@.len() == old(sound_ram)@.len(),
    {
        proof {
            reveal(ScspModel::dma_word);
        }
        if to_ram {
            let value = if gate { 0 } else { self.read_word(drga) };
            SaturnScspDsp::write_ram_word(sound_ram, dmea, value);
            let none = [false; 32];
            assert(none@ =~= no_keys());
            (none, (dmea + 2) % 0x10_0000, if gate { drga } else { (drga + 2) % 0x1000 })
        } else {
            let value = if gate { 0 } else { SaturnScspDsp::read_ram_word(sound_ram, dmea) };
            let keys = self.write_word(drga, value);
            (keys, if gate { dmea } else { (dmea + 2) % 0x10_0000 }, (drga + 2) % 0x1000)
        }
    }

    fn merge_keys(a: [bool; 32], b: [bool; 32]) -> (r: [bool; 32])
        ensures
            r@ == either_keys(a@, b@),
    {
        let mut out = [false; 32];
        let mut slot: usize = 0;
        while slot < 32
            invariant
                slot <= 32,
                forall|s: int| 0 <= s < slot ==> out@[s] == (a@[s] || b@[s]),
            decreases 32 - slot,
        {
            out[slot] = a[slot] || b[slot];
            slot = slot + 1;
        }
        assert(out@ =~= either_keys(a@, b@));
        out
    }

    fn run_dma_words(
        &mut self,
        sound_ram: &mut [u8],
        to_ram: bool,
        gate: bool,
        dmea: usize,
        drga: usize,
        words: usize,
    ) -> (keys: [bool; 32])
        requires
            old(self).wf(),
            dmea < 0x10_0000,
            drga < 0x1000,
        ensures
            final(self).wf(),
            ({
                let (m, r, k, a, b) = old(self)@.dma_words(old(sound_ram)@, to_ram, gate, dmea, drga, words as nat);
                final(self)@ == m && final(sound_ram)@ == r && keys@ == k
            }),
    {
        proof {
            reveal(ScspModel::dma_words);
        }
        let mut keys = [false; 32];
        assert(keys@ =~= no_keys());
        let mut at_ram = dmea;
        let mut at_reg = drga;
        let mut k: usize = 0;
        while k < words
            invariant
                self.wf(),
                k <= words,
                at_ram < 0x10_0000,
                at_reg < 0x1000,
                sound_ram@.len() == old(sound_ram)@.len(),
                (self@, sound_ram@, keys@, at_ram, at_reg) == old(self)@.dma_words(
                    old(sound_ram)@,
                    to_ram,
                    gate,
                    dmea,
                    drga,
                    k as nat,
                ),
            decreases words - k,
        {
            proof {
                reveal(ScspModel::dma_words);
            }
            let (step_keys, a, b) = self.dma_word(sound_ram, to_ram, gate, at_ram, at_reg);
            keys = Self::merge_keys(keys, step_keys);
            at_ram = a;
            at_reg = b;
            k = k + 1;
        }
        keys
    }

    /// Runs a pending DMA between sound RAM and the registers; the slots it
    /// keyed on.
    #[verifier::rlimit(80)]
    pub fn execute_dma(&mut self, sound_ram: &mut [u8]) -> (keys: [bool; 32])
        requires
            old(self).wf(),
        ensures
            final(self).wf(),
            (final(self)@, final(sound_ram)@, keys@) == old(self)@.after_dma(old(sound_ram)@),
    {
        let mut keys = [false; 32];
        assert(keys@ =~= no_keys());
        if !self.dma_pending {
            return keys;
        }
        self.dma_pending = false;
        let low = self.reg16(0x412);
        let high = self.reg16(0x414);
        assert(high & 0xf000 <= 0xf000 && low & 0xfffe <= 0xfffe && high & 0x0ffe <= 0x0ffe) by (bit_vector);
        let dmea = (high & 0xf000) as usize * 0x10 + (low & 0xfffe) as usize;
        let drga = (high & 0x0ffe) as usize;
        let control = self.reg16(0x416);
        let words = ((control & 0x0ffe) / 2) as usize;
        let to_ram = control & 0x2000 != 0;
        let gate = control & 0x4000 != 0;
        let saved = [self.regs[0x412], self.regs[0x413], self.regs[0x414], self.regs[0x415], self.regs[0x416], self.regs[0x417]];
        if sound_ram.len() != 0 {
            keys = self.run_dma_words(sound_ram, to_ram, gate, dmea, drga, words);
        }
        let ghost moved = self@;
        if !to_ram {
            self.regs.set(0x412, saved[0]);
            self.regs.set(0x413, saved[1]);
            self.regs.set(0x414, saved[2]);
            self.regs.set(0x415, saved[3]);
            self.regs.set(0x416, saved[4]);
            self.regs.set(0x417, saved[5]);
            assert(self@.regs =~= Seq::new(
                SCSP_REGS_SIZE as nat,
                |i: int| if 0x412 <= i < 0x418 { old(self)@.regs[i] } else { moved.regs[i] },
            ));
        }
        let cleared = self.reg16(0x416) & 0xefff;
        self.set_reg16(0x416, cleared);
        self.dma_pending = false;
        if self.reg16(0x41e) & 0x0010 != 0 {
            self.dma_irq_pending = true;
        }
        keys
    }

    /// The LFO noise table's entry `index`.
    pub fn lfo_noise(index: u8) -> (r: u8)
        ensures
            r == lfo_noise_spec(index),
    {
        let mut value = (index as u32 + 1).wrapping_mul(0x045d_9f3b);
        value = value ^ (value >> 16u32);
        value = value.wrapping_mul(0x045d_9f3b);
        value = value ^ (value >> 16u32);
        value as u8
    }

    /// The pitch LFO's wave at `index`.
    pub fn pitch_lfo_wave(index: u8, waveform: u16) -> (r: i16)
        ensures
            r == pitch_lfo_wave_spec(index, waveform),
    {
        let i = index as i16;
        let w = waveform % 4;
        if w == 0 {
            if i < 128 {
                i
            } else {
                i - 256
            }
        } else if w == 1 {
            if i < 128 {
                127
            } else {
                -128
            }
        } else if w == 2 {
            if i < 64 {
                i * 2
            } else if i < 128 {
                255 - i * 2
            } else if i < 192 {
                256 - i * 2
            } else {
                i * 2 - 511
            }
        } else {
            128 - Self::lfo_noise(index) as i16
        }
    }

    /// The amplitude LFO's wave at `index`.
    pub fn amplitude_lfo_wave(index: u8, waveform: u16) -> (r: u16)
        ensures
            r == amplitude_lfo_wave_spec(index, waveform),
    {
        let i = index as u16;
        let w = waveform % 4;
        if w == 0 {
            255 - i
        } else if w == 1 {
            if i < 128 {
                255
            } else {
                0
            }
        } else if w == 2 {
            if i < 128 {
                255 - i * 2
            } else {
                i * 2 - 256
            }
        } else {
            Self::lfo_noise(index) as u16
        }
    }

    /// The next noise sample.
    pub fn next_noise_sample(&mut self) -> (r: i16)
        ensures
            (r, final(self).noise_state) == old(self)@.noise_step(),
            final(self)@ == (ScspModel { noise_state: final(self).noise_state, ..old(self)@ }),
    {
        let mut value = self.noise_state;
        if value == 0 {
            value = 0x5343_5350;
        }
        value = value ^ (value << 13u32);
        value = value ^ (value >> 17u32);
        value = value ^ (value << 5u32);
        self.noise_state = value;
        ((value >> 16u32) as u16) as i16
    }

    /// Slot `slot`'s ring modulation offset.
    pub fn ring_modulation_offset(&self, slot: usize, pcm8: bool) -> (r: i32)
        requires
            self.wf(),
            slot < 32,
        ensures
            r == self@.ring_modulation_offset(slot as int, pcm8),
    {
        let modulation = self.reg16(slot * 0x20 + 0x0e);
        let depth = (modulation / 0x1000) % 0x10;
        let source_x = ((modulation / 0x40) % 0x40) as usize;
        let source_y = (modulation % 0x40) as usize;
        if depth == 0 && source_x == 0 && source_y == 0 {
            return 0;
        }
        let pointer = self.ring_ptr as usize;
        let sum = self.ring_buffer[(pointer + source_x) % 64] as i32 + self.ring_buffer[(pointer + source_y) % 64] as i32;
        let average = if sum >= 0 { sum / 2 } else { -((-sum) / 2) };
        let scaled = average * 1024;
        let shift = (26 - depth) as u32;
        let offset = scaled >> shift;
        assert(-0x4000 <= offset <= 0x4000) by (bit_vector)
            requires
                offset == scaled >> shift,
                -0x200_0000 <= scaled <= 0x200_0000,
                11 <= shift <= 26;
        if pcm8 {
            offset
        } else {
            offset * 2
        }
    }

    /// Slot `slot`'s phase step before the pitch LFO.
    pub fn pitch_step_base(&self, slot: usize) -> (r: u32)
        requires
            self.wf(),
            slot < 32,
        ensures
            r == self@.pitch_step_base(slot as int),
    {
        let word = self.reg16(slot * 0x20 + 0x10);
        let fns = (word % 0x400) as u32;
        let octave = (word / 0x800) % 0x10;
        let step: u32 = 0x1_0000 + fns * 0x40;
        if octave >= 8 {
            step >> ((16 - octave) as u32)
        } else {
            step << (octave as u32)
        }
    }

    /// The envelope rate table index for `rate` on slot `slot`.
    pub fn envelope_rate_index(&self, slot: usize, rate: u16) -> (r: usize)
        requires
            self.wf(),
            slot < 32,
        ensures
            r == self@.envelope_rate_index(slot as int, rate),
    {
        let pitch = self.reg16(slot * 0x20 + 0x10);
        let raw_octave = ((pitch / 0x800) % 0x10) as i32;
        let octave = if raw_octave >= 8 { raw_octave - 16 } else { raw_octave };
        let krs = ((self.reg16(slot * 0x20 + 0x0a) / 0x400) % 0x10) as i32;
        let base = if krs == 0x0f { 0 } else { octave + 2 * krs + ((pitch / 0x200) % 2) as i32 };
        let index = base + rate as i32 * 2;
        if index < 0 {
            0
        } else if index > 63 {
            63
        } else {
            index as usize
        }
    }

    /// Stops slot `slot` (its envelope goes silent).
    pub fn stop_slot(&mut self, slot: usize)
        requires
            old(self).wf(),
            slot < 32,
        ensures
            final(self).wf(),
            final(self)@ == old(self)@.slot_stopped(slot as int),
    {
        self.keyed[slot] = false;
        self.backwards[slot] = false;
        self.envelope_state[slot] = 3;
        let control = self.reg16(slot * 0x20) & 0xf7ff;
        self.set_reg16(slot * 0x20, control);
        assert(self@.keyed =~= old(self)@.keyed.update(slot as int, false));
        assert(self@.backwards =~= old(self)@.backwards.update(slot as int, false));
        assert(self@.envelope_state =~= old(self)@.envelope_state.update(slot as int, 3));
    }

    fn clamp_phase(x: i64) -> (r: u32)
        ensures
            r == clamp32(x as int),
    {
        if x < 0 {
            0
        } else if x > u32::MAX as i64 {
            u32::MAX
        } else {
            x as u32
        }
    }

    /// Advances slot `slot`'s loop cursor by `step` within the loop
    /// `loop_start`..`loop_end` (in samples) under `loop_mode`; whether the
    /// slot stopped (its envelope goes silent).
    pub fn advance_slot_phase(&mut self, slot: usize, step: u32, loop_start: usize, loop_end: usize, loop_mode: u16) -> (stopped: bool)
        requires
            old(self).wf(),
            slot < 32,
            loop_start < loop_end <= 0x1_0000,
        ensures
            final(self).wf(),
            (final(self)@, stopped) == old(self)@.advanced(slot as int, step, loop_start as int, loop_end as int, loop_mode),
    {
        let back = self.backwards[slot];
        let mut phase: i64 = if back { self.phase[slot] as i64 - step as i64 } else { self.phase[slot] as i64 + step as i64 };
        let start = loop_start as i64 * 0x1_0000;
        let end = loop_end as i64 * 0x1_0000;
        let span = if end - start > 1 { end - start } else { 1 };
        let link = self.reg16(slot * 0x20 + 0x0a) & 0x4000 != 0;
        if !back && phase >= start && link && self.envelope_state[slot] == 0 {
            self.envelope_state[slot] = 1;
            assert(self@.envelope_state =~= old(self)@.envelope_state.update(slot as int, 1));
        }
        let ghost m = self@;
        if loop_mode == 0 {
            if phase >= end {
                self.phase[slot] = Self::clamp_phase(end);
                assert(self@.phase =~= m.phase.update(slot as int, clamp32(end as int)));
                self.stop_slot(slot);
                return true;
            }
        } else if loop_mode == 1 {
            if phase >= end {
                phase = start + ((phase - end) as u64 % span as u64) as i64;
            }
        } else if loop_mode == 2 {
            let mut b = back;
            if !b && phase >= start {
                phase = end - (phase - start);
                b = true;
            }
            if b && phase < start {
                phase = end - ((start - phase) as u64 % span as u64) as i64;
            }
            self.backwards[slot] = b;
            assert(self@.backwards =~= m.backwards.update(slot as int, b));
        } else if loop_mode == 3 {
            let mut b = back;
            let mut n: usize = 0;
            while n < 4 && ((!b && phase >= end) || (b && phase < start))
                invariant
                    n <= 4,
                    bounce(phase as int, b, start as int, end as int, (4 - n) as nat) == bounce(
                        (if back { old(self).phase@[slot as int] - step } else { old(self).phase@[slot as int] + step }),
                        back,
                        start as int,
                        end as int,
                        4,
                    ),
                    start == loop_start * 0x1_0000,
                    end == loop_end * 0x1_0000,
                    start < end <= 0x1_0000_0000,
                    slot < 32,
                    old(self).wf(),
                        -0x2_0000_0000 * (n + 1) <= phase <= 0x2_0000_0000 * (n + 1),
                decreases 4 - n,
            {
                if !b && phase >= end {
                    phase = end - (phase - end);
                    b = true;
                } else {
                    phase = start + (start - phase);
                    b = false;
                }
                n = n + 1;
            }
            phase = if phase < start { start } else if phase > end { end } else { phase };
            self.backwards[slot] = b;
            assert(self@.backwards =~= m.backwards.update(slot as int, b));
        }
        self.phase[slot] = Self::clamp_phase(phase);
        proof {
            let r = old(self)@.advanced(slot as int, step, loop_start as int, loop_end as int, loop_mode);
            assert(self@.phase =~= m.phase.update(slot as int, self@.phase[slot as int]));
            assert(self@.phase[slot as int] == r.0.phase[slot as int]);
            assert(self@.phase =~= r.0.phase);
            assert(self@.backwards =~= r.0.backwards);
            assert(self@.envelope_state =~= r.0.envelope_state);
        }
        false
    }
}

impl Default for SaturnScsp {
    fn default() -> (s: Self)
        ensures
            s.wf(),
            s@ == scsp_reset(),
    {
        Self::new()
    }
}

} // verus!
