//! Sega CD PCM sound chip: eight channels playing 8-bit sign-magnitude
//! samples from 64 KiB of wave RAM, with loop points, envelope and stereo
//! pan, clocked at 1/384 of the sub CPU's clock and resampled to 48 kHz.
use vstd::prelude::*;
use vstd::arithmetic::div_mod::{lemma_fundamental_div_mod_converse_div, lemma_fundamental_div_mod_converse_mod};

verus! {

/// Sub-CPU cycles per PCM chip clock.
pub const SUB_CYCLES_PER_PCM_CLOCK: u64 = 384;
/// The sub CPU's clock in Hz.
pub const SUB_HZ: u64 = 12_500_000;
/// The output sample rate in Hz.
pub const PCM_AUDIO_RATE: u64 = 48_000;
/// Bytes of wave RAM.
pub const PCM_RAM_SIZE: usize = 0x1_0000;

#[derive(Debug, Clone, Copy, PartialEq, Eq, Structural)]
pub struct PcmChannel {
    pub env: u8,
    pub pan: u8,
    pub step: u16,
    pub loop_start: u16,
    pub start: u8,
    pub address: u32,
}

pub struct SegaCdPcm {
    pub channels: [PcmChannel; 8],
    pub ram: Vec<u8>,
    pub enabled: bool,
    pub status: u8,
    pub selected: usize,
    pub bank: u8,
    pub clock_phase: u64,
    pub output_phase: u64,
    /// The chip's current stereo output, each side clamped to 16 bits.
    pub current: (i32, i32),
    /// Output samples of the frame so far.
    pub samples: Vec<(i32, i32)>,
}

/// The chip as values.
pub struct PcmModel {
    pub channels: Seq<PcmChannel>,
    pub ram: Seq<u8>,
    pub enabled: bool,
    pub status: u8,
    pub selected: usize,
    pub bank: u8,
    pub clock_phase: u64,
    pub output_phase: u64,
    pub current: (i32, i32),
    pub samples: Seq<(i32, i32)>,
}

impl View for SegaCdPcm {
    type V = PcmModel;

    open spec fn view(&self) -> PcmModel {
        PcmModel {
            channels: self.channels@,
            ram: self.ram@,
            enabled: self.enabled,
            status: self.status,
            selected: self.selected,
            bank: self.bank,
            clock_phase: self.clock_phase,
            output_phase: self.output_phase,
            current: self.current,
            samples: self.samples@,
        }
    }
}

/// The power-on channel: full pan, everything else zero.
pub open spec fn idle_channel() -> PcmChannel {
    PcmChannel { env: 0, pan: 0xff, step: 0, loop_start: 0, start: 0, address: 0 }
}

/// `v` limited to the signed 16-bit range.
pub open spec fn clamp16(v: int) -> i32 {
    if v < -32768 {
        -32768i32
    } else if v > 32767 {
        32767
    } else {
        v as i32
    }
}

/// A wave byte as a signed sample: bit 7 set is positive.
pub open spec fn sample_value(sample: u8) -> i32 {
    let magnitude = (sample % 0x80) as i32;
    if sample >= 0x80 {
        magnitude
    } else {
        (-magnitude) as i32
    }
}

impl PcmModel {
    pub open spec fn wf(self) -> bool {
        &&& self.channels.len() == 8
        &&& self.ram.len() == PCM_RAM_SIZE
        &&& self.selected < 8
        &&& self.bank < 16
    }

    /// The wave-RAM byte a register-window address in $1000-$1FFF reaches
    /// through the selected bank.
    pub open spec fn ram_index(self, address: int) -> int {
        self.bank as int * 0x1000 + address % 0x1000
    }

    /// A read of the chip's register window (mirrored every 8 KiB): wave
    /// RAM through the bank, or the selected channel's registers and the
    /// control and channel-off registers.
    pub open spec fn read(self, address: u16) -> u8 {
        let a = address as int % 0x2000;
        let ch = self.channels[self.selected as int];
        if a >= 0x1000 {
            self.ram[self.ram_index(a)]
        } else if a == 0 {
            ch.env
        } else if a == 1 {
            ch.pan
        } else if a == 2 {
            (ch.step % 0x100) as u8
        } else if a == 3 {
            (ch.step / 0x100) as u8
        } else if a == 4 {
            (ch.loop_start % 0x100) as u8
        } else if a == 5 {
            (ch.loop_start / 0x100) as u8
        } else if a == 6 {
            ch.start
        } else if a == 7 {
            ((if self.enabled { 0x80int } else { 0 }) + 0x40 + self.selected as int) as u8
        } else if a == 8 {
            !self.status
        } else {
            0
        }
    }

    /// The chip after a write to its register window.
    pub open spec fn after_write(self, address: u16, value: u8) -> PcmModel {
        let a = address as int % 0x2000;
        let s = self.selected as int;
        let ch = self.channels[s];
        if a >= 0x1000 {
            PcmModel { ram: self.ram.update(self.ram_index(a), value), ..self }
        } else if a <= 6 {
            let updated = if a == 0 {
                PcmChannel { env: value, ..ch }
            } else if a == 1 {
                PcmChannel { pan: value, ..ch }
            } else if a == 2 {
                PcmChannel { step: (ch.step / 0x100 * 0x100 + value as int) as u16, ..ch }
            } else if a == 3 {
                PcmChannel { step: (value as int * 0x100 + ch.step % 0x100) as u16, ..ch }
            } else if a == 4 {
                PcmChannel { loop_start: (ch.loop_start / 0x100 * 0x100 + value as int) as u16, ..ch }
            } else if a == 5 {
                PcmChannel { loop_start: (value as int * 0x100 + ch.loop_start % 0x100) as u16, ..ch }
            } else {
                PcmChannel {
                    start: value,
                    address: if self.status & (1u8 << self.selected as u8) == 0 {
                        (value as int * 0x8_0000) as u32
                    } else {
                        ch.address
                    },
                    ..ch
                }
            };
            PcmModel { channels: self.channels.update(s, updated), ..self }
        } else if a == 7 {
            PcmModel {
                enabled: value & 0x80 != 0,
                selected: if value & 0x40 != 0 { (value % 8) as usize } else { self.selected },
                bank: if value & 0x40 != 0 { self.bank } else { value % 0x10 },
                ..self
            }
        } else if a == 8 {
            PcmModel {
                status: !value,
                channels: Seq::new(
                    8,
                    |i: int|
                        if value & (1u8 << i as u8) != 0 {
                            PcmChannel { address: (self.channels[i].start as int * 0x8_0000) as u32, ..self.channels[i] }
                        } else {
                            self.channels[i]
                        },
                ),
                ..self
            }
        } else {
            self
        }
    }
}

/// The mix over channels `0..n` for one chip clock: each channel that is
/// on reads the wave byte at its address (a $FF byte jumps to the loop
/// start and plays from there, or is silent when that is $FF too), steps its
/// address, and adds its sample scaled by envelope and pan nibble.
/// Returns (left, right, channels).
pub open spec fn mix(ram: Seq<u8>, status: u8, channels: Seq<PcmChannel>, n: nat) -> (int, int, Seq<PcmChannel>)
    decreases n,
{
    if n == 0 {
        (0, 0, channels)
    } else {
        let (left, right, chs) = mix(ram, status, channels, (n - 1) as nat);
        let i = n - 1;
        if status & (1u8 << i as u8) == 0 {
            (left, right, chs)
        } else {
            let ch = chs[i];
            let first = ram[((ch.address >> 11u32) & 0xffff) as int];
            let (sample, address) = if first == 0xff {
                (ram[ch.loop_start as int], (ch.loop_start as u32) << 11u32)
            } else {
                (first, ch.address.wrapping_add(ch.step as u32))
            };
            let chs2 = chs.update(i, PcmChannel { address, ..ch });
            if sample == 0xff {
                (left, right, chs2)
            } else {
                let v = sample_value(sample);
                (
                    left + ((v * ch.env as i32 * (ch.pan % 0x10) as i32) as i32 >> 5u32),
                    right + ((v * ch.env as i32 * (ch.pan / 0x10) as i32) as i32 >> 5u32),
                    chs2,
                )
            }
        }
    }
}

impl PcmModel {
    /// One chip clock: silence when disabled, else the clamped mix.
    pub open spec fn clocked(self) -> PcmModel {
        if !self.enabled {
            PcmModel { current: (0, 0), ..self }
        } else {
            let (left, right, chs) = mix(self.ram, self.status, self.channels, 8);
            PcmModel { channels: chs, current: (clamp16(left), clamp16(right)), ..self }
        }
    }

    /// The output resampling after a chip clock: every 12.5 MHz of
    /// accumulated 48 kHz-scaled time emits the current output.
    pub open spec fn output_emitted(self) -> PcmModel {
        let total = if self.output_phase as int + SUB_CYCLES_PER_PCM_CLOCK * PCM_AUDIO_RATE > u64::MAX {
            u64::MAX as int
        } else {
            self.output_phase as int + SUB_CYCLES_PER_PCM_CLOCK * PCM_AUDIO_RATE
        };
        let count = total / SUB_HZ as int;
        PcmModel {
            output_phase: (total % SUB_HZ as int) as u64,
            samples: self.samples + Seq::new(count as nat, |k: int| self.current),
            ..self
        }
    }

    /// One chip clock with its output resampling.
    pub open spec fn clock_and_output(self) -> PcmModel {
        self.clocked().output_emitted()
    }

    /// `n` chip clocks.
    pub open spec fn clocks(self, n: nat) -> PcmModel
        decreases n,
    {
        if n == 0 {
            self
        } else {
            self.clocks((n - 1) as nat).clock_and_output()
        }
    }

    /// The chip after `sub_cycles` sub-CPU cycles: as many chip clocks as
    /// the accumulated cycles pay for.
    pub open spec fn ticked(self, sub_cycles: u32) -> PcmModel {
        let phase = if self.clock_phase as int + sub_cycles as int > u64::MAX {
            u64::MAX as int
        } else {
            self.clock_phase as int + sub_cycles as int
        };
        PcmModel {
            clock_phase: (phase % SUB_CYCLES_PER_PCM_CLOCK as int) as u64,
            ..self
        }.clocks((phase / SUB_CYCLES_PER_PCM_CLOCK as int) as nat)
    }
}

impl SegaCdPcm {
    pub open spec fn wf(&self) -> bool {
        self@.wf()
    }

    /// The chip at power-on: disabled, all channels idle, wave RAM clear.
    pub fn new() -> (p: Self)
        ensures
            p.wf(),
            p@.channels == Seq::new(8, |i: int| idle_channel()),
            p@.ram == Seq::new(PCM_RAM_SIZE as nat, |i: int| 0u8),
            !p.enabled && p.status == 0 && p.selected == 0 && p.bank == 0,
            p.clock_phase == 0 && p.output_phase == 0 && p.current == (0i32, 0i32),
            p@.samples.len() == 0,
    {
        let p = SegaCdPcm {
            channels: [PcmChannel { env: 0, pan: 0xff, step: 0, loop_start: 0, start: 0, address: 0 }; 8],
            ram: vec![0u8; PCM_RAM_SIZE],
            enabled: false,
            status: 0,
            selected: 0,
            bank: 0,
            clock_phase: 0,
            output_phase: 0,
            current: (0, 0),
            samples: Vec::new(),
        };
        assert(p@.channels =~= Seq::new(8, |i: int| idle_channel()));
        assert(p@.ram =~= Seq::new(PCM_RAM_SIZE as nat, |i: int| 0u8));
        p
    }

    /// Drops the output samples of the previous frame.
    pub fn begin_frame(&mut self)
        ensures
            final(self)@ == (PcmModel { samples: Seq::empty(), ..old(self)@ }),
    {
        self.samples = Vec::new();
    }

    /// A read of the register window.
    pub fn read(&self, address: u16) -> (r: u8)
        requires
            self.wf(),
        ensures
            r == self@.read(address),
    {
        let a = address % 0x2000;
        if a >= 0x1000 {
            return self.ram[self.bank as usize * 0x1000 + (a % 0x1000) as usize];
        }
        let channel = self.channels[self.selected];
        if a == 0 {
            channel.env
        } else if a == 1 {
            channel.pan
        } else if a == 2 {
            (channel.step % 0x100) as u8
        } else if a == 3 {
            (channel.step / 0x100) as u8
        } else if a == 4 {
            (channel.loop_start % 0x100) as u8
        } else if a == 5 {
            (channel.loop_start / 0x100) as u8
        } else if a == 6 {
            channel.start
        } else if a == 7 {
            (if self.enabled { 0x80u8 } else { 0 }) + 0x40 + self.selected as u8
        } else if a == 8 {
            !self.status
        } else {
            0
        }
    }

    /// A write to the register window.
    pub fn write(&mut self, address: u16, value: u8)
        requires
            old(self).wf(),
        ensures
            final(self).wf(),
            final(self)@ == old(self)@.after_write(address, value),
    {
        let a = address % 0x2000;
        if a >= 0x1000 {
            let index = self.bank as usize * 0x1000 + (a % 0x1000) as usize;
            self.ram.set(index, value);
            return;
        }
        let s = self.selected;
        if a <= 6 {
            let mut ch = self.channels[s];
            if a == 0 {
                ch.env = value;
            } else if a == 1 {
                ch.pan = value;
            } else if a == 2 {
                ch.step = ch.step / 0x100 * 0x100 + value as u16;
            } else if a == 3 {
                ch.step = value as u16 * 0x100 + ch.step % 0x100;
            } else if a == 4 {
                ch.loop_start = ch.loop_start / 0x100 * 0x100 + value as u16;
            } else if a == 5 {
                ch.loop_start = value as u16 * 0x100 + ch.loop_start % 0x100;
            } else {
                ch.start = value;
                if self.status & (1u8 << s as u8) == 0 {
                    ch.address = value as u32 * 0x8_0000;
                }
            }
            self.channels[s] = ch;
            assert(self@.channels =~= old(self)@.channels.update(s as int, ch));
        } else if a == 7 {
            self.enabled = value & 0x80 != 0;
            if value & 0x40 != 0 {
                self.selected = (value % 8) as usize;
            } else {
                self.bank = value % 0x10;
            }
        } else if a == 8 {
            self.status = !value;
            let ghost before = self@.channels;
            let mut channel: usize = 0;
            while channel < 8
                invariant
                    channel <= 8,
                    self.channels@.len() == 8,
                    before.len() == 8,
                    forall|i: int| 0 <= i < channel ==> #[trigger] self.channels@[i] == (if value & (1u8 << i as u8) != 0 {
                        PcmChannel { address: (before[i].start as int * 0x8_0000) as u32, ..before[i] }
                    } else {
                        before[i]
                    }),
                    forall|i: int| channel <= i < 8 ==> #[trigger] self.channels@[i] == before[i],
                    self.ram@ == old(self).ram@,
                    self.selected == old(self).selected,
                    self.bank == old(self).bank,
                    self.enabled == old(self).enabled,
                    self.status == !value,
                    self.clock_phase == old(self).clock_phase,
                    self.output_phase == old(self).output_phase,
                    self.current == old(self).current,
                    self.samples@ == old(self).samples@,
                decreases 8 - channel,
            {
                if value & (1u8 << channel as u8) != 0 {
                    let mut ch = self.channels[channel];
                    ch.address = ch.start as u32 * 0x8_0000;
                    self.channels[channel] = ch;
                }
                channel = channel + 1;
            }
            assert(self@.channels =~= Seq::new(
                8,
                |i: int|
                    if value & (1u8 << i as u8) != 0 {
                        PcmChannel { address: (before[i].start as int * 0x8_0000) as u32, ..before[i] }
                    } else {
                        before[i]
                    },
            ));
        }
    }

    /// One chip clock: mixes the playing channels into the current output.
    pub fn clock_chip(&mut self)
        requires
            old(self).wf(),
        ensures
            final(self).wf(),
            final(self)@ == old(self)@.clocked(),
    {
        if !self.enabled {
            self.current = (0, 0);
            return;
        }
        let mut left: i32 = 0;
        let mut right: i32 = 0;
        let mut index: usize = 0;
        while index < 8
            invariant
                index <= 8,
                self.wf(),
                self.ram@ == old(self).ram@,
                self.status == old(self).status,
                self.enabled,
                self.selected == old(self).selected,
                self.bank == old(self).bank,
                self.clock_phase == old(self).clock_phase,
                self.output_phase == old(self).output_phase,
                self.current == old(self).current,
                self.samples@ == old(self).samples@,
                (left as int, right as int, self.channels@) == mix(self.ram@, self.status, old(self).channels@, index as nat),
                -0x4_0000 * index <= left <= 0x4_0000 * index,
                -0x4_0000 * index <= right <= 0x4_0000 * index,
            decreases 8 - index,
        {
            if self.status & (1u8 << index as u8) != 0 {
                let mut ch = self.channels[index];
                let address = ch.address;
                let slot = (address >> 11u32) & 0xffff;
                assert(slot <= 0xffff) by (bit_vector)
                    requires
                        slot == (address >> 11u32) & 0xffff,
                ;
                let first = self.ram[slot as usize];
                let sample = if first == 0xff {
                    ch.address = (ch.loop_start as u32) << 11u32;
                    self.ram[ch.loop_start as usize]
                } else {
                    ch.address = ch.address.wrapping_add(ch.step as u32);
                    first
                };
                self.channels[index] = ch;
                if sample != 0xff {
                    let magnitude = (sample % 0x80) as i32;
                    let v: i32 = if sample >= 0x80 { magnitude } else { -magnitude };
                    let env = ch.env as i32;
                    let pan_left = (ch.pan % 0x10) as i32;
                    let pan_right = (ch.pan / 0x10) as i32;
                    assert(-127 * 255 <= v * env <= 127 * 255) by (nonlinear_arith)
                        requires
                            -127 <= v <= 127,
                            0 <= env <= 255,
                    ;
                    let ve = v * env;
                    assert(-127 * 255 * 15 <= ve * pan_left <= 127 * 255 * 15 && -127 * 255 * 15 <= ve * pan_right <= 127
                        * 255 * 15) by (nonlinear_arith)
                        requires
                            -127 * 255 <= ve <= 127 * 255,
                            0 <= pan_left <= 15,
                            0 <= pan_right <= 15,
                    ;
                    let l = ve * pan_left;
                    let r = ve * pan_right;
                    assert(-0x4_0000 <= (l >> 5u32) <= 0x4_0000 && -0x4_0000 <= (r >> 5u32) <= 0x4_0000) by (bit_vector)
                        requires
                            -485775 <= l <= 485775,
                            -485775 <= r <= 485775,
                    ;
                    left = left + (l >> 5u32);
                    right = right + (r >> 5u32);
                }
            }
            index = index + 1;
        }
        proof {
            reveal_with_fuel(mix, 1);
        }
        let l16 = if left < -32768 { -32768 } else if left > 32767 { 32767 } else { left };
        let r16 = if right < -32768 { -32768 } else if right > 32767 { 32767 } else { right };
        self.current = (l16, r16);
    }

    /// Emits the current output as often as the accumulated output time
    /// pays for.
    fn emit_output(&mut self)
        requires
            old(self).wf(),
        ensures
            final(self).wf(),
            final(self)@ == old(self)@.output_emitted(),
    {
        self.output_phase = self.output_phase.saturating_add(SUB_CYCLES_PER_PCM_CLOCK * PCM_AUDIO_RATE);
        let ghost total_out = self.output_phase as int;
        let ghost samples0 = self@.samples;
        let ghost k: nat = 0;
        while self.output_phase >= SUB_HZ
            invariant
                self.wf(),
                self.output_phase as int + k * 12_500_000 == total_out,
                self@.samples == samples0 + Seq::new(k, |j: int| old(self).current),
                (PcmModel { output_phase: old(self).output_phase, samples: samples0, ..self@ }) == old(self)@,
            decreases self.output_phase,
        {
            self.output_phase = self.output_phase - SUB_HZ;
            self.samples.push(self.current);
            proof {
                k = k + 1;
            }
            assert(self@.samples =~= samples0 + Seq::new(k, |j: int| old(self).current));
        }
        proof {
            lemma_fundamental_div_mod_converse_div(total_out, 12_500_000, k as int, self.output_phase as int);
            lemma_fundamental_div_mod_converse_mod(total_out, 12_500_000, k as int, self.output_phase as int);
        }
    }

    /// Runs the chip for `sub_cycles` sub-CPU cycles.
    pub fn tick(&mut self, sub_cycles: u32)
        requires
            old(self).wf(),
        ensures
            final(self).wf(),
            final(self)@ == old(self)@.ticked(sub_cycles),
    {
        self.clock_phase = self.clock_phase.saturating_add(sub_cycles as u64);
        let ghost total = self.clock_phase as int;
        let ghost start = PcmModel { clock_phase: (total % 384) as u64, ..old(self)@ };
        let ghost n: nat = 0;
        while self.clock_phase >= SUB_CYCLES_PER_PCM_CLOCK
            invariant
                self.wf(),
                self.clock_phase as int + n * 384 == total,
                0 <= total,
                (PcmModel { clock_phase: start.clock_phase, ..self@ }) == start.clocks(n),
            decreases self.clock_phase,
        {
            self.clock_phase = self.clock_phase - SUB_CYCLES_PER_PCM_CLOCK;
            self.clock_chip();
            self.emit_output();
            proof {
                n = n + 1;
            }
        }
        proof {
            lemma_fundamental_div_mod_converse_div(total, 384, n as int, self.clock_phase as int);
            lemma_fundamental_div_mod_converse_mod(total, 384, n as int, self.clock_phase as int);
        }
    }
}

/// A byte written through the register window reads back from the same
/// address: wave RAM through the selected bank, and each channel register
/// of the selected channel.
pub proof fn pcm_write_reads_back(p: PcmModel, address: u16, value: u8)
    requires
        p.wf(),
        address as int % 0x2000 >= 0x1000 || address as int % 0x2000 <= 6,
    ensures
        p.after_write(address, value).read(address) == value,
{
    let a = address as int % 0x2000;
    let ch = p.channels[p.selected as int];
    if a == 2 {
        assert((ch.step / 0x100 * 0x100 + value as int) % 0x100 == value as int) by (nonlinear_arith)
            requires 0 <= value < 0x100, 0 <= ch.step;
    } else if a == 3 {
        assert((value as int * 0x100 + ch.step % 0x100) / 0x100 == value as int) by (nonlinear_arith)
            requires 0 <= value < 0x100, 0 <= ch.step;
    } else if a == 4 {
        assert((ch.loop_start / 0x100 * 0x100 + value as int) % 0x100 == value as int) by (nonlinear_arith)
            requires 0 <= value < 0x100, 0 <= ch.loop_start;
    } else if a == 5 {
        assert((value as int * 0x100 + ch.loop_start % 0x100) / 0x100 == value as int) by (nonlinear_arith)
            requires 0 <= value < 0x100, 0 <= ch.loop_start;
    }
}

impl Default for SegaCdPcm {
    fn default() -> (p: Self)
        ensures
            p.wf(),
            !p.enabled && p.status == 0 && p.selected == 0 && p.bank == 0,
            p@.samples.len() == 0,
    {
        Self::new()
    }
}

} // verus!
