//! The 32X PWM sound unit: two 12-bit pulse-width FIFOs three entries
//! deep, a cycle register that sets the pulse period, a timer that raises
//! an interrupt every few pulses, and resampling of the two outputs to
//! 48 kHz.
use vstd::prelude::*;
use std::collections::VecDeque;

verus! {

/// Entries each PWM FIFO holds.
pub const PWM_FIFO_DEPTH: usize = 3;
/// The SH-2 clock in Hz, which drives the PWM unit.
pub const SH2_HZ: u64 = 23_011_360;
/// The output sample rate in Hz.
pub const PWM_AUDIO_RATE: u64 = 48_000;

/// The last pulse width a channel took from its FIFO.
#[derive(Debug, Clone, Copy, PartialEq, Eq, Structural)]
pub struct PwmChannel {
    pub last: u16,
}

/// One side's output level: a pulse `width` out of a period of `full`
/// cycles. The analogue output is `(width / full * 2 - 1)` scaled.
#[derive(Debug, Clone, Copy, PartialEq, Eq, Structural)]
pub struct PwmLevel {
    pub width: u64,
    pub full: u64,
}

/// A resampled stereo output: each side's level, `None` where the side is
/// silent.
pub type PwmSample = (Option<PwmLevel>, Option<PwmLevel>);

pub struct MarsPwm {
    pub control: u16,
    pub cycle: u16,
    pub left: VecDeque<u16>,
    pub right: VecDeque<u16>,
    pub channels: [PwmChannel; 2],
    pub chip_phase: u64,
    pub timer_count: u8,
    pub sample_phase: u64,
    /// The outputs resampled in the frame so far.
    pub samples: Vec<PwmSample>,
}

/// The unit as values; FIFOs front first.
pub struct PwmState {
    pub control: u16,
    pub cycle: u16,
    pub left: Seq<u16>,
    pub right: Seq<u16>,
    pub last: (u16, u16),
    pub chip_phase: u64,
    pub timer_count: u8,
    pub sample_phase: u64,
    pub samples: Seq<PwmSample>,
}

impl View for MarsPwm {
    type V = PwmState;

    open spec fn view(&self) -> PwmState {
        PwmState {
            control: self.control,
            cycle: self.cycle,
            left: self.left@,
            right: self.right@,
            last: (self.channels[0].last, self.channels[1].last),
            chip_phase: self.chip_phase,
            timer_count: self.timer_count,
            sample_phase: self.sample_phase,
            samples: self.samples@,
        }
    }
}

/// The FIFO status bits: bit 15 when full, bit 14 when empty.
pub open spec fn fifo_status_of(len: nat) -> u16 {
    ((if len >= PWM_FIFO_DEPTH { 0x8000int } else { 0 }) + (if len == 0 { 0x4000int } else { 0 })) as u16
}

/// The pulse width a 12-bit FIFO value stands for: zero means the longest.
pub open spec fn pulse_width(value: u16) -> u64 {
    let raw = value % 0x1000;
    if raw == 0 {
        4095
    } else {
        (raw - 1) as u64
    }
}

/// A value as a level over a period of `period` cycles: the width capped
/// below the period, out of the period less one (at least one).
pub open spec fn level_of(value: u16, period: u64) -> PwmLevel {
    let width = pulse_width(value);
    PwmLevel {
        width: if width < period - 1 { width } else { (period - 1) as u64 },
        full: if period - 1 > 1 { (period - 1) as u64 } else { 1 },
    }
}

/// `queue` after a push: the value's low 12 bits appended unless full.
pub open spec fn pushed(queue: Seq<u16>, value: u16) -> Seq<u16> {
    if queue.len() < PWM_FIFO_DEPTH {
        queue.push(value % 0x1000)
    } else {
        queue
    }
}

/// The unit at reset: control clear, cycle $100, FIFOs empty.
pub open spec fn pwm_reset() -> PwmState {
    PwmState {
        control: 0,
        cycle: 0x100,
        left: Seq::empty(),
        right: Seq::empty(),
        last: (0, 0),
        chip_phase: 0,
        timer_count: 0,
        sample_phase: 0,
        samples: Seq::empty(),
    }
}

impl PwmState {
    pub open spec fn wf(self) -> bool {
        &&& self.left.len() <= PWM_FIFO_DEPTH
        &&& self.right.len() <= PWM_FIFO_DEPTH
        &&& self.chip_phase <= 4095
        &&& self.sample_phase < SH2_HZ
    }

    /// Cycles per pulse: the cycle register less one, 4095 for zero.
    pub open spec fn period(self) -> u64 {
        let raw = self.cycle % 0x1000;
        if raw == 0 {
            4095
        } else {
            (raw - 1) as u64
        }
    }

    /// A register read at `offset`: control, cycle, or FIFO status (left,
    /// right, or both merged).
    pub open spec fn read(self, offset: u32) -> u16 {
        let o = offset & 0x0e;
        if o == 0 {
            self.control
        } else if o == 2 {
            self.cycle
        } else if o == 4 {
            fifo_status_of(self.left.len())
        } else if o == 6 {
            fifo_status_of(self.right.len())
        } else if o == 8 {
            fifo_status_of(self.left.len()) | fifo_status_of(self.right.len())
        } else {
            0
        }
    }

    /// Whether a write at `offset` has room in every FIFO it feeds.
    pub open spec fn can_accept(self, offset: u32) -> bool {
        let o = offset & 0x0e;
        if o == 4 {
            self.left.len() < PWM_FIFO_DEPTH
        } else if o == 6 {
            self.right.len() < PWM_FIFO_DEPTH
        } else if o == 8 {
            self.left.len() < PWM_FIFO_DEPTH && self.right.len() < PWM_FIFO_DEPTH
        } else {
            false
        }
    }

    /// The unit after a register write at `offset`.
    pub open spec fn after_write(self, offset: u32, value: u16) -> PwmState {
        let o = offset & 0x0e;
        if o == 0 {
            PwmState { control: value, ..self }
        } else if o == 2 {
            PwmState { cycle: value % 0x1000, ..self }
        } else if o == 4 {
            PwmState { left: pushed(self.left, value), ..self }
        } else if o == 6 {
            PwmState { right: pushed(self.right, value), ..self }
        } else if o == 8 {
            PwmState { left: pushed(self.left, value), right: pushed(self.right, value), ..self }
        } else {
            self
        }
    }

    /// One pulse: each channel takes the front of its FIFO, if any.
    pub open spec fn pulsed(self) -> PwmState {
        PwmState {
            left: if self.left.len() > 0 { self.left.drop_first() } else { self.left },
            right: if self.right.len() > 0 { self.right.drop_first() } else { self.right },
            last: (
                if self.left.len() > 0 { self.left[0] } else { self.last.0 },
                if self.right.len() > 0 { self.right[0] } else { self.last.1 },
            ),
            ..self
        }
    }

    /// The output: each side in mode 1 plays its own channel, in mode 2 the
    /// other one, and is silent otherwise; all silent with a zero period.
    pub open spec fn levels(self) -> PwmSample {
        let period = self.period();
        if period == 0 {
            (None, None)
        } else {
            let left_mode = self.control % 4;
            let right_mode = self.control / 4 % 4;
            (
                if left_mode == 1 {
                    Some(level_of(self.last.0, period))
                } else if left_mode == 2 {
                    Some(level_of(self.last.1, period))
                } else {
                    None
                },
                if right_mode == 1 {
                    Some(level_of(self.last.1, period))
                } else if right_mode == 2 {
                    Some(level_of(self.last.0, period))
                } else {
                    None
                },
            )
        }
    }

    /// Pulses between timer events: the control register's timer nibble,
    /// sixteen for zero.
    pub open spec fn timer_interval(self) -> int {
        let tm = self.control / 0x100 % 0x10;
        if tm == 0 {
            16
        } else {
            tm as int
        }
    }

    /// The pulse side of one SH-2 cycle, and whether it raised a timer
    /// event. The unit runs while any output mode is set and the period is
    /// not zero.
    pub open spec fn pulse_cycle(self) -> (PwmState, bool) {
        let period = self.period();
        if self.control % 0x10 != 0 && period != 0 {
            if self.chip_phase + 1 >= period {
                let p = self.pulsed();
                let count = (self.timer_count + 1) % 0x100;
                if count >= self.timer_interval() {
                    (PwmState { chip_phase: 0, timer_count: 0, ..p }, true)
                } else {
                    (PwmState { chip_phase: 0, timer_count: count as u8, ..p }, false)
                }
            } else {
                (PwmState { chip_phase: (self.chip_phase + 1) as u64, ..self }, false)
            }
        } else {
            (self, false)
        }
    }

    /// The resampling side of one SH-2 cycle: the output is recorded each
    /// time 48 kHz worth of SH-2 cycles has passed.
    pub open spec fn resampled(self) -> PwmState {
        if self.sample_phase + PWM_AUDIO_RATE >= SH2_HZ {
            PwmState {
                sample_phase: (self.sample_phase + PWM_AUDIO_RATE - SH2_HZ) as u64,
                samples: self.samples.push(self.levels()),
                ..self
            }
        } else {
            PwmState { sample_phase: (self.sample_phase + PWM_AUDIO_RATE) as u64, ..self }
        }
    }

    /// One SH-2 cycle, and whether it raised a timer event.
    pub open spec fn cycle_step(self) -> (PwmState, bool) {
        let (p, event) = self.pulse_cycle();
        (p.resampled(), event)
    }

    /// `n` SH-2 cycles and the number of timer events they raised.
    pub open spec fn cycles(self, n: nat) -> (PwmState, nat)
        decreases n,
    {
        if n == 0 {
            (self, 0)
        } else {
            let (s, events) = self.cycles((n - 1) as nat);
            let (t, event) = s.cycle_step();
            (t, events + if event { 1nat } else { 0 })
        }
    }
}

/// Each pulse plays the oldest width queued: a width written to the left
/// FIFO is played after the ones already waiting, and at once when the
/// FIFO was empty (its low 12 bits).
pub proof fn pwm_fifo_plays_in_order(s: PwmState, value: u16)
    requires
        s.wf(),
        s.left.len() < PWM_FIFO_DEPTH,
    ensures
        s.after_write(4, value).pulsed().last.0 == (if s.left.len() == 0 {
            value % 0x1000
        } else {
            s.left[0]
        }),
{
    assert(4u32 & 0x0e == 4) by (bit_vector);
}

impl MarsPwm {
    pub open spec fn wf(&self) -> bool {
        self@.wf()
    }

    /// The unit at reset: control clear, cycle $100, FIFOs empty.
    pub fn new() -> (p: Self)
        ensures
            p.wf(),
            p@ == pwm_reset(),
    {
        MarsPwm {
            control: 0,
            cycle: 0x100,
            left: VecDeque::with_capacity(PWM_FIFO_DEPTH),
            right: VecDeque::with_capacity(PWM_FIFO_DEPTH),
            channels: [PwmChannel { last: 0 }, PwmChannel { last: 0 }],
            chip_phase: 0,
            timer_count: 0,
            sample_phase: 0,
            samples: Vec::new(),
        }
    }

    /// Drops the frame's resampled outputs.
    pub fn begin_frame(&mut self)
        ensures
            final(self)@ == (PwmState { samples: Seq::empty(), ..old(self)@ }),
    {
        self.samples = Vec::new();
    }

    /// The status bits of a FIFO.
    pub fn fifo_status(queue: &VecDeque<u16>) -> (r: u16)
        ensures
            r == fifo_status_of(queue@.len()),
    {
        let full: u16 = if queue.len() >= PWM_FIFO_DEPTH { 0x8000 } else { 0 };
        let empty: u16 = if queue.len() == 0 { 0x4000 } else { 0 };
        full + empty
    }

    /// A register read.
    pub fn read(&self, offset: u32) -> (r: u16)
        ensures
            r == self@.read(offset),
    {
        let o = offset & 0x0e;
        if o == 0 {
            self.control
        } else if o == 2 {
            self.cycle
        } else if o == 4 {
            Self::fifo_status(&self.left)
        } else if o == 6 {
            Self::fifo_status(&self.right)
        } else if o == 8 {
            Self::fifo_status(&self.left) | Self::fifo_status(&self.right)
        } else {
            0
        }
    }

    fn push(queue: &mut VecDeque<u16>, value: u16)
        ensures
            final(queue)@ == pushed(old(queue)@, value),
    {
        if queue.len() < PWM_FIFO_DEPTH {
            queue.push_back(value % 0x1000);
        }
    }

    /// Whether a write at `offset` would find room.
    pub fn can_accept(&self, offset: u32) -> (r: bool)
        ensures
            r == self@.can_accept(offset),
    {
        let o = offset & 0x0e;
        if o == 4 {
            self.left.len() < PWM_FIFO_DEPTH
        } else if o == 6 {
            self.right.len() < PWM_FIFO_DEPTH
        } else if o == 8 {
            self.left.len() < PWM_FIFO_DEPTH && self.right.len() < PWM_FIFO_DEPTH
        } else {
            false
        }
    }

    /// A register write.
    pub fn write(&mut self, offset: u32, value: u16)
        requires
            old(self).wf(),
        ensures
            final(self).wf(),
            final(self)@ == old(self)@.after_write(offset, value),
    {
        let o = offset & 0x0e;
        if o == 0 {
            self.control = value;
        } else if o == 2 {
            self.cycle = value % 0x1000;
        } else if o == 4 {
            Self::push(&mut self.left, value);
        } else if o == 6 {
            Self::push(&mut self.right, value);
        } else if o == 8 {
            Self::push(&mut self.left, value);
            Self::push(&mut self.right, value);
        }
    }

    /// One pulse: each channel takes the front of its FIFO.
    pub fn clock_once(&mut self)
        requires
            old(self).wf(),
        ensures
            final(self).wf(),
            final(self)@ == old(self)@.pulsed(),
    {
        if let Some(value) = self.left.pop_front() {
            self.channels[0] = PwmChannel { last: value };
        }
        if let Some(value) = self.right.pop_front() {
            self.channels[1] = PwmChannel { last: value };
        }
    }

    /// Cycles per pulse.
    pub fn period_cycles(&self) -> (r: u64)
        ensures
            r == self@.period(),
    {
        let raw = self.cycle % 0x1000;
        if raw == 0 {
            4095
        } else {
            (raw - 1) as u64
        }
    }

    fn level(value: u16, period: u64) -> (r: PwmLevel)
        requires
            period > 0,
        ensures
            r == level_of(value, period),
    {
        let raw = value % 0x1000;
        let width: u64 = if raw == 0 { 4095 } else { (raw - 1) as u64 };
        PwmLevel {
            width: if width < period - 1 { width } else { period - 1 },
            full: if period - 1 > 1 { period - 1 } else { 1 },
        }
    }

    /// The current stereo output.
    pub fn current_levels(&self) -> (r: PwmSample)
        ensures
            r == self@.levels(),
    {
        let period = self.period_cycles();
        if period == 0 {
            return (None, None);
        }
        let left_mode = self.control % 4;
        let right_mode = self.control / 4 % 4;
        let left = if left_mode == 1 {
            Some(Self::level(self.channels[0].last, period))
        } else if left_mode == 2 {
            Some(Self::level(self.channels[1].last, period))
        } else {
            None
        };
        let right = if right_mode == 1 {
            Some(Self::level(self.channels[1].last, period))
        } else if right_mode == 2 {
            Some(Self::level(self.channels[0].last, period))
        } else {
            None
        };
        (left, right)
    }

    /// One SH-2 cycle; whether it raised a timer event.
    fn cycle_once(&mut self, period: u64) -> (event: bool)
        requires
            old(self).wf(),
            period == old(self)@.period(),
        ensures
            final(self).wf(),
            (final(self)@, event) == old(self)@.cycle_step(),
    {
        let mut event = false;
        if self.control % 0x10 != 0 && period != 0 {
            if self.chip_phase + 1 >= period {
                self.chip_phase = 0;
                self.clock_once();
                self.timer_count = self.timer_count.wrapping_add(1);
                let tm = (self.control / 0x100 % 0x10) as u8;
                let interval: u8 = if tm == 0 { 16 } else { tm };
                if self.timer_count >= interval {
                    self.timer_count = 0;
                    event = true;
                }
            } else {
                self.chip_phase = self.chip_phase + 1;
            }
        }
        let ghost pulsed = self@;
        if self.sample_phase + PWM_AUDIO_RATE >= SH2_HZ {
            self.sample_phase = self.sample_phase + PWM_AUDIO_RATE - SH2_HZ;
            let levels = self.current_levels();
            self.samples.push(levels);
        } else {
            self.sample_phase = self.sample_phase + PWM_AUDIO_RATE;
        }
        proof {
            assert(pulsed.levels() == old(self)@.pulse_cycle().0.levels());
        }
        event
    }

    /// Runs the unit for `cycles` SH-2 cycles; the number of timer events.
    pub fn tick(&mut self, cycles: u32) -> (r: u32)
        requires
            old(self).wf(),
        ensures
            final(self).wf(),
            (final(self)@, r as nat) == old(self)@.cycles(cycles as nat),
    {
        let mut timer_events: u32 = 0;
        let period = self.period_cycles();
        let mut i: u32 = 0;
        while i < cycles
            invariant
                self.wf(),
                i <= cycles,
                timer_events <= i,
                period == self@.period(),
                (self@, timer_events as nat) == old(self)@.cycles(i as nat),
            decreases cycles - i,
        {
            let event = self.cycle_once(period);
            if event {
                timer_events = timer_events + 1;
            }
            i = i + 1;
        }
        timer_events
    }
}

impl Default for MarsPwm {
    fn default() -> (p: Self)
        ensures
            p.wf(),
            p@ == pwm_reset(),
    {
        Self::new()
    }
}

} // verus!
