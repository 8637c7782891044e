//! Sega CD graphics ASIC: stamp-map rotation and scaling into the image
//! buffer in word RAM, one trace-table line at a time, with the priority
//! modes that merge new dots with old ones.
use vstd::prelude::*;
use crate::sega_cd_gate::{SegaCdGate, WORD_RAM_SIZE, with_byte, byte_write_read_back};

verus! {

#[derive(Debug, Clone, Copy)]
pub struct SegaCdGraphics {
    pub active: bool,
    pub line_credit: i64,
    pub cycles_per_line: u64,
    pub dot_mask: u32,
    pub stamp_shift: u8,
    pub map_shift: u8,
    pub map_base: usize,
    pub trace_offset: usize,
    pub buffer_start: u32,
    pub buffer_offset: u32,
}

/// The word-RAM index of byte address `offset` (wrapping at 256 KiB).
pub open spec fn ram_index(offset: int) -> int {
    offset % WORD_RAM_SIZE as int
}

/// The big-endian word at byte `offset` of word RAM, wrapping.
pub open spec fn ram_word(ram: Seq<u8>, offset: int) -> u16 {
    (ram[ram_index(offset)] as int * 0x100 + ram[ram_index(offset + 1)] as int) as u16
}

/// A byte of two dots after priority mode `mode`: 0 overwrites, 1 keeps
/// each old nonzero dot (underwrite), 2 keeps each new nonzero dot
/// (overwrite), 3 keeps the old byte.
pub open spec fn merge_priority_spec(previous: u8, next: u8, mode: u8) -> u8 {
    let m = mode % 4;
    if m == 0 {
        next
    } else if m == 1 {
        (if previous & 0xf0 != 0 { previous & 0xf0 } else { next & 0xf0 }) | (if previous & 0x0f != 0 {
            previous & 0x0f
        } else {
            next & 0x0f
        })
    } else if m == 2 {
        (if next & 0xf0 != 0 { next & 0xf0 } else { previous & 0xf0 }) | (if next & 0x0f != 0 {
            next & 0x0f
        } else {
            previous & 0x0f
        })
    } else {
        previous
    }
}

/// The stamp coordinates of dot (x, y) of a 16 or 32-dot stamp after the
/// stamp's flip and rotation bits.
pub open spec fn stamp_xy(stamp_data: u16, xpos: u32, ypos: u32, stamp_32: bool) -> (u32, u32) {
    let size_mask: u32 = if stamp_32 { 31 } else { 15 };
    let x0 = (xpos >> 11u32) & size_mask;
    let y0 = (ypos >> 11u32) & size_mask;
    let transform = (stamp_data >> 13u16) & 7;
    let x1 = if transform & 4 != 0 { x0 ^ size_mask } else { x0 };
    let (x2, y2) = if transform & 2 != 0 { (x1 ^ size_mask, y0 ^ size_mask) } else { (x1, y0) };
    if transform & 1 != 0 {
        (y2 ^ size_mask, x2)
    } else {
        (x2, y2)
    }
}

/// The dot index within the stamp data area: stamp number, 8x8 cell and dot.
pub open spec fn stamp_dot_index(stamp_data: u16, xpos: u32, ypos: u32, stamp_32: bool) -> u32 {
    let stamp_mask: u16 = if stamp_32 { 0x07fc } else { 0x07ff };
    let stamp_base = ((stamp_data & stamp_mask) as u32) << 8u32;
    let xy = stamp_xy(stamp_data, xpos, ypos, stamp_32);
    let cells: u32 = if stamp_32 { 4 } else { 2 };
    let cell = ((xy.1 >> 3u32) + (xy.0 >> 3u32) * cells) as u32;
    let pixel = ((xy.0 & 7) + (xy.1 & 7) * 8) as u32;
    stamp_base | (cell << 6u32) | pixel
}

/// The 4-bit dot a stamp shows at map position (xpos, ypos) in 5.11 fixed
/// point; stamp 0 is transparent.
pub open spec fn transformed_pixel_spec(ram: Seq<u8>, stamp_data: u16, xpos: u32, ypos: u32, stamp_32: bool) -> u8 {
    let stamp_mask: u16 = if stamp_32 { 0x07fc } else { 0x07ff };
    if stamp_data & stamp_mask == 0 {
        0
    } else {
        let index = stamp_dot_index(stamp_data, xpos, ypos, stamp_32);
        let packed = ram[ram_index((index >> 1u32) as int)];
        if index & 1 != 0 {
            packed & 0x0f
        } else {
            packed >> 4u8
        }
    }
}

/// The state of a line being drawn.
pub struct LineState {
    pub xpos: u32,
    pub ypos: u32,
    pub buffer_index: u32,
    pub ram: Seq<u8>,
}

impl SegaCdGraphics {
    /// The dot a line shows at (xpos, ypos), already wrapped: 0 outside the
    /// stamp map, else the stamp's dot.
    pub open spec fn map_dot(&self, ram: Seq<u8>, xpos: u32, ypos: u32, stamp_32: bool) -> u8 {
        if (xpos | ypos) & !self.dot_mask != 0 {
            0
        } else {
            let map_index = (xpos >> self.stamp_shift) | ((ypos >> self.stamp_shift) << self.map_shift);
            let stamp_data = ram_word(ram, self.map_base + map_index as int * 2);
            transformed_pixel_spec(ram, stamp_data, xpos, ypos, stamp_32)
        }
    }

    /// One dot of a line: wrap the position (to the map with repeat, else
    /// to 24 bits), write the dot into the image buffer through the priority
    /// mode, step the buffer index (jumping to the next column of cells
    /// after each eighth dot) and the position.
    pub open spec fn line_step(&self, st: LineState, xoffset: u32, yoffset: u32, repeat: bool, stamp_32: bool, priority: u8) -> LineState {
        let xpos = if repeat { st.xpos & self.dot_mask } else { st.xpos & 0x00ff_ffff };
        let ypos = if repeat { st.ypos & self.dot_mask } else { st.ypos & 0x00ff_ffff };
        let dot = self.map_dot(st.ram, xpos, ypos, stamp_32);
        let byte_index = ram_index((st.buffer_index >> 1u32) as int);
        let previous = st.ram[byte_index];
        let next = if st.buffer_index & 1 != 0 { (previous & 0xf0) | dot } else { (dot << 4u8) | (previous & 0x0f) };
        LineState {
            xpos: xpos.wrapping_add(xoffset),
            ypos: ypos.wrapping_add(yoffset),
            buffer_index: st.buffer_index.wrapping_add(if st.buffer_index & 7 != 7 { 1 } else { self.buffer_offset }),
            ram: st.ram.update(byte_index, merge_priority_spec(previous, next, priority)),
        }
    }

    pub open spec fn line_steps(&self, st: LineState, xoffset: u32, yoffset: u32, repeat: bool, stamp_32: bool, priority: u8, n: nat) -> LineState
        decreases n,
    {
        if n == 0 {
            st
        } else {
            self.line_step(self.line_steps(st, xoffset, yoffset, repeat, stamp_32, priority, (n - 1) as nat), xoffset, yoffset, repeat, stamp_32, priority)
        }
    }

    /// The geometry an operation runs with: one of the four map and stamp
    /// size combinations, and base addresses inside word RAM.
    pub open spec fn geometry_ok(&self) -> bool {
        &&& (self.dot_mask == 0x07ffff || self.dot_mask == 0x7fffff)
        &&& (self.stamp_shift == 15 || self.stamp_shift == 16)
        &&& (self.map_shift == 3 || self.map_shift == 4 || self.map_shift == 7 || self.map_shift == 8)
        &&& self.map_base < WORD_RAM_SIZE
        &&& self.trace_offset < WORD_RAM_SIZE
    }

    /// The trace-table offset after `k` more words.
    pub open spec fn trace_word(&self, k: nat) -> int
        decreases k,
    {
        if k == 0 {
            self.trace_offset as int
        } else {
            (self.trace_word((k - 1) as nat) + 2) % WORD_RAM_SIZE as int
        }
    }

    /// A line's start: the trace table's start position (x, y in 13.3
    /// fixed point, widened to 13.11), the image buffer's first dot.
    pub open spec fn line_start(&self, ram: Seq<u8>) -> LineState {
        LineState {
            xpos: (ram_word(ram, self.trace_word(0)) as u32) << 8u32,
            ypos: (ram_word(ram, self.trace_word(1)) as u32) << 8u32,
            buffer_index: self.buffer_start,
            ram,
        }
    }

    /// The trace table's signed per-dot steps, sign-extended to 32 bits.
    pub open spec fn line_delta(&self, ram: Seq<u8>, k: nat) -> u32 {
        ((ram_word(ram, self.trace_word(k)) as i16) as i32) as u32
    }

    /// Word RAM after one line of an operation configured by `gate`.
    pub open spec fn rendered_line(&self, gate: SegaCdGate, ram: Seq<u8>) -> Seq<u8> {
        let config = gate.byte_spec(0x59);
        self.line_steps(
            self.line_start(ram),
            self.line_delta(ram, 2),
            self.line_delta(ram, 3),
            config & 1 != 0,
            config & 2 != 0,
            (gate.memory_mode_spec() >> 3u8) & 3,
            (gate.regs[0x31] & 0x1ff) as nat,
        ).ram
    }

    /// The unit after one line: the trace table advanced by four words, the
    /// image buffer by one row of dots.
    pub open spec fn after_line(&self) -> SegaCdGraphics {
        SegaCdGraphics {
            trace_offset: self.trace_word(4) as usize,
            buffer_start: self.buffer_start.wrapping_add(8),
            ..*self
        }
    }
}

proof fn lemma_small_mask(v: u32, m: u32)
    by (bit_vector)
    requires
        m == 31 || m == 15,
    ensures
        v & m <= 31,
{
}

proof fn lemma_and_le(v: u32, m: u32)
    by (bit_vector)
    ensures
        v & m <= m,
{
}

proof fn lemma_small_xor(a: u32, m: u32)
    by (bit_vector)
    requires
        a <= 31,
        m == 31 || m == 15,
    ensures
        a ^ m <= 31,
{
}

proof fn lemma_map_index(xpos: u32, ypos: u32, mask: u32, s: u8, ms: u8)
    by (bit_vector)
    requires
        mask == 0x07ffff || mask == 0x7fffff,
        s == 15 || s == 16,
        ms == 3 || ms == 4 || ms == 7 || ms == 8,
        (xpos | ypos) & !mask == 0,
    ensures
        (xpos >> s) | ((ypos >> s) << ms) < 0x10000,
{
}

/// The stamp coordinates of a map position after the stamp's flip and
/// rotation bits.
fn stamp_coordinates(stamp_data: u16, xpos: u32, ypos: u32, stamp_32: bool) -> (r: (u32, u32))
    ensures
        r == stamp_xy(stamp_data, xpos, ypos, stamp_32),
        r.0 <= 31 && r.1 <= 31,
{
    let size_mask: u32 = if stamp_32 { 31 } else { 15 };
    let mut x = (xpos >> 11u32) & size_mask;
    let mut y = (ypos >> 11u32) & size_mask;
    proof {
        lemma_small_mask(xpos >> 11u32, size_mask);
        lemma_small_mask(ypos >> 11u32, size_mask);
    }
    let transform = (stamp_data >> 13u16) & 7;
    if transform & 4 != 0 {
        proof {
            lemma_small_xor(x, size_mask);
        }
        x = x ^ size_mask;
    }
    if transform & 2 != 0 {
        proof {
            lemma_small_xor(x, size_mask);
            lemma_small_xor(y, size_mask);
        }
        x = x ^ size_mask;
        y = y ^ size_mask;
    }
    if transform & 1 != 0 {
        proof {
            lemma_small_xor(y, size_mask);
        }
        let old_x = x;
        x = y ^ size_mask;
        y = old_x;
    }
    (x, y)
}

/// `x` clamped to the range of `i64`.
pub open spec fn clamp_i64(x: int) -> i64 {
    if x > i64::MAX {
        i64::MAX
    } else if x < i64::MIN {
        i64::MIN
    } else {
        x as i64
    }
}

/// The register chip when an operation ends: the busy flag cleared and, when
/// the level-1 interrupt is enabled, that interrupt pending.
pub open spec fn finished_gate(gate: SegaCdGate) -> SegaCdGate {
    let cleared = SegaCdGate { regs: with_byte(gate.regs, 0x58, 0), ..gate };
    if cleared.byte_spec(0x33) & 0x02 != 0 {
        SegaCdGate { pending: cleared.pending | 2, ..cleared }
    } else {
        cleared
    }
}

impl SegaCdGraphics {
    /// Lines drawn while the unit has credit and is busy: each line takes
    /// one from the register chip's line count and costs one line's cycles; the
    /// operation ends when the count runs out.
    pub open spec fn run_lines(self, gate: SegaCdGate, ram: Seq<u8>) -> (SegaCdGraphics, SegaCdGate, Seq<u8>)
        decreases gate.byte_spec(0x65),
    {
        if !(self.line_credit > 0 && self.active) {
            (self, gate, ram)
        } else {
            let remaining = gate.byte_spec(0x65);
            if remaining == 0 {
                (SegaCdGraphics { active: false, ..self }, finished_gate(gate), ram)
            } else {
                let ram1 = self.rendered_line(gate, ram);
                let gate1 = SegaCdGate { regs: with_byte(gate.regs, 0x65, (remaining - 1) as u8), ..gate };
                let g1 = SegaCdGraphics {
                    line_credit: clamp_i64(self.line_credit - (self.cycles_per_line as i64)),
                    ..self.after_line()
                };
                if remaining == 1 {
                    (SegaCdGraphics { active: false, ..g1 }, finished_gate(gate1), ram1)
                } else {
                    proof {
                        byte_write_read_back(gate.regs, 0x65, (remaining - 1) as u8, 0x65);
                    }
                    g1.run_lines(gate1, ram1)
                }
            }
        }
    }

    /// The unit, register chip and word RAM after `cycles` sub-CPU cycles: the
    /// unit runs only while busy, in 2M mode, with word RAM on the sub side.
    pub open spec fn ticked(self, cycles: u32, gate: SegaCdGate, ram: Seq<u8>) -> (SegaCdGraphics, SegaCdGate, Seq<u8>) {
        if !self.active || gate.one_meg_spec() || !gate.sub_has_word_ram_spec() {
            (self, gate, ram)
        } else {
            SegaCdGraphics { line_credit: clamp_i64(self.line_credit + cycles), ..self }.run_lines(gate, ram)
        }
    }
}

/// Priority modes 1 (underwrite) and 2 (overwrite) are mirror images of
/// each other; mode 0 takes the new byte and mode 3 keeps the old one.
pub proof fn priority_modes_mirror(previous: u8, next: u8)
    ensures
        merge_priority_spec(previous, next, 1) == merge_priority_spec(next, previous, 2),
        merge_priority_spec(previous, next, 0) == next,
        merge_priority_spec(previous, next, 3) == previous,
{
}

/// An idle unit, or one in 1M mode or whose word RAM the main CPU holds,
/// changes nothing however many cycles pass.
pub proof fn stalled_unit_changes_nothing(g: SegaCdGraphics, cycles: u32, gate: SegaCdGate, ram: Seq<u8>)
    requires
        !g.active || gate.one_meg_spec() || !gate.sub_has_word_ram_spec(),
    ensures
        g.ticked(cycles, gate, ram) == (g, gate, ram),
{
}

/// When an operation ends the busy flag reads 0 and every other register
/// byte is kept.
pub proof fn finish_clears_busy(gate: SegaCdGate, other: u16)
    ensures
        finished_gate(gate).byte_spec(0x58) == 0,
        other % 0x200 != 0x58 ==> finished_gate(gate).byte_spec(other) == gate.byte_spec(other),
{
    byte_write_read_back(gate.regs, 0x58, 0, 0x58);
    byte_write_read_back(gate.regs, 0x58, 0, other);
}

impl SegaCdGraphics {
    /// The big-endian word at byte `offset` of word RAM, wrapping.
    pub fn read_word(word_ram: &[u8], offset: usize) -> (r: u16)
        requires
            word_ram@.len() == WORD_RAM_SIZE,
            offset < usize::MAX,
        ensures
            r == ram_word(word_ram@, offset as int),
    {
        let a = offset % WORD_RAM_SIZE;
        let b = (offset + 1) % WORD_RAM_SIZE;
        word_ram[a] as u16 * 0x100 + word_ram[b] as u16
    }

    /// A byte of two dots after priority mode `mode`.
    pub fn merge_priority(previous: u8, next: u8, mode: u8) -> (r: u8)
        ensures
            r == merge_priority_spec(previous, next, mode),
    {
        let m = mode % 4;
        if m == 0 {
            next
        } else if m == 1 {
            (if previous & 0xf0 != 0 { previous & 0xf0 } else { next & 0xf0 }) | (if previous & 0x0f != 0 {
                previous & 0x0f
            } else {
                next & 0x0f
            })
        } else if m == 2 {
            (if next & 0xf0 != 0 { next & 0xf0 } else { previous & 0xf0 }) | (if next & 0x0f != 0 {
                next & 0x0f
            } else {
                previous & 0x0f
            })
        } else {
            previous
        }
    }

    pub fn new() -> (g: Self)
        ensures
            !g.active && g.line_credit == 0 && g.cycles_per_line == 0 && g.dot_mask == 0,
            g.stamp_shift == 0 && g.map_shift == 0 && g.map_base == 0 && g.trace_offset == 0,
            g.buffer_start == 0 && g.buffer_offset == 0,
    {
        SegaCdGraphics {
            active: false,
            line_credit: 0,
            cycles_per_line: 0,
            dot_mask: 0,
            stamp_shift: 0,
            map_shift: 0,
            map_base: 0,
            trace_offset: 0,
            buffer_start: 0,
            buffer_offset: 0,
        }
    }

    /// The geometry and timing an operation starts with, from the register
    /// chip's stamp size, map size, base addresses, buffer size and width.
    pub open spec fn started(gate: SegaCdGate) -> SegaCdGraphics {
        let config = gate.byte_spec(0x59);
        let sel = config as int / 2 % 4;
        let dot_mask: u32 = if sel <= 1 { 0x07ffff } else { 0x7fffff };
        let stamp_shift: u8 = if sel % 2 == 0 { 15 } else { 16 };
        let map_shift: u8 = if sel == 0 { 4 } else if sel == 1 { 3 } else if sel == 2 { 8 } else { 7 };
        let map_mask: usize = if sel == 0 { 0x3fe00 } else if sel == 1 { 0x3ff80 } else if sel == 2 { 0x20000 } else { 0x38000 };
        let width = gate.regs[0x31] as int % 0x200;
        let pixel_offset = gate.byte_spec(0x61) as int % 4;
        let cycles = 12 * (4 + 2 * width + (width + pixel_offset + 3) / 4);
        SegaCdGraphics {
            active: true,
            line_credit: 0,
            cycles_per_line: (if cycles < 1 { 1 } else { cycles }) as u64,
            dot_mask,
            stamp_shift,
            map_shift,
            map_base: ((gate.regs[0x2d] as int * 4) as usize) & map_mask,
            trace_offset: ((gate.regs[0x33] as int * 4) as usize) & (WORD_RAM_SIZE - 8) as usize,
            buffer_offset: ((gate.byte_spec(0x5d) as int % 0x20 + 1) * 0x40 - 7) as u32,
            buffer_start: (((gate.regs[0x2f] as int * 8) as u32 & 0x7ffc0) as int + gate.byte_spec(0x61) as int % 0x40) as u32,
        }
    }

    /// Starts an operation: takes the geometry from the register chip and marks
    /// the graphics unit busy in its status register.
    pub fn start(&mut self, gate: &mut SegaCdGate)
        ensures
            *final(self) == Self::started(*old(gate)),
            final(gate).regs == with_byte(old(gate).regs, 0x58, 0x80),
            final(gate).pending == old(gate).pending,
            final(gate).timer_remaining == old(gate).timer_remaining,
            final(gate).sub_reset_pulse == old(gate).sub_reset_pulse,
    {
        let config = gate.byte(0x59);
        let sel = config / 2 % 4;
        let dot_mask: u32 = if sel <= 1 { 0x07ffff } else { 0x7fffff };
        let stamp_shift: u8 = if sel % 2 == 0 { 15 } else { 16 };
        let map_shift: u8 = if sel == 0 { 4 } else if sel == 1 { 3 } else if sel == 2 { 8 } else { 7 };
        let map_mask: usize = if sel == 0 { 0x3fe00 } else if sel == 1 { 0x3ff80 } else if sel == 2 { 0x20000 } else { 0x38000 };
        let width = (gate.regs[0x31] % 0x200) as u64;
        let pixel_offset = (gate.byte(0x61) % 4) as u64;
        let cycles = 12 * (4 + 2 * width + (width + pixel_offset + 3) / 4);
        self.dot_mask = dot_mask;
        self.stamp_shift = stamp_shift;
        self.map_shift = map_shift;
        self.map_base = (gate.regs[0x2d] as usize * 4) & map_mask;
        self.trace_offset = (gate.regs[0x33] as usize * 4) & (WORD_RAM_SIZE - 8);
        self.buffer_offset = (gate.byte(0x5d) % 0x20 + 1) as u32 * 0x40 - 7;
        let start_words = gate.regs[0x2f] as u32 * 8;
        proof {
            lemma_and_le(start_words, 0x7ffc0);
        }
        self.buffer_start = (start_words & 0x7ffc0) + (gate.byte(0x61) % 0x40) as u32;
        self.cycles_per_line = if cycles < 1 { 1 } else { cycles };
        self.line_credit = 0;
        self.active = true;
        gate.set_byte(0x58, 0x80);
    }

    /// The 4-bit dot a stamp shows at map position (xpos, ypos).
    pub fn transformed_pixel(&self, word_ram: &[u8], stamp_data: u16, xpos: u32, ypos: u32, stamp_32: bool) -> (r: u8)
        requires
            word_ram@.len() == WORD_RAM_SIZE,
        ensures
            r == transformed_pixel_spec(word_ram@, stamp_data, xpos, ypos, stamp_32),
    {
        let stamp_mask: u16 = if stamp_32 { 0x07fc } else { 0x07ff };
        if stamp_data & stamp_mask == 0 {
            return 0;
        }
        let stamp_base = ((stamp_data & stamp_mask) as u32) << 8u32;
        let (x, y) = stamp_coordinates(stamp_data, xpos, ypos, stamp_32);
        let cells: u32 = if stamp_32 { 4 } else { 2 };
        assert(x >> 3u32 <= 3 && y >> 3u32 <= 3) by (bit_vector)
            requires
                x <= 31,
                y <= 31,
        ;
        let cell = (y >> 3u32) + (x >> 3u32) * cells;
        proof {
            lemma_and_le(x, 7);
            lemma_and_le(y, 7);
        }
        let pixel = (x & 7) + (y & 7) * 8;
        let index = stamp_base | (cell << 6u32) | pixel;
        assert(index == stamp_dot_index(stamp_data, xpos, ypos, stamp_32));
        let half = (index >> 1u32) as usize;
        let packed = word_ram[half % WORD_RAM_SIZE];
        if index & 1 != 0 {
            packed & 0x0f
        } else {
            packed >> 4u8
        }
    }

    /// Draws one line of the operation: reads the line's start position and
    /// per-dot step from the trace table, then writes `width` dots of the
    /// stamp map into the image buffer through the priority mode.
    pub fn render_line(&mut self, gate: &SegaCdGate, word_ram: &mut [u8])
        requires
            old(self).geometry_ok(),
            old(word_ram)@.len() == WORD_RAM_SIZE,
        ensures
            final(word_ram)@ == old(self).rendered_line(*gate, old(word_ram)@),
            final(word_ram)@.len() == WORD_RAM_SIZE,
            *final(self) == old(self).after_line(),
    {
        let ghost g0 = *self;
        let ghost ram0 = word_ram@;
        let mut trace = self.trace_offset;
        assert(g0.trace_word(0) == trace);
        let mut xpos = (Self::read_word(word_ram, trace) as u32) << 8u32;
        trace = (trace + 2) % WORD_RAM_SIZE;
        assert(trace == g0.trace_word(1));
        let mut ypos = (Self::read_word(word_ram, trace) as u32) << 8u32;
        trace = (trace + 2) % WORD_RAM_SIZE;
        assert(trace == g0.trace_word(2));
        let xoffset = (#[verifier::truncate] (Self::read_word(word_ram, trace) as i16) as i32) as u32;
        trace = (trace + 2) % WORD_RAM_SIZE;
        assert(trace == g0.trace_word(3));
        let yoffset = (#[verifier::truncate] (Self::read_word(word_ram, trace) as i16) as i32) as u32;
        trace = (trace + 2) % WORD_RAM_SIZE;
        assert(trace == g0.trace_word(4));

        let config = gate.byte(0x59);
        let repeat = config & 1 != 0;
        let stamp_32 = config & 2 != 0;
        let width = (gate.regs[0x31] & 0x1ff) as u32;
        let priority = (gate.memory_mode() >> 3u8) & 3;
        let mut buffer_index = self.buffer_start;
        let ghost start = LineState { xpos, ypos, buffer_index, ram: word_ram@ };
        assert(start == g0.line_start(ram0));
        let mut i: u32 = 0;
        while i < width
            invariant
                i <= width,
                word_ram@.len() == WORD_RAM_SIZE,
                *self == g0,
                g0.geometry_ok(),
                (LineState { xpos, ypos, buffer_index, ram: word_ram@ }) == g0.line_steps(
                    start,
                    xoffset,
                    yoffset,
                    repeat,
                    stamp_32,
                    priority,
                    i as nat,
                ),
            decreases width - i,
        {
            let ghost before = LineState { xpos, ypos, buffer_index, ram: word_ram@ };
            if repeat {
                xpos = xpos & self.dot_mask;
                ypos = ypos & self.dot_mask;
            } else {
                xpos = xpos & 0x00ff_ffff;
                ypos = ypos & 0x00ff_ffff;
            }
            let pixel = if (xpos | ypos) & !self.dot_mask != 0 {
                0
            } else {
                let map_index = (xpos >> self.stamp_shift) | ((ypos >> self.stamp_shift) << self.map_shift);
                proof {
                    lemma_map_index(xpos, ypos, self.dot_mask, self.stamp_shift, self.map_shift);
                }
                let stamp_data = Self::read_word(word_ram, self.map_base + map_index as usize * 2);
                self.transformed_pixel(word_ram, stamp_data, xpos, ypos, stamp_32)
            };
            assert(pixel == g0.map_dot(before.ram, xpos, ypos, stamp_32));
            let byte_index = ((buffer_index >> 1u32) as usize) % WORD_RAM_SIZE;
            let previous = word_ram[byte_index];
            let next = if buffer_index & 1 != 0 {
                (previous & 0xf0) | pixel
            } else {
                (pixel << 4u8) | (previous & 0x0f)
            };
            word_ram[byte_index] = Self::merge_priority(previous, next, priority);
            if buffer_index & 7 != 7 {
                buffer_index = buffer_index.wrapping_add(1);
            } else {
                buffer_index = buffer_index.wrapping_add(self.buffer_offset);
            }
            xpos = xpos.wrapping_add(xoffset);
            ypos = ypos.wrapping_add(yoffset);
            i = i + 1;
        }
        self.trace_offset = trace;
        self.buffer_start = self.buffer_start.wrapping_add(8);
    }

    /// Ends the operation: idle, busy flag cleared, level-1 interrupt
    /// pending when enabled.
    fn finish(&mut self, gate: &mut SegaCdGate)
        ensures
            *final(self) == (SegaCdGraphics { active: false, ..*old(self) }),
            *final(gate) == finished_gate(*old(gate)),
    {
        self.active = false;
        gate.set_byte(0x58, 0);
        if gate.byte(0x33) & 0x02 != 0 {
            gate.pending = gate.pending | 2;
        }
    }

    /// Runs the unit for `cycles` sub-CPU cycles, drawing as many lines as
    /// the accumulated cycles pay for.
    pub fn tick(&mut self, cycles: u32, gate: &mut SegaCdGate, word_ram: &mut [u8])
        requires
            old(self).active ==> old(self).geometry_ok(),
            old(word_ram)@.len() == WORD_RAM_SIZE,
        ensures
            (*final(self), *final(gate), final(word_ram)@) == old(self).ticked(cycles, *old(gate), old(word_ram)@),
    {
        if !self.active {
            return;
        }
        if gate.one_meg_mode() || !gate.sub_has_word_ram() {
            return;
        }
        self.line_credit = if self.line_credit > i64::MAX - cycles as i64 {
            i64::MAX
        } else {
            self.line_credit + cycles as i64
        };
        let ghost target = self.run_lines(*gate, word_ram@);
        while self.line_credit > 0 && self.active
            invariant
                word_ram@.len() == WORD_RAM_SIZE,
                self.active ==> self.geometry_ok(),
                self.run_lines(*gate, word_ram@) == target,
            decreases gate.byte_spec(0x65) as int + (if self.active { 1int } else { 0int }),
        {
            let remaining = gate.byte(0x65);
            if remaining == 0 {
                self.finish(gate);
            } else {
                let ghost g0 = *self;
                let ghost gate0 = *gate;
                self.render_line(gate, word_ram);
                gate.set_byte(0x65, remaining - 1);
                proof {
                    byte_write_read_back(gate0.regs, 0x65, (remaining - 1) as u8, 0x65);
                }
                let cost = #[verifier::truncate] (self.cycles_per_line as i64);
                self.line_credit = if cost < 0 && self.line_credit > i64::MAX + cost {
                    i64::MAX
                } else if cost > 0 && self.line_credit < i64::MIN + cost {
                    i64::MIN
                } else {
                    self.line_credit - cost
                };
                if remaining == 1 {
                    self.finish(gate);
                }
            }
        }
    }
}

impl Default for SegaCdGraphics {
    fn default() -> (g: Self)
        ensures
            !g.active,
    {
        Self::new()
    }
}

proof fn lemma_stamp_transform_bits(d: u16, xpos: u32, ypos: u32, m: u32)
    by (bit_vector)
    requires
        d & 0xe000 == 0,
        m == 31 || m == 15,
    ensures
        (d >> 13u16) & 7 == 0,
        ((d | 0x2000) >> 13u16) & 7 == 1,
        ((d | 0x4000) >> 13u16) & 7 == 2,
        ((d | 0x8000) >> 13u16) & 7 == 4,
        (d >> 13u16) & 7 & 4 == 0 && (d >> 13u16) & 7 & 2 == 0 && (d >> 13u16) & 7 & 1 == 0,
        ((d | 0x2000) >> 13u16) & 7 & 4 == 0 && ((d | 0x2000) >> 13u16) & 7 & 2 == 0 && ((d | 0x2000) >> 13u16) & 7
            & 1 != 0,
        ((d | 0x4000) >> 13u16) & 7 & 4 == 0 && ((d | 0x4000) >> 13u16) & 7 & 2 != 0 && ((d | 0x4000) >> 13u16) & 7
            & 1 == 0,
        ((d | 0x8000) >> 13u16) & 7 & 4 != 0 && ((d | 0x8000) >> 13u16) & 7 & 2 == 0 && ((d | 0x8000) >> 13u16) & 7
            & 1 == 0,
        ((d | 0x6000) >> 13u16) & 7 & 4 == 0 && ((d | 0x6000) >> 13u16) & 7 & 2 != 0 && ((d | 0x6000) >> 13u16) & 7
            & 1 != 0,
        ((d | 0xa000) >> 13u16) & 7 & 4 != 0 && ((d | 0xa000) >> 13u16) & 7 & 2 == 0 && ((d | 0xa000) >> 13u16) & 7
            & 1 != 0,
        ((d | 0xc000) >> 13u16) & 7 & 4 != 0 && ((d | 0xc000) >> 13u16) & 7 & 2 != 0 && ((d | 0xc000) >> 13u16) & 7
            & 1 == 0,
        ((d | 0xe000) >> 13u16) & 7 & 4 != 0 && ((d | 0xe000) >> 13u16) & 7 & 2 != 0 && ((d | 0xe000) >> 13u16) & 7
            & 1 != 0,
        (d | 0x6000) & 0x07fc == d & 0x07fc && (d | 0x6000) & 0x07ff == d & 0x07ff,
        (d | 0xa000) & 0x07fc == d & 0x07fc && (d | 0xa000) & 0x07ff == d & 0x07ff,
        (d | 0xc000) & 0x07fc == d & 0x07fc && (d | 0xc000) & 0x07ff == d & 0x07ff,
        (d | 0xe000) & 0x07fc == d & 0x07fc && (d | 0xe000) & 0x07ff == d & 0x07ff,
        (((xpos >> 11u32) & m) ^ m) ^ m == (xpos >> 11u32) & m,
        (((ypos >> 11u32) & m) ^ m) ^ m == (ypos >> 11u32) & m,
        (d | 0x2000) & 0x07fc == d & 0x07fc,
        (d | 0x4000) & 0x07fc == d & 0x07fc,
        (d | 0x8000) & 0x07fc == d & 0x07fc,
        (d | 0x2000) & 0x07ff == d & 0x07ff,
        (d | 0x4000) & 0x07ff == d & 0x07ff,
        (d | 0x8000) & 0x07ff == d & 0x07ff,
        (xpos >> 11u32) & m <= m,
        (ypos >> 11u32) & m <= m,
        ((((xpos >> 11u32) & m) << 11u32) >> 11u32) & m == (xpos >> 11u32) & m,
        ((((ypos >> 11u32) & m) << 11u32) >> 11u32) & m == (ypos >> 11u32) & m,
        (((((m - ((xpos >> 11u32) & m)) as u32) << 11u32) >> 11u32) & m) == (m - ((xpos >> 11u32) & m)) as u32,
        (((((m - ((ypos >> 11u32) & m)) as u32) << 11u32) >> 11u32) & m) == (m - ((ypos >> 11u32) & m)) as u32,
        ((xpos >> 11u32) & m) ^ m == (m - ((xpos >> 11u32) & m)) as u32,
        ((ypos >> 11u32) & m) ^ m == (m - ((ypos >> 11u32) & m)) as u32,
{
}

/// What the transform bits of a stamp word do to the stamp, with the
/// stamp's own dots unchanged: the dot a stamp shows at (x, y) within
/// itself (size `n` = 16 or 32 dots) is the dot the untransformed stamp
/// shows at (n-1-y, x) when rotated (bit 13), at (n-1-x, y) when flipped
/// horizontally (bit 15), and at (n-1-x, n-1-y) when turned over (bit 14).
pub proof fn stamp_transforms_move_dots(ram: Seq<u8>, d: u16, xpos: u32, ypos: u32, stamp_32: bool)
    requires
        d & 0xe000 == 0,
    ensures
        ({
            let m: u32 = if stamp_32 { 31 } else { 15 };
            let x = (xpos >> 11u32) & m;
            let y = (ypos >> 11u32) & m;
            &&& transformed_pixel_spec(ram, d | 0x2000, xpos, ypos, stamp_32) == transformed_pixel_spec(
                ram,
                d,
                ((m - y) as u32) << 11u32,
                x << 11u32,
                stamp_32,
            )
            &&& transformed_pixel_spec(ram, d | 0x8000, xpos, ypos, stamp_32) == transformed_pixel_spec(
                ram,
                d,
                ((m - x) as u32) << 11u32,
                y << 11u32,
                stamp_32,
            )
            &&& transformed_pixel_spec(ram, d | 0x4000, xpos, ypos, stamp_32) == transformed_pixel_spec(
                ram,
                d,
                ((m - x) as u32) << 11u32,
                ((m - y) as u32) << 11u32,
                stamp_32,
            )
        }),
{
    let m: u32 = if stamp_32 { 31 } else { 15 };
    let x = (xpos >> 11u32) & m;
    let y = (ypos >> 11u32) & m;
    lemma_stamp_transform_bits(d, xpos, ypos, m);
    let rx = ((m - x) as u32) << 11u32;
    let ry = ((m - y) as u32) << 11u32;
    assert(stamp_xy(d | 0x2000, xpos, ypos, stamp_32) == stamp_xy(d, ry, x << 11u32, stamp_32));
    assert(stamp_xy(d | 0x8000, xpos, ypos, stamp_32) == stamp_xy(d, rx, y << 11u32, stamp_32));
    assert(stamp_xy(d | 0x4000, xpos, ypos, stamp_32) == stamp_xy(d, rx, ry, stamp_32));
    assert(stamp_dot_index(d | 0x2000, xpos, ypos, stamp_32) == stamp_dot_index(d, ry, x << 11u32, stamp_32));
    assert(stamp_dot_index(d | 0x8000, xpos, ypos, stamp_32) == stamp_dot_index(d, rx, y << 11u32, stamp_32));
    assert(stamp_dot_index(d | 0x4000, xpos, ypos, stamp_32) == stamp_dot_index(d, rx, ry, stamp_32));
}

/// The combined transform bits act as the single ones in turn: flip
/// horizontally (bit 15), turn over (bit 14), then rotate (bit 13). The
/// dot shown at (x, y) within a stamp of `n` dots is the untransformed
/// stamp's dot at: (y, n-1-x) for bits 14+13; (n-1-y, n-1-x) for bits
/// 15+13; (x, n-1-y) for bits 15+14; (y, x) for all three.
pub proof fn stamp_combined_transforms_move_dots(ram: Seq<u8>, d: u16, xpos: u32, ypos: u32, stamp_32: bool)
    requires
        d & 0xe000 == 0,
    ensures
        ({
            let m: u32 = if stamp_32 { 31 } else { 15 };
            let x = (xpos >> 11u32) & m;
            let y = (ypos >> 11u32) & m;
            &&& transformed_pixel_spec(ram, d | 0x6000, xpos, ypos, stamp_32) == transformed_pixel_spec(
                ram,
                d,
                y << 11u32,
                ((m - x) as u32) << 11u32,
                stamp_32,
            )
            &&& transformed_pixel_spec(ram, d | 0xa000, xpos, ypos, stamp_32) == transformed_pixel_spec(
                ram,
                d,
                ((m - y) as u32) << 11u32,
                ((m - x) as u32) << 11u32,
                stamp_32,
            )
            &&& transformed_pixel_spec(ram, d | 0xc000, xpos, ypos, stamp_32) == transformed_pixel_spec(
                ram,
                d,
                x << 11u32,
                ((m - y) as u32) << 11u32,
                stamp_32,
            )
            &&& transformed_pixel_spec(ram, d | 0xe000, xpos, ypos, stamp_32) == transformed_pixel_spec(
                ram,
                d,
                y << 11u32,
                x << 11u32,
                stamp_32,
            )
        }),
{
    let m: u32 = if stamp_32 { 31 } else { 15 };
    let x = (xpos >> 11u32) & m;
    let y = (ypos >> 11u32) & m;
    lemma_stamp_transform_bits(d, xpos, ypos, m);
    let rx = ((m - x) as u32) << 11u32;
    let ry = ((m - y) as u32) << 11u32;
    assert(stamp_xy(d | 0x6000, xpos, ypos, stamp_32) == stamp_xy(d, y << 11u32, rx, stamp_32));
    assert(stamp_xy(d | 0xa000, xpos, ypos, stamp_32) == stamp_xy(d, ry, rx, stamp_32));
    assert(stamp_xy(d | 0xc000, xpos, ypos, stamp_32) == stamp_xy(d, x << 11u32, ry, stamp_32));
    assert(stamp_xy(d | 0xe000, xpos, ypos, stamp_32) == stamp_xy(d, y << 11u32, x << 11u32, stamp_32));
    assert(stamp_dot_index(d | 0x6000, xpos, ypos, stamp_32) == stamp_dot_index(d, y << 11u32, rx, stamp_32));
    assert(stamp_dot_index(d | 0xa000, xpos, ypos, stamp_32) == stamp_dot_index(d, ry, rx, stamp_32));
    assert(stamp_dot_index(d | 0xc000, xpos, ypos, stamp_32) == stamp_dot_index(d, x << 11u32, ry, stamp_32));
    assert(stamp_dot_index(d | 0xe000, xpos, ypos, stamp_32) == stamp_dot_index(d, y << 11u32, x << 11u32, stamp_32));
}

} // verus!
