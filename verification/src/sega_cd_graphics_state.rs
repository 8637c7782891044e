//! The Sega CD graphics ASIC's save state: whether an operation runs, its
//! line timing and geometry, and its progress, written by `save` and
//! checked and read back by `load`.
use vstd::prelude::*;
use crate::sega_cd_gate::WORD_RAM_SIZE;
use crate::sega_cd_graphics::SegaCdGraphics;
use crate::state_bytes::{
    le32_bytes, le64_bytes, le32_at, le64_at, push_le32, push_le64, read_le32, read_le64, lemma_le32_in,
    lemma_le64_in, lemma_byte_in, lemma_split,
};

verus! {

/// Bytes of a graphics ASIC save state.
pub const GRAPHICS_STATE_SIZE: usize = 39;

/// The save state's bytes for ASIC `g`.
pub open spec fn graphics_state_bytes(g: SegaCdGraphics) -> Seq<u8> {
    seq![if g.active { 1u8 } else { 0u8 }] + le64_bytes(g.line_credit as u64) + le64_bytes(g.cycles_per_line)
        + le32_bytes(g.dot_mask) + seq![g.stamp_shift, g.map_shift] + le32_bytes(g.map_base as u32) + le32_bytes(
        g.trace_offset as u32,
    ) + le32_bytes(g.buffer_start) + le32_bytes(g.buffer_offset)
}

/// The ASIC the state at `p` of `s` gives and where the state ends, when
/// `s` holds all of it and, with an operation running, the geometry is
/// one the ASIC supports. The cycle count per line is at least one and the
/// two word-RAM addresses wrap into word RAM.
pub open spec fn graphics_state_decode(s: Seq<u8>, p: int) -> Option<(SegaCdGraphics, int)> {
    if p < 0 || p + GRAPHICS_STATE_SIZE > s.len() {
        None
    } else {
        let g = SegaCdGraphics {
            active: s[p] != 0,
            line_credit: le64_at(s, p + 1) as i64,
            cycles_per_line: if le64_at(s, p + 9) >= 1 { le64_at(s, p + 9) } else { 1 },
            dot_mask: le32_at(s, p + 17),
            stamp_shift: s[p + 21],
            map_shift: s[p + 22],
            map_base: (le32_at(s, p + 23) % WORD_RAM_SIZE as u32) as usize,
            trace_offset: (le32_at(s, p + 27) % WORD_RAM_SIZE as u32) as usize,
            buffer_start: le32_at(s, p + 31),
            buffer_offset: le32_at(s, p + 35),
        };
        if g.active && !g.geometry_ok() {
            None
        } else {
            Some((g, p + GRAPHICS_STATE_SIZE))
        }
    }
}

impl SegaCdGraphics {
    /// Appends the ASIC's save state to `out`.
    pub fn save(&self, out: &mut Vec<u8>)
        requires
            self.map_base < WORD_RAM_SIZE,
            self.trace_offset < WORD_RAM_SIZE,
        ensures
            final(out)@ == old(out)@ + graphics_state_bytes(*self),
    {
        out.push(if self.active { 1u8 } else { 0u8 });
        push_le64(out, self.line_credit as u64);
        push_le64(out, self.cycles_per_line);
        push_le32(out, self.dot_mask);
        out.push(self.stamp_shift);
        out.push(self.map_shift);
        push_le32(out, self.map_base as u32);
        push_le32(out, self.trace_offset as u32);
        push_le32(out, self.buffer_start);
        push_le32(out, self.buffer_offset);
        assert(out@ =~= old(out)@ + graphics_state_bytes(*self));
    }

    /// Restores the ASIC from the save state at `*pos` of `input` and
    /// leaves `*pos` just past it; a truncated state, or one whose running
    /// operation has a geometry the ASIC does not support, is refused and
    /// changes nothing.
    pub fn load(&mut self, input: &[u8], pos: &mut usize) -> (r: Result<(), String>)
        ensures
            r is Ok <==> graphics_state_decode(input@, *old(pos) as int) is Some,
            r is Ok ==> graphics_state_decode(input@, *old(pos) as int) == Some((*final(self), *final(pos) as int)),
            r is Err ==> *final(self) == *old(self) && *final(pos) == *old(pos),
    {
        let p = *pos;
        let n = input.len();
        if p > n || n - p < GRAPHICS_STATE_SIZE {
            return Err("Sega CD graphics-ASIC state is truncated".to_string());
        }
        let cycles = read_le64(input, p + 9).unwrap();
        let g = SegaCdGraphics {
            active: input[p] != 0,
            line_credit: read_le64(input, p + 1).unwrap() as i64,
            cycles_per_line: if cycles >= 1 { cycles } else { 1 },
            dot_mask: read_le32(input, p + 17).unwrap(),
            stamp_shift: input[p + 21],
            map_shift: input[p + 22],
            map_base: (read_le32(input, p + 23).unwrap() % WORD_RAM_SIZE as u32) as usize,
            trace_offset: (read_le32(input, p + 27).unwrap() % WORD_RAM_SIZE as u32) as usize,
            buffer_start: read_le32(input, p + 31).unwrap(),
            buffer_offset: read_le32(input, p + 35).unwrap(),
        };
        let geometry = (g.dot_mask == 0x07ffff || g.dot_mask == 0x7fffff) && (g.stamp_shift == 15 || g.stamp_shift
            == 16) && (g.map_shift == 3 || g.map_shift == 4 || g.map_shift == 7 || g.map_shift == 8);
        if g.active && !geometry {
            return Err("Sega CD state has invalid graphics-ASIC geometry".to_string());
        }
        *self = g;
        *pos = p + GRAPHICS_STATE_SIZE;
        Ok(())
    }
}

/// A save state read back where it was written, whatever comes before or
/// after it, gives the ASIC that was saved, for an ASIC whose cycle count
/// per line is at least one, whose addresses lie in word RAM and whose
/// running operation has a supported geometry.
pub proof fn graphics_state_reads_back(g: SegaCdGraphics, s: Seq<u8>, p: int)
    requires
        g.cycles_per_line >= 1,
        g.map_base < WORD_RAM_SIZE,
        g.trace_offset < WORD_RAM_SIZE,
        g.active ==> g.geometry_ok(),
        0 <= p,
        p + graphics_state_bytes(g).len() <= s.len(),
        s.subrange(p, p + graphics_state_bytes(g).len()) == graphics_state_bytes(g),
    ensures
        graphics_state_bytes(g).len() == GRAPHICS_STATE_SIZE,
        graphics_state_decode(s, p) == Some((g, p + GRAPHICS_STATE_SIZE)),
{
    let a = seq![if g.active { 1u8 } else { 0u8 }];
    let e1 = a + le64_bytes(g.line_credit as u64);
    let e2 = e1 + le64_bytes(g.cycles_per_line);
    let e3 = e2 + le32_bytes(g.dot_mask);
    let sh = seq![g.stamp_shift, g.map_shift];
    let e4 = e3 + sh;
    let e5 = e4 + le32_bytes(g.map_base as u32);
    let e6 = e5 + le32_bytes(g.trace_offset as u32);
    let e7 = e6 + le32_bytes(g.buffer_start);
    lemma_split(s, p, e7, le32_bytes(g.buffer_offset));
    lemma_split(s, p, e6, le32_bytes(g.buffer_start));
    lemma_split(s, p, e5, le32_bytes(g.trace_offset as u32));
    lemma_split(s, p, e4, le32_bytes(g.map_base as u32));
    lemma_split(s, p, e3, sh);
    lemma_split(s, p, e2, le32_bytes(g.dot_mask));
    lemma_split(s, p, e1, le64_bytes(g.cycles_per_line));
    lemma_split(s, p, a, le64_bytes(g.line_credit as u64));
    lemma_byte_in(s, p, a, 0);
    lemma_le64_in(s, p + 1, le64_bytes(g.line_credit as u64), 0, g.line_credit as u64);
    lemma_le64_in(s, p + 9, le64_bytes(g.cycles_per_line), 0, g.cycles_per_line);
    lemma_le32_in(s, p + 17, le32_bytes(g.dot_mask), 0, g.dot_mask);
    lemma_byte_in(s, p + 21, sh, 0);
    lemma_byte_in(s, p + 21, sh, 1);
    lemma_le32_in(s, p + 23, le32_bytes(g.map_base as u32), 0, g.map_base as u32);
    lemma_le32_in(s, p + 27, le32_bytes(g.trace_offset as u32), 0, g.trace_offset as u32);
    lemma_le32_in(s, p + 31, le32_bytes(g.buffer_start), 0, g.buffer_start);
    lemma_le32_in(s, p + 35, le32_bytes(g.buffer_offset), 0, g.buffer_offset);
    let c = g.line_credit;
    assert((c as u64) as i64 == c) by (bit_vector);
}

} // verus!
