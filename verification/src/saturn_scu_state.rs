//! The SCU's save state: its register file, interrupt status and mask,
//! pending DMA requests, H-blank phase and timers in a byte layout of its
//! own, written by `save` and checked and read back by `load`.
use vstd::prelude::*;
use crate::saturn_scu::{SaturnScu, ScuModel, SCU_REGS_SIZE, HBLANK_THRESHOLD};
use crate::state_bytes::{
    le16_bytes, le32_bytes, le64_bytes, le16_at, le32_at, le64_at, push_le16, push_le32, push_le64, push_bytes,
    read_le16, read_le32, read_le64, lemma_le16_in, lemma_le32_in, lemma_le64_in, lemma_byte_in, lemma_split,
};

verus! {

pub open spec fn bool_byte(b: bool) -> u8 {
    if b { 1 } else { 0 }
}

/// The save state's bytes for SCU state `m`: the register file as a
/// length-prefixed run, then the other fields little-endian, flags as bytes.
pub open spec fn scu_state_bytes(m: ScuModel) -> Seq<u8> {
    le32_bytes(m.regs.len() as u32) + m.regs + le32_bytes(m.irq_status) + le32_bytes(m.irq_mask) + seq![
        bool_byte(m.dma_pending[0]),
        bool_byte(m.dma_pending[1]),
        bool_byte(m.dma_pending[2]),
    ] + le64_bytes(m.hblank_phase) + le16_bytes(m.timer0_counter) + le32_bytes(m.timer1_countdown) + seq![
        bool_byte(m.timer1_armed),
    ]
}

/// The state at `p` of `s` and where it ends, when the register run has
/// the register file's size and `s` holds the whole state. The H-blank
/// phase reads modulo one H-blank and timer 0 to its nine bits.
pub open spec fn scu_state_decode(s: Seq<u8>, p: int) -> Option<(ScuModel, int)> {
    let q = p + 4 + SCU_REGS_SIZE;
    if p < 0 || p + 4 > s.len() || le32_at(s, p) != SCU_REGS_SIZE || q + 26 > s.len() {
        None
    } else {
        Some(
            (
                ScuModel {
                    regs: s.subrange(p + 4, q),
                    irq_status: le32_at(s, q),
                    irq_mask: le32_at(s, q + 4),
                    dma_pending: seq![s[q + 8] != 0, s[q + 9] != 0, s[q + 10] != 0],
                    hblank_phase: (le64_at(s, q + 11) % HBLANK_THRESHOLD) as u64,
                    timer0_counter: (le16_at(s, q + 19) % 0x200) as u16,
                    timer1_countdown: le32_at(s, q + 21),
                    timer1_armed: s[q + 25] != 0,
                },
                q + 26,
            ),
        )
    }
}

impl SaturnScu {
    /// Appends the SCU's save state to `out`.
    pub fn save(&self, out: &mut Vec<u8>)
        requires
            self.wf(),
        ensures
            final(out)@ == old(out)@ + scu_state_bytes(self@),
    {
        push_le32(out, self.regs.len() as u32);
        push_bytes(out, self.regs.as_slice());
        push_le32(out, self.irq_status);
        push_le32(out, self.irq_mask);
        out.push(if self.dma_pending[0] { 1u8 } else { 0u8 });
        out.push(if self.dma_pending[1] { 1u8 } else { 0u8 });
        out.push(if self.dma_pending[2] { 1u8 } else { 0u8 });
        push_le64(out, self.hblank_phase);
        push_le16(out, self.timer0_counter);
        push_le32(out, self.timer1_countdown);
        out.push(if self.timer1_armed { 1u8 } else { 0u8 });
        assert(out@ =~= old(out)@ + scu_state_bytes(self@));
    }

    /// Restores the SCU from the save state at `*pos` of `input` and leaves
    /// `*pos` just past it; a truncated state or a register run of another
    /// size is refused and changes nothing.
    pub fn load(&mut self, input: &[u8], pos: &mut usize) -> (r: Result<(), String>)
        requires
            old(self).wf(),
        ensures
            final(self).wf(),
            r is Ok <==> scu_state_decode(input@, *old(pos) as int) is Some,
            r is Ok ==> scu_state_decode(input@, *old(pos) as int) == Some((final(self)@, *final(pos) as int)),
            r is Err ==> *final(self) == *old(self) && *final(pos) == *old(pos),
    {
        let p = *pos;
        let n = input.len();
        let len = match read_le32(input, p) {
            Some(v) => v,
            None => return Err("Saturn SCU state is truncated".to_string()),
        };
        if len as usize != SCU_REGS_SIZE {
            return Err("Saturn SCU state size mismatch".to_string());
        }
        if n - (p + 4) < SCU_REGS_SIZE + 26 {
            return Err("Saturn SCU state is truncated".to_string());
        }
        let q = p + 4 + SCU_REGS_SIZE;
        let mut regs: Vec<u8> = Vec::new();
        let mut i: usize = 0;
        while i < SCU_REGS_SIZE
            invariant
                i <= SCU_REGS_SIZE,
                n == input@.len(),
                q == p + 4 + SCU_REGS_SIZE,
                q + 26 <= n,
                regs@ == input@.subrange(p + 4, p + 4 + i),
            decreases SCU_REGS_SIZE - i,
        {
            regs.push(input[p + 4 + i]);
            i = i + 1;
            assert(regs@ =~= input@.subrange(p + 4, p + 4 + i));
        }
        self.regs = regs;
        self.irq_status = read_le32(input, q).unwrap();
        self.irq_mask = read_le32(input, q + 4).unwrap();
        self.dma_pending = [input[q + 8] != 0, input[q + 9] != 0, input[q + 10] != 0];
        self.hblank_phase = read_le64(input, q + 11).unwrap() % HBLANK_THRESHOLD;
        self.timer0_counter = read_le16(input, q + 19).unwrap() % 0x200;
        self.timer1_countdown = read_le32(input, q + 21).unwrap();
        self.timer1_armed = input[q + 25] != 0;
        *pos = q + 26;
        assert(self.dma_pending@ =~= seq![input@[q + 8] != 0, input@[q + 9] != 0, input@[q + 10] != 0]);
        Ok(())
    }
}

/// A save state read back where it was written, whatever comes before or
/// after it, gives the SCU state that was saved, for a state whose H-blank
/// phase is below one H-blank and whose timer 0 fits its nine bits.
pub proof fn scu_state_reads_back(m: ScuModel, s: Seq<u8>, p: int)
    requires
        m.wf(),
        m.hblank_phase < HBLANK_THRESHOLD,
        m.timer0_counter < 0x200,
        0 <= p,
        p + scu_state_bytes(m).len() <= s.len(),
        s.subrange(p, p + scu_state_bytes(m).len()) == scu_state_bytes(m),
    ensures
        scu_state_decode(s, p) == Some((m, p + scu_state_bytes(m).len())),
{
    let l = le32_bytes(m.regs.len() as u32);
    let flags = seq![bool_byte(m.dma_pending[0]), bool_byte(m.dma_pending[1]), bool_byte(m.dma_pending[2])];
    let a = l + m.regs;
    let b = a + le32_bytes(m.irq_status);
    let c = b + le32_bytes(m.irq_mask);
    let d = c + flags;
    let e = d + le64_bytes(m.hblank_phase);
    let f = e + le16_bytes(m.timer0_counter);
    let g = f + le32_bytes(m.timer1_countdown);
    let last = seq![bool_byte(m.timer1_armed)];
    lemma_split(s, p, g, last);
    lemma_split(s, p, f, le32_bytes(m.timer1_countdown));
    lemma_split(s, p, e, le16_bytes(m.timer0_counter));
    lemma_split(s, p, d, le64_bytes(m.hblank_phase));
    lemma_split(s, p, c, flags);
    lemma_split(s, p, b, le32_bytes(m.irq_mask));
    lemma_split(s, p, a, le32_bytes(m.irq_status));
    lemma_split(s, p, l, m.regs);
    lemma_le32_in(s, p, l, 0, m.regs.len() as u32);
    lemma_le32_in(s, p + a.len(), le32_bytes(m.irq_status), 0, m.irq_status);
    lemma_le32_in(s, p + b.len(), le32_bytes(m.irq_mask), 0, m.irq_mask);
    lemma_byte_in(s, p + c.len(), flags, 0);
    lemma_byte_in(s, p + c.len(), flags, 1);
    lemma_byte_in(s, p + c.len(), flags, 2);
    lemma_le64_in(s, p + d.len(), le64_bytes(m.hblank_phase), 0, m.hblank_phase);
    lemma_le16_in(s, p + e.len(), le16_bytes(m.timer0_counter), 0, m.timer0_counter);
    lemma_le32_in(s, p + f.len(), le32_bytes(m.timer1_countdown), 0, m.timer1_countdown);
    lemma_byte_in(s, p + g.len(), last, 0);
    assert(scu_state_decode(s, p).unwrap().0.dma_pending =~= m.dma_pending);
}

} // verus!
