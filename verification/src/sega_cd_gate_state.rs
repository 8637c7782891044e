//! The Sega CD register chip's save state: the register file as
//! little-endian words, the pending interrupts, the timer count and the
//! reset pulse, written by `save` and read back by `load`.
use vstd::prelude::*;
use crate::sega_cd_gate::SegaCdGate;
use crate::state_bytes::{
    le16_bytes, le64_bytes, le16_at, le64_at, push_le16, push_le64, read_le16, read_le64, lemma_le16_in,
    lemma_le64_in, lemma_byte_in, lemma_split,
};

verus! {

/// Bytes of a register chip save state.
pub const GATE_STATE_SIZE: usize = 0x200 + 10;

/// The first `n` register words, little-endian.
pub open spec fn words_bytes(regs: [u16; 0x100], n: nat) -> Seq<u8>
    decreases n,
{
    if n == 0 {
        Seq::empty()
    } else {
        words_bytes(regs, (n - 1) as nat) + le16_bytes(regs[n - 1])
    }
}

/// The save state's bytes for register chip `g`.
pub open spec fn gate_state_bytes(g: SegaCdGate) -> Seq<u8> {
    words_bytes(g.regs, 0x100) + seq![g.pending] + le64_bytes(g.timer_remaining) + seq![
        if g.sub_reset_pulse { 1u8 } else { 0u8 },
    ]
}

/// What a save state holds of the register chip.
pub struct GateStore {
    pub regs: Seq<u16>,
    pub pending: u8,
    pub timer_remaining: u64,
    pub sub_reset_pulse: bool,
}

pub open spec fn gate_stored(g: SegaCdGate) -> GateStore {
    GateStore { regs: g.regs@, pending: g.pending, timer_remaining: g.timer_remaining, sub_reset_pulse: g.sub_reset_pulse }
}

/// The state at `p` of `s` and where it ends, when `s` holds all of it.
pub open spec fn gate_state_decode(s: Seq<u8>, p: int) -> Option<(GateStore, int)> {
    if p < 0 || p + GATE_STATE_SIZE > s.len() {
        None
    } else {
        Some(
            (
                GateStore {
                    regs: Seq::new(0x100, |i: int| le16_at(s, p + 2 * i)),
                    pending: s[p + 0x200],
                    timer_remaining: le64_at(s, p + 0x201),
                    sub_reset_pulse: s[p + 0x209] != 0,
                },
                p + GATE_STATE_SIZE,
            ),
        )
    }
}

proof fn lemma_words_bytes(s: Seq<u8>, p: int, regs: [u16; 0x100], n: nat)
    requires
        n <= 0x100,
        0 <= p,
        p + 2 * n <= s.len(),
        s.subrange(p, p + 2 * n) == words_bytes(regs, n),
    ensures
        words_bytes(regs, n).len() == 2 * n,
        forall|i: int| 0 <= i < n ==> le16_at(s, p + 2 * i) == #[trigger] regs[i],
    decreases n,
{
    if n > 0 {
        let a = words_bytes(regs, (n - 1) as nat);
        let b = le16_bytes(regs[n - 1]);
        lemma_words_len(regs, (n - 1) as nat);
        lemma_split(s, p, a, b);
        lemma_words_bytes(s, p, regs, (n - 1) as nat);
        lemma_le16_in(s, p + a.len(), b, 0, regs[n - 1]);
    }
}

proof fn lemma_words_len(regs: [u16; 0x100], n: nat)
    ensures
        words_bytes(regs, n).len() == 2 * n,
    decreases n,
{
    if n > 0 {
        lemma_words_len(regs, (n - 1) as nat);
    }
}

impl SegaCdGate {
    /// Appends the register chip's save state to `out`.
    pub fn save(&self, out: &mut Vec<u8>)
        ensures
            final(out)@ == old(out)@ + gate_state_bytes(*self),
    {
        let mut i: usize = 0;
        while i < 0x100
            invariant
                i <= 0x100,
                out@ == old(out)@ + words_bytes(self.regs, i as nat),
            decreases 0x100 - i,
        {
            push_le16(out, self.regs[i]);
            i = i + 1;
            assert(out@ =~= old(out)@ + words_bytes(self.regs, i as nat));
        }
        let ghost mid = out@;
        out.push(self.pending);
        push_le64(out, self.timer_remaining);
        out.push(if self.sub_reset_pulse { 1u8 } else { 0u8 });
        assert(out@ =~= old(out)@ + gate_state_bytes(*self));
    }

    /// Restores the register chip from the save state at `*pos` of `input`
    /// and leaves `*pos` just past it; a truncated state changes nothing.
    pub fn load(&mut self, input: &[u8], pos: &mut usize) -> (r: Result<(), String>)
        ensures
            r is Ok <==> gate_state_decode(input@, *old(pos) as int) is Some,
            r is Ok ==> gate_state_decode(input@, *old(pos) as int) == Some((gate_stored(*final(self)), *final(pos) as int)),
            r is Err ==> *final(self) == *old(self) && *final(pos) == *old(pos),
    {
        let p = *pos;
        let n = input.len();
        if p > n || n - p < GATE_STATE_SIZE {
            return Err("Sega CD register chip state is truncated".to_string());
        }
        let mut regs = [0u16; 0x100];
        let mut i: usize = 0;
        while i < 0x100
            invariant
                i <= 0x100,
                n == input@.len(),
                p + GATE_STATE_SIZE <= n,
                forall|j: int| 0 <= j < i ==> regs[j] == le16_at(input@, p + 2 * j),
            decreases 0x100 - i,
        {
            regs[i] = read_le16(input, p + 2 * i).unwrap();
            i = i + 1;
        }
        self.regs = regs;
        self.pending = input[p + 0x200];
        self.timer_remaining = read_le64(input, p + 0x201).unwrap();
        self.sub_reset_pulse = input[p + 0x209] != 0;
        *pos = p + GATE_STATE_SIZE;
        assert(self.regs@ =~= Seq::new(0x100, |i: int| le16_at(input@, p + 2 * i)));
        Ok(())
    }
}

/// A save state read back where it was written, whatever comes before or
/// after it, gives the register chip state that was saved.
pub proof fn gate_state_reads_back(g: SegaCdGate, s: Seq<u8>, p: int)
    requires
        0 <= p,
        p + gate_state_bytes(g).len() <= s.len(),
        s.subrange(p, p + gate_state_bytes(g).len()) == gate_state_bytes(g),
    ensures
        gate_state_bytes(g).len() == GATE_STATE_SIZE,
        gate_state_decode(s, p) == Some((gate_stored(g), p + GATE_STATE_SIZE)),
{
    let w = words_bytes(g.regs, 0x100);
    let a = w + seq![g.pending];
    let b = a + le64_bytes(g.timer_remaining);
    let last = seq![if g.sub_reset_pulse { 1u8 } else { 0u8 }];
    lemma_words_len(g.regs, 0x100);
    lemma_split(s, p, b, last);
    lemma_split(s, p, a, le64_bytes(g.timer_remaining));
    lemma_split(s, p, w, seq![g.pending]);
    lemma_words_bytes(s, p, g.regs, 0x100);
    lemma_byte_in(s, p + 0x200, seq![g.pending], 0);
    lemma_le64_in(s, p + 0x201, le64_bytes(g.timer_remaining), 0, g.timer_remaining);
    lemma_byte_in(s, p + 0x209, last, 0);
    assert(gate_state_decode(s, p).unwrap().0.regs =~= g.regs@);
}

} // verus!
