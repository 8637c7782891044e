//! The SMPC's save state: its register file, flags and pad words in a
//! byte layout of its own, written by `save` and checked and read back by
//! `load`.
use vstd::prelude::*;
use crate::saturn_smpc::{SaturnSmpc, SMPC_REGS_SIZE};
use crate::state_bytes::{
    le16_bytes, le32_bytes, le16_at, le32_at, push_le16, push_le32, push_bytes, read_le16, read_le32,
    lemma_le16_in, lemma_le32_in, lemma_byte_in, lemma_split,
};

verus! {

/// What the SMPC's save state holds.
pub struct SmpcStore {
    pub regs: Seq<u8>,
    pub slave_on: bool,
    pub sound_on: bool,
    pub interrupt_pending: bool,
    pub pad: [u16; 2],
}

pub open spec fn flag_byte(b: bool) -> u8 {
    if b { 1 } else { 0 }
}

/// The save state's bytes: the register file as a length-prefixed run,
/// the three flags as bytes, then the two pad words, little-endian.
pub open spec fn smpc_state_bytes(st: SmpcStore) -> Seq<u8> {
    le32_bytes(st.regs.len() as u32) + st.regs + seq![
        flag_byte(st.slave_on),
        flag_byte(st.sound_on),
        flag_byte(st.interrupt_pending),
    ] + le16_bytes(st.pad[0]) + le16_bytes(st.pad[1])
}

/// The state at `p` of `s` and where it ends, when the register run has
/// the register file's size and the stream holds the whole state.
pub open spec fn smpc_state_decode(s: Seq<u8>, p: int) -> Option<(SmpcStore, int)> {
    let q = p + 4 + SMPC_REGS_SIZE;
    if p < 0 || p + 4 > s.len() || le32_at(s, p) != SMPC_REGS_SIZE || q + 7 > s.len() {
        None
    } else {
        Some(
            (
                SmpcStore {
                    regs: s.subrange(p + 4, q),
                    slave_on: s[q] != 0,
                    sound_on: s[q + 1] != 0,
                    interrupt_pending: s[q + 2] != 0,
                    pad: [le16_at(s, q + 3), le16_at(s, q + 5)],
                },
                q + 7,
            ),
        )
    }
}

impl SaturnSmpc {
    pub open spec fn stored(&self) -> SmpcStore {
        SmpcStore {
            regs: self.regs@,
            slave_on: self.slave_on,
            sound_on: self.sound_on,
            interrupt_pending: self.interrupt_pending,
            pad: self.pad,
        }
    }

    /// Appends the SMPC's save state to `out`.
    pub fn save(&self, out: &mut Vec<u8>)
        requires
            self.wf(),
        ensures
            final(out)@ == old(out)@ + smpc_state_bytes(self.stored()),
    {
        push_le32(out, self.regs.len() as u32);
        push_bytes(out, self.regs.as_slice());
        let ghost mid = out@;
        out.push(if self.slave_on { 1u8 } else { 0u8 });
        out.push(if self.sound_on { 1u8 } else { 0u8 });
        out.push(if self.interrupt_pending { 1u8 } else { 0u8 });
        push_le16(out, self.pad[0]);
        push_le16(out, self.pad[1]);
        assert(out@ =~= old(out)@ + smpc_state_bytes(self.stored()));
    }

    /// Restores the SMPC from the save state at `*pos` of `input` and leaves
    /// `*pos` just past it; a truncated state or a register run of another
    /// size is refused and changes nothing.
    pub fn load(&mut self, input: &[u8], pos: &mut usize) -> (r: Result<(), String>)
        requires
            old(self).wf(),
        ensures
            final(self).wf(),
            r is Ok <==> smpc_state_decode(input@, *old(pos) as int) is Some,
            r is Ok ==> smpc_state_decode(input@, *old(pos) as int) == Some((final(self).stored(), *final(pos) as int)),
            r is Err ==> *final(self) == *old(self) && *final(pos) == *old(pos),
    {
        let p = *pos;
        let n = input.len();
        let len = match read_le32(input, p) {
            Some(v) => v,
            None => return Err("Saturn SMPC state is truncated".to_string()),
        };
        if len as usize != SMPC_REGS_SIZE {
            return Err("Saturn SMPC state size mismatch".to_string());
        }
        if n - (p + 4) < SMPC_REGS_SIZE + 7 {
            return Err("Saturn SMPC state is truncated".to_string());
        }
        let q = p + 4 + SMPC_REGS_SIZE;
        let mut regs: Vec<u8> = Vec::new();
        let mut i: usize = 0;
        while i < SMPC_REGS_SIZE
            invariant
                i <= SMPC_REGS_SIZE,
                n == input@.len(),
                q == p + 4 + SMPC_REGS_SIZE,
                q + 7 <= n,
                regs@ == input@.subrange(p + 4, p + 4 + i),
            decreases SMPC_REGS_SIZE - i,
        {
            regs.push(input[p + 4 + i]);
            i = i + 1;
            assert(regs@ =~= input@.subrange(p + 4, p + 4 + i));
        }
        self.regs = regs;
        self.slave_on = input[q] != 0;
        self.sound_on = input[q + 1] != 0;
        self.interrupt_pending = input[q + 2] != 0;
        self.pad = [read_le16(input, q + 3).unwrap(), read_le16(input, q + 5).unwrap()];
        *pos = q + 7;
        assert(self.pad =~= [le16_at(input@, q + 3), le16_at(input@, q + 5)]);
        Ok(())
    }
}

/// A save state read back where it was written, whatever comes before or
/// after it, gives the SMPC state that was saved.
pub proof fn smpc_state_reads_back(m: SaturnSmpc, s: Seq<u8>, p: int)
    requires
        m.wf(),
        0 <= p,
        p + smpc_state_bytes(m.stored()).len() <= s.len(),
        s.subrange(p, p + smpc_state_bytes(m.stored()).len()) == smpc_state_bytes(m.stored()),
    ensures
        smpc_state_decode(s, p) == Some((m.stored(), p + smpc_state_bytes(m.stored()).len())),
{
    let st = m.stored();
    let l = le32_bytes(st.regs.len() as u32);
    let flags = seq![flag_byte(st.slave_on), flag_byte(st.sound_on), flag_byte(st.interrupt_pending)];
    let a = l + st.regs;
    let b = a + flags;
    let c = b + le16_bytes(st.pad[0]);
    lemma_split(s, p, c, le16_bytes(st.pad[1]));
    lemma_split(s, p, b, le16_bytes(st.pad[0]));
    lemma_split(s, p, a, flags);
    lemma_split(s, p, l, st.regs);
    lemma_le32_in(s, p, l, 0, st.regs.len() as u32);
    let q = p + a.len();
    lemma_byte_in(s, q, flags, 0);
    lemma_byte_in(s, q, flags, 1);
    lemma_byte_in(s, q, flags, 2);
    lemma_le16_in(s, p + b.len(), le16_bytes(st.pad[0]), 0, st.pad[0]);
    lemma_le16_in(s, p + c.len(), le16_bytes(st.pad[1]), 0, st.pad[1]);
    assert(smpc_state_decode(s, p).unwrap().0.pad =~= st.pad);
}

} // verus!
