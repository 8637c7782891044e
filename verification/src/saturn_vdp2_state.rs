//! The VDP2's save state: VRAM, colour RAM and the registers as
//! length-prefixed runs, then the frame count, written by `save` and
//! checked and read back by `load`.
use vstd::prelude::*;
use crate::saturn_vdp2::{SaturnVdp2, VDP2_VRAM_SIZE, VDP2_CRAM_SIZE, VDP2_REGS_SIZE};
use crate::state_bytes::{
    blob_bytes, dec_blob, le64_bytes, le64_at, push_blob, push_le64, read_blob, read_le64, lemma_blob_in,
    lemma_le64_in, lemma_split,
};

verus! {

/// What a save state holds of the VDP2.
pub struct Vdp2Store {
    pub vram: Seq<u8>,
    pub cram: Seq<u8>,
    pub regs: Seq<u8>,
    pub frame: u64,
}

pub open spec fn vdp2_stored(v: &SaturnVdp2) -> Vdp2Store {
    Vdp2Store { vram: v.vram@, cram: v.cram@, regs: v.regs@, frame: v.frame }
}

/// The save state's bytes for stored state `st`.
pub open spec fn vdp2_state_bytes(st: Vdp2Store) -> Seq<u8> {
    blob_bytes(st.vram) + blob_bytes(st.cram) + blob_bytes(st.regs) + le64_bytes(st.frame)
}

/// The state at `p` of `s` and where it ends, when each run has its
/// memory's size and `s` holds the whole state.
pub open spec fn vdp2_state_decode(s: Seq<u8>, p: int) -> Option<(Vdp2Store, int)> {
    match dec_blob(s, p, VDP2_VRAM_SIZE as int) {
        None => None,
        Some((vram, p1)) => match dec_blob(s, p1, VDP2_CRAM_SIZE as int) {
            None => None,
            Some((cram, p2)) => match dec_blob(s, p2, VDP2_REGS_SIZE as int) {
                None => None,
                Some((regs, p3)) => if p3 + 8 > s.len() {
                    None
                } else {
                    Some((Vdp2Store { vram, cram, regs, frame: le64_at(s, p3) }, p3 + 8))
                },
            },
        },
    }
}

impl SaturnVdp2 {
    /// Appends the VDP2's save state to `out`.
    pub fn save(&self, out: &mut Vec<u8>)
        requires
            self.wf(),
        ensures
            final(out)@ == old(out)@ + vdp2_state_bytes(vdp2_stored(self)),
    {
        push_blob(out, self.vram.as_slice());
        push_blob(out, self.cram.as_slice());
        push_blob(out, self.regs.as_slice());
        push_le64(out, self.frame);
        assert(out@ =~= old(out)@ + vdp2_state_bytes(vdp2_stored(self)));
    }

    /// Restores VRAM, colour RAM, the registers and the frame count from
    /// the save state at `*pos` of `input` and leaves `*pos` just past it;
    /// a truncated state or a run of another size is refused and changes
    /// nothing. The picture being built is kept.
    pub fn load(&mut self, input: &[u8], pos: &mut usize) -> (r: Result<(), String>)
        requires
            old(self).wf(),
        ensures
            final(self).wf(),
            r is Ok <==> vdp2_state_decode(input@, *old(pos) as int) is Some,
            r is Ok ==> vdp2_state_decode(input@, *old(pos) as int) == Some((vdp2_stored(final(self)), *final(pos) as int)),
            r is Ok ==> final(self).video == old(self).video && final(self).priority == old(self).priority,
            r is Err ==> *final(self) == *old(self) && *final(pos) == *old(pos),
    {
        let (vram, p1) = match read_blob(input, *pos, VDP2_VRAM_SIZE) {
            Some(x) => x,
            None => return Err("Saturn VDP2 VRAM state size mismatch".to_string()),
        };
        let (cram, p2) = match read_blob(input, p1, VDP2_CRAM_SIZE) {
            Some(x) => x,
            None => return Err("Saturn VDP2 CRAM state size mismatch".to_string()),
        };
        let (regs, p3) = match read_blob(input, p2, VDP2_REGS_SIZE) {
            Some(x) => x,
            None => return Err("Saturn VDP2 register state size mismatch".to_string()),
        };
        let frame = match read_le64(input, p3) {
            Some(v) => v,
            None => return Err("Saturn VDP2 state is truncated".to_string()),
        };
        let n = input.len();
        assert(p3 + 8 <= n);
        self.vram = vram;
        self.cram = cram;
        self.regs = regs;
        self.frame = frame;
        *pos = p3 + 8;
        Ok(())
    }
}

/// A save state read back where it was written, whatever comes before or
/// after it, gives the VDP2 memories, registers and frame count saved.
pub proof fn vdp2_state_reads_back(v: SaturnVdp2, s: Seq<u8>, p: int)
    requires
        v.wf(),
        0 <= p,
        p + vdp2_state_bytes(vdp2_stored(&v)).len() <= s.len(),
        s.subrange(p, p + vdp2_state_bytes(vdp2_stored(&v)).len()) == vdp2_state_bytes(vdp2_stored(&v)),
    ensures
        vdp2_state_decode(s, p) == Some((vdp2_stored(&v), p + vdp2_state_bytes(vdp2_stored(&v)).len())),
{
    let st = vdp2_stored(&v);
    let a = blob_bytes(st.vram);
    let b = a + blob_bytes(st.cram);
    let c = b + blob_bytes(st.regs);
    lemma_split(s, p, c, le64_bytes(st.frame));
    lemma_split(s, p, b, blob_bytes(st.regs));
    lemma_split(s, p, a, blob_bytes(st.cram));
    lemma_blob_in(s, p, st.vram);
    lemma_blob_in(s, p + a.len(), st.cram);
    lemma_blob_in(s, p + b.len(), st.regs);
    lemma_le64_in(s, p + c.len(), le64_bytes(st.frame), 0, st.frame);
}

} // verus!
