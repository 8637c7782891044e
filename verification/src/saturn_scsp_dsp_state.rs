//! The SCSP effect DSP's save state: its coefficient, address, program and
//! work memories as little-endian words, then its counters, written by
//! `save` and read back by `load`.
use vstd::prelude::*;
use crate::saturn_scsp_dsp::{SaturnScspDsp, DspModel};
use crate::state_bytes::{
    le16_bytes, le32_bytes, le16_at, le32_at, push_le16, push_le32, read_le16, read_le32, lemma_le16_in,
    lemma_le32_in, lemma_byte_in, lemma_split,
};

verus! {

/// Bytes of a DSP save state.
pub const DSP_STATE_SIZE: usize = 1971;

pub open spec fn w16_bytes(ws: Seq<u16>, n: nat) -> Seq<u8>
    decreases n,
{
    if n == 0 {
        Seq::empty()
    } else {
        w16_bytes(ws, (n - 1) as nat) + le16_bytes(ws[n - 1])
    }
}

pub open spec fn w32_bytes(ws: Seq<u32>, n: nat) -> Seq<u8>
    decreases n,
{
    if n == 0 {
        Seq::empty()
    } else {
        w32_bytes(ws, (n - 1) as nat) + le32_bytes(ws[n - 1])
    }
}

pub open spec fn as_u16s(v: Seq<i16>) -> Seq<u16> {
    Seq::new(v.len(), |i: int| v[i] as u16)
}

pub open spec fn as_u32s(v: Seq<i32>) -> Seq<u32> {
    Seq::new(v.len(), |i: int| v[i] as u32)
}

/// The save state's bytes for DSP state `m`.
pub open spec fn dsp_state_bytes(m: DspModel) -> Seq<u8> {
    w16_bytes(as_u16s(m.coef), 64) + w16_bytes(m.madrs, 32) + w16_bytes(m.mpro, 512) + w32_bytes(as_u32s(m.temp), 128)
        + w32_bytes(as_u32s(m.mems), 32) + w32_bytes(as_u32s(m.mixs), 16) + w16_bytes(as_u16s(m.exts), 2) + w16_bytes(
        as_u16s(m.efreg),
        16,
    ) + le32_bytes(m.dec) + le32_bytes(m.rbp) + le32_bytes(m.rbl as u32) + seq![if m.stopped { 1u8 } else { 0u8 }]
        + le16_bytes(m.last_step as u16)
}

pub open spec fn ring_length(v: u32) -> usize {
    if v < 0x2000 {
        0x2000
    } else if v > 0x1_0000 {
        0x1_0000
    } else {
        v as usize
    }
}

/// The state at `p` of `s` and where it ends, when `s` holds all of it.
/// The ring-buffer pointer keeps six bits, the ring length is held between
/// 8K and 64K words, and the last step is at most 128.
pub open spec fn dsp_state_decode(s: Seq<u8>, p: int) -> Option<(DspModel, int)> {
    if p < 0 || p + DSP_STATE_SIZE > s.len() {
        None
    } else {
        Some(
            (
                DspModel {
                    coef: Seq::new(64, |i: int| le16_at(s, p + 2 * i) as i16),
                    madrs: Seq::new(32, |i: int| le16_at(s, p + 128 + 2 * i)),
                    mpro: Seq::new(512, |i: int| le16_at(s, p + 192 + 2 * i)),
                    temp: Seq::new(128, |i: int| le32_at(s, p + 1216 + 4 * i) as i32),
                    mems: Seq::new(32, |i: int| le32_at(s, p + 1728 + 4 * i) as i32),
                    mixs: Seq::new(16, |i: int| le32_at(s, p + 1856 + 4 * i) as i32),
                    exts: Seq::new(2, |i: int| le16_at(s, p + 1920 + 2 * i) as i16),
                    efreg: Seq::new(16, |i: int| le16_at(s, p + 1924 + 2 * i) as i16),
                    dec: le32_at(s, p + 1956),
                    rbp: le32_at(s, p + 1960) % 64,
                    rbl: ring_length(le32_at(s, p + 1964)),
                    stopped: s[p + 1968] != 0,
                    last_step: (if le16_at(s, p + 1969) < 128 { le16_at(s, p + 1969) } else { 128 }) as usize,
                },
                p + DSP_STATE_SIZE,
            ),
        )
    }
}

fn push_i16s<const N: usize>(out: &mut Vec<u8>, ws: &[i16; N])
    ensures
        final(out)@ == old(out)@ + w16_bytes(as_u16s(ws@), N as nat),
{
    let mut i: usize = 0;
    while i < N
        invariant
            i <= N,
            ws@.len() == N,
            out@ == old(out)@ + w16_bytes(as_u16s(ws@), i as nat),
        decreases N - i,
    {
        push_le16(out, ws[i] as u16);
        i = i + 1;
        assert(out@ =~= old(out)@ + w16_bytes(as_u16s(ws@), i as nat));
    }
}

fn push_u16s<const N: usize>(out: &mut Vec<u8>, ws: &[u16; N])
    ensures
        final(out)@ == old(out)@ + w16_bytes(ws@, N as nat),
{
    let mut i: usize = 0;
    while i < N
        invariant
            i <= N,
            ws@.len() == N,
            out@ == old(out)@ + w16_bytes(ws@, i as nat),
        decreases N - i,
    {
        push_le16(out, ws[i]);
        i = i + 1;
        assert(out@ =~= old(out)@ + w16_bytes(ws@, i as nat));
    }
}

fn push_i32s<const N: usize>(out: &mut Vec<u8>, ws: &[i32; N])
    ensures
        final(out)@ == old(out)@ + w32_bytes(as_u32s(ws@), N as nat),
{
    let mut i: usize = 0;
    while i < N
        invariant
            i <= N,
            ws@.len() == N,
            out@ == old(out)@ + w32_bytes(as_u32s(ws@), i as nat),
        decreases N - i,
    {
        push_le32(out, ws[i] as u32);
        i = i + 1;
        assert(out@ =~= old(out)@ + w32_bytes(as_u32s(ws@), i as nat));
    }
}

fn fill_i16s<const N: usize>(s: &[u8], p: usize, dst: &mut [i16; N])
    requires
        p + 2 * N <= s@.len(),
    ensures
        forall|i: int| 0 <= i < N ==> #[trigger] final(dst)@[i] == le16_at(s@, p + 2 * i) as i16,
{
    let n = s.len();
    let mut i: usize = 0;
    while i < N
        invariant
            i <= N,
            n == s@.len(),
            p + 2 * N <= n,
            forall|j: int| 0 <= j < i ==> #[trigger] dst@[j] == le16_at(s@, p + 2 * j) as i16,
        decreases N - i,
    {
        dst[i] = read_le16(s, p + 2 * i).unwrap() as i16;
        i = i + 1;
    }
}

fn fill_u16s<const N: usize>(s: &[u8], p: usize, dst: &mut [u16; N])
    requires
        p + 2 * N <= s@.len(),
    ensures
        forall|i: int| 0 <= i < N ==> #[trigger] final(dst)@[i] == le16_at(s@, p + 2 * i),
{
    let n = s.len();
    let mut i: usize = 0;
    while i < N
        invariant
            i <= N,
            n == s@.len(),
            p + 2 * N <= n,
            forall|j: int| 0 <= j < i ==> #[trigger] dst@[j] == le16_at(s@, p + 2 * j),
        decreases N - i,
    {
        dst[i] = read_le16(s, p + 2 * i).unwrap();
        i = i + 1;
    }
}

fn fill_i32s<const N: usize>(s: &[u8], p: usize, dst: &mut [i32; N])
    requires
        p + 4 * N <= s@.len(),
    ensures
        forall|i: int| 0 <= i < N ==> #[trigger] final(dst)@[i] == le32_at(s@, p + 4 * i) as i32,
{
    let n = s.len();
    let mut i: usize = 0;
    while i < N
        invariant
            i <= N,
            n == s@.len(),
            p + 4 * N <= n,
            forall|j: int| 0 <= j < i ==> #[trigger] dst@[j] == le32_at(s@, p + 4 * j) as i32,
        decreases N - i,
    {
        dst[i] = read_le32(s, p + 4 * i).unwrap() as i32;
        i = i + 1;
    }
}

impl SaturnScspDsp {
    /// Appends the DSP's save state to `out`.
    pub fn save(&self, out: &mut Vec<u8>)
        ensures
            final(out)@ == old(out)@ + dsp_state_bytes(self@),
    {
        push_i16s(out, &self.coef);
        push_u16s(out, &self.madrs);
        push_u16s(out, &self.mpro);
        push_i32s(out, &self.temp);
        push_i32s(out, &self.mems);
        push_i32s(out, &self.mixs);
        push_i16s(out, &self.exts);
        push_i16s(out, &self.efreg);
        push_le32(out, self.dec);
        push_le32(out, self.rbp);
        push_le32(out, self.rbl as u32);
        out.push(if self.stopped { 1u8 } else { 0u8 });
        push_le16(out, self.last_step as u16);
        assert(out@ =~= old(out)@ + dsp_state_bytes(self@));
    }

    /// Restores the DSP from the save state at `*pos` of `input` and leaves
    /// `*pos` just past it; a truncated state changes nothing.
    pub fn load(&mut self, input: &[u8], pos: &mut usize) -> (r: Result<(), String>)
        ensures
            r is Ok <==> dsp_state_decode(input@, *old(pos) as int) is Some,
            r is Ok ==> dsp_state_decode(input@, *old(pos) as int) == Some((final(self)@, *final(pos) as int)),
            r is Err ==> *final(self) == *old(self) && *final(pos) == *old(pos),
    {
        let p = *pos;
        let n = input.len();
        if p > n || n - p < DSP_STATE_SIZE {
            return Err("Saturn SCSP DSP state is truncated".to_string());
        }
        fill_i16s(input, p, &mut self.coef);
        fill_u16s(input, p + 128, &mut self.madrs);
        fill_u16s(input, p + 192, &mut self.mpro);
        fill_i32s(input, p + 1216, &mut self.temp);
        fill_i32s(input, p + 1728, &mut self.mems);
        fill_i32s(input, p + 1856, &mut self.mixs);
        fill_i16s(input, p + 1920, &mut self.exts);
        fill_i16s(input, p + 1924, &mut self.efreg);
        self.dec = read_le32(input, p + 1956).unwrap();
        self.rbp = read_le32(input, p + 1960).unwrap() % 64;
        let rbl = read_le32(input, p + 1964).unwrap();
        self.rbl = if rbl < 0x2000 { 0x2000 } else if rbl > 0x1_0000 { 0x1_0000 } else { rbl as usize };
        self.stopped = input[p + 1968] != 0;
        let last = read_le16(input, p + 1969).unwrap();
        self.last_step = if last < 128 { last as usize } else { 128 };
        *pos = p + DSP_STATE_SIZE;
        proof {
            let d = dsp_state_decode(input@, p as int).unwrap().0;
            assert(self@.coef =~= d.coef);
            assert(self@.madrs =~= d.madrs);
            assert(self@.mpro =~= d.mpro);
            assert(self@.temp =~= d.temp);
            assert(self@.mems =~= d.mems);
            assert(self@.mixs =~= d.mixs);
            assert(self@.exts =~= d.exts);
            assert(self@.efreg =~= d.efreg);
        }
        Ok(())
    }
}

proof fn lemma_w16(s: Seq<u8>, p: int, ws: Seq<u16>, n: nat)
    requires
        n <= ws.len(),
        0 <= p,
        p + 2 * n <= s.len(),
        s.subrange(p, p + 2 * n) == w16_bytes(ws, n),
    ensures
        w16_bytes(ws, n).len() == 2 * n,
        forall|i: int| 0 <= i < n ==> le16_at(s, p + 2 * i) == #[trigger] ws[i],
    decreases n,
{
    lemma_w16_len(ws, n);
    if n > 0 {
        let a = w16_bytes(ws, (n - 1) as nat);
        let b = le16_bytes(ws[n - 1]);
        lemma_w16_len(ws, (n - 1) as nat);
        lemma_split(s, p, a, b);
        lemma_w16(s, p, ws, (n - 1) as nat);
        lemma_le16_in(s, p + a.len(), b, 0, ws[n - 1]);
    }
}

proof fn lemma_w16_len(ws: Seq<u16>, n: nat)
    ensures
        w16_bytes(ws, n).len() == 2 * n,
    decreases n,
{
    if n > 0 {
        lemma_w16_len(ws, (n - 1) as nat);
    }
}

proof fn lemma_w32(s: Seq<u8>, p: int, ws: Seq<u32>, n: nat)
    requires
        n <= ws.len(),
        0 <= p,
        p + 4 * n <= s.len(),
        s.subrange(p, p + 4 * n) == w32_bytes(ws, n),
    ensures
        w32_bytes(ws, n).len() == 4 * n,
        forall|i: int| 0 <= i < n ==> le32_at(s, p + 4 * i) == #[trigger] ws[i],
    decreases n,
{
    lemma_w32_len(ws, n);
    if n > 0 {
        let a = w32_bytes(ws, (n - 1) as nat);
        let b = le32_bytes(ws[n - 1]);
        lemma_w32_len(ws, (n - 1) as nat);
        lemma_split(s, p, a, b);
        lemma_w32(s, p, ws, (n - 1) as nat);
        lemma_le32_in(s, p + a.len(), b, 0, ws[n - 1]);
    }
}

proof fn lemma_w32_len(ws: Seq<u32>, n: nat)
    ensures
        w32_bytes(ws, n).len() == 4 * n,
    decreases n,
{
    if n > 0 {
        lemma_w32_len(ws, (n - 1) as nat);
    }
}

proof fn lemma_i16_round(v: i16)
    ensures
        (v as u16) as i16 == v,
{
    assert((v as u16) as i16 == v) by (bit_vector);
}

proof fn lemma_i32_round(v: i32)
    ensures
        (v as u32) as i32 == v,
{
    assert((v as u32) as i32 == v) by (bit_vector);
}

/// A save state read back where it was written, whatever comes before or
/// after it, gives the DSP state that was saved, for a state whose ring
/// pointer, ring length and last step are in the ranges a load keeps.
pub proof fn dsp_state_reads_back(m: DspModel, s: Seq<u8>, p: int)
    requires
        m.coef.len() == 64,
        m.madrs.len() == 32,
        m.mpro.len() == 512,
        m.temp.len() == 128,
        m.mems.len() == 32,
        m.mixs.len() == 16,
        m.exts.len() == 2,
        m.efreg.len() == 16,
        m.rbp < 64,
        0x2000 <= m.rbl <= 0x1_0000,
        m.last_step <= 128,
        0 <= p,
        p + dsp_state_bytes(m).len() <= s.len(),
        s.subrange(p, p + dsp_state_bytes(m).len()) == dsp_state_bytes(m),
    ensures
        dsp_state_bytes(m).len() == DSP_STATE_SIZE,
        dsp_state_decode(s, p) == Some((m, p + DSP_STATE_SIZE)),
{
    let e0 = w16_bytes(as_u16s(m.coef), 64);
    let e1 = e0 + w16_bytes(m.madrs, 32);
    let e2 = e1 + w16_bytes(m.mpro, 512);
    let e3 = e2 + w32_bytes(as_u32s(m.temp), 128);
    let e4 = e3 + w32_bytes(as_u32s(m.mems), 32);
    let e5 = e4 + w32_bytes(as_u32s(m.mixs), 16);
    let e6 = e5 + w16_bytes(as_u16s(m.exts), 2);
    let e7 = e6 + w16_bytes(as_u16s(m.efreg), 16);
    let e8 = e7 + le32_bytes(m.dec);
    let e9 = e8 + le32_bytes(m.rbp);
    let e10 = e9 + le32_bytes(m.rbl as u32);
    let flag = seq![if m.stopped { 1u8 } else { 0u8 }];
    let e11 = e10 + flag;
    lemma_w16_len(as_u16s(m.coef), 64);
    lemma_w16_len(m.madrs, 32);
    lemma_w16_len(m.mpro, 512);
    lemma_w32_len(as_u32s(m.temp), 128);
    lemma_w32_len(as_u32s(m.mems), 32);
    lemma_w32_len(as_u32s(m.mixs), 16);
    lemma_w16_len(as_u16s(m.exts), 2);
    lemma_w16_len(as_u16s(m.efreg), 16);
    lemma_split(s, p, e11, le16_bytes(m.last_step as u16));
    lemma_split(s, p, e10, flag);
    lemma_split(s, p, e9, le32_bytes(m.rbl as u32));
    lemma_split(s, p, e8, le32_bytes(m.rbp));
    lemma_split(s, p, e7, le32_bytes(m.dec));
    lemma_split(s, p, e6, w16_bytes(as_u16s(m.efreg), 16));
    lemma_split(s, p, e5, w16_bytes(as_u16s(m.exts), 2));
    lemma_split(s, p, e4, w32_bytes(as_u32s(m.mixs), 16));
    lemma_split(s, p, e3, w32_bytes(as_u32s(m.mems), 32));
    lemma_split(s, p, e2, w32_bytes(as_u32s(m.temp), 128));
    lemma_split(s, p, e1, w16_bytes(m.mpro, 512));
    lemma_split(s, p, e0, w16_bytes(m.madrs, 32));
    lemma_w16(s, p, as_u16s(m.coef), 64);
    lemma_w16(s, p + 128, m.madrs, 32);
    lemma_w16(s, p + 192, m.mpro, 512);
    lemma_w32(s, p + 1216, as_u32s(m.temp), 128);
    lemma_w32(s, p + 1728, as_u32s(m.mems), 32);
    lemma_w32(s, p + 1856, as_u32s(m.mixs), 16);
    lemma_w16(s, p + 1920, as_u16s(m.exts), 2);
    lemma_w16(s, p + 1924, as_u16s(m.efreg), 16);
    lemma_le32_in(s, p + 1956, le32_bytes(m.dec), 0, m.dec);
    lemma_le32_in(s, p + 1960, le32_bytes(m.rbp), 0, m.rbp);
    lemma_le32_in(s, p + 1964, le32_bytes(m.rbl as u32), 0, m.rbl as u32);
    lemma_byte_in(s, p + 1968, flag, 0);
    lemma_le16_in(s, p + 1969, le16_bytes(m.last_step as u16), 0, m.last_step as u16);
    let d = dsp_state_decode(s, p).unwrap().0;
    assert forall|i: int| 0 <= i < 64 implies d.coef[i] == m.coef[i] by {
        lemma_i16_round(m.coef[i]);
        assert(as_u16s(m.coef)[i] == m.coef[i] as u16);
    }
    assert forall|i: int| 0 <= i < 2 implies d.exts[i] == m.exts[i] by {
        lemma_i16_round(m.exts[i]);
        assert(as_u16s(m.exts)[i] == m.exts[i] as u16);
    }
    assert forall|i: int| 0 <= i < 16 implies d.efreg[i] == m.efreg[i] by {
        lemma_i16_round(m.efreg[i]);
        assert(as_u16s(m.efreg)[i] == m.efreg[i] as u16);
    }
    assert forall|i: int| 0 <= i < 128 implies d.temp[i] == m.temp[i] by {
        lemma_i32_round(m.temp[i]);
        assert(as_u32s(m.temp)[i] == m.temp[i] as u32);
    }
    assert forall|i: int| 0 <= i < 32 implies d.mems[i] == m.mems[i] by {
        lemma_i32_round(m.mems[i]);
        assert(as_u32s(m.mems)[i] == m.mems[i] as u32);
    }
    assert forall|i: int| 0 <= i < 16 implies d.mixs[i] == m.mixs[i] by {
        lemma_i32_round(m.mixs[i]);
        assert(as_u32s(m.mixs)[i] == m.mixs[i] as u32);
    }
    assert(d.coef =~= m.coef);
    assert(d.madrs =~= m.madrs);
    assert(d.mpro =~= m.mpro);
    assert(d.temp =~= m.temp);
    assert(d.mems =~= m.mems);
    assert(d.mixs =~= m.mixs);
    assert(d.exts =~= m.exts);
    assert(d.efreg =~= m.efreg);
}

} // verus!
