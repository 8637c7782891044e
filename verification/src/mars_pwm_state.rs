//! The 32X PWM unit's save state: its registers, phases, last widths and
//! FIFOs in a byte layout of its own, written by `save` and checked and
//! read back by `load`.
use vstd::prelude::*;
use vstd::arithmetic::div_mod::lemma_small_mod;
use std::collections::VecDeque;
use crate::mars_pwm::{MarsPwm, PwmState, PWM_FIFO_DEPTH, SH2_HZ};
use crate::state_bytes::{
    le16_bytes, le64_bytes, le16_at, le64_at, push_le16, push_le64, read_le16, read_le64, lemma_le16_in,
    lemma_le64_in, lemma_byte_in, lemma_split,
};

verus! {

/// A FIFO's first `n` values, little-endian.
pub open spec fn fifo_bytes(q: Seq<u16>, n: nat) -> Seq<u8>
    decreases n,
{
    if n == 0 {
        Seq::empty()
    } else {
        fifo_bytes(q, (n - 1) as nat) + le16_bytes(q[n - 1])
    }
}

/// The save state's bytes for unit state `st`.
pub open spec fn pwm_state_bytes(st: PwmState) -> Seq<u8> {
    le16_bytes(st.control) + le16_bytes(st.cycle) + le64_bytes(st.chip_phase) + seq![st.timer_count] + le64_bytes(
        st.sample_phase,
    ) + le16_bytes(st.last.0) + le16_bytes(st.last.1) + seq![st.left.len() as u8] + fifo_bytes(st.left, st.left.len())
        + seq![st.right.len() as u8] + fifo_bytes(st.right, st.right.len())
}

/// `n` FIFO values at `p`, each kept to its twelve bits.
pub open spec fn dec_fifo(s: Seq<u8>, p: int, n: nat) -> Option<(Seq<u16>, int)>
    decreases n,
{
    if n == 0 {
        Some((Seq::empty(), p))
    } else {
        match dec_fifo(s, p, (n - 1) as nat) {
            None => None,
            Some((xs, q)) => if q < 0 || q + 2 > s.len() {
                None
            } else {
                Some((xs.push(le16_at(s, q) % 0x1000), q + 2))
            },
        }
    }
}

/// The period, in cycles, a cycle register value gives.
pub open spec fn cycle_period(cycle: u16) -> u64 {
    let raw = cycle % 0x1000;
    if raw == 0 {
        4095
    } else {
        (raw - 1) as u64
    }
}

/// The state at `p` of `s` and where it ends, when each FIFO holds at most
/// three values and `s` holds the whole state. The cycle register and the
/// FIFO values keep twelve bits, the timer count four, and the phases
/// read modulo the period (at least one) and the CPU clock; no output
/// is pending after a load.
pub open spec fn pwm_state_decode(s: Seq<u8>, p: int) -> Option<(PwmState, int)> {
    if p < 0 || p + 26 > s.len() || s[p + 25] > PWM_FIFO_DEPTH {
        None
    } else {
        let cycle = (le16_at(s, p + 2) % 0x1000) as u16;
        let period = cycle_period(cycle);
        match dec_fifo(s, p + 26, s[p + 25] as nat) {
            None => None,
            Some((left, q)) => if q + 1 > s.len() || s[q] > PWM_FIFO_DEPTH {
                None
            } else {
                match dec_fifo(s, q + 1, s[q] as nat) {
                    None => None,
                    Some((right, r)) => Some(
                        (
                            PwmState {
                                control: le16_at(s, p),
                                cycle,
                                left,
                                right,
                                last: (le16_at(s, p + 21), le16_at(s, p + 23)),
                                chip_phase: (le64_at(s, p + 4) % (if period > 1 { period } else { 1 })) as u64,
                                timer_count: s[p + 12] % 16,
                                sample_phase: (le64_at(s, p + 13) % SH2_HZ) as u64,
                                samples: Seq::empty(),
                            },
                            r,
                        ),
                    ),
                }
            },
        }
    }
}

proof fn lemma_dec_fifo_none_on(s: Seq<u8>, p: int, k: nat, n: nat)
    requires
        k <= n,
        dec_fifo(s, p, k) is None,
    ensures
        dec_fifo(s, p, n) is None,
    decreases n - k,
{
    if k < n {
        lemma_dec_fifo_none_on(s, p, (k + 1) as nat, n);
    }
}

fn read_fifo(s: &[u8], p: usize, n: u8) -> (r: Option<(VecDeque<u16>, usize)>)
    ensures
        r is Some <==> dec_fifo(s@, p as int, n as nat) is Some,
        r matches Some((xs, q)) ==> dec_fifo(s@, p as int, n as nat) == Some((xs@, q as int)),
{
    let len = s.len();
    let mut xs: VecDeque<u16> = VecDeque::new();
    let mut q = p;
    let mut k: u8 = 0;
    while k < n
        invariant
            k <= n,
            len == s@.len(),
            dec_fifo(s@, p as int, k as nat) == Some((xs@, q as int)),
        decreases n - k,
    {
        match read_le16(s, q) {
            Some(v) => {
                xs.push_back(v % 0x1000);
                q = q + 2;
            },
            None => {
                proof {
                    assert(dec_fifo(s@, p as int, (k + 1) as nat) is None);
                    lemma_dec_fifo_none_on(s@, p as int, (k + 1) as nat, n as nat);
                }
                return None;
            },
        }
        k = k + 1;
    }
    Some((xs, q))
}

fn push_fifo(out: &mut Vec<u8>, q: &VecDeque<u16>)
    ensures
        final(out)@ == old(out)@ + fifo_bytes(q@, q@.len()),
{
    let n = q.len();
    let mut i: usize = 0;
    while i < n
        invariant
            i <= n,
            n == q@.len(),
            out@ == old(out)@ + fifo_bytes(q@, i as nat),
        decreases n - i,
    {
        push_le16(out, q[i]);
        i = i + 1;
        assert(out@ =~= old(out)@ + fifo_bytes(q@, i as nat));
    }
}

impl MarsPwm {
    /// Appends the unit's save state to `out`.
    pub fn save(&self, out: &mut Vec<u8>)
        requires
            self.wf(),
        ensures
            final(out)@ == old(out)@ + pwm_state_bytes(self@),
    {
        push_le16(out, self.control);
        push_le16(out, self.cycle);
        push_le64(out, self.chip_phase);
        out.push(self.timer_count);
        push_le64(out, self.sample_phase);
        push_le16(out, self.channels[0].last);
        push_le16(out, self.channels[1].last);
        out.push(self.left.len() as u8);
        push_fifo(out, &self.left);
        out.push(self.right.len() as u8);
        push_fifo(out, &self.right);
        assert(out@ =~= old(out)@ + pwm_state_bytes(self@));
    }

    /// Restores the unit from the save state at `*pos` of `input` and
    /// leaves `*pos` just past it; a truncated state or a FIFO longer than
    /// three is refused and changes nothing.
    pub fn load(&mut self, input: &[u8], pos: &mut usize) -> (r: Result<(), String>)
        requires
            old(self).wf(),
        ensures
            final(self).wf(),
            r is Ok <==> pwm_state_decode(input@, *old(pos) as int) is Some,
            r is Ok ==> pwm_state_decode(input@, *old(pos) as int) == Some((final(self)@, *final(pos) as int)),
            r is Err ==> *final(self) == *old(self) && *final(pos) == *old(pos),
    {
        let p = *pos;
        let n = input.len();
        if p > n || n - p < 26 {
            return Err("32X PWM state is truncated".to_string());
        }
        let left_count = input[p + 25];
        if left_count as usize > PWM_FIFO_DEPTH {
            return Err("32X PWM state left FIFO length is invalid".to_string());
        }
        let (left, q) = match read_fifo(input, p + 26, left_count) {
            Some(x) => x,
            None => return Err("32X PWM state is truncated".to_string()),
        };
        if q >= n {
            return Err("32X PWM state is truncated".to_string());
        }
        let right_count = input[q];
        if right_count as usize > PWM_FIFO_DEPTH {
            return Err("32X PWM state right FIFO length is invalid".to_string());
        }
        let (right, r) = match read_fifo(input, q + 1, right_count) {
            Some(x) => x,
            None => return Err("32X PWM state is truncated".to_string()),
        };
        self.control = read_le16(input, p).unwrap();
        self.cycle = read_le16(input, p + 2).unwrap() % 0x1000;
        let period = self.period_cycles();
        let modulus = if period > 1 { period } else { 1 };
        self.chip_phase = read_le64(input, p + 4).unwrap() % modulus;
        self.timer_count = input[p + 12] % 16;
        self.sample_phase = read_le64(input, p + 13).unwrap() % SH2_HZ;
        self.channels[0].last = read_le16(input, p + 21).unwrap();
        self.channels[1].last = read_le16(input, p + 23).unwrap();
        proof {
            lemma_dec_fifo_len(input@, p + 26, left_count as nat);
            lemma_dec_fifo_len(input@, q + 1, right_count as nat);
        }
        self.left = left;
        self.right = right;
        self.samples = Vec::new();
        *pos = r;
        Ok(())
    }
}

proof fn lemma_dec_fifo_len(s: Seq<u8>, p: int, n: nat)
    requires
        dec_fifo(s, p, n) is Some,
    ensures
        dec_fifo(s, p, n).unwrap().0.len() == n,
    decreases n,
{
    if n > 0 {
        lemma_dec_fifo_len(s, p, (n - 1) as nat);
    }
}

proof fn lemma_read_fifo(s: Seq<u8>, p: int, xs: Seq<u16>, n: nat)
    requires
        n <= xs.len(),
        forall|i: int| 0 <= i < n ==> #[trigger] xs[i] < 0x1000,
        0 <= p,
        p + fifo_bytes(xs, n).len() <= s.len(),
        s.subrange(p, p + fifo_bytes(xs, n).len()) == fifo_bytes(xs, n),
    ensures
        dec_fifo(s, p, n) == Some((xs.subrange(0, n as int), p + fifo_bytes(xs, n).len())),
    decreases n,
{
    if n == 0 {
        assert(xs.subrange(0, 0) =~= Seq::<u16>::empty());
    } else {
        let a = fifo_bytes(xs, (n - 1) as nat);
        let b = le16_bytes(xs[n - 1]);
        lemma_split(s, p, a, b);
        lemma_read_fifo(s, p, xs, (n - 1) as nat);
        lemma_le16_in(s, p + a.len(), b, 0, xs[n - 1]);
        assert(xs.subrange(0, n - 1).push(xs[n - 1]) =~= xs.subrange(0, n as int));
    }
}

/// A save state read back where it was written, whatever comes before or
/// after it, gives the unit state that was saved with no output pending,
/// for a state whose registers and FIFO values fit their fields and whose
/// phases are below the period and the CPU clock.
pub proof fn pwm_state_reads_back(st: PwmState, s: Seq<u8>, p: int)
    requires
        st.wf(),
        st.cycle < 0x1000,
        st.timer_count < 16,
        st.chip_phase < (if cycle_period(st.cycle) > 1 { cycle_period(st.cycle) } else { 1 }),
        forall|i: int| 0 <= i < st.left.len() ==> #[trigger] st.left[i] < 0x1000,
        forall|i: int| 0 <= i < st.right.len() ==> #[trigger] st.right[i] < 0x1000,
        0 <= p,
        p + pwm_state_bytes(st).len() <= s.len(),
        s.subrange(p, p + pwm_state_bytes(st).len()) == pwm_state_bytes(st),
    ensures
        pwm_state_decode(s, p) == Some((PwmState { samples: Seq::empty(), ..st }, p + pwm_state_bytes(st).len())),
{
    let h1 = le16_bytes(st.control) + le16_bytes(st.cycle);
    let h2 = h1 + le64_bytes(st.chip_phase);
    let h3 = h2 + seq![st.timer_count];
    let h4 = h3 + le64_bytes(st.sample_phase);
    let h5 = h4 + le16_bytes(st.last.0);
    let h6 = h5 + le16_bytes(st.last.1);
    let lc = seq![st.left.len() as u8];
    let h7 = h6 + lc;
    let lf = fifo_bytes(st.left, st.left.len());
    let h8 = h7 + lf;
    let rc = seq![st.right.len() as u8];
    let h9 = h8 + rc;
    let rf = fifo_bytes(st.right, st.right.len());
    lemma_split(s, p, h9, rf);
    lemma_split(s, p, h8, rc);
    lemma_split(s, p, h7, lf);
    lemma_split(s, p, h6, lc);
    lemma_split(s, p, h5, le16_bytes(st.last.1));
    lemma_split(s, p, h4, le16_bytes(st.last.0));
    lemma_split(s, p, h3, le64_bytes(st.sample_phase));
    lemma_split(s, p, h2, seq![st.timer_count]);
    lemma_split(s, p, h1, le64_bytes(st.chip_phase));
    lemma_le16_in(s, p, h1, 0, st.control);
    lemma_le16_in(s, p, h1, 2, st.cycle);
    lemma_le64_in(s, p + 4, le64_bytes(st.chip_phase), 0, st.chip_phase);
    lemma_byte_in(s, p + 12, seq![st.timer_count], 0);
    lemma_le64_in(s, p + 13, le64_bytes(st.sample_phase), 0, st.sample_phase);
    lemma_le16_in(s, p + 21, le16_bytes(st.last.0), 0, st.last.0);
    lemma_le16_in(s, p + 23, le16_bytes(st.last.1), 0, st.last.1);
    lemma_byte_in(s, p + 25, lc, 0);
    lemma_read_fifo(s, p + 26, st.left, st.left.len());
    assert(st.left.subrange(0, st.left.len() as int) =~= st.left);
    lemma_byte_in(s, p + h8.len(), rc, 0);
    lemma_read_fifo(s, p + h9.len(), st.right, st.right.len());
    assert(st.right.subrange(0, st.right.len() as int) =~= st.right);
    let m: u64 = if cycle_period(st.cycle) > 1 { cycle_period(st.cycle) } else { 1 };
    assert(le16_at(s, p + 2) % 0x1000 == st.cycle);
    lemma_small_mod(st.chip_phase as nat, m as nat);
    lemma_small_mod(st.sample_phase as nat, SH2_HZ as nat);
}

} // verus!
