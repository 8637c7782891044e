//! Saturn SCSP effect DSP: coefficient, address and microprogram memories,
//! the sample-rate ring buffer in sound RAM, and the microprogram that mixes
//! slot sends into the effect outputs.
use vstd::prelude::*;

verus! {

/// Bytes of sound RAM.
pub const SOUND_RAM_SIZE: usize = 512 * 1024;

pub struct SaturnScspDsp {
    pub coef: [i16; 64],
    pub madrs: [u16; 32],
    pub mpro: [u16; 512],
    pub temp: [i32; 128],
    pub mems: [i32; 32],
    pub mixs: [i32; 16],
    pub exts: [i16; 2],
    pub efreg: [i16; 16],
    pub dec: u32,
    pub rbp: u32,
    pub rbl: usize,
    pub stopped: bool,
    pub last_step: usize,
}

/// The DSP's memories as sequences, with its counters and state.
pub struct DspModel {
    pub coef: Seq<i16>,
    pub madrs: Seq<u16>,
    pub mpro: Seq<u16>,
    pub temp: Seq<i32>,
    pub mems: Seq<i32>,
    pub mixs: Seq<i32>,
    pub exts: Seq<i16>,
    pub efreg: Seq<i16>,
    pub dec: u32,
    pub rbp: u32,
    pub rbl: usize,
    pub stopped: bool,
    pub last_step: usize,
}

impl View for SaturnScspDsp {
    type V = DspModel;

    open spec fn view(&self) -> DspModel {
        DspModel {
            coef: self.coef@,
            madrs: self.madrs@,
            mpro: self.mpro@,
            temp: self.temp@,
            mems: self.mems@,
            mixs: self.mixs@,
            exts: self.exts@,
            efreg: self.efreg@,
            dec: self.dec,
            rbp: self.rbp,
            rbl: self.rbl,
            stopped: self.stopped,
            last_step: self.last_step,
        }
    }
}

/// The low `bits` bits of `value` sign-extended to 32 bits: shifted to the
/// top of the word and arithmetically shifted back.
pub open spec fn sign_extend_spec(value: i32, bits: u32) -> i32 {
    (value << ((32 - bits) as u32)) >> ((32 - bits) as u32)
}

/// The floating-point exponent of a 24-bit sample: how many of its leading
/// bits (after the sign) repeat the sign, at most 12, counted from `e`.
pub open spec fn pack_exponent(temp: u32, e: nat) -> nat
    decreases 12 - e,
{
    if e < 12 && temp & 0x0080_0000 == 0 {
        pack_exponent(temp << 1u32, e + 1)
    } else {
        e
    }
}

/// The 16-bit floating-point form of a 24-bit sample: sign, 4-bit exponent
/// and 11-bit mantissa.
pub open spec fn pack_spec(value: i32) -> u16 {
    let sign = ((value >> 23u32) & 1) as u16;
    let temp = ((value as u32) ^ ((value as u32) << 1u32)) & 0x00ff_ffff;
    let exponent = pack_exponent(temp, 0) as u16;
    let shifted = if exponent < 12 { (value << (exponent as u32)) & 0x003f_ffff } else { value << 11u32 };
    (((shifted >> 11u32) as u16) & 0x07ff) | (exponent << 11u16) | (sign << 15u16)
}

/// The 24-bit sample of a 16-bit floating-point value.
pub open spec fn unpack_spec(value: u16) -> i32 {
    let sign = ((value >> 15u16) & 1) as i32;
    let raw_exponent = ((value >> 11u16) & 0x0f) as u32;
    let mantissa = (value & 0x07ff) as i32;
    let exponent: u32 = if raw_exponent > 11 { 11 } else { raw_exponent };
    let hidden = if raw_exponent > 11 { sign << 22u32 } else { (sign ^ 1) << 22u32 };
    let unpacked = ((mantissa << 11u32) | hidden) | (sign << 23u32);
    sign_extend_spec(unpacked, 24) >> exponent
}

/// Whether microprogram instruction `k` has any nonzero word.
pub open spec fn instruction_used(mpro: Seq<u16>, k: int) -> bool {
    mpro[4 * k] != 0 || mpro[4 * k + 1] != 0 || mpro[4 * k + 2] != 0 || mpro[4 * k + 3] != 0
}

/// The number of microprogram steps up to and including the last of the
/// first `n` instructions that has a nonzero word.
pub open spec fn program_length(mpro: Seq<u16>, n: nat) -> nat
    decreases n,
{
    if n == 0 {
        0
    } else if instruction_used(mpro, n - 1) {
        n
    } else {
        program_length(mpro, (n - 1) as nat)
    }
}

/// The ring-buffer length, in words, that a ring configuration selects.
pub open spec fn ring_length(value: u16) -> usize {
    let size = (value as int / 0x80) % 4;
    if size == 0 {
        0x2000
    } else if size == 1 {
        0x4000
    } else if size == 2 {
        0x8000
    } else {
        0x1_0000
    }
}

/// The big-endian word at `address` of sound RAM, both bytes wrapping at
/// its end; 0 with no sound RAM.
pub open spec fn ram_word_spec(ram: Seq<u8>, address: int) -> u16 {
    if ram.len() == 0 {
        0
    } else {
        let index = address % ram.len() as int;
        (ram[index] as int * 0x100 + ram[(index + 1) % ram.len() as int] as int) as u16
    }
}

/// Sound RAM with the big-endian `value` written at `address`, wrapping.
pub open spec fn with_ram_word(ram: Seq<u8>, address: int, value: u16) -> Seq<u8> {
    if ram.len() == 0 {
        ram
    } else {
        let index = address % ram.len() as int;
        ram.update(index, (value as int / 0x100) as u8).update((index + 1) % ram.len() as int, (value as int % 0x100) as u8)
    }
}

/// The half of a 32-bit value a 16-bit read at `address` sees: the low
/// half at addresses with bit 1 set, else the high half.
pub open spec fn half_word(value: i32, address: usize) -> u16 {
    if address & 2 != 0 {
        (value as u32) as u16
    } else {
        ((value as u32) >> 16u32) as u16
    }
}

/// The microprogram's working registers, which live for one sample.
#[derive(Clone, Copy)]
pub struct DspRegs {
    pub acc: i32,
    pub memval: i32,
    pub frc_reg: i32,
    pub y_reg: i32,
    pub adrs_reg: u32,
}

/// One sample's run of the microprogram: the DSP, its working registers,
/// sound RAM, and whether an instruction with an unknown input stopped it.
pub struct DspRun {
    pub dsp: DspModel,
    pub regs: DspRegs,
    pub ram: Seq<u8>,
    pub halted: bool,
}

/// `v` limited to the signed 24-bit range.
pub open spec fn clamp24(v: i32) -> i32 {
    if v < -0x80_0000 {
        -0x80_0000i32
    } else if v > 0x7f_ffff {
        0x7f_ffff
    } else {
        v
    }
}

/// Two's-complement negation, wrapping at the most negative value.
pub open spec fn negate_wrapping(v: i32) -> i32 {
    if v == i32::MIN {
        v
    } else {
        (-v) as i32
    }
}

/// The accumulator after one instruction's multiply-add.
pub open spec fn multiply_add(x: i32, y: i32, b: i32) -> i32 {
    ((((x as int * y as int) as i64) >> 12u64) as int + b as int) as i32
}

/// The accumulator as an instruction's shifter passes it on.
pub open spec fn shifted_acc(acc: i32, shift: u16) -> i32 {
    if shift == 0 {
        clamp24(acc)
    } else if shift == 1 {
        clamp24(acc.wrapping_mul(2))
    } else if shift == 2 {
        sign_extend_spec(acc.wrapping_mul(2), 24)
    } else {
        sign_extend_spec(acc, 24)
    }
}

/// The ring-buffer or table word address instruction word `w3` (with table
/// flag `table`) reaches through address register `masa`, in words.
pub open spec fn memory_address(dsp: DspModel, regs: DspRegs, table: bool, w3: u16) -> u32 {
    let masa = ((w3 >> 2u16) & 0x1f) as int;
    let a0 = dsp.madrs[masa] as u32;
    let a1 = if !table { a0.wrapping_add(dsp.dec) } else { a0 };
    let a2 = if w3 & 0x0002 != 0 { a1.wrapping_add(regs.adrs_reg & 0x0fff) } else { a1 };
    let a3 = if w3 & 0x0001 != 0 { a2.wrapping_add(1) } else { a2 };
    let a4 = if !table { a3 & ((dsp.rbl as u32).saturating_sub(1)) } else { a3 & 0xffff };
    a4.wrapping_add(dsp.rbp << 12u32)
}

/// The input an instruction reads (word `w1`): a memory register, a mixer
/// input or an external input, sign-extended from 24 bits, or the value
/// being written to the same memory register.
#[verifier::opaque]
pub open spec fn step_inputs(dsp: DspModel, regs: DspRegs, w1: u16) -> i32 {
    let ira = ((w1 >> 6u16) & 0x3f) as int;
    let raw = if ira <= 0x1f {
        dsp.mems[ira]
    } else if ira <= 0x2f {
        dsp.mixs[ira - 0x20] << 4u32
    } else {
        (dsp.exts[ira - 0x30] as i32) << 8u32
    };
    if w1 & 0x0020 != 0 && ira == (w1 & 0x001f) as int {
        regs.memval
    } else {
        sign_extend_spec(raw, 24)
    }
}

/// The temporary-ring word an instruction (word `w0`) reads, sign-extended.
#[verifier::opaque]
pub open spec fn step_temp(dsp: DspModel, w0: u16) -> i32 {
    sign_extend_spec(dsp.temp[(((w0 >> 8u16) & 0x7f) as int + dsp.dec as int) % 128], 24)
}

/// The accumulator after an instruction's multiply-add: X (input or
/// temporary) times Y (frc register, coefficient or Y register), plus B
/// (zero, accumulator or temporary, optionally negated).
#[verifier::opaque]
pub open spec fn step_acc(dsp: DspModel, regs: DspRegs, w1: u16, w2: u16, w3: u16, inputs: i32, temp: i32) -> i32 {
    let ysel = (w1 >> 13u16) & 3;
    let b0 = if w2 & 0x0002 != 0 { 0 } else if w2 & 0x0001 != 0 { regs.acc } else { temp };
    let b = if w2 & 0x0004 != 0 { negate_wrapping(b0) } else { b0 };
    let x = if w1 & 0x8000 != 0 { inputs } else { temp };
    let y = if ysel == 0 {
        regs.frc_reg
    } else if ysel == 1 {
        (dsp.coef[((w3 >> 9u16) & 0x3f) as int] as i32) >> 3u32
    } else if ysel == 2 {
        (regs.y_reg >> 11u32) & 0x1fff
    } else {
        (regs.y_reg >> 4u32) & 0x0fff
    };
    multiply_add(x, sign_extend_spec(y, 13), b)
}

/// Whether step `k` (words `w2`) touches sound RAM: a read or write flag on
/// an odd step.
pub open spec fn step_accesses(k: int, w2: u16) -> bool {
    (w2 & 0x4000 != 0 || w2 & 0x2000 != 0) && k % 2 == 1
}

/// The byte address in sound RAM an instruction accesses.
pub open spec fn step_byte_address(dsp: DspModel, regs: DspRegs, w2: u16, w3: u16) -> int {
    ((memory_address(dsp, regs, w2 & 0x8000 != 0, w3) as usize) << 1usize) as int
}

/// The memory register value after an instruction's sound-RAM read.
#[verifier::opaque]
pub open spec fn step_memval(dsp: DspModel, regs: DspRegs, ram: Seq<u8>, k: int, w2: u16, w3: u16) -> i32 {
    if step_accesses(k, w2) && w2 & 0x2000 != 0 {
        let value = ram_word_spec(ram, step_byte_address(dsp, regs, w2, w3));
        if w3 & 0x8000 != 0 { (value as i32) << 8u32 } else { unpack_spec(value) }
    } else {
        regs.memval
    }
}

/// Sound RAM after an instruction's write of the shifted accumulator.
#[verifier::opaque]
pub open spec fn step_ram(dsp: DspModel, regs: DspRegs, ram: Seq<u8>, k: int, w2: u16, w3: u16, shifted: i32) -> Seq<u8> {
    if step_accesses(k, w2) && w2 & 0x4000 != 0 {
        with_ram_word(
            ram,
            step_byte_address(dsp, regs, w2, w3),
            if w3 & 0x8000 != 0 { (shifted >> 8u32) as u16 } else { pack_spec(shifted) },
        )
    } else {
        ram
    }
}

/// Microprogram step `k`: read an input, multiply and accumulate, write the
/// temporary ring and effect outputs, and on odd steps access sound RAM.
/// An input selector past the external inputs stops the program.
pub open spec fn micro_step(r: DspRun, k: int) -> DspRun {
    let w0 = r.dsp.mpro[4 * k];
    let w1 = r.dsp.mpro[4 * k + 1];
    let w2 = r.dsp.mpro[4 * k + 2];
    let w3 = r.dsp.mpro[4 * k + 3];
    if ((w1 >> 6u16) & 0x3f) > 0x31 {
        DspRun { halted: true, ..r }
    } else {
        let inputs = step_inputs(r.dsp, r.regs, w1);
        let temp = step_temp(r.dsp, w0);
        let shift = (w2 >> 4u16) & 3;
        let shifted = shifted_acc(r.regs.acc, shift);
        DspRun {
            dsp: DspModel {
                mems: if w1 & 0x0020 != 0 { r.dsp.mems.update((w1 & 0x001f) as int, r.regs.memval) } else { r.dsp.mems },
                temp: if w0 & 0x0080 != 0 {
                    r.dsp.temp.update(((w0 & 0x007f) as int + r.dsp.dec as int) % 128, shifted)
                } else {
                    r.dsp.temp
                },
                efreg: if w2 & 0x1000 != 0 {
                    let ewa = ((w2 >> 8u16) & 0x0f) as int;
                    r.dsp.efreg.update(ewa, r.dsp.efreg[ewa].wrapping_add((shifted >> 8u32) as i16))
                } else {
                    r.dsp.efreg
                },
                ..r.dsp
            },
            regs: DspRegs {
                acc: step_acc(r.dsp, r.regs, w1, w2, w3, inputs, temp),
                memval: step_memval(r.dsp, r.regs, r.ram, k, w2, w3),
                frc_reg: if w2 & 0x0040 != 0 {
                    if shift == 3 { shifted & 0x0fff } else { (shifted >> 11u32) & 0x1fff }
                } else {
                    r.regs.frc_reg
                },
                y_reg: if w2 & 0x0008 != 0 { inputs } else { r.regs.y_reg },
                adrs_reg: if w2 & 0x0080 != 0 {
                    if shift == 3 { ((shifted >> 12u32) & 0x0fff) as u32 } else { ((inputs >> 16u32) & 0x0fff) as u32 }
                } else {
                    r.regs.adrs_reg
                },
            },
            ram: step_ram(r.dsp, r.regs, r.ram, k, w2, w3, shifted),
            halted: false,
        }
    }
}

/// The first `n` microprogram steps, stopping at a halt.
pub open spec fn run_steps(r: DspRun, n: nat) -> DspRun
    decreases n,
{
    if n == 0 {
        r
    } else {
        let p = run_steps(r, (n - 1) as nat);
        if p.halted {
            p
        } else {
            micro_step(p, n - 1)
        }
    }
}

/// Once halted, further steps change nothing.
proof fn lemma_halt_persists(r: DspRun, m: nat, n: nat)
    requires
        m <= n,
        run_steps(r, m).halted,
    ensures
        run_steps(r, n) == run_steps(r, m),
    decreases n - m,
{
    if m < n {
        lemma_halt_persists(r, m, (n - 1) as nat);
    }
}

proof fn lemma_product_bounds(x: i32, y: i32)
    by (nonlinear_arith)
    ensures
        -0x4000_0000_0000_0000 <= x as int * y as int <= 0x4000_0000_0000_0000,
{
    assert(-0x8000_0000 <= x <= 0x7fff_ffff);
    assert(-0x8000_0000 <= y <= 0x7fff_ffff);
}

proof fn lemma_shift12_bounds(p: i64)
    by (bit_vector)
    requires
        -0x4000_0000_0000_0000 <= p <= 0x4000_0000_0000_0000,
    ensures
        -0x4_0000_0000_0000 <= (p >> 12u64) <= 0x4_0000_0000_0000,
{
}

/// The sample's run as it starts: effect outputs cleared, registers zero.
pub open spec fn sample_start(dsp: DspModel, ram: Seq<u8>) -> DspRun {
    DspRun {
        dsp: DspModel { efreg: Seq::new(16, |i: int| 0i16), ..dsp },
        regs: DspRegs { acc: 0, memval: 0, frc_reg: 0, y_reg: 0, adrs_reg: 0 },
        ram,
        halted: false,
    }
}

impl DspModel {
    /// The model after the microprogram starts: running, over its used steps.
    pub open spec fn started(self) -> DspModel {
        DspModel { stopped: false, last_step: program_length(self.mpro, 128) as usize, ..self }
    }

    /// The model after a register write: coefficients, addresses and
    /// microprogram words are writable, and the write of the microprogram's
    /// last word starts it.
    pub open spec fn after_write(self, address: usize, value: u16) -> DspModel {
        if 0x700 <= address <= 0x77f {
            DspModel { coef: self.coef.update((address - 0x700) / 2, value as i16), ..self }
        } else if 0x780 <= address <= 0x7bf {
            DspModel { madrs: self.madrs.update((address - 0x780) / 2, value), ..self }
        } else if 0x7c0 <= address <= 0x7ff {
            DspModel { madrs: self.madrs.update((address - 0x7c0) / 2, value), ..self }
        } else if 0x800 <= address <= 0xbff {
            let written = DspModel { mpro: self.mpro.update((address - 0x800) / 2, value), ..self };
            if address == 0xbf0 {
                written.started()
            } else {
                written
            }
        } else {
            self
        }
    }

    /// The 16-bit register word at `address` of the DSP's register window.
    pub open spec fn word_at(self, address: usize) -> u16 {
        if 0x700 <= address <= 0x77f {
            self.coef[(address - 0x700) / 2] as u16
        } else if 0x780 <= address <= 0x7bf {
            self.madrs[(address - 0x780) / 2]
        } else if 0x7c0 <= address <= 0x7ff {
            self.madrs[(address - 0x7c0) / 2]
        } else if 0x800 <= address <= 0xbff {
            self.mpro[(address - 0x800) / 2]
        } else if 0xc00 <= address <= 0xdff {
            half_word(self.temp[(address as int / 4) % 0x80], address)
        } else if 0xe00 <= address <= 0xe7f {
            half_word(self.mems[(address as int / 4) % 0x20], address)
        } else if 0xe80 <= address <= 0xebf {
            half_word(self.mixs[(address as int / 4) % 0x10], address)
        } else if 0xec0 <= address <= 0xedf {
            self.efreg[(address - 0xec0) / 2] as u16
        } else if 0xee0 <= address <= 0xee3 {
            self.exts[(address - 0xee0) / 2] as u16
        } else {
            0
        }
    }
}

/// A word written to the coefficient, address or microprogram memory reads
/// back unchanged at the same address (starting the program keeps it).
pub proof fn dsp_register_reads_back(m: DspModel, address: usize, value: u16)
    requires
        m.coef.len() == 64,
        m.madrs.len() == 32,
        m.mpro.len() == 512,
        0x700 <= address <= 0xbff,
    ensures
        m.after_write(address, value).word_at(address) == value,
{
    assert((value as i16) as u16 == value) by (bit_vector);
}

/// The DSP at reset: stopped, memories cleared, the smallest ring buffer.
pub open spec fn dsp_reset() -> DspModel {
    DspModel {
        coef: Seq::new(64, |i: int| 0i16),
        madrs: Seq::new(32, |i: int| 0u16),
        mpro: Seq::new(512, |i: int| 0u16),
        temp: Seq::new(128, |i: int| 0i32),
        mems: Seq::new(32, |i: int| 0i32),
        mixs: Seq::new(16, |i: int| 0i32),
        exts: Seq::new(2, |i: int| 0i16),
        efreg: Seq::new(16, |i: int| 0i16),
        dec: 0,
        rbp: 0,
        rbl: 0x2000usize,
        stopped: true,
        last_step: 0,
    }
}

impl SaturnScspDsp {
    /// A stopped DSP with cleared memories and the smallest ring buffer.
    pub fn new() -> (d: Self)
        ensures
            d@ == dsp_reset(),
            d@.coef == Seq::new(64, |i: int| 0i16),
            d@.madrs == Seq::new(32, |i: int| 0u16),
            d@.mpro == Seq::new(512, |i: int| 0u16),
            d@.temp == Seq::new(128, |i: int| 0i32),
            d@.mems == Seq::new(32, |i: int| 0i32),
            d@.mixs == Seq::new(16, |i: int| 0i32),
            d@.exts == Seq::new(2, |i: int| 0i16),
            d@.efreg == Seq::new(16, |i: int| 0i16),
            d.dec == 0 && d.rbp == 0 && d.rbl == 8 * 1024,
            d.stopped && d.last_step == 0,
    {
        let d = SaturnScspDsp {
            coef: [0; 64],
            madrs: [0; 32],
            mpro: [0; 512],
            temp: [0; 128],
            mems: [0; 32],
            mixs: [0; 16],
            exts: [0; 2],
            efreg: [0; 16],
            dec: 0,
            rbp: 0,
            rbl: 8 * 1024,
            stopped: true,
            last_step: 0,
        };
        assert(d@.coef =~= Seq::new(64, |i: int| 0i16));
        assert(d@.madrs =~= Seq::new(32, |i: int| 0u16));
        assert(d@.mpro =~= Seq::new(512, |i: int| 0u16));
        assert(d@.temp =~= Seq::new(128, |i: int| 0i32));
        assert(d@.mems =~= Seq::new(32, |i: int| 0i32));
        assert(d@.mixs =~= Seq::new(16, |i: int| 0i32));
        assert(d@.exts =~= Seq::new(2, |i: int| 0i16));
        assert(d@.efreg =~= Seq::new(16, |i: int| 0i16));
        d
    }

    /// The low `bits` bits of `value`, sign-extended.
    pub fn sign_extend(value: i32, bits: u32) -> (r: i32)
        requires
            1 <= bits <= 32,
        ensures
            r == sign_extend_spec(value, bits),
    {
        let shift = 32 - bits;
        (value << shift) >> shift
    }

    /// The 16-bit floating-point form of a 24-bit sample.
    pub fn pack(value: i32) -> (r: u16)
        ensures
            r == pack_spec(value),
    {
        let sign = ((value >> 23u32) & 1) as u16;
        let mut temp = ((value as u32) ^ (value as u32).wrapping_shl(1)) & 0x00ff_ffff;
        let ghost temp0 = temp;
        let mut exponent: u16 = 0;
        while exponent < 12 && temp & 0x0080_0000 == 0
            invariant
                exponent <= 12,
                pack_exponent(temp, exponent as nat) == pack_exponent(temp0, 0),
            decreases 12 - exponent,
        {
            temp = temp << 1u32;
            exponent = exponent + 1;
        }
        let shifted = if exponent < 12 {
            value.wrapping_shl(exponent as u32) & 0x003f_ffff
        } else {
            value.wrapping_shl(11)
        };
        (((shifted >> 11u32) as u16) & 0x07ff) | (exponent << 11u16) | (sign << 15u16)
    }

    /// The 24-bit sample of a 16-bit floating-point value.
    pub fn unpack(value: u16) -> (r: i32)
        ensures
            r == unpack_spec(value),
    {
        let sign = ((value >> 15u16) & 1) as i32;
        let mut exponent = ((value >> 11u16) & 0x0f) as u32;
        let mantissa = (value & 0x07ff) as i32;
        let mut unpacked = mantissa << 11u32;
        if exponent > 11 {
            exponent = 11;
            unpacked = unpacked | (sign << 22u32);
        } else {
            unpacked = unpacked | ((sign ^ 1) << 22u32);
        }
        unpacked = unpacked | (sign << 23u32);
        Self::sign_extend(unpacked, 24) >> exponent
    }

    /// Sets the ring buffer's length and its base in sound RAM.
    pub fn configure_ring(&mut self, value: u16)
        ensures
            final(self)@ == (DspModel { rbl: ring_length(value), rbp: (value % 0x40) as u32, ..old(self)@ }),
    {
        self.rbl = match (value / 0x80) % 4 {
            0 => 0x2000,
            1 => 0x4000,
            2 => 0x8000,
            _ => 0x1_0000,
        };
        self.rbp = (value % 0x40) as u32;
    }

    /// Adds a slot's send to mixer input `selector`, when there is one.
    pub fn add_sample(&mut self, sample: i32, selector: usize)
        ensures
            final(self)@ == (if selector < 16 {
                DspModel {
                    mixs: old(self)@.mixs.update(selector as int, old(self)@.mixs[selector as int].wrapping_add(sample)),
                    ..old(self)@
                }
            } else {
                old(self)@
            }),
    {
        if selector < 16 {
            self.mixs[selector] = self.mixs[selector].wrapping_add(sample);
        }
    }

    fn instruction_nonzero(&self, k: usize) -> (r: bool)
        requires
            k < 128,
        ensures
            r == instruction_used(self.mpro@, k as int),
    {
        self.mpro[4 * k] != 0 || self.mpro[4 * k + 1] != 0 || self.mpro[4 * k + 2] != 0 || self.mpro[4 * k + 3] != 0
    }

    /// Starts the microprogram over the steps up to its last nonzero one.
    pub fn start(&mut self)
        ensures
            final(self)@ == old(self)@.started(),
            final(self).last_step <= 128,
    {
        let mut n: usize = 128;
        while n > 0 && !self.instruction_nonzero(n - 1)
            invariant
                n <= 128,
                program_length(self.mpro@, n as nat) == program_length(self.mpro@, 128),
            decreases n,
        {
            n = n - 1;
        }
        self.stopped = false;
        self.last_step = n;
    }

    /// The register word at `address` of the DSP's register window.
    pub fn read_word(&self, address: usize) -> (r: u16)
        ensures
            r == self@.word_at(address),
    {
        if 0x700 <= address && address <= 0x77f {
            self.coef[(address - 0x700) / 2] as u16
        } else if 0x780 <= address && address <= 0x7bf {
            self.madrs[(address - 0x780) / 2]
        } else if 0x7c0 <= address && address <= 0x7ff {
            self.madrs[(address - 0x7c0) / 2]
        } else if 0x800 <= address && address <= 0xbff {
            self.mpro[(address - 0x800) / 2]
        } else if 0xc00 <= address && address <= 0xdff {
            let value = self.temp[(address / 4) % 0x80] as u32;
            if address & 2 != 0 { value as u16 } else { (value >> 16u32) as u16 }
        } else if 0xe00 <= address && address <= 0xe7f {
            let value = self.mems[(address / 4) % 0x20] as u32;
            if address & 2 != 0 { value as u16 } else { (value >> 16u32) as u16 }
        } else if 0xe80 <= address && address <= 0xebf {
            let value = self.mixs[(address / 4) % 0x10] as u32;
            if address & 2 != 0 { value as u16 } else { (value >> 16u32) as u16 }
        } else if 0xec0 <= address && address <= 0xedf {
            self.efreg[(address - 0xec0) / 2] as u16
        } else if 0xee0 <= address && address <= 0xee3 {
            self.exts[(address - 0xee0) / 2] as u16
        } else {
            0
        }
    }

    /// Writes the register word at `address`.
    pub fn write_word(&mut self, address: usize, value: u16)
        ensures
            final(self)@ == old(self)@.after_write(address, value),
    {
        if 0x700 <= address && address <= 0x77f {
            self.coef[(address - 0x700) / 2] = value as i16;
        } else if 0x780 <= address && address <= 0x7bf {
            self.madrs[(address - 0x780) / 2] = value;
        } else if 0x7c0 <= address && address <= 0x7ff {
            self.madrs[(address - 0x7c0) / 2] = value;
        } else if 0x800 <= address && address <= 0xbff {
            self.mpro[(address - 0x800) / 2] = value;
            if address == 0xbf0 {
                self.start();
            }
        }
    }

    /// The big-endian word at `address` of sound RAM, wrapping at its end.
    pub fn read_ram_word(sound_ram: &[u8], address: usize) -> (r: u16)
        ensures
            r == ram_word_spec(sound_ram@, address as int),
    {
        if sound_ram.len() == 0 {
            return 0;
        }
        let index = address % sound_ram.len();
        sound_ram[index] as u16 * 0x100 + sound_ram[(index + 1) % sound_ram.len()] as u16
    }

    /// Writes the big-endian `value` at `address` of sound RAM, wrapping.
    pub fn write_ram_word(sound_ram: &mut [u8], address: usize, value: u16)
        ensures
            final(sound_ram)@ == with_ram_word(old(sound_ram)@, address as int, value),
    {
        if sound_ram.len() == 0 {
            return;
        }
        let index = address % sound_ram.len();
        sound_ram[index] = (value / 0x100) as u8;
        let next = (index + 1) % sound_ram.len();
        sound_ram[next] = (value % 0x100) as u8;
    }

    /// The input an instruction with word `w1` reads.
    fn read_input(&self, regs: &DspRegs, w1: u16) -> (r: i32)
        requires
            ((w1 >> 6u16) & 0x3f) <= 0x31,
        ensures
            r == step_inputs(self@, *regs, w1),
    {
        reveal(step_inputs);
        let ira = ((w1 >> 6u16) & 0x3f) as usize;
        let raw = if ira <= 0x1f {
            self.mems[ira]
        } else if ira <= 0x2f {
            self.mixs[ira - 0x20] << 4u32
        } else {
            (self.exts[ira - 0x30] as i32) << 8u32
        };
        if w1 & 0x0020 != 0 && ira == (w1 & 0x001f) as usize {
            regs.memval
        } else {
            Self::sign_extend(raw, 24)
        }
    }

    /// The temporary-ring word an instruction with word `w0` reads.
    fn read_temp(&self, w0: u16) -> (r: i32)
        ensures
            r == step_temp(self@, w0),
    {
        reveal(step_temp);
        let tra = ((w0 >> 8u16) & 0x7f) as usize;
        assert(tra <= 0x7f) by (bit_vector)
            requires
                tra == ((w0 >> 8u16) & 0x7f) as usize,
        ;
        let dec_low = (self.dec % 128) as usize;
        Self::sign_extend(self.temp[(tra + dec_low) % 128], 24)
    }

    /// The accumulator after an instruction's multiply-add.
    fn multiply_accumulate(&self, regs: &DspRegs, w1: u16, w2: u16, w3: u16, inputs: i32, temp: i32) -> (r: i32)
        ensures
            r == step_acc(self@, *regs, w1, w2, w3, inputs, temp),
    {
        reveal(step_acc);
        let ysel = (w1 >> 13u16) & 3;
        let coef = ((w3 >> 9u16) & 0x3f) as usize;
        assert(coef <= 0x3f) by (bit_vector)
            requires
                coef == ((w3 >> 9u16) & 0x3f) as usize,
        ;
        let mut b = if w2 & 0x0002 != 0 {
            0
        } else if w2 & 0x0001 != 0 {
            regs.acc
        } else {
            temp
        };
        if w2 & 0x0004 != 0 {
            b = if b == i32::MIN { b } else { -b };
        }
        let x = if w1 & 0x8000 != 0 { inputs } else { temp };
        let y = if ysel == 0 {
            regs.frc_reg
        } else if ysel == 1 {
            (self.coef[coef] as i32) >> 3u32
        } else if ysel == 2 {
            (regs.y_reg >> 11u32) & 0x1fff
        } else {
            (regs.y_reg >> 4u32) & 0x0fff
        };
        let y = Self::sign_extend(y, 13);
        proof {
            lemma_product_bounds(x, y);
        }
        let product = (x as i64) * (y as i64);
        proof {
            lemma_shift12_bounds(product);
        }
        #[verifier::truncate] (((product >> 12u64) + b as i64) as i32)
    }

    /// The accumulator as the shifter passes it on.
    fn shift_acc(acc: i32, shift: u16) -> (r: i32)
        ensures
            r == shifted_acc(acc, shift),
    {
        if shift == 0 {
            if acc < -0x80_0000 { -0x80_0000 } else if acc > 0x7f_ffff { 0x7f_ffff } else { acc }
        } else if shift == 1 {
            let doubled = acc.wrapping_mul(2);
            if doubled < -0x80_0000 { -0x80_0000 } else if doubled > 0x7f_ffff { 0x7f_ffff } else { doubled }
        } else if shift == 2 {
            Self::sign_extend(acc.wrapping_mul(2), 24)
        } else {
            Self::sign_extend(acc, 24)
        }
    }

    /// Step `k`'s sound-RAM access: on odd steps, read into the memory
    /// register and write the shifted accumulator.
    fn access_memory(&self, k: usize, w2: u16, w3: u16, shifted: i32, regs: &mut DspRegs, sound_ram: &mut [u8])
        ensures
            *final(regs) == (DspRegs { memval: step_memval(self@, *old(regs), old(sound_ram)@, k as int, w2, w3), ..*old(regs) }),
            final(sound_ram)@ == step_ram(self@, *old(regs), old(sound_ram)@, k as int, w2, w3, shifted),
    {
        reveal(step_memval);
        reveal(step_ram);
        let table = w2 & 0x8000 != 0;
        let mwt = w2 & 0x4000 != 0;
        let mrd = w2 & 0x2000 != 0;
        let nofl = w3 & 0x8000 != 0;
        let masa = ((w3 >> 2u16) & 0x1f) as usize;
        assert(masa <= 0x1f) by (bit_vector)
            requires
                masa == ((w3 >> 2u16) & 0x1f) as usize,
        ;
        if mrd || mwt {
            let mut address = self.madrs[masa] as u32;
            if !table {
                address = address.wrapping_add(self.dec);
            }
            if w3 & 0x0002 != 0 {
                address = address.wrapping_add(regs.adrs_reg & 0x0fff);
            }
            if w3 & 0x0001 != 0 {
                address = address.wrapping_add(1);
            }
            if !table {
                address = address & (#[verifier::truncate] (self.rbl as u32)).saturating_sub(1);
            } else {
                address = address & 0xffff;
            }
            address = address.wrapping_add(self.rbp << 12u32);
            let byte_address = (address as usize) << 1usize;
            if mrd && k % 2 == 1 {
                let value = Self::read_ram_word(sound_ram, byte_address);
                regs.memval = if nofl {
                    (value as i32) << 8u32
                } else {
                    Self::unpack(value)
                };
            }
            if mwt && k % 2 == 1 {
                let value = if nofl {
                    #[verifier::truncate] ((shifted >> 8u32) as u16)
                } else {
                    Self::pack(shifted)
                };
                Self::write_ram_word(sound_ram, byte_address, value);
            }
        }
    }

    /// One microprogram step (see `micro_step`); returns whether the step's
    /// input selector stopped the program.
    fn run_step(&mut self, k: usize, regs: &mut DspRegs, sound_ram: &mut [u8]) -> (halted: bool)
        requires
            k < 128,
        ensures
            micro_step(DspRun { dsp: old(self)@, regs: *old(regs), ram: old(sound_ram)@, halted: false }, k as int)
                == (DspRun { dsp: final(self)@, regs: *final(regs), ram: final(sound_ram)@, halted }),
    {
        let w0 = self.mpro[4 * k];
        let w1 = self.mpro[4 * k + 1];
        let w2 = self.mpro[4 * k + 2];
        let w3 = self.mpro[4 * k + 3];
        if (w1 >> 6u16) & 0x3f > 0x31 {
            return true;
        }
        let old_regs = *regs;
        let inputs = self.read_input(regs, w1);
        let temp = self.read_temp(w0);
        let shift = (w2 >> 4u16) & 3;
        let shifted = Self::shift_acc(regs.acc, shift);
        // The sound-RAM access reads only the address table, the ring
        // configuration and the address register, none of which this step
        // writes earlier.
        self.access_memory(k, w2, w3, shifted, regs, sound_ram);
        let acc = self.multiply_accumulate(&old_regs, w1, w2, w3, inputs, temp);

        if w1 & 0x0020 != 0 {
            let iwa = (w1 & 0x001f) as usize;
            assert(iwa <= 0x1f) by (bit_vector)
                requires
                    iwa == (w1 & 0x001f) as usize,
            ;
            self.mems[iwa] = old_regs.memval;
        }
        if w0 & 0x0080 != 0 {
            let twa = (w0 & 0x007f) as usize;
            assert(twa <= 0x7f) by (bit_vector)
                requires
                    twa == (w0 & 0x007f) as usize,
            ;
            let dec_low = (self.dec % 128) as usize;
            self.temp[(twa + dec_low) % 128] = shifted;
        }
        regs.acc = acc;
        if w2 & 0x0040 != 0 {
            regs.frc_reg = if shift == 3 {
                shifted & 0x0fff
            } else {
                (shifted >> 11u32) & 0x1fff
            };
        }
        if w2 & 0x0008 != 0 {
            regs.y_reg = inputs;
        }
        if w2 & 0x0080 != 0 {
            regs.adrs_reg = if shift == 3 {
                ((shifted >> 12u32) & 0x0fff) as u32
            } else {
                ((inputs >> 16u32) & 0x0fff) as u32
            };
        }
        if w2 & 0x1000 != 0 {
            let ewa = ((w2 >> 8u16) & 0x0f) as usize;
            assert(ewa <= 0x0f) by (bit_vector)
                requires
                    ewa == ((w2 >> 8u16) & 0x0f) as usize,
            ;
            self.efreg[ewa] = self.efreg[ewa].wrapping_add(#[verifier::truncate] ((shifted >> 8u32) as i16));
        }
        false
    }

    /// Runs the microprogram for one sample: clears the effect outputs, runs
    /// the used steps, steps the ring-buffer position back and clears the
    /// mixer inputs. A stopped DSP does nothing.
    pub fn step(&mut self, sound_ram: &mut [u8])
        requires
            old(self).last_step <= 128,
        ensures
            old(self).stopped ==> final(self)@ == old(self)@ && final(sound_ram)@ == old(sound_ram)@,
            !old(self).stopped ==> ({
                let run = run_steps(sample_start(old(self)@, old(sound_ram)@), old(self).last_step as nat);
                &&& final(self)@ == (DspModel {
                    dec: run.dsp.dec.wrapping_sub(1),
                    mixs: Seq::new(16, |i: int| 0i32),
                    ..run.dsp
                })
                &&& final(sound_ram)@ == run.ram
            }),
    {
        if self.stopped {
            return;
        }
        self.efreg = [0; 16];
        assert(self.efreg@ =~= Seq::new(16, |i: int| 0i16));
        let ghost start = DspRun {
            dsp: self@,
            regs: DspRegs { acc: 0, memval: 0, frc_reg: 0, y_reg: 0, adrs_reg: 0 },
            ram: sound_ram@,
            halted: false,
        };
        assert(start == sample_start(old(self)@, old(sound_ram)@));
        let mut regs = DspRegs { acc: 0, memval: 0, frc_reg: 0, y_reg: 0, adrs_reg: 0 };
        let last = self.last_step;
        let mut k: usize = 0;
        while k < last
            invariant_except_break
                k <= last,
                run_steps(start, k as nat) == (DspRun { dsp: self@, regs, ram: sound_ram@, halted: false }),
            invariant
                last <= 128,
            ensures
                run_steps(start, last as nat).dsp == self@,
                run_steps(start, last as nat).ram == sound_ram@,
            decreases last - k,
        {
            let halted = self.run_step(k, &mut regs, sound_ram);
            if halted {
                proof {
                    lemma_halt_persists(start, (k + 1) as nat, last as nat);
                }
                break;
            }
            k = k + 1;
        }
        self.dec = self.dec.wrapping_sub(1);
        self.mixs = [0; 16];
        assert(self.mixs@ =~= Seq::new(16, |i: int| 0i32));
    }
}

impl Default for SaturnScspDsp {
    fn default() -> (d: Self)
        ensures
            d.stopped && d.last_step == 0 && d.dec == 0 && d.rbp == 0 && d.rbl == 8 * 1024,
            d@.mpro == Seq::new(512, |i: int| 0u16),
            d@.mixs == Seq::new(16, |i: int| 0i32),
    {
        Self::new()
    }
}

proof fn lemma_wrapping_double(acc: i32)
    requires
        -0x4000_0000 <= acc < 0x4000_0000,
    ensures
        acc.wrapping_mul(2) as int == 2 * acc,
{
    let x = 2 * acc as int;
    if x < 0 {
        vstd::arithmetic::div_mod::lemma_fundamental_div_mod_converse(x, 0x1_0000_0000, -1, x + 0x1_0000_0000);
    } else {
        vstd::arithmetic::div_mod::lemma_small_mod(x as nat, 0x1_0000_0000);
    }
}

/// The shifter's output for SHIFT 0 and 1: the accumulator, doubled for
/// SHIFT 1, saturated to the signed 24-bit range (-$800000..$7FFFFF). For
/// accumulators whose double fits in 32 bits.
pub proof fn shifter_saturates_doubled_accumulator(acc: i32)
    requires
        -0x4000_0000 <= acc < 0x4000_0000,
    ensures
        shifted_acc(acc, 0) as int == (if acc < -0x80_0000 {
            -0x80_0000
        } else if acc > 0x7f_ffff {
            0x7f_ffff
        } else {
            acc as int
        }),
        shifted_acc(acc, 1) as int == (if 2 * acc < -0x80_0000 {
            -0x80_0000
        } else if 2 * acc > 0x7f_ffff {
            0x7f_ffff
        } else {
            2 * acc
        }),
{
    lemma_wrapping_double(acc);
}

proof fn lemma_sign_extend_24(v: i32)
    by (bit_vector)
    ensures
        -0x80_0000 <= (v << 8u32) >> 8u32 < 0x80_0000,
        ((v << 8u32) >> 8u32) & 0xff_ffff == v & 0xff_ffff,
{
}

/// The shifter's output for SHIFT 3 is the accumulator's low 24 bits read
/// as a signed number, and for SHIFT 2 the doubled accumulator's: a value
/// in the signed 24-bit range that agrees with its input in those bits.
pub proof fn shifter_wraps_to_24_bits(acc: i32)
    ensures
        -0x80_0000 <= shifted_acc(acc, 3) < 0x80_0000,
        shifted_acc(acc, 3) & 0xff_ffff == acc & 0xff_ffff,
        -0x80_0000 <= shifted_acc(acc, 2) < 0x80_0000,
        shifted_acc(acc, 2) & 0xff_ffff == acc.wrapping_mul(2) & 0xff_ffff,
{
    lemma_sign_extend_24(acc);
    lemma_sign_extend_24(acc.wrapping_mul(2));
}

} // verus!
