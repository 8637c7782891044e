//! SA-1 coprocessor registers: interrupt and control flags, the arithmetic
//! unit and the H/V timer.
use vstd::prelude::*;
use vstd::array::spec_array_update;

verus! {

pub const SA1_IRAM_SIZE: usize = 0x800;

pub struct Sa1State {
    pub iram: [u8; 0x800],
    pub ccnt: u8,
    pub sie: u8,
    pub crv: u16,
    pub cnv: u16,
    pub civ: u16,
    pub scnt: u8,
    pub cie: u8,
    pub snv: u16,
    pub siv: u16,
    pub timer_control: u8,
    pub hcnt: u16,
    pub vcnt: u16,
    pub timer_h: u16,
    pub timer_v: u16,
    pub banks: [u8; 4],
    pub bmaps: u8,
    pub bmap: u8,
    pub swen: bool,
    pub cwen: bool,
    pub bwp: u8,
    pub siwp: u8,
    pub ciwp: u8,
    pub dcnt: u8,
    pub cdma: u8,
    pub dsa: u32,
    pub dda: u32,
    pub dtc: u16,
    pub bbf: bool,
    pub brf: [u8; 16],
    pub mcnt: u8,
    pub ma: u16,
    pub mb: u16,
    pub mr: u64,
    pub overflow: bool,
    pub vbd: u8,
    pub va: u32,
    pub vbit: u8,
    pub cpu_irq_flag: bool,
    pub chdma_irq_flag: bool,
    pub sa1_irq_flag: bool,
    pub timer_irq_flag: bool,
    pub dma_irq_flag: bool,
    pub sa1_nmi_flag: bool,
    pub release_pending: bool,
}

impl Sa1State {
    /// The arithmetic unit's result: cumulative sum when bit 1 of MCNT is
    /// set (40-bit accumulator, overflow flag), signed multiply when bits 1
    /// and 0 are clear, and signed-by-unsigned division (floor quotient in the
    /// low half, nonnegative remainder in the high half) otherwise.
    pub open spec fn after_arithmetic(self) -> Sa1State {
        if self.mcnt & 0x02 != 0 {
            let sum = accumulator(self.mr) + signed_product(self.ma, self.mb);
            Sa1State {
                overflow: !(-0x80_0000_0000 <= sum < 0x80_0000_0000),
                mr: (sum % 0x100_0000_0000) as u64,
                mb: 0,
                ..self
            }
        } else if self.mcnt & 0x01 == 0 {
            Sa1State { mr: (signed_product(self.ma, self.mb) as u32) as u64, mb: 0, ..self }
        } else {
            let dividend = (self.ma as i16) as int;
            let divisor = self.mb as int;
            Sa1State {
                mr: if divisor == 0 {
                    0
                } else {
                    ((dividend % divisor) * 0x1_0000 + (dividend / divisor) % 0x1_0000) as u64
                },
                ma: 0,
                mb: 0,
                ..self
            }
        }
    }
}

/// The product of the two signed 16-bit operands.
pub open spec fn signed_product(ma: u16, mb: u16) -> int {
    (ma as i16) as int * (mb as i16) as int
}

/// The 40-bit accumulator value of `mr`.
pub open spec fn accumulator(mr: u64) -> int {
    mr as int % 0x100_0000_0000
}

/// One SA-1 timer tick: H advances by two dots per cycle and wraps at 1364
/// (HV mode, 262 lines) or 2048 (linear mode, 512 lines); the timer
/// interrupt fires on an H match, a V match at H = 0, or both, by mode.
pub open spec fn timer_tick(s: Sa1State) -> Sa1State {
    let linear = s.timer_control & 0x80 != 0;
    let h_limit: int = if linear { 2048 } else { 1364 };
    let h0 = (s.timer_h as int + 2) % 0x10000;
    let (h, v) = if h0 >= h_limit {
        (
            h0 - h_limit,
            if linear { (s.timer_v as int + 1) % 0x200 } else { (s.timer_v as int + 1) % 262 },
        )
    } else {
        (h0, s.timer_v as int)
    };
    let h_match = h == (s.hcnt as int * 4) % 0x10000;
    let v_match = v == s.vcnt as int;
    let fire = if s.timer_control % 4 == 0 {
        false
    } else if s.timer_control % 4 == 1 {
        h_match
    } else if s.timer_control % 4 == 2 {
        v_match && h == 0
    } else {
        h_match && v_match
    };
    Sa1State {
        timer_h: h as u16,
        timer_v: v as u16,
        timer_irq_flag: s.timer_irq_flag || fire,
        ..s
    }
}

pub open spec fn timer_ticks(s: Sa1State, n: nat) -> Sa1State
    decreases n,
{
    if n == 0 {
        s
    } else {
        timer_ticks(timer_tick(s), (n - 1) as nat)
    }
}

impl Sa1State {
    /// The state the SA-1 powers on in: held in reset, everything cleared,
    /// ROM banks in identity order and BW-RAM write protection at its maximum.
    pub open spec fn is_power_on(&self) -> bool {
        &&& forall|i: int| 0 <= i < 0x800 ==> self.iram[i] == 0
        &&& self.ccnt == 0x20 && self.sie == 0 && self.crv == 0 && self.cnv == 0 && self.civ == 0
        &&& self.scnt == 0 && self.cie == 0 && self.snv == 0 && self.siv == 0
        &&& self.timer_control == 0 && self.hcnt == 0 && self.vcnt == 0
        &&& self.timer_h == 0 && self.timer_v == 0
        &&& self.banks[0] == 0 && self.banks[1] == 1 && self.banks[2] == 2 && self.banks[3] == 3
        &&& self.bmaps == 0 && self.bmap == 0 && !self.swen && !self.cwen && self.bwp == 0x0f
        &&& self.siwp == 0 && self.ciwp == 0 && self.dcnt == 0 && self.cdma == 0
        &&& self.dsa == 0 && self.dda == 0 && self.dtc == 0 && !self.bbf
        &&& forall|i: int| 0 <= i < 16 ==> self.brf[i] == 0
        &&& self.mcnt == 0 && self.ma == 0 && self.mb == 0 && self.mr == 0 && !self.overflow
        &&& self.vbd == 0 && self.va == 0 && self.vbit == 0
        &&& !self.cpu_irq_flag && !self.chdma_irq_flag && !self.sa1_irq_flag
        &&& !self.timer_irq_flag && !self.dma_irq_flag && !self.sa1_nmi_flag
        &&& !self.release_pending
    }

    pub fn new() -> (s: Self)
        ensures
            s.is_power_on(),
    {
        Sa1State {
            iram: [0u8; 0x800],
            ccnt: 0x20,
            sie: 0,
            crv: 0,
            cnv: 0,
            civ: 0,
            scnt: 0,
            cie: 0,
            snv: 0,
            siv: 0,
            timer_control: 0,
            hcnt: 0,
            vcnt: 0,
            timer_h: 0,
            timer_v: 0,
            banks: [0, 1, 2, 3],
            bmaps: 0,
            bmap: 0,
            swen: false,
            cwen: false,
            bwp: 0x0f,
            siwp: 0,
            ciwp: 0,
            dcnt: 0,
            cdma: 0,
            dsa: 0,
            dda: 0,
            dtc: 0,
            bbf: false,
            brf: [0u8; 16],
            mcnt: 0,
            ma: 0,
            mb: 0,
            mr: 0,
            overflow: false,
            vbd: 0,
            va: 0,
            vbit: 0,
            cpu_irq_flag: false,
            chdma_irq_flag: false,
            sa1_irq_flag: false,
            timer_irq_flag: false,
            dma_irq_flag: false,
            sa1_nmi_flag: false,
            release_pending: false,
        }
    }

    pub fn reset(&mut self)
        ensures
            final(self).is_power_on(),
    {
        *self = Self::new();
    }

    /// The SA-1 CPU runs when neither its reset nor its wait bit is set.
    pub fn active(&self) -> (r: bool)
        ensures
            r == (self.ccnt & 0x60 == 0),
    {
        self.ccnt & 0x60 == 0
    }

    pub fn main_irq_pending(&self) -> (r: bool)
        ensures
            r == ((self.sie & 0x20 != 0 && self.chdma_irq_flag) || (self.sie & 0x80 != 0
                && self.cpu_irq_flag)),
    {
        (self.sie & 0x20 != 0 && self.chdma_irq_flag) || (self.sie & 0x80 != 0 && self.cpu_irq_flag)
    }

    pub fn sa1_nmi_pending(&self) -> (r: bool)
        ensures
            r == (self.cie & 0x10 != 0 && self.sa1_nmi_flag),
    {
        self.cie & 0x10 != 0 && self.sa1_nmi_flag
    }

    pub fn sa1_irq_pending(&self) -> (r: bool)
        ensures
            r == ((self.cie & 0x20 != 0 && self.dma_irq_flag) || (self.cie & 0x40 != 0
                && self.timer_irq_flag) || (self.cie & 0x80 != 0 && self.sa1_irq_flag)),
    {
        (self.cie & 0x20 != 0 && self.dma_irq_flag) || (self.cie & 0x40 != 0
            && self.timer_irq_flag) || (self.cie & 0x80 != 0 && self.sa1_irq_flag)
    }

    /// The main CPU's view of SA-1 status (SFR, $2300).
    pub open spec fn cpu_status_spec(self) -> u8 {
        (self.scnt & 0x5f) | (if self.chdma_irq_flag { 0x20u8 } else { 0 }) | (if self.cpu_irq_flag {
            0x80u8
        } else {
            0
        })
    }

    pub fn cpu_status(&self) -> (r: u8)
        ensures
            r == self.cpu_status_spec(),
    {
        (self.scnt & 0x5f) | (if self.chdma_irq_flag { 0x20u8 } else { 0 }) | (if self.cpu_irq_flag {
            0x80u8
        } else {
            0
        })
    }

    /// The SA-1 CPU's view of its own status (CFR, $2301).
    pub fn sa1_status(&self) -> (r: u8)
        ensures
            r == ((self.ccnt & 0x0f) | (if self.sa1_nmi_flag { 0x10u8 } else { 0 }) | (
            if self.dma_irq_flag {
                0x20u8
            } else {
                0
            }) | (if self.timer_irq_flag { 0x40u8 } else { 0 }) | (if self.sa1_irq_flag {
                0x80u8
            } else {
                0
            })),
    {
        (self.ccnt & 0x0f) | (if self.sa1_nmi_flag { 0x10u8 } else { 0 }) | (if self.dma_irq_flag {
            0x20u8
        } else {
            0
        }) | (if self.timer_irq_flag { 0x40u8 } else { 0 }) | (if self.sa1_irq_flag {
            0x80u8
        } else {
            0
        })
    }

    /// Runs the arithmetic unit on MA and MB: cumulative sum when bit 1 of
    /// MCNT is set, signed multiply when it is clear and bit 0 is clear, and
    /// signed-by-unsigned division (floor quotient, nonnegative remainder) otherwise.
    pub fn execute_arithmetic(&mut self)
        ensures
            *final(self) == old(self).after_arithmetic(),
    {
        if self.mcnt & 0x02 != 0 {
            let ma = (self.ma as i16) as i64;
            let mb = (self.mb as i16) as i64;
            assert(-0x4000_0000 <= ma * mb <= 0x4000_0000) by (nonlinear_arith)
                requires
                    -0x8000 <= ma < 0x8000,
                    -0x8000 <= mb < 0x8000,
            ;
            let product: i64 = ma * mb;
            let sum: i64 = (self.mr % 0x100_0000_0000) as i64 + product;
            self.overflow = !(-0x80_0000_0000i64 <= sum && sum < 0x80_0000_0000i64);
            let ghost s = sum as int;
            let folded: u64 = if sum >= 0 {
                (sum as u64) % 0x100_0000_0000
            } else {
                let magnitude = (-sum) as u64;
                let low = magnitude % 0x100_0000_0000;
                if low == 0 { 0 } else { 0x100_0000_0000 - low }
            };
            proof {
                if s < 0 {
                    let m = -s;
                    let low = m % 0x100_0000_0000;
                    let q = m / 0x100_0000_0000;
                    if low == 0 {
                        vstd::arithmetic::div_mod::lemma_fundamental_div_mod_converse(
                            s, 0x100_0000_0000, -q, 0);
                    } else {
                        vstd::arithmetic::div_mod::lemma_fundamental_div_mod_converse(
                            s, 0x100_0000_0000, -q - 1, 0x100_0000_0000 - low);
                    }
                }
            }
            self.mr = folded;
            self.mb = 0;
        } else if self.mcnt & 0x01 == 0 {
            let ma = (self.ma as i16) as i32;
            let mb = (self.mb as i16) as i32;
            assert(-0x4000_0000 <= ma * mb <= 0x4000_0000) by (nonlinear_arith)
                requires
                    -0x8000 <= ma < 0x8000,
                    -0x8000 <= mb < 0x8000,
            ;
            let product: i32 = ma * mb;
            self.mr = (product as u32) as u64;
            self.mb = 0;
        } else {
            if self.mb == 0 {
                self.mr = 0;
            } else {
                let dividend: i32 = (self.ma as i16) as i32;
                let divisor: u32 = self.mb as u32;
                let (quotient_low, remainder): (u32, u32) = if dividend >= 0 {
                    let d = dividend as u32;
                    let q = d / divisor;
                    let r = d % divisor;
                    proof {
                        vstd::arithmetic::div_mod::lemma_fundamental_div_mod(d as int, divisor as int);
                    }
                    (q % 0x1_0000, r)
                } else {
                    let a = (-dividend) as u32;
                    let c = (a + divisor - 1) / divisor;
                    proof {
                        let ai = a as int;
                        let di = divisor as int;
                        let n = ai + di - 1;
                        let ci = c as int;
                        vstd::arithmetic::div_mod::lemma_fundamental_div_mod(n, di);
                        assert(ci == n / di);
                        assert(ci * di >= ai && ci * di < ai + di && ci <= ai) by (nonlinear_arith)
                            requires
                                n == di * ci + n % di,
                                0 <= n % di < di,
                                n == ai + di - 1,
                                di >= 1,
                                ai >= 1,
                        ;
                    }
                    let r = c * divisor - a;
                    proof {
                        assert(a as int == -(dividend as int));
                        assert(dividend as int == (-(c as int)) * (divisor as int) + r as int)
                            by (nonlinear_arith)
                            requires
                                r as int == c as int * divisor as int - a as int,
                                a as int == -(dividend as int),
                        ;
                        assert(0 <= r < divisor);
                        vstd::arithmetic::div_mod::lemma_fundamental_div_mod_converse(
                            dividend as int, divisor as int, -(c as int), r as int);
                    }
                    ((0x1_0000 - c) % 0x1_0000, r)
                };
                self.mr = ((remainder as u64) * 0x1_0000) + quotient_low as u64;
            }
            self.ma = 0;
            self.mb = 0;
        }
    }

    /// Advances the SA-1 H/V timer by `cycles` cycles.
    pub fn tick_timer(&mut self, cycles: u32)
        ensures
            *final(self) == timer_ticks(*old(self), cycles as nat),
    {
        let mut done: u32 = 0;
        while done < cycles
            invariant
                done <= cycles,
                timer_ticks(*old(self), cycles as nat) == timer_ticks(*self, (cycles - done) as nat),
            decreases cycles - done,
        {
            self.timer_step();
            done = done + 1;
        }
    }

    /// One cycle of the H/V timer.
    #[verifier::rlimit(40)]
    fn timer_step(&mut self)
        ensures
            *final(self) == timer_tick(*old(self)),
    {
        let linear = self.timer_control & 0x80 != 0;
        let h_limit: u32 = if linear { 2048 } else { 1364 };
        let h0: u32 = (self.timer_h as u32 + 2) % 0x1_0000;
        let (h, v): (u32, u32) = if h0 >= h_limit {
            (
                h0 - h_limit,
                if linear {
                    (self.timer_v as u32 + 1) % 0x200
                } else {
                    (self.timer_v as u32 + 1) % 262
                },
            )
        } else {
            (h0, self.timer_v as u32)
        };
        let h_match = h == (self.hcnt as u32 * 4) % 0x1_0000;
        let v_match = v == self.vcnt as u32;
        let fire = if self.timer_control % 4 == 0 {
            false
        } else if self.timer_control % 4 == 1 {
            h_match
        } else if self.timer_control % 4 == 2 {
            v_match && h == 0
        } else {
            h_match && v_match
        };
        self.timer_h = h as u16;
        self.timer_v = v as u16;
        self.timer_irq_flag = self.timer_irq_flag || fire;
        assert(self.timer_h == timer_tick(*old(self)).timer_h);
        assert(self.timer_v == timer_tick(*old(self)).timer_v);
        assert(self.timer_irq_flag == timer_tick(*old(self)).timer_irq_flag);
    }
}

impl Default for Sa1State {
    fn default() -> (s: Self)
        ensures
            s.is_power_on(),
    {
        Self::new()
    }
}


/// A 16-bit register with its low byte replaced.
pub open spec fn with_low_byte(x: u16, v: u8) -> u16 {
    ((x as int / 0x100) * 0x100 + v as int) as u16
}

/// A 16-bit register with its high byte replaced.
pub open spec fn with_high_byte(x: u16, v: u8) -> u16 {
    (x as int % 0x100 + v as int * 0x100) as u16
}

/// A 24-bit address register (bits above 23 dropped) with byte `k` replaced.
pub open spec fn with_byte24(x: u32, k: int, v: u8) -> u32 {
    let low24 = x as int % 0x100_0000;
    if k == 0 {
        ((low24 / 0x100) * 0x100 + v as int) as u32
    } else if k == 1 {
        (low24 - ((low24 / 0x100) % 0x100) * 0x100 + v as int * 0x100) as u32
    } else {
        (low24 % 0x1_0000 + v as int * 0x1_0000) as u32
    }
}

pub fn set_low_byte(x: u16, v: u8) -> (r: u16)
    ensures
        r == with_low_byte(x, v),
{
    (x / 0x100) * 0x100 + v as u16
}

pub fn set_high_byte(x: u16, v: u8) -> (r: u16)
    ensures
        r == with_high_byte(x, v),
{
    x % 0x100 + v as u16 * 0x100
}

pub fn set_byte24(x: u32, k: u8, v: u8) -> (r: u32)
    requires
        k < 3,
    ensures
        r == with_byte24(x, k as int, v),
        r < 0x100_0000,
{
    let low24 = x % 0x100_0000;
    if k == 0 {
        (low24 / 0x100) * 0x100 + v as u32
    } else if k == 1 {
        low24 - ((low24 / 0x100) % 0x100) * 0x100 + v as u32 * 0x100
    } else {
        low24 % 0x1_0000 + v as u32 * 0x1_0000
    }
}

impl Sa1State {
    /// The 24-bit address registers hold 24-bit values.
    pub open spec fn wf(&self) -> bool {
        self.dsa < 0x100_0000 && self.dda < 0x100_0000
    }

    /// Writes that the main CPU makes to a scalar SA-1 register in $2200-$2239
    /// (bank registers $2220-$2223 aside).
    pub open spec fn after_cpu_register(self, register: u16, value: u8) -> Sa1State {
        if register <= 0x2202 {
            self.after_cpu_control(register, value)
        } else if register <= 0x2208 {
            self.after_cpu_vector(register, value)
        } else if register <= 0x2231 {
            self.after_cpu_mapping(register, value)
        } else {
            self.after_cpu_dma_address(register, value)
        }
    }

    pub open spec fn after_cpu_control(self, register: u16, value: u8) -> Sa1State {
        if register == 0x2200 {
            Sa1State {
                release_pending: self.release_pending || (self.ccnt & 0x20 != 0 && value & 0x20 == 0),
                ccnt: value,
                sa1_nmi_flag: self.sa1_nmi_flag || value & 0x10 != 0,
                sa1_irq_flag: self.sa1_irq_flag || value & 0x80 != 0,
                ..self
            }
        } else if register == 0x2201 {
            Sa1State { sie: value & 0xa0, ..self }
        } else if register == 0x2202 {
            Sa1State {
                chdma_irq_flag: self.chdma_irq_flag && value & 0x20 == 0,
                cpu_irq_flag: self.cpu_irq_flag && value & 0x80 == 0,
                ..self
            }
        } else {
            self
        }
    }

    pub open spec fn after_cpu_vector(self, register: u16, value: u8) -> Sa1State {
        if register == 0x2203 {
            Sa1State { crv: with_low_byte(self.crv, value), ..self }
        } else if register == 0x2204 {
            Sa1State { crv: with_high_byte(self.crv, value), ..self }
        } else if register == 0x2205 {
            Sa1State { cnv: with_low_byte(self.cnv, value), ..self }
        } else if register == 0x2206 {
            Sa1State { cnv: with_high_byte(self.cnv, value), ..self }
        } else if register == 0x2207 {
            Sa1State { civ: with_low_byte(self.civ, value), ..self }
        } else if register == 0x2208 {
            Sa1State { civ: with_high_byte(self.civ, value), ..self }
        } else {
            self
        }
    }

    pub open spec fn after_cpu_mapping(self, register: u16, value: u8) -> Sa1State {
        if register == 0x2224 {
            Sa1State { bmaps: value % 0x20, ..self }
        } else if register == 0x2226 {
            Sa1State { swen: value & 0x80 != 0, ..self }
        } else if register == 0x2228 {
            Sa1State { bwp: value % 0x10, ..self }
        } else if register == 0x2229 {
            Sa1State { siwp: value, ..self }
        } else if register == 0x2231 {
            Sa1State { cdma: value, ..self }
        } else {
            self
        }
    }

    /// Writes to the DMA source ($2232-$2234) and destination ($2235-$2237) registers.
    pub open spec fn after_cpu_dma_address(self, register: u16, value: u8) -> Sa1State {
        if register == 0x2232 {
            Sa1State { dsa: with_byte24(self.dsa, 0, value), ..self }
        } else if register == 0x2233 {
            Sa1State { dsa: with_byte24(self.dsa, 1, value), ..self }
        } else if register == 0x2234 {
            Sa1State { dsa: with_byte24(self.dsa, 2, value), ..self }
        } else if register == 0x2235 {
            Sa1State { dda: with_byte24(self.dda, 0, value), ..self }
        } else if register == 0x2236 {
            Sa1State { dda: with_byte24(self.dda, 1, value), ..self }
        } else if register == 0x2237 {
            Sa1State { dda: with_byte24(self.dda, 2, value), ..self }
        } else {
            self
        }
    }

    /// Writes that the SA-1 CPU makes to a scalar register of its own
    /// ($2209-$225B, the bit-map register file $2240-$224F aside).
    pub open spec fn after_sa1_register(self, register: u16, value: u8) -> Sa1State {
        if register <= 0x220f {
            self.after_sa1_control(register, value)
        } else if register <= 0x2215 {
            self.after_sa1_timer(register, value)
        } else if register <= 0x2231 {
            self.after_sa1_mapping(register, value)
        } else if register <= 0x2237 {
            self.after_cpu_dma_address(register, value)
        } else if register <= 0x223f {
            self.after_sa1_dma_control(register, value)
        } else if register <= 0x2253 {
            self.after_sa1_math(register, value)
        } else {
            self.after_sa1_variable_length(register, value)
        }
    }

    pub open spec fn after_sa1_control(self, register: u16, value: u8) -> Sa1State {
        if register == 0x2209 {
            Sa1State { scnt: value, cpu_irq_flag: self.cpu_irq_flag || value & 0x80 != 0, ..self }
        } else if register == 0x220a {
            Sa1State { cie: value & 0xf0, ..self }
        } else if register == 0x220b {
            Sa1State {
                sa1_nmi_flag: self.sa1_nmi_flag && value & 0x10 == 0,
                dma_irq_flag: self.dma_irq_flag && value & 0x20 == 0,
                timer_irq_flag: self.timer_irq_flag && value & 0x40 == 0,
                sa1_irq_flag: self.sa1_irq_flag && value & 0x80 == 0,
                ..self
            }
        } else if register == 0x220c {
            Sa1State { snv: with_low_byte(self.snv, value), ..self }
        } else if register == 0x220d {
            Sa1State { snv: with_high_byte(self.snv, value), ..self }
        } else if register == 0x220e {
            Sa1State { siv: with_low_byte(self.siv, value), ..self }
        } else if register == 0x220f {
            Sa1State { siv: with_high_byte(self.siv, value), ..self }
        } else {
            self
        }
    }

    pub open spec fn after_sa1_timer(self, register: u16, value: u8) -> Sa1State {
        if register == 0x2210 {
            Sa1State { timer_control: value, ..self }
        } else if register == 0x2211 {
            Sa1State { hcnt: 0, vcnt: 0, ..self }
        } else if register == 0x2212 {
            Sa1State { hcnt: with_low_byte(self.hcnt, value), ..self }
        } else if register == 0x2213 {
            Sa1State { hcnt: with_high_byte(self.hcnt, value), ..self }
        } else if register == 0x2214 {
            Sa1State { vcnt: with_low_byte(self.vcnt, value), ..self }
        } else if register == 0x2215 {
            Sa1State { vcnt: with_high_byte(self.vcnt, value), ..self }
        } else {
            self
        }
    }

    pub open spec fn after_sa1_mapping(self, register: u16, value: u8) -> Sa1State {
        if register == 0x2225 {
            Sa1State { bmap: value, ..self }
        } else if register == 0x2227 {
            Sa1State { cwen: value & 0x80 != 0, ..self }
        } else if register == 0x222a {
            Sa1State { ciwp: value, ..self }
        } else if register == 0x2230 {
            Sa1State { dcnt: value, ..self }
        } else if register == 0x2231 {
            Sa1State { cdma: value, ..self }
        } else {
            self
        }
    }

    pub open spec fn after_sa1_dma_control(self, register: u16, value: u8) -> Sa1State {
        if register == 0x2238 {
            Sa1State { dtc: with_low_byte(self.dtc, value), ..self }
        } else if register == 0x2239 {
            Sa1State { dtc: with_high_byte(self.dtc, value), ..self }
        } else if register == 0x223f {
            Sa1State { bbf: value & 0x80 != 0, ..self }
        } else {
            self
        }
    }

    pub open spec fn after_sa1_math(self, register: u16, value: u8) -> Sa1State {
        if register == 0x2250 {
            Sa1State {
                mcnt: value % 4,
                mr: if value & 2 != 0 { 0 } else { self.mr },
                overflow: if value & 2 != 0 { false } else { self.overflow },
                ..self
            }
        } else if register == 0x2251 {
            Sa1State { ma: with_low_byte(self.ma, value), ..self }
        } else if register == 0x2252 {
            Sa1State { ma: with_high_byte(self.ma, value), ..self }
        } else if register == 0x2253 {
            Sa1State { mb: with_low_byte(self.mb, value), ..self }
        } else {
            self
        }
    }

    pub open spec fn after_sa1_variable_length(self, register: u16, value: u8) -> Sa1State {
        if register == 0x2258 {
            Sa1State { vbd: value, ..self }
        } else if register == 0x2259 {
            Sa1State { va: with_byte24(self.va, 0, value), ..self }
        } else if register == 0x225a {
            Sa1State { va: with_byte24(self.va, 1, value), ..self }
        } else if register == 0x225b {
            Sa1State { va: with_byte24(self.va, 2, value), vbit: 0, ..self }
        } else {
            self
        }
    }

    /// The value an SA-1 register read ($2301-$230B) returns.
    pub open spec fn sa1_register_read(self, register: u16) -> u8 {
        if register == 0x2301 {
            (self.ccnt & 0x0f) | (if self.sa1_nmi_flag { 0x10u8 } else { 0 }) | (
            if self.dma_irq_flag {
                0x20u8
            } else {
                0
            }) | (if self.timer_irq_flag { 0x40u8 } else { 0 }) | (if self.sa1_irq_flag {
                0x80u8
            } else {
                0
            })
        } else if register == 0x2302 {
            (self.hcnt % 0x100) as u8
        } else if register == 0x2303 {
            (self.hcnt / 0x100) as u8
        } else if register == 0x2304 {
            (self.vcnt % 0x100) as u8
        } else if register == 0x2305 {
            (self.vcnt / 0x100) as u8
        } else if 0x2306 <= register <= 0x230a {
            ((self.mr as int / crate::bytes::pow256(register - 0x2306)) % 0x100) as u8
        } else if register == 0x230b {
            if self.overflow { 0x80 } else { 0 }
        } else {
            0xff
        }
    }
}


impl Sa1State {
    /// Applies a main-CPU write to a scalar SA-1 register.
    pub fn write_cpu_register(&mut self, register: u16, value: u8)
        ensures
            *final(self) == old(self).after_cpu_register(register, value),
            old(self).wf() ==> final(self).wf(),
    {
        if register <= 0x2202 {
            self.write_cpu_control(register, value);
        } else if register <= 0x2208 {
            self.write_cpu_vector(register, value);
        } else if register <= 0x2231 {
            self.write_cpu_mapping(register, value);
        } else {
            self.write_dma_address(register, value);
        }
    }

    fn write_cpu_control(&mut self, register: u16, value: u8)
        ensures
            *final(self) == old(self).after_cpu_control(register, value),
    {
        if register == 0x2200 {
            self.release_pending = self.release_pending || (self.ccnt & 0x20 != 0 && value & 0x20
                == 0);
            self.ccnt = value;
            self.sa1_nmi_flag = self.sa1_nmi_flag || value & 0x10 != 0;
            self.sa1_irq_flag = self.sa1_irq_flag || value & 0x80 != 0;
        } else if register == 0x2201 {
            self.sie = value & 0xa0;
        } else if register == 0x2202 {
            self.chdma_irq_flag = self.chdma_irq_flag && value & 0x20 == 0;
            self.cpu_irq_flag = self.cpu_irq_flag && value & 0x80 == 0;
        }
    }

    fn write_cpu_vector(&mut self, register: u16, value: u8)
        ensures
            *final(self) == old(self).after_cpu_vector(register, value),
    {
        if register == 0x2203 {
            self.crv = set_low_byte(self.crv, value);
        } else if register == 0x2204 {
            self.crv = set_high_byte(self.crv, value);
        } else if register == 0x2205 {
            self.cnv = set_low_byte(self.cnv, value);
        } else if register == 0x2206 {
            self.cnv = set_high_byte(self.cnv, value);
        } else if register == 0x2207 {
            self.civ = set_low_byte(self.civ, value);
        } else if register == 0x2208 {
            self.civ = set_high_byte(self.civ, value);
        }
    }

    fn write_cpu_mapping(&mut self, register: u16, value: u8)
        ensures
            *final(self) == old(self).after_cpu_mapping(register, value),
    {
        if register == 0x2224 {
            self.bmaps = value % 0x20;
        } else if register == 0x2226 {
            self.swen = value & 0x80 != 0;
        } else if register == 0x2228 {
            self.bwp = value % 0x10;
        } else if register == 0x2229 {
            self.siwp = value;
        } else if register == 0x2231 {
            self.cdma = value;
        }
    }

    /// Writes one byte of the DMA source or destination address register.
    fn write_dma_address(&mut self, register: u16, value: u8)
        ensures
            *final(self) == old(self).after_cpu_dma_address(register, value),
            old(self).wf() ==> final(self).wf(),
    {
        if register == 0x2232 {
            self.dsa = set_byte24(self.dsa, 0, value);
        } else if register == 0x2233 {
            self.dsa = set_byte24(self.dsa, 1, value);
        } else if register == 0x2234 {
            self.dsa = set_byte24(self.dsa, 2, value);
        } else if register == 0x2235 {
            self.dda = set_byte24(self.dda, 0, value);
        } else if register == 0x2236 {
            self.dda = set_byte24(self.dda, 1, value);
        } else if register == 0x2237 {
            self.dda = set_byte24(self.dda, 2, value);
        }
    }

    /// Applies an SA-1 CPU write to a scalar register of its own.
    pub fn write_sa1_register(&mut self, register: u16, value: u8)
        ensures
            *final(self) == old(self).after_sa1_register(register, value),
            old(self).wf() ==> final(self).wf(),
    {
        if register <= 0x220f {
            self.write_sa1_control(register, value);
        } else if register <= 0x2215 {
            self.write_sa1_timer(register, value);
        } else if register <= 0x2231 {
            self.write_sa1_mapping(register, value);
        } else if register <= 0x2237 {
            self.write_dma_address(register, value);
        } else if register <= 0x223f {
            self.write_sa1_dma_control(register, value);
        } else if register <= 0x2253 {
            self.write_sa1_math(register, value);
        } else {
            self.write_sa1_variable_length(register, value);
        }
    }

    fn write_sa1_control(&mut self, register: u16, value: u8)
        ensures
            *final(self) == old(self).after_sa1_control(register, value),
    {
        if register == 0x2209 {
            self.scnt = value;
            self.cpu_irq_flag = self.cpu_irq_flag || value & 0x80 != 0;
        } else if register == 0x220a {
            self.cie = value & 0xf0;
        } else if register == 0x220b {
            self.sa1_nmi_flag = self.sa1_nmi_flag && value & 0x10 == 0;
            self.dma_irq_flag = self.dma_irq_flag && value & 0x20 == 0;
            self.timer_irq_flag = self.timer_irq_flag && value & 0x40 == 0;
            self.sa1_irq_flag = self.sa1_irq_flag && value & 0x80 == 0;
        } else if register == 0x220c {
            self.snv = set_low_byte(self.snv, value);
        } else if register == 0x220d {
            self.snv = set_high_byte(self.snv, value);
        } else if register == 0x220e {
            self.siv = set_low_byte(self.siv, value);
        } else if register == 0x220f {
            self.siv = set_high_byte(self.siv, value);
        }
    }

    fn write_sa1_timer(&mut self, register: u16, value: u8)
        ensures
            *final(self) == old(self).after_sa1_timer(register, value),
    {
        if register == 0x2210 {
            self.timer_control = value;
        } else if register == 0x2211 {
            self.hcnt = 0;
            self.vcnt = 0;
        } else if register == 0x2212 {
            self.hcnt = set_low_byte(self.hcnt, value);
        } else if register == 0x2213 {
            self.hcnt = set_high_byte(self.hcnt, value);
        } else if register == 0x2214 {
            self.vcnt = set_low_byte(self.vcnt, value);
        } else if register == 0x2215 {
            self.vcnt = set_high_byte(self.vcnt, value);
        }
    }

    fn write_sa1_mapping(&mut self, register: u16, value: u8)
        ensures
            *final(self) == old(self).after_sa1_mapping(register, value),
    {
        if register == 0x2225 {
            self.bmap = value;
        } else if register == 0x2227 {
            self.cwen = value & 0x80 != 0;
        } else if register == 0x222a {
            self.ciwp = value;
        } else if register == 0x2230 {
            self.dcnt = value;
        } else if register == 0x2231 {
            self.cdma = value;
        }
    }

    fn write_sa1_dma_control(&mut self, register: u16, value: u8)
        ensures
            *final(self) == old(self).after_sa1_dma_control(register, value),
    {
        if register == 0x2238 {
            self.dtc = set_low_byte(self.dtc, value);
        } else if register == 0x2239 {
            self.dtc = set_high_byte(self.dtc, value);
        } else if register == 0x223f {
            self.bbf = value & 0x80 != 0;
        }
    }

    fn write_sa1_math(&mut self, register: u16, value: u8)
        ensures
            *final(self) == old(self).after_sa1_math(register, value),
    {
        if register == 0x2250 {
            self.mcnt = value % 4;
            if value & 2 != 0 {
                self.mr = 0;
                self.overflow = false;
            }
        } else if register == 0x2251 {
            self.ma = set_low_byte(self.ma, value);
        } else if register == 0x2252 {
            self.ma = set_high_byte(self.ma, value);
        } else if register == 0x2253 {
            self.mb = set_low_byte(self.mb, value);
        }
    }

    fn write_sa1_variable_length(&mut self, register: u16, value: u8)
        ensures
            *final(self) == old(self).after_sa1_variable_length(register, value),
    {
        if register == 0x2258 {
            self.vbd = value;
        } else if register == 0x2259 {
            self.va = set_byte24(self.va, 0, value);
        } else if register == 0x225a {
            self.va = set_byte24(self.va, 1, value);
        } else if register == 0x225b {
            self.va = set_byte24(self.va, 2, value);
            self.vbit = 0;
        }
    }

    /// Reads an SA-1 register from the SA-1 side ($2301-$230B; $FF elsewhere).
    pub fn read_sa1_register(&self, register: u16) -> (r: u8)
        ensures
            r == self.sa1_register_read(register),
    {
        proof {
            reveal_with_fuel(crate::bytes::pow256, 5);
        }
        if register == 0x2301 {
            self.sa1_status()
        } else if register == 0x2302 {
            (self.hcnt % 0x100) as u8
        } else if register == 0x2303 {
            (self.hcnt / 0x100) as u8
        } else if register == 0x2304 {
            (self.vcnt % 0x100) as u8
        } else if register == 0x2305 {
            (self.vcnt / 0x100) as u8
        } else if 0x2306 <= register && register <= 0x230a {
            let k = register - 0x2306;
            let divisor: u64 = if k == 0 {
                1
            } else if k == 1 {
                0x100
            } else if k == 2 {
                0x1_0000
            } else if k == 3 {
                0x100_0000
            } else {
                0x1_0000_0000
            };
            ((self.mr / divisor) % 0x100) as u8
        } else if register == 0x230b {
            if self.overflow { 0x80 } else { 0 }
        } else {
            0xff
        }
    }
}


impl Sa1State {
    /// A main-CPU write to SA-1 register `register` ($2200-$2239): the ROM bank
    /// registers $2220-$2223 keep bits 7 and 0-2, the rest go through
    /// `after_cpu_register`.
    pub open spec fn after_cpu_io(self, register: u16, value: u8) -> Sa1State {
        if 0x2220 <= register <= 0x2223 {
            Sa1State { banks: spec_array_update(self.banks, register - 0x2220, value & 0x87), ..self }
        } else {
            self.after_cpu_register(register, value)
        }
    }

    /// An SA-1 CPU write to one of its own registers: the bit-map register
    /// file $2240-$224F stores the byte, MB's high byte starts the arithmetic
    /// unit, the rest go through `after_sa1_register`.
    pub open spec fn after_sa1_io(self, register: u16, value: u8) -> Sa1State {
        if 0x2240 <= register <= 0x224f {
            Sa1State { brf: spec_array_update(self.brf, register - 0x2240, value), ..self }
        } else if register == 0x2254 {
            Sa1State { mb: with_high_byte(self.mb, value), ..self }.after_arithmetic()
        } else {
            self.after_sa1_register(register, value)
        }
    }

    /// Applies a main-CPU register write.
    pub fn write_cpu_io(&mut self, register: u16, value: u8)
        ensures
            *final(self) == old(self).after_cpu_io(register, value),
            old(self).wf() ==> final(self).wf(),
    {
        if 0x2220 <= register && register <= 0x2223 {
            self.banks[(register - 0x2220) as usize] = value & 0x87;
            assert(self.banks =~= spec_array_update(old(self).banks, register - 0x2220, value
                & 0x87));
        } else {
            self.write_cpu_register(register, value);
        }
    }

    /// Applies an SA-1 CPU register write.
    pub fn write_sa1_io(&mut self, register: u16, value: u8)
        ensures
            *final(self) == old(self).after_sa1_io(register, value),
            old(self).wf() ==> final(self).wf(),
    {
        if 0x2240 <= register && register <= 0x224f {
            self.brf[(register - 0x2240) as usize] = value;
            assert(self.brf =~= spec_array_update(old(self).brf, register - 0x2240, value));
        } else if register == 0x2254 {
            self.mb = set_high_byte(self.mb, value);
            self.execute_arithmetic();
        } else {
            self.write_sa1_register(register, value);
        }
    }
}

/// A divide (MCNT bit 1 clear, bit 0 set) by a nonzero MB puts the quotient
/// of MA, read as signed, by MB, read as unsigned, rounded down, in MR's
/// low 16 bits (two's complement) and the nonnegative remainder in bits
/// 16-31; nothing is left above bit 31, and MA and MB are cleared.
pub proof fn divide_leaves_quotient_low_and_remainder_high(s: Sa1State)
    requires
        s.mcnt & 0x02 == 0,
        s.mcnt & 0x01 != 0,
        s.mb != 0,
    ensures
        s.after_arithmetic().mr < 0x1_0000_0000,
        s.after_arithmetic().overflow == s.overflow,
        s.after_arithmetic().mr as int % 0x1_0000 == ((s.ma as i16) as int / s.mb as int) % 0x1_0000,
        s.after_arithmetic().mr as int / 0x1_0000 == (s.ma as i16) as int % s.mb as int,
        0 <= s.after_arithmetic().mr as int / 0x1_0000 < s.mb,
        (s.ma as i16) as int == ((s.ma as i16) as int / s.mb as int) * s.mb as int + s.after_arithmetic().mr as int
            / 0x1_0000,
        s.after_arithmetic().ma == 0,
        s.after_arithmetic().mb == 0,
{
    let n = (s.ma as i16) as int;
    let d = s.mb as int;
    let q = n / d;
    let r = n % d;
    vstd::arithmetic::div_mod::lemma_fundamental_div_mod(n, d);
    vstd::arithmetic::div_mod::lemma_mod_bound(n, d);
    vstd::arithmetic::div_mod::lemma_mod_bound(q, 0x1_0000);
    let low = q % 0x1_0000;
    let v = r * 0x1_0000 + low;
    assert(0 <= v < 0x1_0000_0000) by (nonlinear_arith)
        requires
            0 <= r < d,
            d <= 0xffff,
            0 <= low < 0x1_0000,
            v == r * 0x1_0000 + low,
    ;
    assert(s.after_arithmetic().mr as int == v);
    vstd::arithmetic::div_mod::lemma_fundamental_div_mod_converse(v, 0x1_0000, r, low);
}

/// A divide by zero leaves MR clear, and MA and MB cleared.
pub proof fn divide_by_zero_clears_result(s: Sa1State)
    requires
        s.mcnt & 0x02 == 0,
        s.mcnt & 0x01 != 0,
        s.mb == 0,
    ensures
        s.after_arithmetic().mr == 0,
        s.after_arithmetic().ma == 0,
        s.after_arithmetic().mb == 0,
        s.after_arithmetic().overflow == s.overflow,
{
}

proof fn lemma_product_word(ma: u16, mb: u16)
    by (bit_vector)
    ensures
        ((((ma as i16) as int) * ((mb as i16) as int)) as u32) as int == (((ma as i16) as int) * ((mb as i16) as int))
            + (if (((ma as i16) as int) * ((mb as i16) as int)) < 0 { 0x1_0000_0000int } else { 0int }),
{
}

/// A multiply (MCNT bits 0 and 1 clear) leaves the product of MA and MB,
/// both read as signed, in MR as a 32-bit two's-complement word, clears MB
/// and keeps MA.
pub proof fn multiply_leaves_signed_product(s: Sa1State)
    requires
        s.mcnt & 0x02 == 0,
        s.mcnt & 0x01 == 0,
    ensures
        s.after_arithmetic().mr as int == signed_product(s.ma, s.mb) + (if signed_product(s.ma, s.mb) < 0 {
            0x1_0000_0000int
        } else {
            0int
        }),
        signed_product(s.ma, s.mb) == ((s.ma as i16) as int) * ((s.mb as i16) as int),
        s.after_arithmetic().ma == s.ma,
        s.after_arithmetic().mb == 0,
{
    lemma_product_word(s.ma, s.mb);
}

} // verus!
