//! SNES system bus state: work RAM and its port, DMA channel registers,
//! NMI flags and the controller shift registers, over a parsed cartridge;
//! and the machine built around it.
use vstd::prelude::*;
use crate::input::{InputState, DOWN, FACE_EAST, FACE_NORTH, FACE_SOUTH, FACE_WEST, L1, LEFT, R1, RIGHT, SELECT, START, UP};
use crate::snes_cartridge::SnesCartridge;

verus! {

pub const WRAM_SIZE: usize = 128 * 1024;

pub struct SnesBus {
    pub cartridge: SnesCartridge,
    pub wram: Vec<u8>,
    pub dma: [[u8; 16]; 8],
    pub hdma_enable: u8,
    pub hdma_active: u8,
    pub hdma_lines: [u8; 8],
    pub hdma_repeat: [bool; 8],
    pub hdma_transfer: [bool; 8],
    pub nmitimen: u8,
    pub rdnmi: bool,
    pub nmi_pending: bool,
    pub joy_strobe: bool,
    pub joy_latched: [u16; 2],
    pub joy_shift: [u16; 2],
    pub wram_addr: u32,
    pub dot_phase: u32,
}

/// Bit `bit` set when `mask` is held.
pub open spec fn button_bit(buttons: u64, mask: u64, bit: int) -> int {
    if buttons & mask != 0 {
        vstd::arithmetic::power2::pow2(bit as nat) as int
    } else {
        0
    }
}

/// The SNES controller word for a button set: B, Y, Select, Start, Up,
/// Down, Left, Right, A, X, L, R in bits 0-11.
pub open spec fn snes_buttons_spec(buttons: u64) -> u16 {
    (button_bit(buttons, FACE_SOUTH, 0) + button_bit(buttons, FACE_WEST, 1) + button_bit(buttons, SELECT, 2)
        + button_bit(buttons, START, 3) + button_bit(buttons, UP, 4) + button_bit(buttons, DOWN, 5)
        + button_bit(buttons, LEFT, 6) + button_bit(buttons, RIGHT, 7) + button_bit(buttons, FACE_EAST, 8)
        + button_bit(buttons, FACE_NORTH, 9) + button_bit(buttons, L1, 10) + button_bit(buttons, R1, 11)) as u16
}

fn bit_if(buttons: u64, mask: u64, value: u16, bit: Ghost<int>) -> (r: u16)
    requires
        0 <= bit@ < 16,
        value == vstd::arithmetic::power2::pow2(bit@ as nat),
    ensures
        r == button_bit(buttons, mask, bit@),
{
    if buttons & mask != 0 {
        value
    } else {
        0
    }
}

/// The SNES controller word for a button set.
pub fn snes_buttons(buttons: u64) -> (r: u16)
    ensures
        r == snes_buttons_spec(buttons),
{
    proof {
        vstd::arithmetic::power2::lemma2_to64();
    }
    bit_if(buttons, FACE_SOUTH, 1, Ghost(0)) + bit_if(buttons, FACE_WEST, 2, Ghost(1)) + bit_if(buttons, SELECT, 4, Ghost(2))
        + bit_if(buttons, START, 8, Ghost(3)) + bit_if(buttons, UP, 0x10, Ghost(4)) + bit_if(buttons, DOWN, 0x20, Ghost(5))
        + bit_if(buttons, LEFT, 0x40, Ghost(6)) + bit_if(buttons, RIGHT, 0x80, Ghost(7))
        + bit_if(buttons, FACE_EAST, 0x100, Ghost(8)) + bit_if(buttons, FACE_NORTH, 0x200, Ghost(9))
        + bit_if(buttons, L1, 0x400, Ghost(10)) + bit_if(buttons, R1, 0x800, Ghost(11))
}

/// A controller shift register after `k` serial reads: each read shifts
/// right and fills with a one.
pub open spec fn joy_shifted(word: u16, k: nat) -> u16
    decreases k,
{
    if k == 0 {
        word
    } else {
        (joy_shifted(word, (k - 1) as nat) / 2 + 0x8000) as u16
    }
}

proof fn lemma_joy_shift_step(word: u16, x: u16, k: u16)
    by (bit_vector)
    requires
        k < 16,
        x == (word >> k) | !(0xffffu16 >> k),
    ensures
        x / 2 + 0x8000 == (word >> ((k + 1) as u16)) | !(0xffffu16 >> ((k + 1) as u16)),
{
}

proof fn lemma_joy_shifted_form(word: u16, k: nat)
    requires
        k <= 16,
    ensures
        joy_shifted(word, k) == (word >> (k as u16)) | !(0xffffu16 >> (k as u16)),
    decreases k,
{
    if k == 0 {
        assert((word >> 0u16) | !(0xffffu16 >> 0u16) == word) by (bit_vector);
    } else {
        lemma_joy_shifted_form(word, (k - 1) as nat);
        lemma_joy_shift_step(word, joy_shifted(word, (k - 1) as nat), (k - 1) as u16);
    }
}

/// The serial reads of a latched controller word give its bits from bit 0
/// up, then ones once all sixteen have gone.
pub proof fn joypad_serializes_low_bit_first(word: u16, k: nat)
    ensures
        joy_shifted(word, k) % 2 == (if k < 16 { (word >> (k as u16)) & 1 } else { 1 }),
    decreases k,
{
    if k <= 16 {
        lemma_joy_shifted_form(word, k);
        let x = joy_shifted(word, k);
        let kk = k as u16;
        if k < 16 {
            assert(((word >> kk) | !(0xffffu16 >> kk)) % 2 == (word >> kk) & 1) by (bit_vector)
                requires
                    kk < 16,
            ;
        } else {
            assert(((word >> kk) | !(0xffffu16 >> kk)) % 2 == 1) by (bit_vector)
                requires
                    kk == 16,
            ;
        }
    } else {
        joypad_serializes_low_bit_first(word, (k - 1) as nat);
        let p = joy_shifted(word, (k - 1) as nat);
        assert((p / 2 + 0x8000) % 2 == (p / 2) % 2);
        lemma_joy_shifted_form(word, 16);
        lemma_all_ones_stay(word, (k - 1) as nat);
    }
}

proof fn lemma_all_ones_stay(word: u16, k: nat)
    requires
        k >= 16,
    ensures
        joy_shifted(word, k) == 0xffff,
    decreases k,
{
    if k == 16 {
        lemma_joy_shifted_form(word, 16);
        assert((word >> 16u16) | !(0xffffu16 >> 16u16) == 0xffff) by (bit_vector);
    } else {
        lemma_all_ones_stay(word, (k - 1) as nat);
    }
}

/// Banks $00-$3F and $80-$BF.
pub open spec fn is_low_bank(bank: int) -> bool {
    bank <= 0x3f || (0x80 <= bank <= 0xbf)
}

/// The work-RAM byte a bus address reaches: banks $7E-$7F, and the first
/// 8 KiB of the low banks.
pub open spec fn wram_index_spec(address: u32) -> Option<int> {
    let bank = address as int / 0x1_0000 % 0x100;
    let offset = address as int % 0x1_0000;
    if bank == 0x7e {
        Some(offset)
    } else if bank == 0x7f {
        Some(0x1_0000 + offset)
    } else if is_low_bank(bank) && offset < 0x2000 {
        Some(offset)
    } else {
        None
    }
}

/// The B-bus register offset of transfer unit `index` in DMA mode `mode`.
pub open spec fn dma_b_offset_spec(mode: u8, index: int) -> u8 {
    let m = mode as int % 8;
    let i = index % 4;
    if m == 1 || m == 5 {
        (i % 2) as u8
    } else if m == 3 || m == 7 {
        (i / 2) as u8
    } else if m == 4 {
        i as u8
    } else {
        0
    }
}

/// Bytes per transfer unit in DMA mode `mode`.
pub open spec fn dma_pattern_len_spec(mode: u8) -> usize {
    let m = mode as int % 8;
    if m == 0 {
        1
    } else if m == 1 || m == 2 || m == 6 {
        2
    } else {
        4
    }
}

/// The A-bus offset of a general DMA after `i` bytes: fixed, counting down
/// or counting up (wrapping within the bank).
pub open spec fn dma_a_offset(regs: [u8; 16], i: int) -> u16 {
    let start = regs[2] as int + regs[3] as int * 0x100;
    if regs[0] & 0x08 != 0 {
        start as u16
    } else if regs[0] & 0x10 != 0 {
        ((start - i) % 0x1_0000) as u16
    } else {
        ((start + i) % 0x1_0000) as u16
    }
}

/// Bytes a general DMA moves: the byte-count register, 0 meaning 65536.
pub open spec fn dma_count(regs: [u8; 16]) -> int {
    let encoded = regs[5] as int + regs[6] as int * 0x100;
    if encoded == 0 {
        0x1_0000
    } else {
        encoded
    }
}

/// Byte `i` of a general DMA as (source, destination) bus addresses: the
/// A-bus address in the channel's bank and the B-bus register of the
/// transfer pattern, in the direction the control register picks.
pub open spec fn dma_move(regs: [u8; 16], i: int) -> (u32, u32) {
    let control = regs[0];
    let b = ((0x2100 + regs[1] as int + dma_b_offset_spec(control, i % dma_pattern_len_spec(control) as int) as int)
        % 0x1_0000) as u32;
    let a = (regs[4] as int * 0x1_0000 + dma_a_offset(regs, i) as int) as u32;
    if control & 0x80 != 0 {
        (b, a)
    } else {
        (a, b)
    }
}


pub fn low_bank(bank: u8) -> (r: bool)
    ensures
        r == is_low_bank(bank as int),
{
    bank <= 0x3f || (0x80 <= bank && bank <= 0xbf)
}

pub fn wram_index(address: u32) -> (r: Option<usize>)
    ensures
        r matches Some(i) ==> wram_index_spec(address) == Some(i as int) && i < WRAM_SIZE,
        r is None ==> wram_index_spec(address) is None,
{
    let bank = (address / 0x1_0000 % 0x100) as u8;
    let offset = (address % 0x1_0000) as usize;
    if bank == 0x7e {
        Some(offset)
    } else if bank == 0x7f {
        Some(0x1_0000 + offset)
    } else if low_bank(bank) && offset < 0x2000 {
        Some(offset)
    } else {
        None
    }
}

/// The B-bus register offset of transfer unit `index` in DMA mode `mode`.
pub fn dma_b_offset(mode: u8, index: usize) -> (r: u8)
    ensures
        r == dma_b_offset_spec(mode, index as int),
{
    let m = mode % 8;
    let i = index % 4;
    if m == 1 || m == 5 {
        (i % 2) as u8
    } else if m == 3 || m == 7 {
        (i / 2) as u8
    } else if m == 4 {
        i as u8
    } else {
        0
    }
}

/// Bytes per transfer unit in DMA mode `mode`.
pub fn dma_pattern_len(mode: u8) -> (r: usize)
    ensures
        r == dma_pattern_len_spec(mode),
{
    let m = mode % 8;
    if m == 0 {
        1
    } else if m == 1 || m == 2 || m == 6 {
        2
    } else {
        4
    }
}

impl SnesBus {
    pub open spec fn wf(&self) -> bool {
        self.cartridge.wf() && self.wram@.len() == WRAM_SIZE
    }

    /// The bus at power-on around `cartridge`: cleared work RAM, DMA
    /// registers, flags and controllers.
    pub fn new(cartridge: SnesCartridge) -> (b: Self)
        requires
            cartridge.wf(),
        ensures
            b.wf(),
            b.cartridge == cartridge,
            forall|i: int| 0 <= i < WRAM_SIZE ==> b.wram@[i] == 0,
            b.nmitimen == 0,
            !b.rdnmi && !b.nmi_pending && !b.joy_strobe,
            b.joy_latched[0] == 0 && b.joy_latched[1] == 0,
            b.joy_shift[0] == 0 && b.joy_shift[1] == 0,
            b.wram_addr == 0,
            b.dot_phase == 0,
    {
        SnesBus {
            cartridge,
            wram: vec![0u8; WRAM_SIZE],
            dma: [[0u8; 16]; 8],
            hdma_enable: 0,
            hdma_active: 0,
            hdma_lines: [0u8; 8],
            hdma_repeat: [false; 8],
            hdma_transfer: [false; 8],
            nmitimen: 0,
            rdnmi: false,
            nmi_pending: false,
            joy_strobe: false,
            joy_latched: [0u16; 2],
            joy_shift: [0u16; 2],
            wram_addr: 0,
            dot_phase: 0,
        }
    }

    /// Latches both controllers' words; with the strobe held the shift
    /// registers follow them.
    pub fn set_inputs(&mut self, input: &InputState)
        ensures
            final(self).cartridge == old(self).cartridge,
            final(self).wram == old(self).wram,
            final(self).joy_strobe == old(self).joy_strobe,
            final(self).joy_latched[0] == snes_buttons_spec(input.buttons[0]),
            final(self).joy_latched[1] == snes_buttons_spec(input.buttons[1]),
            final(self).joy_shift == (if old(self).joy_strobe { final(self).joy_latched } else { old(self).joy_shift }),
    {
        self.joy_latched[0] = snes_buttons(input.buttons[0]);
        self.joy_latched[1] = snes_buttons(input.buttons[1]);
        if self.joy_strobe {
            self.joy_shift = self.joy_latched;
        }
    }

    /// Writes the strobe line: raising it (or holding it) reloads the shift
    /// registers from the latched words.
    pub fn set_strobe(&mut self, enabled: bool)
        ensures
            final(self).cartridge == old(self).cartridge,
            final(self).wram == old(self).wram,
            final(self).joy_latched == old(self).joy_latched,
            final(self).joy_strobe == enabled,
            final(self).dma == old(self).dma,
            final(self).wram_addr == old(self).wram_addr,
            final(self).nmitimen == old(self).nmitimen,
            final(self).joy_shift == (if enabled || old(self).joy_strobe { old(self).joy_latched } else { old(self).joy_shift }),
    {
        if enabled || self.joy_strobe {
            self.joy_shift = self.joy_latched;
        }
        self.joy_strobe = enabled;
    }

    /// Reads the next serial bit of controller `player`: bit 0 of the
    /// latched word while strobed, else the shift register's low bit, the
    /// register shifting right and filling with ones.
    pub fn read_joy(&mut self, player: usize) -> (r: u8)
        requires
            player < 2,
        ensures
            final(self).cartridge == old(self).cartridge,
            final(self).wram == old(self).wram,
            final(self).joy_latched == old(self).joy_latched,
            final(self).joy_strobe == old(self).joy_strobe,
            final(self).dma == old(self).dma,
            final(self).wram_addr == old(self).wram_addr,
            final(self).rdnmi == old(self).rdnmi,
            final(self).nmitimen == old(self).nmitimen,
            old(self).joy_strobe ==> r == old(self).joy_latched[player as int] % 2 && final(self).joy_shift == old(self).joy_shift,
            !old(self).joy_strobe ==> r == old(self).joy_shift[player as int] % 2
                && final(self).joy_shift[player as int] == old(self).joy_shift[player as int] / 2 + 0x8000
                && final(self).joy_shift[1 - player] == old(self).joy_shift[1 - player],
    {
        if self.joy_strobe {
            return (self.joy_latched[player] % 2) as u8;
        }
        let value = (self.joy_shift[player] % 2) as u8;
        self.joy_shift[player] = self.joy_shift[player] / 2 + 0x8000;
        value
    }

    /// Takes the pending NMI request.
    pub fn take_nmi(&mut self) -> (r: bool)
        ensures
            r == old(self).nmi_pending,
            !final(self).nmi_pending,
            final(self).cartridge == old(self).cartridge,
            final(self).wram == old(self).wram,
    {
        let pending = self.nmi_pending;
        self.nmi_pending = false;
        pending
    }
}


impl SnesBus {
    /// A CPU read of a low-bank I/O register this bus serves: the work-RAM
    /// port ($2180, advancing the port address), the serial controller
    /// ports, RDNMI ($4210, clearing the flag), the auto-read controller
    /// words and the DMA channel registers. None for the registers of the
    /// picture and sound units and every other offset.
    pub fn read_low_io(&mut self, offset: u16) -> (r: Option<u8>)
        requires
            old(self).wf(),
        ensures
            final(self).wf(),
            final(self).cartridge == old(self).cartridge,
            final(self).wram == old(self).wram,
            final(self).dma == old(self).dma,
            offset == 0x2180 ==> r == Some(old(self).wram@[old(self).wram_addr as int % WRAM_SIZE as int])
                && final(self).wram_addr == (old(self).wram_addr as int + 1) % 0x2_0000,
            offset != 0x2180 ==> final(self).wram_addr == old(self).wram_addr,
            offset == 0x4210 ==> r == Some(if old(self).rdnmi { 0x82u8 } else { 0x02u8 }) && !final(self).rdnmi,
            offset != 0x4210 ==> final(self).rdnmi == old(self).rdnmi,
            offset == 0x4218 ==> r == Some((old(self).joy_latched[0] % 0x100) as u8),
            offset == 0x4219 ==> r == Some((old(self).joy_latched[0] / 0x100) as u8),
            offset == 0x421a ==> r == Some((old(self).joy_latched[1] % 0x100) as u8),
            offset == 0x421b ==> r == Some((old(self).joy_latched[1] / 0x100) as u8),
            offset == 0x4016 || offset == 0x4017 ==> r is Some,
            0x4300 <= offset <= 0x437f ==> r == Some(old(self).dma[(offset - 0x4300) / 16][(offset % 16) as int]),
            !(offset == 0x2180 || offset == 0x4016 || offset == 0x4017 || offset == 0x4210 || (0x4218 <= offset <= 0x421b)
                || (0x4300 <= offset <= 0x437f)) ==> r is None && final(self).joy_shift == old(self).joy_shift,
    {
        if offset == 0x2180 {
            let value = self.wram[self.wram_addr as usize % WRAM_SIZE];
            self.wram_addr = (self.wram_addr % 0x2_0000 + 1) % 0x2_0000;
            proof {
                assert((old(self).wram_addr as int % 0x2_0000 + 1) % 0x2_0000 == (old(self).wram_addr as int + 1) % 0x2_0000);
            }
            Some(value)
        } else if offset == 0x4016 {
            Some(self.read_joy(0))
        } else if offset == 0x4017 {
            Some(self.read_joy(1))
        } else if offset == 0x4210 {
            let value = if self.rdnmi { 0x82u8 } else { 0x02u8 };
            self.rdnmi = false;
            Some(value)
        } else if offset == 0x4218 {
            Some((self.joy_latched[0] % 0x100) as u8)
        } else if offset == 0x4219 {
            Some((self.joy_latched[0] / 0x100) as u8)
        } else if offset == 0x421a {
            Some((self.joy_latched[1] % 0x100) as u8)
        } else if offset == 0x421b {
            Some((self.joy_latched[1] / 0x100) as u8)
        } else if 0x4300 <= offset && offset <= 0x437f {
            Some(self.dma[((offset - 0x4300) / 16) as usize][(offset % 16) as usize])
        } else {
            None
        }
    }

    /// A CPU write of a low-bank I/O register this bus serves: the work-RAM
    /// port and its address ($2180-$2183), the controller strobe, NMITIMEN
    /// and the DMA channel registers; false for every other offset (the
    /// picture and sound units' registers and the DMA and HDMA starts, which
    /// drive the B bus).
    pub fn write_low_io(&mut self, offset: u16, value: u8) -> (r: bool)
        requires
            old(self).wf(),
        ensures
            final(self).wf(),
            final(self).cartridge == old(self).cartridge,
            r == (offset == 0x2180 || offset == 0x2181 || offset == 0x2182 || offset == 0x2183 || offset == 0x4016
                || offset == 0x4200 || (0x4300 <= offset <= 0x437f)),
            offset == 0x2180 ==> final(self).wram@ == old(self).wram@.update(old(self).wram_addr as int % WRAM_SIZE as int, value)
                && final(self).wram_addr == (old(self).wram_addr as int + 1) % 0x2_0000,
            offset != 0x2180 ==> final(self).wram == old(self).wram,
            offset == 0x2181 ==> final(self).wram_addr == (old(self).wram_addr as int % 0x2_0000) / 0x100 * 0x100 + value,
            offset == 0x2182 ==> final(self).wram_addr == (old(self).wram_addr as int / 0x1_0000 % 2) * 0x1_0000
                + old(self).wram_addr as int % 0x100 + value as int * 0x100,
            offset == 0x2183 ==> final(self).wram_addr == old(self).wram_addr as int % 0x1_0000 + (value as int % 2) * 0x1_0000,
            offset == 0x4016 ==> final(self).joy_strobe == (value % 2 == 1),
            offset == 0x4200 ==> final(self).nmitimen == value,
            0x4300 <= offset <= 0x437f ==> final(self).dma[(offset - 0x4300) / 16][(offset % 16) as int] == value,
            !r ==> final(self).wram_addr == old(self).wram_addr && final(self).dma == old(self).dma
                && final(self).nmitimen == old(self).nmitimen && final(self).joy_strobe == old(self).joy_strobe,
    {
        if offset == 0x2180 {
            let index = self.wram_addr as usize % WRAM_SIZE;
            self.wram.set(index, value);
            self.wram_addr = (self.wram_addr % 0x2_0000 + 1) % 0x2_0000;
            proof {
                assert((old(self).wram_addr as int % 0x2_0000 + 1) % 0x2_0000 == (old(self).wram_addr as int + 1) % 0x2_0000);
            }
        } else if offset == 0x2181 {
            self.wram_addr = (self.wram_addr % 0x2_0000) / 0x100 * 0x100 + value as u32;
        } else if offset == 0x2182 {
            self.wram_addr = (self.wram_addr / 0x1_0000 % 2) * 0x1_0000 + self.wram_addr % 0x100 + value as u32 * 0x100;
        } else if offset == 0x2183 {
            self.wram_addr = self.wram_addr % 0x1_0000 + (value as u32 % 2) * 0x1_0000;
        } else if offset == 0x4016 {
            self.set_strobe(value % 2 == 1);
        } else if offset == 0x4200 {
            self.nmitimen = value;
        } else if 0x4300 <= offset && offset <= 0x437f {
            self.dma[((offset - 0x4300) / 16) as usize][(offset % 16) as usize] = value;
        } else {
            return false;
        }
        true
    }
}

/// The parts of the SNES machine this library models: the bus with its
/// cartridge, the SA-1's cycle credit, whether a second 65816 runs for the
/// SA-1, and the power state.
pub struct SnesMachine {
    pub bus: SnesBus,
    pub sa1_credit: i32,
    pub has_sa1_cpu: bool,
    pub powered: bool,
}

impl SnesMachine {
    /// A powered-on machine around the cartridge `image` parses to, or the
    /// parse error.
    pub fn from_rom(image: &[u8]) -> (r: Result<Self, String>)
        requires
            image@.len() <= usize::MAX / 2,
        ensures
            r.is_err() <==> image@.len() < 0x8000,
            r matches Err(e) ==> e@ == "SNES image is too small"@,
            r matches Ok(m) ==> {
                &&& m.bus.wf()
                &&& m.bus.cartridge.parsed_from(image@)
                &&& forall|i: int| 0 <= i < WRAM_SIZE ==> m.bus.wram@[i] == 0
                &&& m.has_sa1_cpu == (m.bus.cartridge.sa1 is Some)
                &&& m.sa1_credit == 0
                &&& m.powered
            },
    {
        let cartridge = match SnesCartridge::parse(image) {
            Ok(cartridge) => cartridge,
            Err(e) => return Err(e),
        };
        let has_sa1_cpu = cartridge.sa1.is_some();
        Ok(SnesMachine { bus: SnesBus::new(cartridge), sa1_credit: 0, has_sa1_cpu, powered: true })
    }
}

impl SnesBus {
    /// The bytes channel `channel`'s general DMA moves, in order, as
    /// (source, destination) bus addresses, and the A-bus offset the
    /// channel ends with.
    #[verifier::rlimit(60)]
    pub fn dma_transfers(&self, channel: usize) -> (r: (Vec<(u32, u32)>, u16))
        requires
            channel < 8,
        ensures
            r.0@.len() == dma_count(self.dma[channel as int]),
            forall|i: int| 0 <= i < r.0@.len() ==> #[trigger] r.0@[i] == dma_move(self.dma[channel as int], i),
            r.1 == dma_a_offset(self.dma[channel as int], dma_count(self.dma[channel as int])),
    {
        let regs = self.dma[channel];
        let control = regs[0];
        let bbase = 0x2100u16.wrapping_add(regs[1] as u16);
        let bank = (regs[4] as u32) * 0x1_0000;
        let start = regs[2] as u16 + regs[3] as u16 * 0x100;
        let encoded = regs[5] as usize + regs[6] as usize * 0x100;
        let count: usize = if encoded == 0 { 0x1_0000 } else { encoded };
        let fixed = control & 0x08 != 0;
        let decrement = control & 0x10 != 0;
        let reverse = control & 0x80 != 0;
        let pattern_len = dma_pattern_len(control);
        let mut moves: Vec<(u32, u32)> = Vec::new();
        let mut aoffset = start;
        let mut index: usize = 0;
        while index < count
            invariant
                index <= count,
                count == dma_count(regs),
                regs == self.dma[channel as int],
                control == regs[0],
                start as int == regs[2] as int + regs[3] as int * 0x100,
                bbase as int == (0x2100 + regs[1] as int) % 0x1_0000,
                bank as int == regs[4] as int * 0x1_0000,
                fixed == (control & 0x08 != 0),
                decrement == (control & 0x10 != 0),
                reverse == (control & 0x80 != 0),
                pattern_len == dma_pattern_len_spec(control),
                aoffset == dma_a_offset(regs, index as int),
                moves@.len() == index,
                forall|i: int| 0 <= i < index ==> #[trigger] moves@[i] == dma_move(regs, i),
            decreases count - index,
        {
            let b = bbase.wrapping_add(dma_b_offset(control, index % pattern_len) as u16) as u32;
            let a = bank + aoffset as u32;
            if reverse {
                moves.push((b, a));
            } else {
                moves.push((a, b));
            }
            if !fixed {
                aoffset = if decrement { aoffset.wrapping_sub(1) } else { aoffset.wrapping_add(1) };
            }
            index = index + 1;
        }
        (moves, aoffset)
    }

    /// Ends channel `channel`'s general DMA: the A-bus offset stops at
    /// `aoffset` and the byte count reads zero.
    pub fn finish_dma(&mut self, channel: usize, aoffset: u16)
        requires
            channel < 8,
        ensures
            final(self).dma[channel as int]@ == old(self).dma[channel as int]@.update(2, (aoffset % 0x100) as u8).update(
                3,
                (aoffset / 0x100) as u8,
            ).update(5, 0).update(6, 0),
            forall|c: int| 0 <= c < 8 && c != channel ==> final(self).dma[c] == old(self).dma[c],
            final(self).cartridge == old(self).cartridge,
            final(self).wram == old(self).wram,
    {
        let mut regs = self.dma[channel];
        regs[2] = (aoffset % 0x100) as u8;
        regs[3] = (aoffset / 0x100) as u8;
        regs[5] = 0;
        regs[6] = 0;
        self.dma[channel] = regs;
    }
}

impl SnesBus {
    /// Starts a frame's HDMA: the enabled channels become active with no
    /// lines left, and each active channel's table address restarts at its
    /// A-bus address with the line counter cleared.
    pub fn init_hdma(&mut self)
        ensures
            final(self).hdma_active == old(self).hdma_enable,
            forall|c: int| 0 <= c < 8 ==> #[trigger] final(self).hdma_lines[c] == 0 && !final(self).hdma_repeat[c]
                && !final(self).hdma_transfer[c],
            forall|c: int| 0 <= c < 8 ==> #[trigger] final(self).dma[c]@ == (if old(self).hdma_enable & (1u8 << c as u8) != 0 {
                old(self).dma[c]@.update(8, old(self).dma[c][2]).update(9, old(self).dma[c][3]).update(10, 0)
            } else {
                old(self).dma[c]@
            }),
            final(self).cartridge == old(self).cartridge,
            final(self).wram == old(self).wram,
    {
        self.hdma_active = self.hdma_enable;
        self.hdma_lines = [0; 8];
        self.hdma_repeat = [false; 8];
        self.hdma_transfer = [false; 8];
        assert(forall|c: int| 0 <= c < 8 ==> #[trigger] self.hdma_lines[c] == 0 && !self.hdma_repeat[c]
            && !self.hdma_transfer[c]);
        let mut channel: usize = 0;
        while channel < 8
            invariant
                channel <= 8,
                self.hdma_active == old(self).hdma_enable,
                forall|c: int| 0 <= c < 8 ==> #[trigger] self.hdma_lines[c] == 0 && !self.hdma_repeat[c]
                    && !self.hdma_transfer[c],
                self.cartridge == old(self).cartridge,
                self.wram == old(self).wram,
                forall|c: int| 0 <= c < channel ==> #[trigger] self.dma[c]@ == (if old(self).hdma_enable & (1u8 << c as u8) != 0 {
                    old(self).dma[c]@.update(8, old(self).dma[c][2]).update(9, old(self).dma[c][3]).update(10, 0)
                } else {
                    old(self).dma[c]@
                }),
                forall|c: int| channel <= c < 8 ==> #[trigger] self.dma[c] == old(self).dma[c],
            decreases 8 - channel,
        {
            if self.hdma_active & (1u8 << channel as u8) != 0 {
                let mut regs = self.dma[channel];
                regs[8] = regs[2];
                regs[9] = regs[3];
                regs[10] = 0;
                self.dma[channel] = regs;
            }
            channel = channel + 1;
        }
    }

    /// The line-counter register a channel shows: $80 for a full 128-line
    /// entry, else the remaining lines with bit 7 set in repeat mode.
    pub fn update_hdma_counter_register(&mut self, channel: usize)
        requires
            channel < 8,
        ensures
            final(self).dma[channel as int]@ == old(self).dma[channel as int]@.update(
                10,
                if old(self).hdma_lines[channel as int] == 128 {
                    0x80u8
                } else if old(self).hdma_repeat[channel as int] {
                    (0x80u8 | old(self).hdma_lines[channel as int])
                } else {
                    old(self).hdma_lines[channel as int]
                },
            ),
            forall|c: int| 0 <= c < 8 && c != channel ==> final(self).dma[c] == old(self).dma[c],
            final(self).hdma_lines == old(self).hdma_lines,
            final(self).hdma_repeat == old(self).hdma_repeat,
            final(self).hdma_transfer == old(self).hdma_transfer,
            final(self).hdma_active == old(self).hdma_active,
            final(self).cartridge == old(self).cartridge,
            final(self).wram == old(self).wram,
    {
        let remaining = self.hdma_lines[channel];
        let mut regs = self.dma[channel];
        regs[10] = if remaining == 128 {
            0x80
        } else if self.hdma_repeat[channel] {
            0x80 | remaining
        } else {
            remaining
        };
        self.dma[channel] = regs;
    }
}

} // verus!
