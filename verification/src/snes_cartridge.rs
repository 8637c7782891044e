//! SNES cartridge: header detection, LoROM/HiROM/ExHiROM address decoding,
//! address-line mirroring, battery RAM and the OBC-1 object window.
use vstd::prelude::*;
use vstd::slice::{slice_subrange, slice_to_vec};
use crate::snes_sa1::Sa1State;
use vstd::array::spec_array_update;

verus! {

#[derive(Debug, Clone, Copy, PartialEq, Eq, Structural)]
pub enum SnesMap {
    LoRom,
    HiRom,
    ExHiRom,
}

#[derive(Debug, Clone, Copy, PartialEq, Eq, Structural)]
pub enum SnesCoprocessor {
    NoCoprocessor,
    Dsp1,
    Dsp2,
    Dsp3,
    Srtc,
    Obc1,
    Sa1,
}

pub struct SnesCartridge {
    pub rom: Vec<u8>,
    pub sram: Vec<u8>,
    pub map: SnesMap,
    pub coprocessor: SnesCoprocessor,
    pub sa1: Option<Sa1State>,
}

/// Bank byte (bits 16..=23) of a 24-bit bus address.
pub open spec fn bank_of(address: u32) -> int {
    (address as int / 0x1_0000) % 0x100
}

/// Offset within the bank (bits 0..=15).
pub open spec fn offset_of(address: u32) -> int {
    address as int % 0x1_0000
}

/// Banks $00-$3F and $80-$BF, which carry the low system area.
pub open spec fn is_low_bank(bank: int) -> bool {
    bank <= 0x3f || (0x80 <= bank <= 0xbf)
}

pub open spec fn header_offset(map: SnesMap) -> int {
    match map {
        SnesMap::LoRom => 0x7fc0,
        SnesMap::HiRom => 0xffc0,
        SnesMap::ExHiRom => 0x40ffc0,
    }
}

/// Little-endian 16-bit value at `offset` of `s`.
pub open spec fn le16_at(s: Seq<u8>, offset: int) -> int {
    s[offset] as int + s[offset + 1] as int * 0x100
}

/// Plausibility of a header at `offset` for `expected`: the map-mode nibble
/// counts 6 for or against, a reset vector in ROM ($8000+) counts 3, and a
/// complementary checksum pair counts 2. A header past the image scores i32::MIN / 2.
pub open spec fn header_score_spec(rom: Seq<u8>, offset: int, expected: SnesMap) -> int {
    if offset + 0x40 > rom.len() {
        -0x4000_0000
    } else {
        let mode = rom[offset + 0x15] % 0x10;
        let mode_matches = match expected {
            SnesMap::LoRom => mode == 0 || mode == 2 || mode == 3,
            SnesMap::HiRom => mode == 1,
            SnesMap::ExHiRom => mode == 5,
        };
        (if mode_matches { 6int } else { -6int }) + (if le16_at(rom, offset + 0x3c) >= 0x8000 {
            3int
        } else {
            0
        }) + (if (le16_at(rom, offset + 0x1e) as u16) ^ (le16_at(rom, offset + 0x1c) as u16)
            == 0xffff {
            2int
        } else {
            0
        })
    }
}

/// The best-scoring layout; on a tie the later candidate (LoROM, HiROM,
/// ExHiROM in that order) wins.
pub open spec fn detected_map(rom: Seq<u8>) -> SnesMap {
    let lo = header_score_spec(rom, 0x7fc0, SnesMap::LoRom);
    let hi = header_score_spec(rom, 0xffc0, SnesMap::HiRom);
    let ex = header_score_spec(rom, 0x40ffc0, SnesMap::ExHiRom);
    if ex >= lo && ex >= hi {
        SnesMap::ExHiRom
    } else if hi >= lo {
        SnesMap::HiRom
    } else {
        SnesMap::LoRom
    }
}

/// The ROM bytes of an image: a 512-byte copier header is dropped.
pub open spec fn rom_of_image(image: Seq<u8>) -> Seq<u8> {
    if image.len() % 0x8000 == 512 {
        image.subrange(512, image.len() as int)
    } else {
        image
    }
}

pub open spec fn chipset_of(rom: Seq<u8>, header: int) -> u8 {
    if header + 0x17 <= rom.len() {
        rom[header + 0x16]
    } else {
        0
    }
}

pub open spec fn map_mode_of(rom: Seq<u8>, header: int) -> u8 {
    if header + 0x15 < rom.len() {
        rom[header + 0x15] % 0x40
    } else {
        0
    }
}

/// The coprocessor the header announces.
pub open spec fn coprocessor_of(rom: Seq<u8>, header: int) -> SnesCoprocessor {
    let chipset = chipset_of(rom, header);
    let map_mode = map_mode_of(rom, header);
    let srtc = chipset == 0x55 && map_mode == 0x35;
    let dsp2 = chipset == 0x05 && map_mode == 0x20;
    let dsp3 = chipset == 0x05 && map_mode == 0x30 && header + 0x2a < rom.len() && rom[header
        + 0x2a] == 0xb2;
    let dsp1 = if chipset == 0x03 {
        map_mode != 0x30
    } else if chipset == 0x05 {
        !dsp2 && !dsp3
    } else {
        false
    };
    if srtc {
        SnesCoprocessor::Srtc
    } else if dsp2 {
        SnesCoprocessor::Dsp2
    } else if dsp3 {
        SnesCoprocessor::Dsp3
    } else if dsp1 {
        SnesCoprocessor::Dsp1
    } else if chipset / 0x10 == 0x02 {
        SnesCoprocessor::Obc1
    } else if chipset / 0x10 == 0x03 {
        SnesCoprocessor::Sa1
    } else {
        SnesCoprocessor::NoCoprocessor
    }
}

/// `1024 << exponent` as a checked shift of a machine word: zero when the
/// shift amount is not smaller than the word size.
pub open spec fn kib_shifted(exponent: u8) -> int {
    if exponent as u32 >= usize::BITS {
        0
    } else {
        (1024usize << exponent) as int
    }
}

/// Battery RAM size: 8 KiB for OBC-1, otherwise `1 KiB << exponent`
/// capped at 512 KiB, with zero for a zero exponent, a shift of 64 or more
/// bits, or a header past the image.
pub open spec fn sram_size_of(rom: Seq<u8>, header: int, coprocessor: SnesCoprocessor) -> int {
    if coprocessor == SnesCoprocessor::Obc1 {
        0x2000
    } else if header + 0x19 <= rom.len() {
        let exponent = rom[header + 0x18];
        if exponent == 0 {
            0
        } else if kib_shifted(exponent) > 512 * 1024 {
            512 * 1024int
        } else {
            kib_shifted(exponent)
        }
    } else {
        0
    }
}

/// Address-line mirroring: while the address lies past the ROM, its highest
/// set bit (at or below `mask`) is dropped; when the ROM is larger than that
/// bit, the first power-of-two block is skipped and the rest is searched.
pub open spec fn mirror_from(address: int, size: int, base: int, mask: nat) -> int
    decreases mask,
{
    if address < size || mask == 0 {
        base + address
    } else if (address / mask as int) % 2 == 1 {
        if size > mask {
            mirror_from(address - mask, size - mask, base + mask, mask / 2)
        } else {
            mirror_from(address - mask, size, base, mask / 2)
        }
    } else {
        mirror_from(address, size, base, mask / 2)
    }
}

pub open spec fn mirror_index(address: int, size: int) -> int {
    if size == 0 {
        0
    } else {
        mirror_from(address, size, 0, 0x80_0000)
    }
}

pub open spec fn is_mask_pow2(mask: nat) -> bool {
    mask == 0 || mask == 1 || mask == 2 || mask == 4 || mask == 8 || mask == 0x10 || mask == 0x20
        || mask == 0x40 || mask == 0x80 || mask == 0x100 || mask == 0x200 || mask == 0x400
        || mask == 0x800 || mask == 0x1000 || mask == 0x2000 || mask == 0x4000 || mask == 0x8000
        || mask == 0x1_0000 || mask == 0x2_0000 || mask == 0x4_0000 || mask == 0x8_0000
        || mask == 0x10_0000 || mask == 0x20_0000 || mask == 0x40_0000 || mask == 0x80_0000
}

proof fn lemma_bit_split(a: int, m: int)
    requires
        m > 0,
        0 <= a < 2 * m,
    ensures
        (a / m) % 2 == 1 ==> m <= a,
        (a / m) % 2 == 0 ==> a < m,
{
    vstd::arithmetic::div_mod::lemma_fundamental_div_mod(a, m);
    assert(0 <= a / m <= 1) by (nonlinear_arith)
        requires
            a == m * (a / m) + a % m,
            0 <= a % m < m,
            0 <= a < 2 * m,
            m > 0,
    ;
    if a / m == 1 {
        assert(a >= m) by (nonlinear_arith)
            requires
                a == m * (a / m) + a % m,
                a / m == 1,
                a % m >= 0,
        ;
    } else {
        assert(a / m == 0);
    }
}

proof fn lemma_mirror_in_range(address: int, size: int, base: int, mask: nat)
    requires
        0 <= address < 2 * mask || address < size,
        address >= 0,
        size > 0,
        base >= 0,
        is_mask_pow2(mask),
    ensures
        base <= mirror_from(address, size, base, mask) < base + size,
    decreases mask,
{
    if address < size || mask == 0 {
    } else if (address / mask as int) % 2 == 1 {
        lemma_bit_split(address, mask as int);
        if size > mask {
            lemma_mirror_in_range(address - mask, size - mask, base + mask, mask / 2);
        } else {
            lemma_mirror_in_range(address - mask, size, base, mask / 2);
        }
    } else {
        lemma_bit_split(address, mask as int);
        lemma_mirror_in_range(address, size, base, mask / 2);
    }
}

/// Index of `address` in a ROM of `size` bytes with address-line mirroring.
pub fn mirror_rom_index(address: usize, size: usize) -> (r: usize)
    requires
        address < 0x100_0000,
    ensures
        r == mirror_index(address as int, size as int),
        size > 0 ==> r < size,
{
    if size == 0 {
        return 0;
    }
    proof {
        lemma_mirror_in_range(address as int, size as int, 0, 0x80_0000);
    }
    let mut address = address;
    let mut size = size;
    let mut base: usize = 0;
    let mut mask: usize = 0x80_0000;
    let ghost total = size;
    let ghost target = mirror_from(address as int, size as int, 0, 0x80_0000);
    while address >= size
        invariant
            is_mask_pow2(mask as nat),
            address < 2 * mask || address < size,
            size > 0,
            base + size == total,
            mirror_from(address as int, size as int, base as int, mask as nat) == target,
        decreases mask,
    {
        proof {
            lemma_bit_split(address as int, mask as int);
        }
        if (address / mask) % 2 == 1 {
            address = address - mask;
            if size > mask {
                size = size - mask;
                base = base + mask;
            }
        }
        mask = mask / 2;
    }
    base + address
}

impl SnesCartridge {
    pub open spec fn wf(&self) -> bool {
        &&& 0 < self.rom@.len() <= usize::MAX / 2
        &&& self.sram@.len() <= usize::MAX / 2
        &&& (self.sa1 matches Some(sa1) ==> sa1.wf())
        &&& (self.coprocessor == SnesCoprocessor::Sa1) == self.sa1.is_some()
        &&& self.coprocessor == SnesCoprocessor::Obc1 ==> self.sram@.len() == 0x2000
    }

    /// Plausibility score of a header candidate.
    pub fn header_score(rom: &[u8], offset: usize, expected: SnesMap) -> (r: i32)
        requires
            offset <= 0x40ffc0,
        ensures
            r == header_score_spec(rom@, offset as int, expected),
    {
        if offset + 0x40 > rom.len() {
            return i32::MIN / 2;
        }
        let mode = rom[offset + 0x15] % 0x10;
        let mut score: i32 = 0;
        let mode_matches = match expected {
            SnesMap::LoRom => mode == 0 || mode == 2 || mode == 3,
            SnesMap::HiRom => mode == 1,
            SnesMap::ExHiRom => mode == 5,
        };
        if mode_matches {
            score = score + 6;
        } else {
            score = score - 6;
        }
        let reset = rom[offset + 0x3c] as u16 + rom[offset + 0x3d] as u16 * 0x100;
        if reset >= 0x8000 {
            score = score + 3;
        }
        let complement = rom[offset + 0x1c] as u16 + rom[offset + 0x1d] as u16 * 0x100;
        let checksum = rom[offset + 0x1e] as u16 + rom[offset + 0x1f] as u16 * 0x100;
        if checksum ^ complement == 0xffff {
            score = score + 2;
        }
        score
    }

    /// This cartridge is what image `image` parses to: the ROM (any 512-byte
    /// copier header dropped), the layout whose header scores best, the
    /// coprocessor and battery RAM the header names, RAM cleared and an SA-1
    /// at power-on.
    pub open spec fn parsed_from(&self, image: Seq<u8>) -> bool {
        let rom = rom_of_image(image);
        let map = detected_map(rom);
        let header = header_offset(map);
        let coprocessor = coprocessor_of(rom, header);
        &&& self.wf()
        &&& self.rom@ == rom
        &&& self.map == map
        &&& self.coprocessor == coprocessor
        &&& self.sram@ == Seq::new(sram_size_of(rom, header, coprocessor) as nat, |i: int| 0u8)
        &&& (self.sa1 matches Some(sa1) ==> sa1.is_power_on())
    }

    /// Parses a cartridge image, detecting its layout, coprocessor and
    /// battery RAM size from the internal header.
    pub fn parse(image: &[u8]) -> (r: Result<Self, String>)
        requires
            image@.len() <= usize::MAX / 2,
        ensures
            image@.len() < 0x8000 <==> r.is_err(),
            r matches Ok(cart) ==> cart.parsed_from(image@),
            r matches Err(e) ==> e@ == "SNES image is too small"@,
    {
        if image.len() < 0x8000 {
            return Err("SNES image is too small".to_owned());
        }
        let rom = if image.len() % 0x8000 == 512 {
            slice_to_vec(slice_subrange(image, 512, image.len()))
        } else {
            slice_to_vec(image)
        };
        let lo = Self::header_score(rom.as_slice(), 0x7fc0, SnesMap::LoRom);
        let hi = Self::header_score(rom.as_slice(), 0xffc0, SnesMap::HiRom);
        let ex = Self::header_score(rom.as_slice(), 0x40ffc0, SnesMap::ExHiRom);
        let (map, header): (SnesMap, usize) = if ex >= lo && ex >= hi {
            (SnesMap::ExHiRom, 0x40ffc0)
        } else if hi >= lo {
            (SnesMap::HiRom, 0xffc0)
        } else {
            (SnesMap::LoRom, 0x7fc0)
        };
        let chipset = if header + 0x17 <= rom.len() {
            rom[header + 0x16]
        } else {
            0
        };
        let map_mode = if header + 0x15 < rom.len() {
            rom[header + 0x15] % 0x40
        } else {
            0
        };
        let srtc = chipset == 0x55 && map_mode == 0x35;
        let dsp2 = chipset == 0x05 && map_mode == 0x20;
        let dsp3 = chipset == 0x05 && map_mode == 0x30 && header + 0x2a < rom.len() && rom[header
            + 0x2a] == 0xb2;
        let dsp1 = if chipset == 0x03 {
            map_mode != 0x30
        } else if chipset == 0x05 {
            !dsp2 && !dsp3
        } else {
            false
        };
        let coprocessor = if srtc {
            SnesCoprocessor::Srtc
        } else if dsp2 {
            SnesCoprocessor::Dsp2
        } else if dsp3 {
            SnesCoprocessor::Dsp3
        } else if dsp1 {
            SnesCoprocessor::Dsp1
        } else if chipset / 0x10 == 0x02 {
            SnesCoprocessor::Obc1
        } else if chipset / 0x10 == 0x03 {
            SnesCoprocessor::Sa1
        } else {
            SnesCoprocessor::NoCoprocessor
        };
        let sram_size: usize = if coprocessor == SnesCoprocessor::Obc1 {
            0x2000
        } else if header + 0x19 <= rom.len() {
            sram_size_for_exponent(rom[header + 0x18])
        } else {
            0
        };
        let sram = vec![0u8; sram_size];
        let sa1 = if coprocessor == SnesCoprocessor::Sa1 {
            Some(Sa1State::new())
        } else {
            None
        };
        let cart = SnesCartridge { rom, sram, map, coprocessor, sa1 };
        assert(cart.sram@ =~= Seq::new(
            sram_size_of(cart.rom@, header as int, coprocessor) as nat,
            |i: int| 0u8,
        ));
        Ok(cart)
    }
}

/// Battery RAM size for a header size exponent.
fn sram_size_for_exponent(exponent: u8) -> (r: usize)
    ensures
        r == (if exponent == 0 {
            0
        } else if kib_shifted(exponent) > 512 * 1024 {
            512 * 1024int
        } else {
            kib_shifted(exponent)
        }),
{
    if exponent == 0 {
        return 0;
    }
    let shifted: usize = if exponent as u32 >= usize::BITS {
        0
    } else {
        1024usize << exponent
    };
    if shifted > 512 * 1024 {
        512 * 1024
    } else {
        shifted
    }
}

/// The SA-1 I/O register an address selects, if any.
pub open spec fn sa1_io_register_of(address: u32) -> Option<u16> {
    if is_low_bank(bank_of(address)) && 0x2200 <= offset_of(address) <= 0x23ff {
        Some(offset_of(address) as u16)
    } else {
        None
    }
}

/// SA-1 ROM address translation: the LoROM-style windows of the low banks
/// fold onto the linear HiROM-style space that banks $C0-$FF address directly.
pub open spec fn sa1_translated(address: u32) -> Option<int> {
    let bank = bank_of(address);
    let offset = offset_of(address);
    if is_low_bank(bank) && offset >= 0x8000 {
        Some((if bank >= 0x80 { 0x20_0000int } else { 0 }) + (bank % 0x40) * 0x8000 + offset
            % 0x8000)
    } else if bank >= 0xc0 {
        Some(address as int)
    } else {
        None
    }
}

/// ROM index of an SA-1 ROM access: each 1 MiB segment is either the
/// identity or the 1 MiB block its bank register selects.
pub open spec fn sa1_rom_index_of(rom_len: int, banks: [u8; 4], address: u32) -> Option<int> {
    match sa1_translated(address) {
        None => None,
        Some(t) => {
            let logical = t % 0x40_0000;
            let control = banks[logical / 0x10_0000];
            let physical = if t < 0x40_0000 && control & 0x80 == 0 {
                logical
            } else {
                (control % 8) as int * 0x10_0000 + logical % 0x10_0000
            };
            Some(mirror_index(physical, rom_len))
        },
    }
}

/// A byte with its 2-bit field at bit `shift` replaced by the low two bits of `v`.
pub open spec fn with_crumb(old: u8, shift: u8, v: u8) -> u8 {
    (old & !(3u8 << shift)) | ((v & 3) << shift)
}

/// A byte with its nibble at bit `shift` replaced by the low nibble of `v`.
pub open spec fn with_nibble(old: u8, shift: u8, v: u8) -> u8 {
    (old & !(0x0fu8 << shift)) | ((v & 0x0f) << shift)
}

/// Highest BW-RAM address (exclusive) that write protection covers:
/// `0x100 << bwp` in a machine word, or every address when the shift amount
/// is not smaller than the word size.
pub open spec fn protect_limit(bwp: u8) -> usize {
    if bwp as u32 >= usize::BITS {
        usize::MAX
    } else {
        0x100usize << bwp
    }
}

/// The cartridge as mathematical values.
pub struct CartModel {
    pub rom: Seq<u8>,
    pub sram: Seq<u8>,
    pub map: SnesMap,
    pub coprocessor: SnesCoprocessor,
    pub sa1: Option<Sa1State>,
}

/// The state an SA-1 DMA transfer works on.
pub struct Sa1DmaState {
    pub sram: Seq<u8>,
    pub iram: [u8; 0x800],
    pub source: u32,
    pub destination: u32,
}

impl CartModel {
    pub open spec fn bwram_index(self, raw: int) -> Option<int> {
        if self.sram.len() == 0 {
            None
        } else {
            Some(mirror_index(raw, self.sram.len() as int))
        }
    }

    pub open spec fn bwram_byte(self, raw: int) -> u8 {
        match self.bwram_index(raw) {
            Some(i) => self.sram[i],
            None => 0xff,
        }
    }

    pub open spec fn sa1_rom_index(self, address: u32) -> Option<int> {
        match self.sa1 {
            Some(sa1) => sa1_rom_index_of(self.rom.len() as int, sa1.banks, address),
            None => None,
        }
    }

    pub open spec fn sa1_rom_byte(self, address: u32) -> u8 {
        match self.sa1_rom_index(address) {
            Some(i) => self.rom[i],
            None => 0xff,
        }
    }

    pub open spec fn bwram_protected(self, address: int) -> bool {
        match self.sa1 {
            None => false,
            Some(sa1) => !sa1.swen && !sa1.cwen && address < protect_limit(sa1.bwp),
        }
    }

    /// A read of the SA-1 bit-map view of BW-RAM (4 bits per pixel, or 2
    /// when BBF is set).
    pub open spec fn bitmap_read(self, address: int) -> u8 {
        match self.sa1 {
            None => 0xff,
            Some(sa1) => if self.sram.len() == 0 {
                0xff
            } else if !sa1.bbf {
                let packed = self.sram[mirror_index(address / 2, self.sram.len() as int)];
                if address % 2 == 0 {
                    packed % 16
                } else {
                    packed / 16
                }
            } else {
                let packed = self.sram[mirror_index(address / 4, self.sram.len() as int)];
                (packed >> ((address % 4) * 2) as u8) & 3
            },
        }
    }

    pub open spec fn bitmap_written(self, address: int, value: u8) -> Seq<u8> {
        match self.sa1 {
            None => self.sram,
            Some(sa1) => if self.sram.len() == 0 {
                self.sram
            } else if !sa1.bbf {
                let i = mirror_index(address / 2, self.sram.len() as int);
                self.sram.update(i, with_nibble(self.sram[i], ((address % 2) * 4) as u8, value))
            } else {
                let i = mirror_index(address / 4, self.sram.len() as int);
                self.sram.update(i, with_crumb(self.sram[i], ((address % 4) * 2) as u8, value))
            },
        }
    }

    /// What the main CPU reads through the SA-1 mapping, if it maps the address.
    pub open spec fn sa1_cpu_read(self, address: u32) -> Option<u8> {
        match self.sa1 {
            None => None,
            Some(sa1) => {
                let bank = bank_of(address);
                let offset = offset_of(address);
                if sa1_io_register_of(address).is_some() {
                    Some(
                        if sa1_io_register_of(address) == Some(0x2300u16) {
                            sa1.cpu_status_spec()
                        } else {
                            0xff
                        },
                    )
                } else if address == 0x00ffea && sa1.scnt & 0x10 != 0 {
                    Some((sa1.snv % 0x100) as u8)
                } else if address == 0x00ffeb && sa1.scnt & 0x10 != 0 {
                    Some((sa1.snv / 0x100) as u8)
                } else if address == 0x00ffee && sa1.scnt & 0x40 != 0 {
                    Some((sa1.siv % 0x100) as u8)
                } else if address == 0x00ffef && sa1.scnt & 0x40 != 0 {
                    Some((sa1.siv / 0x100) as u8)
                } else if is_low_bank(bank) && 0x3000 <= offset < 0x3800 {
                    Some(sa1.iram[offset % 0x800])
                } else if is_low_bank(bank) && 0x6000 <= offset < 0x8000 {
                    Some(self.bwram_byte((sa1.bmaps % 0x20) as int * 0x2000 + offset % 0x2000))
                } else if 0x40 <= bank <= 0x4f {
                    Some(self.bwram_byte((bank - 0x40) * 0x1_0000 + offset))
                } else {
                    match self.sa1_rom_index(address) {
                        Some(i) => Some(self.rom[i]),
                        None => None,
                    }
                }
            },
        }
    }

    /// One byte of an SA-1 DMA transfer.
    pub open spec fn dma_step(self, sa1: Sa1State, st: Sa1DmaState) -> Sa1DmaState {
        let source_kind = sa1.dcnt % 4;
        let here = CartModel { sram: st.sram, ..self };
        let value = if source_kind == 0 {
            self.sa1_rom_byte(st.source)
        } else if source_kind == 1 {
            here.bwram_byte(st.source as int)
        } else if source_kind == 2 {
            st.iram[st.source as int % 0x800]
        } else {
            0xff
        };
        let (sram, iram) = if (sa1.dcnt / 4) % 2 == 0 {
            (st.sram, spec_array_update(st.iram, st.destination as int % 0x800, value))
        } else if st.sram.len() == 0 {
            (st.sram, st.iram)
        } else {
            (
                st.sram.update(mirror_index(st.destination as int, st.sram.len() as int), value),
                st.iram,
            )
        };
        Sa1DmaState {
            sram,
            iram,
            source: ((st.source as int + 1) % 0x100_0000) as u32,
            destination: ((st.destination as int + 1) % 0x100_0000) as u32,
        }
    }

    pub open spec fn dma_steps(self, sa1: Sa1State, st: Sa1DmaState, n: nat) -> Sa1DmaState
        decreases n,
    {
        if n == 0 {
            st
        } else {
            self.dma_steps(sa1, self.dma_step(sa1, st), (n - 1) as nat)
        }
    }

    /// The cartridge after an SA-1 normal DMA: DTC bytes move from the source
    /// (ROM, BW-RAM or I-RAM) to I-RAM or BW-RAM, the address registers keep
    /// their final values, DTC clears and the DMA interrupt flag is set.
    pub open spec fn after_dma(self) -> CartModel {
        match self.sa1 {
            None => self,
            Some(sa1) => if sa1.dcnt & 0xa0 != 0x80 {
                self
            } else {
                let end = self.dma_steps(
                    sa1,
                    Sa1DmaState {
                        sram: self.sram,
                        iram: sa1.iram,
                        source: sa1.dsa,
                        destination: sa1.dda,
                    },
                    sa1.dtc as nat,
                );
                CartModel {
                    sram: end.sram,
                    sa1: Some(
                        Sa1State {
                            iram: end.iram,
                            dsa: end.source,
                            dda: end.destination,
                            dtc: 0,
                            dma_irq_flag: true,
                            ..sa1
                        },
                    ),
                    ..self
                }
            },
        }
    }

    pub open spec fn with_sa1(self, sa1: Sa1State) -> CartModel {
        CartModel { sa1: Some(sa1), ..self }
    }

    pub open spec fn with_sram(self, sram: Seq<u8>) -> CartModel {
        CartModel { sram, ..self }
    }

    /// A main-CPU write to SA-1 register `register`; writing the high or top
    /// byte of the DMA destination starts a normal DMA in the matching mode.
    pub open spec fn after_cpu_io_write(self, register: u16, value: u8) -> CartModel {
        match self.sa1 {
            None => self,
            Some(sa1) => {
                let next = self.with_sa1(sa1.after_cpu_io(register, value));
                if starts_dma(sa1, register) {
                    next.after_dma()
                } else {
                    next
                }
            },
        }
    }

    /// An SA-1 CPU write to one of its own registers.
    pub open spec fn after_sa1_io_write(self, register: u16, value: u8) -> CartModel {
        match self.sa1 {
            None => self,
            Some(sa1) => {
                let next = self.with_sa1(sa1.after_sa1_io(register, value));
                if starts_dma(sa1, register) {
                    next.after_dma()
                } else {
                    next
                }
            },
        }
    }
}

/// Whether a write to `register` starts a normal DMA: the high byte of the
/// destination for I-RAM targets, the top byte for BW-RAM targets, with DCNT
/// enabling a normal (not character-conversion) transfer.
pub open spec fn starts_dma(sa1: Sa1State, register: u16) -> bool {
    (register == 0x2236 && sa1.dcnt & 0xa4 == 0x80) || (register == 0x2237 && sa1.dcnt & 0xa4
        == 0x84)
}

impl SnesCartridge {
    pub open spec fn view_model(&self) -> CartModel {
        CartModel {
            rom: self.rom@,
            sram: self.sram@,
            map: self.map,
            coprocessor: self.coprocessor,
            sa1: self.sa1,
        }
    }

    /// Banks $00-$3F and $80-$BF.
    pub fn sa1_low_bank(address: u32) -> (r: bool)
        ensures
            r == is_low_bank(bank_of(address)),
    {
        let bank = address / 0x1_0000 % 0x100;
        bank <= 0x3f || (0x80 <= bank && bank <= 0xbf)
    }

    /// The SA-1 I/O register ($2200-$23FF of a low bank) an address selects.
    pub fn sa1_io_register(address: u32) -> (r: Option<u16>)
        ensures
            r == sa1_io_register_of(address),
    {
        let offset = address % 0x1_0000;
        if Self::sa1_low_bank(address) && 0x2200 <= offset && offset <= 0x23ff {
            Some(offset as u16)
        } else {
            None
        }
    }

    pub fn sa1_rom_index(&self, address: u32) -> (r: Option<usize>)
        requires
            self.wf(),
        ensures
            r is None <==> self.view_model().sa1_rom_index(address) is None,
            r matches Some(i) ==> self.view_model().sa1_rom_index(address) == Some(i as int) && i
                < self.rom@.len(),
    {
        match &self.sa1 {
            Some(sa1) => sa1_rom_index_in(self.rom.len(), sa1.banks, address),
            None => None,
        }
    }

    pub fn sa1_bwram_index(&self, address: usize) -> (r: Option<usize>)
        requires
            address < 0x100_0000,
        ensures
            r is None <==> self.view_model().bwram_index(address as int) is None,
            r matches Some(i) ==> self.view_model().bwram_index(address as int) == Some(i as int)
                && i < self.sram@.len(),
    {
        if self.sram.len() == 0 {
            None
        } else {
            Some(mirror_rom_index(address, self.sram.len()))
        }
    }

    fn bwram_byte(&self, address: usize) -> (r: u8)
        requires
            address < 0x100_0000,
        ensures
            r == self.view_model().bwram_byte(address as int),
    {
        match self.sa1_bwram_index(address) {
            Some(index) => self.sram[index],
            None => 0xff,
        }
    }

    /// BW-RAM writes below the protected boundary are refused unless a
    /// write-enable bit is set.
    pub fn sa1_bwram_protected(&self, address: usize) -> (r: bool)
        ensures
            r == self.view_model().bwram_protected(address as int),
    {
        let sa1 = match &self.sa1 {
            Some(sa1) => sa1,
            None => return false,
        };
        !sa1.swen && !sa1.cwen && address < protect_limit_of(sa1.bwp)
    }

    pub fn sa1_bitmap_read(&self, address: usize) -> (r: u8)
        requires
            address < 0x100_0000,
        ensures
            r == self.view_model().bitmap_read(address as int),
    {
        let sa1 = match &self.sa1 {
            Some(sa1) => sa1,
            None => return 0xff,
        };
        if self.sram.len() == 0 {
            return 0xff;
        }
        if !sa1.bbf {
            let packed = self.sram[mirror_rom_index(address / 2, self.sram.len())];
            if address % 2 == 0 {
                packed % 16
            } else {
                packed / 16
            }
        } else {
            let packed = self.sram[mirror_rom_index(address / 4, self.sram.len())];
            (packed >> ((address % 4) * 2) as u8) & 3
        }
    }

    pub fn sa1_bitmap_write(&mut self, address: usize, value: u8)
        requires
            address < 0x100_0000,
        ensures
            final(self).view_model() == old(self).view_model().with_sram(
                old(self).view_model().bitmap_written(address as int, value),
            ),
            final(self).sram@.len() == old(self).sram@.len(),
    {
        if self.sram.len() == 0 {
            return;
        }
        let bbf = match &self.sa1 {
            Some(sa1) => sa1.bbf,
            None => return,
        };
        if !bbf {
            let index = mirror_rom_index(address / 2, self.sram.len());
            let shift = ((address % 2) * 4) as u8;
            let mask = 0x0fu8 << shift;
            let new = (self.sram[index] & !mask) | ((value & 0x0f) << shift);
            self.sram.set(index, new);
        } else {
            let index = mirror_rom_index(address / 4, self.sram.len());
            let shift = ((address % 4) * 2) as u8;
            let mask = 3u8 << shift;
            let new = (self.sram[index] & !mask) | ((value & 3) << shift);
            self.sram.set(index, new);
        }
        assert(self.view_model() =~= old(self).view_model().with_sram(
            old(self).view_model().bitmap_written(address as int, value),
        ));
    }

    pub fn sa1_cpu_read(&self, address: u32) -> (r: Option<u8>)
        requires
            self.wf(),
        ensures
            r == self.view_model().sa1_cpu_read(address),
    {
        let sa1 = match &self.sa1 {
            Some(sa1) => sa1,
            None => return None,
        };
        if let Some(register) = Self::sa1_io_register(address) {
            return Some(if register == 0x2300 { sa1.cpu_status() } else { 0xff });
        }
        if address == 0x00ffea && sa1.scnt & 0x10 != 0 {
            return Some((sa1.snv % 0x100) as u8);
        }
        if address == 0x00ffeb && sa1.scnt & 0x10 != 0 {
            return Some((sa1.snv / 0x100) as u8);
        }
        if address == 0x00ffee && sa1.scnt & 0x40 != 0 {
            return Some((sa1.siv % 0x100) as u8);
        }
        if address == 0x00ffef && sa1.scnt & 0x40 != 0 {
            return Some((sa1.siv / 0x100) as u8);
        }
        let bank = (address / 0x1_0000 % 0x100) as usize;
        let offset = (address % 0x1_0000) as usize;
        if Self::sa1_low_bank(address) && 0x3000 <= offset && offset < 0x3800 {
            return Some(sa1.iram[offset % 0x800]);
        }
        if Self::sa1_low_bank(address) && 0x6000 <= offset && offset < 0x8000 {
            let raw = (sa1.bmaps % 0x20) as usize * 0x2000 + offset % 0x2000;
            return Some(self.bwram_byte(raw));
        }
        if 0x40 <= bank && bank <= 0x4f {
            let raw = (bank - 0x40) * 0x1_0000 + offset;
            return Some(self.bwram_byte(raw));
        }
        match self.sa1_rom_index(address) {
            Some(index) => Some(self.rom[index]),
            None => None,
        }
    }

    pub fn sa1_read_rom_byte(&self, address: u32) -> (r: u8)
        requires
            self.wf(),
        ensures
            r == self.view_model().sa1_rom_byte(address),
    {
        match self.sa1_rom_index(address) {
            Some(index) => self.rom[index],
            None => 0xff,
        }
    }
}

/// SA-1 ROM index of `address` for a ROM of `rom_len` bytes and the given
/// bank registers.
pub fn sa1_rom_index_in(rom_len: usize, banks: [u8; 4], address: u32) -> (r: Option<usize>)
    requires
        rom_len > 0,
    ensures
        r is None <==> sa1_rom_index_of(rom_len as int, banks, address) is None,
        r matches Some(i) ==> sa1_rom_index_of(rom_len as int, banks, address) == Some(i as int)
            && i < rom_len,
{
    let bank = address / 0x1_0000 % 0x100;
    let offset = address % 0x1_0000;
    let translated: u32 = if SnesCartridge::sa1_low_bank(address) && offset >= 0x8000 {
        (if bank >= 0x80 { 0x20_0000u32 } else { 0 }) + (bank % 0x40) * 0x8000 + offset % 0x8000
    } else if bank >= 0xc0 {
        address
    } else {
        return None;
    };
    let logical = translated % 0x40_0000;
    let segment = (logical / 0x10_0000) as usize;
    let control = banks[segment];
    let physical = if translated < 0x40_0000 && control & 0x80 == 0 {
        logical
    } else {
        (control % 8) as u32 * 0x10_0000 + logical % 0x10_0000
    };
    Some(mirror_rom_index(physical as usize, rom_len))
}

/// `0x100 << bwp` as a checked shift of a machine word.
fn protect_limit_of(bwp: u8) -> (r: usize)
    ensures
        r == protect_limit(bwp),
{
    if bwp as u32 >= usize::BITS {
        usize::MAX
    } else {
        0x100usize << bwp
    }
}

/// The bus value of `address` in a LoROM/HiROM/ExHiROM ROM window, as a
/// linear ROM offset before mirroring.
pub open spec fn rom_window_index(map: SnesMap, address: u32) -> Option<int> {
    let bank = bank_of(address);
    let offset = offset_of(address);
    match map {
        SnesMap::LoRom => if offset >= 0x8000 {
            Some((bank % 0x80) * 0x8000 + offset % 0x8000)
        } else {
            None
        },
        SnesMap::HiRom => if (0x40 <= bank <= 0x7d) || bank >= 0xc0 || offset >= 0x8000 {
            Some((bank % 0x40) * 0x1_0000 + offset)
        } else {
            None
        },
        SnesMap::ExHiRom => if bank >= 0xc0 {
            Some((bank % 0x40) * 0x1_0000 + offset)
        } else if 0x40 <= bank <= 0x7d {
            Some(0x40_0000 + (bank % 0x40) * 0x1_0000 + offset)
        } else if 0x80 <= bank <= 0xbf && offset >= 0x8000 {
            Some((bank % 0x40) * 0x1_0000 + offset)
        } else if bank <= 0x3f && offset >= 0x8000 {
            Some(0x40_0000 + bank * 0x1_0000 + offset)
        } else {
            None
        },
    }
}

impl CartModel {
    /// The battery RAM byte a bus address selects, for carts whose RAM is not
    /// managed by OBC-1 or SA-1.
    pub open spec fn sram_index(self, address: u32) -> Option<int> {
        let bank = bank_of(address);
        let offset = offset_of(address);
        if self.sram.len() == 0 || self.coprocessor == SnesCoprocessor::Obc1
            || self.coprocessor == SnesCoprocessor::Sa1 {
            None
        } else {
            let raw = match self.map {
                SnesMap::LoRom => if ((0x70 <= bank <= 0x7d) || bank >= 0xf0) && offset < 0x8000 {
                    Some((bank % 0x10) * 0x8000 + offset)
                } else {
                    None
                },
                _ => if ((0x20 <= bank <= 0x3f) || (0xa0 <= bank <= 0xbf)) && 0x6000 <= offset
                    < 0x8000 {
                    Some((bank % 0x20) * 0x2000 + (offset - 0x6000))
                } else {
                    None
                },
            };
            match raw {
                Some(r) => Some(r % self.sram.len() as int),
                None => None,
            }
        }
    }

    /// DSP-1 port: Some(true) for the status register, Some(false) for data.
    pub open spec fn dsp1_port(self, address: u32) -> Option<bool> {
        let bank = bank_of(address);
        let offset = offset_of(address);
        if self.coprocessor != SnesCoprocessor::Dsp1 {
            None
        } else if self.map == SnesMap::LoRom && self.rom.len() > 0x10_0000 && ((0x60 <= bank
            <= 0x6f) || (0xe0 <= bank <= 0xef)) && offset < 0x8000 {
            Some(offset >= 0x4000)
        } else if self.map == SnesMap::LoRom && self.rom.len() <= 0x10_0000 && ((0x20 <= bank
            <= 0x3f) || (0xa0 <= bank <= 0xbf)) && offset >= 0x8000 {
            Some(offset >= 0xc000)
        } else if self.map == SnesMap::HiRom && (bank <= 0x1f || (0x80 <= bank <= 0x9f)) && 0x6000
            <= offset < 0x8000 {
            Some(offset >= 0x7000)
        } else {
            None
        }
    }

    pub open spec fn dsp2_port(self, address: u32) -> bool {
        let bank = bank_of(address);
        let offset = offset_of(address);
        self.coprocessor == SnesCoprocessor::Dsp2 && ((0x20 <= bank <= 0x3f) || (0xa0 <= bank
            <= 0xbf)) && ((0x6000 <= offset <= 0x6fff) || (0x8000 <= offset <= 0xbfff))
    }

    pub open spec fn dsp3_port(self, address: u32) -> Option<u16> {
        let bank = bank_of(address);
        let offset = offset_of(address);
        if self.coprocessor == SnesCoprocessor::Dsp3 && ((0x20 <= bank <= 0x3f) || (0xa0 <= bank
            <= 0xbf)) && offset >= 0x8000 {
            Some(offset as u16)
        } else {
            None
        }
    }

    /// Addresses the coprocessor chip itself answers.
    pub open spec fn is_chip_port(self, address: u32) -> bool {
        self.dsp3_port(address).is_some() || self.dsp2_port(address) || self.dsp1_port(
            address,
        ).is_some()
    }

    pub open spec fn obc1_window(self, address: u32) -> bool {
        let bank = bank_of(address);
        let offset = offset_of(address);
        self.coprocessor == SnesCoprocessor::Obc1 && ((is_low_bank(bank) && 0x6000 <= offset
            < 0x8000) || ((bank == 0x70 || bank == 0x71 || bank == 0xf0 || bank == 0xf1) && (
        (0x6000 <= offset < 0x8000) || offset >= 0xe000)))
    }

    /// OBC-1 base of the active object table: bit 0 of $7FF5 selects $1800, else $1C00.
    pub open spec fn obc1_base(self) -> int {
        if self.sram[0x1ff5] % 2 == 1 { 0x1800 } else { 0x1c00 }
    }

    /// The OBC-1 RAM byte a window address reaches: $7FF0-$7FF3 are the
    /// selected object's four bytes, $7FF4 its packed attribute byte, and every
    /// other offset the RAM directly.
    pub open spec fn obc1_index(self, address: u32) -> int {
        let offset = address as int % 0x2000;
        let object = (self.sram[0x1ff6] % 0x80) as int;
        if 0x1ff0 <= offset <= 0x1ff3 {
            self.obc1_base() + object * 4 + (offset - 0x1ff0)
        } else if offset == 0x1ff4 {
            self.obc1_base() + object / 4 + 0x200
        } else {
            offset
        }
    }

    /// OBC-1 RAM after a window write; $7FF4 writes only the selected
    /// object's 2-bit field of the packed attribute byte.
    pub open spec fn obc1_written(self, address: u32, value: u8) -> Seq<u8> {
        let offset = address as int % 0x2000;
        let i = self.obc1_index(address);
        if offset == 0x1ff4 {
            self.sram.update(
                i,
                with_crumb(self.sram[i], ((self.sram[0x1ff6] % 4) * 2) as u8, value),
            )
        } else {
            self.sram.update(i, value)
        }
    }

    /// A main-CPU read: None for the coprocessor chip's own ports, else the
    /// byte the cartridge drives (open bus reads $FF).
    pub open spec fn read(self, address: u32) -> Option<u8> {
        if self.is_chip_port(address) {
            None
        } else if self.sa1_cpu_read(address).is_some() {
            self.sa1_cpu_read(address)
        } else if self.obc1_window(address) {
            Some(self.sram[self.obc1_index(address)])
        } else if self.sram_index(address).is_some() {
            Some(self.sram[self.sram_index(address).unwrap()])
        } else {
            match rom_window_index(self.map, address) {
                Some(i) => Some(self.rom[mirror_index(i, self.rom.len() as int)]),
                None => Some(0xff),
            }
        }
    }

    /// The SA-1 mapping of a main-CPU write, if the address is SA-1 space.
    pub open spec fn sa1_cpu_write(self, address: u32, value: u8) -> Option<CartModel> {
        match self.sa1 {
            None => None,
            Some(sa1) => {
                let bank = bank_of(address);
                let offset = offset_of(address);
                if sa1_io_register_of(address).is_some() {
                    Some(self.after_cpu_io_write(sa1_io_register_of(address).unwrap(), value))
                } else if is_low_bank(bank) && 0x3000 <= offset < 0x3800 {
                    if sa1.siwp & (1u8 << ((offset / 0x100) % 8) as u8) != 0 {
                        Some(
                            self.with_sa1(
                                Sa1State {
                                    iram: spec_array_update(sa1.iram, offset % 0x800, value),
                                    ..sa1
                                },
                            ),
                        )
                    } else {
                        Some(self)
                    }
                } else {
                    let raw = if is_low_bank(bank) && 0x6000 <= offset < 0x8000 {
                        Some((sa1.bmaps % 0x20) as int * 0x2000 + offset % 0x2000)
                    } else if 0x40 <= bank <= 0x4f {
                        Some((bank - 0x40) * 0x1_0000 + offset)
                    } else {
                        None
                    };
                    match raw {
                        Some(r) => if !self.bwram_protected(r) && self.bwram_index(r).is_some() {
                            Some(
                                self.with_sram(self.sram.update(self.bwram_index(r).unwrap(), value)),
                            )
                        } else {
                            Some(self)
                        },
                        None => if self.sa1_rom_index(address).is_some() {
                            Some(self)
                        } else {
                            None
                        },
                    }
                }
            },
        }
    }

    /// The cartridge after a main-CPU write (the coprocessor chip's own
    /// ports leave the cartridge mapping unchanged).
    pub open spec fn write(self, address: u32, value: u8) -> CartModel {
        if self.is_chip_port(address) {
            self
        } else if self.sa1_cpu_write(address, value).is_some() {
            self.sa1_cpu_write(address, value).unwrap()
        } else if self.obc1_window(address) {
            self.with_sram(self.obc1_written(address, value))
        } else if self.sram_index(address).is_some() {
            self.with_sram(self.sram.update(self.sram_index(address).unwrap(), value))
        } else {
            self
        }
    }
}

/// On a cartridge whose battery RAM the bus maps directly (no SA-1), a byte
/// written to a RAM address reads back unchanged.
pub proof fn sram_write_reads_back(c: CartModel, address: u32, value: u8)
    requires
        c.sa1.is_none(),
        c.sram_index(address).is_some(),
        !c.is_chip_port(address),
    ensures
        c.write(address, value).read(address) == Some(value),
{
    let i = c.sram_index(address).unwrap();
    let written = c.write(address, value);
    assert(written == c.with_sram(c.sram.update(i, value)));
    assert(written.sram_index(address) == Some(i));
}

proof fn lemma_hirom_sram_index(c: CartModel, address: u32)
    requires
        c.map == SnesMap::HiRom || c.map == SnesMap::ExHiRom,
        c.sram.len() > 0,
        c.coprocessor != SnesCoprocessor::Obc1,
        c.coprocessor != SnesCoprocessor::Sa1,
        address < 0x100_0000,
        (0x20 <= address as int / 0x1_0000 <= 0x3f) || (0xa0 <= address as int / 0x1_0000 <= 0xbf),
        0x6000 <= address as int % 0x1_0000 < 0x8000,
    ensures
        c.sram_index(address) == Some(
            ((address as int / 0x1_0000 % 0x20) * 0x2000 + address as int % 0x1_0000 - 0x6000) % c.sram.len() as int,
        ),
{
    assert(bank_of(address) == address as int / 0x1_0000);
}

proof fn lemma_sram_read(c: CartModel, address: u32)
    requires
        c.sa1.is_none(),
        c.coprocessor != SnesCoprocessor::Obc1,
        !c.is_chip_port(address),
        c.sram_index(address).is_some(),
    ensures
        c.read(address) == Some(c.sram[c.sram_index(address).unwrap()]),
{
}

/// On a HiROM or ExHiROM cartridge with battery RAM (and no OBC-1 or SA-1),
/// every address in banks $20-$3F and $A0-$BF at offsets $6000-$7FFF is
/// battery RAM: 8 KiB per bank from bank $20 (or $A0) on, wrapping at the
/// RAM's size. A byte written there reads back, at that address and at the
/// same offset 128 banks away.
#[verifier::spinoff_prover]
#[verifier::rlimit(80)]
pub proof fn hirom_battery_ram_window(c: CartModel, address: u32, mirror: u32, value: u8)
    requires
        c.map == SnesMap::HiRom || c.map == SnesMap::ExHiRom,
        c.sram.len() > 0,
        c.coprocessor != SnesCoprocessor::Obc1,
        c.coprocessor != SnesCoprocessor::Sa1,
        address < 0x100_0000,
        (0x20 <= address as int / 0x1_0000 <= 0x3f) || (0xa0 <= address as int / 0x1_0000 <= 0xbf),
        0x6000 <= address as int % 0x1_0000 < 0x8000,
        mirror as int == (if address >= 0x80_0000 { address - 0x80_0000 } else { address + 0x80_0000 }),
    ensures
        c.sram_index(address) == Some(
            ((address as int / 0x1_0000 % 0x20) * 0x2000 + address as int % 0x1_0000 - 0x6000) % c.sram.len() as int,
        ),
        c.sram_index(mirror) == c.sram_index(address),
        c.sa1.is_none() && !c.is_chip_port(address) ==> c.write(address, value).read(address) == Some(value),
        c.sa1.is_none() && !c.is_chip_port(address) && !c.is_chip_port(mirror) ==> c.write(address, value).read(mirror)
            == Some(value),
{
    lemma_hirom_sram_index(c, address);
    lemma_hirom_sram_index(c, mirror);
    assert(address as int / 0x1_0000 % 0x20 == mirror as int / 0x1_0000 % 0x20);
    if c.sa1.is_none() && !c.is_chip_port(address) {
        sram_write_reads_back(c, address, value);
        let i = c.sram_index(address).unwrap();
        let written = c.write(address, value);
        assert(written == c.with_sram(c.sram.update(i, value)));
        if !c.is_chip_port(mirror) {
            lemma_hirom_sram_index(written, mirror);
            assert(written.is_chip_port(mirror) == c.is_chip_port(mirror));
            lemma_sram_read(written, mirror);
        }
    }
}

/// On a LoROM cartridge with battery RAM (and no OBC-1 or SA-1), every
/// address in banks $70-$7D and $F0-$FF below offset $8000 is battery RAM:
/// 32 KiB per bank from bank $70 (or $F0) on, wrapping at the RAM's size,
/// and a byte written there reads back.
pub proof fn lorom_battery_ram_window(c: CartModel, address: u32, value: u8)
    requires
        c.map == SnesMap::LoRom,
        c.sram.len() > 0,
        c.coprocessor != SnesCoprocessor::Obc1,
        c.coprocessor != SnesCoprocessor::Sa1,
        address < 0x100_0000,
        (0x70 <= address as int / 0x1_0000 <= 0x7d) || 0xf0 <= address as int / 0x1_0000,
        address as int % 0x1_0000 < 0x8000,
    ensures
        c.sram_index(address) == Some(
            ((address as int / 0x1_0000 % 0x10) * 0x8000 + address as int % 0x1_0000) % c.sram.len() as int,
        ),
        c.sa1.is_none() && !c.is_chip_port(address) ==> c.write(address, value).read(address) == Some(value),
{
    assert(bank_of(address) == address as int / 0x1_0000);
    if c.sa1.is_none() && !c.is_chip_port(address) {
        sram_write_reads_back(c, address, value);
    }
}

/// The bus reaches battery RAM directly only on cartridges that have it
/// and manage it without OBC-1 or SA-1, and only through the window of
/// their map: banks $70-$7D and $F0-$FF below $8000 on LoROM, banks
/// $20-$3F and $A0-$BF at $6000-$7FFF otherwise; the index lies in the RAM.
pub proof fn battery_ram_only_in_its_window(c: CartModel, address: u32)
    requires
        c.sram_index(address).is_some(),
    ensures
        c.sram.len() > 0,
        c.coprocessor != SnesCoprocessor::Obc1,
        c.coprocessor != SnesCoprocessor::Sa1,
        0 <= c.sram_index(address).unwrap() < c.sram.len(),
        c.map == SnesMap::LoRom ==> ((0x70 <= bank_of(address) <= 0x7d) || 0xf0 <= bank_of(address))
            && offset_of(address) < 0x8000,
        c.map != SnesMap::LoRom ==> ((0x20 <= bank_of(address) <= 0x3f) || (0xa0 <= bank_of(address) <= 0xbf))
            && 0x6000 <= offset_of(address) < 0x8000,
{
}

impl SnesCartridge {
    pub fn sram_index(&self, address: u32) -> (r: Option<usize>)
        ensures
            r is None <==> self.view_model().sram_index(address) is None,
            r matches Some(i) ==> self.view_model().sram_index(address) == Some(i as int) && i
                < self.sram@.len(),
    {
        if self.sram.len() == 0 || self.coprocessor == SnesCoprocessor::Obc1 || self.coprocessor
            == SnesCoprocessor::Sa1 {
            return None;
        }
        let bank = (address / 0x1_0000 % 0x100) as usize;
        let offset = (address % 0x1_0000) as usize;
        let raw = match self.map {
            SnesMap::LoRom => if ((0x70 <= bank && bank <= 0x7d) || bank >= 0xf0) && offset
                < 0x8000 {
                (bank % 0x10) * 0x8000 + offset
            } else {
                return None;
            },
            _ => if ((0x20 <= bank && bank <= 0x3f) || (0xa0 <= bank && bank <= 0xbf)) && 0x6000
                <= offset && offset < 0x8000 {
                (bank % 0x20) * 0x2000 + (offset - 0x6000)
            } else {
                return None;
            },
        };
        Some(raw % self.sram.len())
    }

    pub fn dsp1_port(&self, address: u32) -> (r: Option<bool>)
        ensures
            r == self.view_model().dsp1_port(address),
    {
        if self.coprocessor != SnesCoprocessor::Dsp1 {
            return None;
        }
        let bank = address / 0x1_0000 % 0x100;
        let offset = address % 0x1_0000;
        if self.map == SnesMap::LoRom && self.rom.len() > 0x10_0000 && ((0x60 <= bank && bank
            <= 0x6f) || (0xe0 <= bank && bank <= 0xef)) && offset < 0x8000 {
            Some(offset >= 0x4000)
        } else if self.map == SnesMap::LoRom && self.rom.len() <= 0x10_0000 && ((0x20 <= bank
            && bank <= 0x3f) || (0xa0 <= bank && bank <= 0xbf)) && offset >= 0x8000 {
            Some(offset >= 0xc000)
        } else if self.map == SnesMap::HiRom && (bank <= 0x1f || (0x80 <= bank && bank <= 0x9f))
            && 0x6000 <= offset && offset < 0x8000 {
            Some(offset >= 0x7000)
        } else {
            None
        }
    }

    pub fn dsp2_port(&self, address: u32) -> (r: bool)
        ensures
            r == self.view_model().dsp2_port(address),
    {
        if self.coprocessor != SnesCoprocessor::Dsp2 {
            return false;
        }
        let bank = address / 0x1_0000 % 0x100;
        let offset = address % 0x1_0000;
        ((0x20 <= bank && bank <= 0x3f) || (0xa0 <= bank && bank <= 0xbf)) && ((0x6000 <= offset
            && offset <= 0x6fff) || (0x8000 <= offset && offset <= 0xbfff))
    }

    pub fn dsp3_port(&self, address: u32) -> (r: Option<u16>)
        ensures
            r == self.view_model().dsp3_port(address),
    {
        if self.coprocessor != SnesCoprocessor::Dsp3 {
            return None;
        }
        let bank = address / 0x1_0000 % 0x100;
        let offset = address % 0x1_0000;
        if ((0x20 <= bank && bank <= 0x3f) || (0xa0 <= bank && bank <= 0xbf)) && offset >= 0x8000 {
            Some(offset as u16)
        } else {
            None
        }
    }

    pub fn obc1_window(&self, address: u32) -> (r: bool)
        ensures
            r == self.view_model().obc1_window(address),
    {
        if self.coprocessor != SnesCoprocessor::Obc1 {
            return false;
        }
        let bank = address / 0x1_0000 % 0x100;
        let offset = address % 0x1_0000;
        let low_bank = bank <= 0x3f || (0x80 <= bank && bank <= 0xbf);
        let extended_bank = bank == 0x70 || bank == 0x71 || bank == 0xf0 || bank == 0xf1;
        (low_bank && 0x6000 <= offset && offset < 0x8000) || (extended_bank && ((0x6000 <= offset
            && offset < 0x8000) || offset >= 0xe000))
    }

    fn obc1_index(&self, address: u32) -> (r: usize)
        requires
            self.sram@.len() == 0x2000,
        ensures
            r == self.view_model().obc1_index(address),
            r < 0x2000,
    {
        let offset = (address % 0x2000) as usize;
        let object = (self.sram[0x1ff6] % 0x80) as usize;
        let base: usize = if self.sram[0x1ff5] % 2 == 1 { 0x1800 } else { 0x1c00 };
        if 0x1ff0 <= offset && offset <= 0x1ff3 {
            base + object * 4 + (offset - 0x1ff0)
        } else if offset == 0x1ff4 {
            base + object / 4 + 0x200
        } else {
            offset
        }
    }

    pub fn obc1_read(&self, address: u32) -> (r: Option<u8>)
        requires
            self.wf(),
        ensures
            r == (if self.view_model().obc1_window(address) {
                Some(self.sram@[self.view_model().obc1_index(address)])
            } else {
                None
            }),
    {
        if !self.obc1_window(address) {
            return None;
        }
        Some(self.sram[self.obc1_index(address)])
    }

    pub fn obc1_write(&mut self, address: u32, value: u8) -> (r: bool)
        requires
            old(self).wf(),
        ensures
            r == old(self).view_model().obc1_window(address),
            r ==> final(self).view_model() == old(self).view_model().with_sram(
                old(self).view_model().obc1_written(address, value),
            ),
            !r ==> final(self).view_model() == old(self).view_model(),
            final(self).wf(),
    {
        if !self.obc1_window(address) {
            return false;
        }
        let index = self.obc1_index(address);
        if address % 0x2000 == 0x1ff4 {
            let shift = (self.sram[0x1ff6] % 4) * 2;
            let mask = 3u8 << shift;
            let new = (self.sram[index] & !mask) | ((value & 3) << shift);
            self.sram.set(index, new);
        } else {
            self.sram.set(index, value);
        }
        assert(self.view_model() =~= old(self).view_model().with_sram(
            old(self).view_model().obc1_written(address, value),
        ));
        true
    }

    /// A main-CPU read of the cartridge; None for the coprocessor chip's own ports.
    pub fn read(&self, address: u32) -> (r: Option<u8>)
        requires
            self.wf(),
        ensures
            r == self.view_model().read(address),
    {
        if self.dsp3_port(address).is_some() || self.dsp2_port(address) || self.dsp1_port(
            address,
        ).is_some() {
            return None;
        }
        if let Some(value) = self.sa1_cpu_read(address) {
            return Some(value);
        }
        if let Some(value) = self.obc1_read(address) {
            return Some(value);
        }
        if let Some(index) = self.sram_index(address) {
            return Some(self.sram[index]);
        }
        let bank = (address / 0x1_0000 % 0x100) as usize;
        let offset = (address % 0x1_0000) as usize;
        let index: usize = match self.map {
            SnesMap::LoRom => if offset >= 0x8000 {
                (bank % 0x80) * 0x8000 + offset % 0x8000
            } else {
                return Some(0xff);
            },
            SnesMap::HiRom => if (0x40 <= bank && bank <= 0x7d) || bank >= 0xc0 || offset
                >= 0x8000 {
                (bank % 0x40) * 0x1_0000 + offset
            } else {
                return Some(0xff);
            },
            SnesMap::ExHiRom => if bank >= 0xc0 {
                (bank % 0x40) * 0x1_0000 + offset
            } else if 0x40 <= bank && bank <= 0x7d {
                0x40_0000 + (bank % 0x40) * 0x1_0000 + offset
            } else if 0x80 <= bank && bank <= 0xbf && offset >= 0x8000 {
                (bank % 0x40) * 0x1_0000 + offset
            } else if bank <= 0x3f && offset >= 0x8000 {
                0x40_0000 + bank * 0x1_0000 + offset
            } else {
                return Some(0xff);
            },
        };
        Some(self.rom[mirror_rom_index(index, self.rom.len())])
    }

    /// Runs an SA-1 normal DMA transfer if DCNT enables one.
    #[verifier::rlimit(80)]
    pub fn sa1_run_dma(&mut self)
        requires
            old(self).wf(),
        ensures
            final(self).wf(),
            final(self).view_model() == old(self).view_model().after_dma(),
    {
        let ghost model0 = self.view_model();
        let mut sa1 = match self.sa1.take() {
            Some(sa1) => sa1,
            None => return,
        };
        let ghost sa10 = sa1;
        if sa1.dcnt & 0xa0 != 0x80 {
            self.sa1 = Some(sa1);
            return;
        }
        let source_kind = sa1.dcnt % 4;
        let destination_kind = (sa1.dcnt / 4) % 2;
        let banks = sa1.banks;
        let mut source = sa1.dsa;
        let mut destination = sa1.dda;
        let count = sa1.dtc;
        let mut done: u16 = 0;
        let ghost start = Sa1DmaState {
            sram: self.sram@,
            iram: sa1.iram,
            source: sa1.dsa,
            destination: sa1.dda,
        };
        while done < count
            invariant
                done <= count,
                count == sa10.dtc,
                source_kind == sa10.dcnt % 4,
                destination_kind == (sa10.dcnt / 4) % 2,
                banks == sa10.banks,
                model0.sa1 == Some(sa10),
                sa1 == (Sa1State { iram: sa1.iram, ..sa10 }),
                self.sa1.is_none(),
                self.map == model0.map,
                self.coprocessor == model0.coprocessor,
                model0.rom == self.rom@,
                0 < self.rom@.len() <= usize::MAX / 2,
                self.sram@.len() == model0.sram.len(),
                model0.sram.len() <= usize::MAX / 2,
                source < 0x100_0000,
                destination < 0x100_0000,
                model0.dma_steps(sa10, start, count as nat) == model0.dma_steps(
                    sa10,
                    Sa1DmaState { sram: self.sram@, iram: sa1.iram, source, destination },
                    (count - done) as nat,
                ),
            decreases count - done,
        {
            let ghost before = Sa1DmaState {
                sram: self.sram@,
                iram: sa1.iram,
                source,
                destination,
            };
            let value = if source_kind == 0 {
                match sa1_rom_index_in(self.rom.len(), banks, source) {
                    Some(index) => self.rom[index],
                    None => 0xff,
                }
            } else if source_kind == 1 {
                self.bwram_byte(source as usize)
            } else if source_kind == 2 {
                sa1.iram[source as usize % 0x800]
            } else {
                0xff
            };
            if destination_kind == 0 {
                sa1.iram[destination as usize % 0x800] = value;
            } else if let Some(index) = self.sa1_bwram_index(destination as usize) {
                self.sram.set(index, value);
            }
            source = (source + 1) % 0x100_0000;
            destination = (destination + 1) % 0x100_0000;
            proof {
                let next = model0.dma_step(sa10, before);
                assert(sa1.iram =~= next.iram);
                assert(self.sram@ =~= next.sram);
            }
            done = done + 1;
        }
        let ghost end = model0.dma_steps(sa10, start, count as nat);
        assert(end == Sa1DmaState { sram: self.sram@, iram: sa1.iram, source, destination });
        sa1.dsa = source;
        sa1.dda = destination;
        sa1.dtc = 0;
        sa1.dma_irq_flag = true;
        assert(sa1 == Sa1State {
            iram: end.iram,
            dsa: end.source,
            dda: end.destination,
            dtc: 0,
            dma_irq_flag: true,
            ..sa10
        });
        self.sa1 = Some(sa1);
        assert(self.view_model().sram == model0.after_dma().sram);
        assert(self.view_model().sa1 == model0.after_dma().sa1);
    }
}

impl CartModel {
    /// The BW-RAM view (linear or bit-map) that bank $00-$3F/$80-$BF
    /// $6000-$7FFF shows the SA-1: BMAP selects the 8 KiB block.
    pub open spec fn sa1_window_raw(sa1: Sa1State, offset: int) -> int {
        let map = sa1.bmap;
        (map & (if map & 0x80 == 0 { 0x1fu8 } else { 0x7fu8 })) as int * 0x2000 + offset % 0x2000
    }

    /// What the SA-1 CPU reads at `address`.
    pub open spec fn sa1_read8(self, address: u32) -> u8 {
        match self.sa1 {
            None => 0xff,
            Some(sa1) => {
                let a = (address as int % 0x100_0000) as u32;
                let low16 = a as int % 0x1_0000;
                let bank = bank_of(a);
                let offset = offset_of(a);
                if low16 == 0xffea || low16 == 0xfffa {
                    (sa1.cnv % 0x100) as u8
                } else if low16 == 0xffeb || low16 == 0xfffb {
                    (sa1.cnv / 0x100) as u8
                } else if low16 == 0xffee || low16 == 0xfffe {
                    (sa1.civ % 0x100) as u8
                } else if low16 == 0xffef || low16 == 0xffff {
                    (sa1.civ / 0x100) as u8
                } else if sa1_io_register_of(a).is_some() {
                    sa1.sa1_register_read(sa1_io_register_of(a).unwrap())
                } else if is_low_bank(bank) && (offset < 0x800 || (0x3000 <= offset < 0x3800)) {
                    sa1.iram[offset % 0x800]
                } else if is_low_bank(bank) && 0x6000 <= offset < 0x8000 {
                    if sa1.bmap & 0x80 == 0 {
                        self.bwram_byte(Self::sa1_window_raw(sa1, offset))
                    } else {
                        self.bitmap_read(Self::sa1_window_raw(sa1, offset))
                    }
                } else if 0x40 <= bank <= 0x5f {
                    self.bwram_byte((bank - 0x40) * 0x1_0000 + offset)
                } else if 0x60 <= bank <= 0x6f {
                    self.bitmap_read((bank - 0x60) * 0x1_0000 + offset)
                } else {
                    self.sa1_rom_byte(a)
                }
            },
        }
    }

    pub open spec fn bwram_store(self, raw: int, value: u8) -> CartModel {
        if !self.bwram_protected(raw) && self.bwram_index(raw).is_some() {
            self.with_sram(self.sram.update(self.bwram_index(raw).unwrap(), value))
        } else {
            self
        }
    }

    pub open spec fn bitmap_store(self, raw: int, value: u8) -> CartModel {
        if !self.bwram_protected(raw) {
            self.with_sram(self.bitmap_written(raw, value))
        } else {
            self
        }
    }

    /// The cartridge after an SA-1 CPU write.
    pub open spec fn sa1_write8(self, address: u32, value: u8) -> CartModel {
        match self.sa1 {
            None => self,
            Some(sa1) => {
                let a = (address as int % 0x100_0000) as u32;
                let bank = bank_of(a);
                let offset = offset_of(a);
                if sa1_io_register_of(a).is_some() {
                    self.after_sa1_io_write(sa1_io_register_of(a).unwrap(), value)
                } else if is_low_bank(bank) && (offset < 0x800 || (0x3000 <= offset < 0x3800)) {
                    if sa1.ciwp & (1u8 << ((offset / 0x100) % 8) as u8) != 0 {
                        self.with_sa1(
                            Sa1State {
                                iram: spec_array_update(sa1.iram, offset % 0x800, value),
                                ..sa1
                            },
                        )
                    } else {
                        self
                    }
                } else if is_low_bank(bank) && 0x6000 <= offset < 0x8000 {
                    let raw = Self::sa1_window_raw(sa1, offset);
                    if self.bwram_protected(raw) {
                        self
                    } else if sa1.bmap & 0x80 == 0 {
                        self.bwram_store(raw, value)
                    } else {
                        self.with_sram(self.bitmap_written(raw, value))
                    }
                } else if 0x40 <= bank <= 0x5f {
                    self.bwram_store((bank - 0x40) * 0x1_0000 + offset, value)
                } else if 0x60 <= bank <= 0x6f {
                    self.bitmap_store((bank - 0x60) * 0x1_0000 + offset, value)
                } else {
                    self
                }
            },
        }
    }
}

impl SnesCartridge {
    /// A main-CPU write to SA-1 register `register`.
    pub fn sa1_cpu_write_io(&mut self, register: u16, value: u8)
        requires
            old(self).wf(),
        ensures
            final(self).wf(),
            final(self).view_model() == old(self).view_model().after_cpu_io_write(register, value),
    {
        let mut sa1 = match self.sa1.take() {
            Some(sa1) => sa1,
            None => return,
        };
        let run_dma = (register == 0x2236 && sa1.dcnt & 0xa4 == 0x80) || (register == 0x2237
            && sa1.dcnt & 0xa4 == 0x84);
        sa1.write_cpu_io(register, value);
        self.sa1 = Some(sa1);
        assert(self.view_model() == old(self).view_model().with_sa1(sa1));
        if run_dma {
            self.sa1_run_dma();
        }
    }

    /// The SA-1 mapping of a main-CPU write; false when the address is not SA-1 space.
    pub fn sa1_cpu_write(&mut self, address: u32, value: u8) -> (r: bool)
        requires
            old(self).wf(),
        ensures
            final(self).wf(),
            r == old(self).view_model().sa1_cpu_write(address, value).is_some(),
            r ==> final(self).view_model() == old(self).view_model().sa1_cpu_write(
                address,
                value,
            ).unwrap(),
            !r ==> final(self).view_model() == old(self).view_model(),
    {
        if self.sa1.is_none() {
            return false;
        }
        if let Some(register) = Self::sa1_io_register(address) {
            self.sa1_cpu_write_io(register, value);
            return true;
        }
        let bank = (address / 0x1_0000 % 0x100) as usize;
        let offset = (address % 0x1_0000) as usize;
        if Self::sa1_low_bank(address) && 0x3000 <= offset && offset < 0x3800 {
            let group = ((offset / 0x100) % 8) as u8;
            let mut sa1 = self.sa1.take().unwrap();
            if sa1.siwp & (1u8 << group) != 0 {
                sa1.iram[offset % 0x800] = value;
            }
            let ghost next = sa1;
            self.sa1 = Some(sa1);
            proof {
                let old_sa1 = old(self).sa1.unwrap();
                if old_sa1.siwp & (1u8 << group) != 0 {
                    assert(next.iram =~= spec_array_update(old_sa1.iram, (offset % 0x800) as int, value));
                    assert(next == Sa1State {
                        iram: spec_array_update(old_sa1.iram, (offset % 0x800) as int, value),
                        ..old_sa1
                    });
                }
            }
            return true;
        }
        let bmaps = match &self.sa1 {
            Some(sa1) => sa1.bmaps,
            None => 0,
        };
        let raw = if Self::sa1_low_bank(address) && 0x6000 <= offset && offset < 0x8000 {
            (bmaps % 0x20) as usize * 0x2000 + offset % 0x2000
        } else if 0x40 <= bank && bank <= 0x4f {
            (bank - 0x40) * 0x1_0000 + offset
        } else {
            return self.sa1_rom_index(address).is_some();
        };
        if !self.sa1_bwram_protected(raw) {
            if let Some(index) = self.sa1_bwram_index(raw) {
                self.sram.set(index, value);
            }
        }
        true
    }

    /// A main-CPU write; false when the address is the coprocessor chip's own port.
    pub fn write(&mut self, address: u32, value: u8) -> (r: bool)
        requires
            old(self).wf(),
        ensures
            final(self).wf(),
            r == !old(self).view_model().is_chip_port(address),
            final(self).view_model() == old(self).view_model().write(address, value),
    {
        if self.dsp3_port(address).is_some() || self.dsp2_port(address) || self.dsp1_port(
            address,
        ).is_some() {
            return false;
        }
        if self.sa1_cpu_write(address, value) {
            return true;
        }
        if self.obc1_write(address, value) {
            return true;
        }
        if let Some(index) = self.sram_index(address) {
            self.sram.set(index, value);
        }
        true
    }

    /// An SA-1-side read of SA-1 register `register`; without an SA-1 the
    /// overflow flag reads 0 and every other register $FF.
    pub fn sa1_read_io(&self, register: u16) -> (r: u8)
        ensures
            r == (match self.sa1 {
                Some(sa1) => sa1.sa1_register_read(register),
                None => if register == 0x230b { 0u8 } else { 0xffu8 },
            }),
    {
        match &self.sa1 {
            Some(sa1) => sa1.read_sa1_register(register),
            None => if register == 0x230b { 0 } else { 0xff },
        }
    }

    /// An SA-1 CPU write to one of its own registers; writes to MB's high byte
    /// start the arithmetic unit.
    pub fn sa1_write_io(&mut self, register: u16, value: u8)
        requires
            old(self).wf(),
        ensures
            final(self).wf(),
            final(self).view_model() == old(self).view_model().after_sa1_io_write(register, value),
    {
        let mut sa1 = match self.sa1.take() {
            Some(sa1) => sa1,
            None => return,
        };
        let run_dma = (register == 0x2236 && sa1.dcnt & 0xa4 == 0x80) || (register == 0x2237
            && sa1.dcnt & 0xa4 == 0x84);
        sa1.write_sa1_io(register, value);
        self.sa1 = Some(sa1);
        assert(self.view_model() == old(self).view_model().with_sa1(sa1));
        if run_dma {
            self.sa1_run_dma();
        }
    }

    /// What the SA-1 CPU reads at `address`.
    pub fn sa1_read8(&self, address: u32) -> (r: u8)
        requires
            self.wf(),
        ensures
            r == self.view_model().sa1_read8(address),
    {
        let address = address % 0x100_0000;
        let sa1 = match &self.sa1 {
            Some(sa1) => sa1,
            None => return 0xff,
        };
        let low16 = address % 0x1_0000;
        if low16 == 0xffea || low16 == 0xfffa {
            return (sa1.cnv % 0x100) as u8;
        }
        if low16 == 0xffeb || low16 == 0xfffb {
            return (sa1.cnv / 0x100) as u8;
        }
        if low16 == 0xffee || low16 == 0xfffe {
            return (sa1.civ % 0x100) as u8;
        }
        if low16 == 0xffef || low16 == 0xffff {
            return (sa1.civ / 0x100) as u8;
        }
        if let Some(register) = Self::sa1_io_register(address) {
            return sa1.read_sa1_register(register);
        }
        let bank = (address / 0x1_0000 % 0x100) as usize;
        let offset = (address % 0x1_0000) as usize;
        if Self::sa1_low_bank(address) && (offset < 0x0800 || (0x3000 <= offset && offset
            < 0x3800)) {
            return sa1.iram[offset % 0x800];
        }
        if Self::sa1_low_bank(address) && 0x6000 <= offset && offset < 0x8000 {
            let map = sa1.bmap;
            let raw = (map & if map & 0x80 == 0 { 0x1fu8 } else { 0x7fu8 }) as usize * 0x2000
                + offset % 0x2000;
            return if map & 0x80 == 0 {
                self.bwram_byte(raw)
            } else {
                self.sa1_bitmap_read(raw)
            };
        }
        if 0x40 <= bank && bank <= 0x5f {
            return self.bwram_byte((bank - 0x40) * 0x1_0000 + offset);
        }
        if 0x60 <= bank && bank <= 0x6f {
            return self.sa1_bitmap_read((bank - 0x60) * 0x1_0000 + offset);
        }
        self.sa1_read_rom_byte(address)
    }

    /// An SA-1 CPU write at `address`.
    pub fn sa1_write8(&mut self, address: u32, value: u8)
        requires
            old(self).wf(),
        ensures
            final(self).wf(),
            final(self).view_model() == old(self).view_model().sa1_write8(address, value),
    {
        let address = address % 0x100_0000;
        if self.sa1.is_none() {
            return;
        }
        if let Some(register) = Self::sa1_io_register(address) {
            self.sa1_write_io(register, value);
            return;
        }
        let bank = (address / 0x1_0000 % 0x100) as usize;
        let offset = (address % 0x1_0000) as usize;
        if Self::sa1_low_bank(address) && (offset < 0x0800 || (0x3000 <= offset && offset
            < 0x3800)) {
            let group = ((offset / 0x100) % 8) as u8;
            let mut sa1 = self.sa1.take().unwrap();
            if sa1.ciwp & (1u8 << group) != 0 {
                sa1.iram[offset % 0x800] = value;
            }
            let ghost next = sa1;
            self.sa1 = Some(sa1);
            proof {
                let old_sa1 = old(self).sa1.unwrap();
                if old_sa1.ciwp & (1u8 << group) != 0 {
                    assert(next.iram =~= spec_array_update(old_sa1.iram, (offset % 0x800) as int, value));
                    assert(next == Sa1State {
                        iram: spec_array_update(old_sa1.iram, (offset % 0x800) as int, value),
                        ..old_sa1
                    });
                }
            }
            return;
        }
        let map = match &self.sa1 {
            Some(sa1) => sa1.bmap,
            None => 0,
        };
        if Self::sa1_low_bank(address) && 0x6000 <= offset && offset < 0x8000 {
            let raw = (map & if map & 0x80 == 0 { 0x1fu8 } else { 0x7fu8 }) as usize * 0x2000
                + offset % 0x2000;
            if self.sa1_bwram_protected(raw) {
                return;
            }
            if map & 0x80 == 0 {
                if let Some(index) = self.sa1_bwram_index(raw) {
                    self.sram.set(index, value);
                }
            } else {
                self.sa1_bitmap_write(raw, value);
            }
            return;
        }
        if 0x40 <= bank && bank <= 0x5f {
            let raw = (bank - 0x40) * 0x1_0000 + offset;
            if !self.sa1_bwram_protected(raw) {
                if let Some(index) = self.sa1_bwram_index(raw) {
                    self.sram.set(index, value);
                }
            }
        } else if 0x60 <= bank && bank <= 0x6f {
            let raw = (bank - 0x60) * 0x1_0000 + offset;
            if !self.sa1_bwram_protected(raw) {
                self.sa1_bitmap_write(raw, value);
            }
        }
    }

    pub fn persistent_len(&self) -> (r: usize)
        ensures
            r == self.sram@.len(),
    {
        self.sram.len()
    }

    pub fn persistent(&self) -> (r: &[u8])
        ensures
            r@ == self.sram@,
    {
        self.sram.as_slice()
    }

    /// Replaces battery RAM with `data`, which must have its exact length.
    pub fn set_persistent(&mut self, data: &[u8]) -> (r: Result<(), String>)
        requires
            old(self).wf(),
        ensures
            final(self).wf(),
            data@.len() == old(self).sram@.len() <==> r.is_ok(),
            r.is_ok() ==> final(self).view_model() == old(self).view_model().with_sram(data@),
            r.is_err() ==> final(self).view_model() == old(self).view_model(),
            r matches Err(e) ==> e@ == "SNES SRAM length mismatch"@,
    {
        if data.len() != self.sram.len() {
            return Err("SNES SRAM length mismatch".to_owned());
        }
        let mut i: usize = 0;
        while i < data.len()
            invariant
                i <= data@.len(),
                data@.len() == self.sram@.len(),
                self.sram@.len() == old(self).sram@.len(),
                self.rom == old(self).rom,
                self.map == old(self).map,
                self.coprocessor == old(self).coprocessor,
                self.sa1 == old(self).sa1,
                forall|j: int| 0 <= j < i ==> self.sram@[j] == data@[j],
            decreases data@.len() - i,
        {
            self.sram.set(i, data[i]);
            i = i + 1;
        }
        assert(self.sram@ =~= data@);
        Ok(())
    }
}

} // verus!
