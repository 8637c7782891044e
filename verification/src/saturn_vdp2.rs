//! Saturn VDP2: colour RAM, scroll-screen priorities, windows, mosaic,
//! colour offset and the back screen, and the layer renderers that paint a
//! 320x224 frame from VRAM, CRAM and the register file.
use vstd::prelude::*;
use crate::bytes::{be16, be16_at, be16_wrapped, be16_wrapped_at, be32_wrapped, be32_wrapped_at, is_pow2};
use crate::video::{Rgba, VideoBuffer, shows, same_pixel};
use crate::saturn_vdp1::SaturnVdp1;

verus! {

pub const WIDTH: usize = 320;
pub const HEIGHT: usize = 224;
pub const VDP2_VRAM_SIZE: usize = 0x8_0000;
pub const VDP2_CRAM_SIZE: usize = 0x1000;
pub const VDP2_REGS_SIZE: usize = 0x200;

/// Colour format of a normal scroll screen.
#[derive(Debug, Clone, Copy, PartialEq, Eq, Structural)]
pub struct NormalBgFormat {
    pub color_mode: u16,
    pub palette: usize,
    pub color_ram_offset: usize,
    pub transparent_code_disabled: bool,
}

/// A character pattern picked by a pattern-name entry.
#[derive(Debug, Clone, Copy, PartialEq, Eq, Structural)]
pub struct NormalBgCharacter {
    pub index: usize,
    pub palette: usize,
    pub size: usize,
    pub flip_x: bool,
    pub flip_y: bool,
}

pub struct SaturnVdp2 {
    pub vram: Vec<u8>,
    pub cram: Vec<u8>,
    pub regs: Vec<u8>,
    pub video: VideoBuffer,
    pub priority: Vec<u8>,
    pub frame: u64,
}

/// An 8-bit channel scaled up from a 5-bit one.
pub open spec fn channel(v: int) -> u8 {
    (v * 255 / 31) as u8
}

/// The RGB555 colour `word` (bit 15 ignored) as opaque RGBA.
pub open spec fn color_of(word: u16) -> Rgba {
    Rgba {
        r: channel(word as int % 32),
        g: channel(word as int / 32 % 32),
        b: channel(word as int / 1024 % 32),
        a: 255,
    }
}

/// The 9-bit two's-complement colour offset held in `value`.
pub open spec fn signed_offset(value: u16) -> int {
    let raw = value as int % 0x200;
    if raw >= 0x100 {
        raw - 0x200
    } else {
        raw
    }
}

/// `c + delta` held to 0..=255.
pub open spec fn clamp_channel(c: u8, delta: int) -> u8 {
    let v = c as int + delta;
    if v < 0 {
        0
    } else if v > 255 {
        255
    } else {
        v as u8
    }
}

/// The low `bits` bits of `value` read as a two's-complement number.
pub open spec fn sign_extended(value: u32, bits: int) -> int {
    let p = vstd::arithmetic::power2::pow2(bits as nat) as int;
    let low = value as int % p;
    if low >= p / 2 {
        low - p
    } else {
        low
    }
}

/// Which sprite priority register a framebuffer word selects, for sprite
/// type `sprite_type`; RGB words always select register 0.
pub open spec fn sprite_selector(word: u16, sprite_type: u8, rgb: bool) -> u8 {
    let w = word as int;
    if rgb {
        0
    } else if sprite_type == 0 {
        (w / 0x4000 % 4) as u8
    } else if sprite_type == 1 {
        (w / 0x2000 % 8) as u8
    } else if sprite_type == 2 {
        (w / 0x4000 % 2) as u8
    } else if sprite_type == 3 || sprite_type == 4 {
        (w / 0x2000 % 4) as u8
    } else if 5 <= sprite_type <= 7 {
        (w / 0x1000 % 8) as u8
    } else if sprite_type == 8 || sprite_type == 9 || sprite_type == 12 || sprite_type == 13 {
        (w / 0x80 % 2) as u8
    } else if sprite_type == 10 || sprite_type == 14 {
        (w / 0x40 % 4) as u8
    } else {
        0
    }
}

/// A layer the renderers paint.
pub enum Layer {
    NbgBitmap(int),
    NbgCell(int),
    Rbg0Bitmap(int),
    Rbg0Cell(int),
    Nbg(int),
    Rbg0Parameter(int),
    Rbg0,
}

/// VDP2 memory as mathematical values: VRAM, CRAM and the register file.
pub struct Vdp2Mem {
    pub vram: Seq<u8>,
    pub cram: Seq<u8>,
    pub regs: Seq<u8>,
}

impl Vdp2Mem {
    /// The big-endian register word at byte `offset`.
    pub open spec fn reg(&self, offset: int) -> u16 {
        be16_at(self.regs, offset)
    }

    /// The VRAM word at `address`, wrapping at the end of VRAM.
    pub open spec fn vram16(&self, address: int) -> u16 {
        be16_wrapped_at(self.vram, address)
    }

    pub open spec fn vram32(&self, address: int) -> u32 {
        be32_wrapped_at(self.vram, address)
    }

    pub open spec fn vram_byte(&self, address: int) -> u8 {
        self.vram[address % VDP2_VRAM_SIZE as int]
    }

    /// The CRAM entry that dot colour `dot_color` with colour-RAM offset
    /// `address_offset` selects: 2048 entries in mode 1, 1024 otherwise.
    pub open spec fn cram_index(&self, dot_color: u16, address_offset: int) -> int {
        let mode = self.reg(0x000e) as int / 0x1000 % 4;
        let index = (dot_color as int % 0x800 + (address_offset % 8) * 0x100) % 0x800;
        if mode != 1 {
            index % 0x400
        } else {
            index
        }
    }

    /// The colour of a CRAM entry: 32-bit RGB888 entries in mode 2, RGB555
    /// words otherwise.
    #[verifier::opaque]
    pub open spec fn cram_color_spec(&self, dot_color: u16, address_offset: int) -> Rgba {
        let index = self.cram_index(dot_color, address_offset);
        if self.reg(0x000e) as int / 0x1000 % 4 == 2 {
            let offset = (index * 4) % 0x1000;
            Rgba {
                r: self.cram[(offset + 3) % 0x1000],
                g: self.cram[(offset + 2) % 0x1000],
                b: self.cram[(offset + 1) % 0x1000],
                a: 255,
            }
        } else {
            color_of(be16_wrapped_at(self.cram, (index * 2) % 0x1000))
        }
    }

    /// A CPU byte read of VRAM, CRAM or the register file.
    pub open spec fn read8_spec(&self, address: u32) -> u8 {
        if 0x05e0_0000 <= address <= 0x05ef_ffff {
            self.vram[(address - 0x05e0_0000) % 0x8_0000]
        } else if 0x05f0_0000 <= address <= 0x05f7_ffff {
            self.cram[(address - 0x05f0_0000) % 0x1000]
        } else if 0x05f8_0000 <= address <= 0x05fb_ffff {
            self.regs[(address - 0x05f8_0000) % 0x200]
        } else {
            0
        }
    }

    /// Priority number of normal scroll screen `index` (0 for none).
    pub open spec fn nbg_priority(&self, index: int) -> u8 {
        if index == 0 {
            (self.reg(0x00f8) as int % 8) as u8
        } else if index == 1 {
            (self.reg(0x00f8) as int / 0x100 % 8) as u8
        } else if index == 2 {
            (self.reg(0x00fa) as int % 8) as u8
        } else if index == 3 {
            (self.reg(0x00fa) as int / 0x100 % 8) as u8
        } else {
            0
        }
    }

    pub open spec fn rbg0_priority_spec(&self) -> u8 {
        (self.reg(0x00fc) as int % 8) as u8
    }

    /// Priority held by sprite priority register `selector` (clamped to 7).
    pub open spec fn sprite_priority_spec(&self, selector: u8) -> u8 {
        let s = if selector > 7 { 7 } else { selector as int };
        let word = self.reg(0x00f0 + (s / 2) * 2) as int;
        (if s % 2 == 0 { word % 8 } else { word / 0x100 % 8 }) as u8
    }

    /// `rgba` after the colour offset of layer `layer_bit` (0-3 NBG, 4 RBG0,
    /// 5 back screen, 6 sprites) when that layer enables it: offset A or B
    /// per the select register, each channel clamped.
    pub open spec fn color_offset_spec(&self, layer_bit: int, rgba: Rgba) -> Rgba {
        let enable = self.reg(0x0110);
        if layer_bit < 0 || layer_bit > 6 || enable & (1u16 << (layer_bit as u16)) == 0 {
            rgba
        } else {
            let select = self.reg(0x0112);
            let base = if select & (1u16 << (layer_bit as u16)) != 0 {
                0x011a
            } else {
                0x0114
            };
            Rgba {
                r: clamp_channel(rgba.r, signed_offset(self.reg(base))),
                g: clamp_channel(rgba.g, signed_offset(self.reg(base + 2))),
                b: clamp_channel(rgba.b, signed_offset(self.reg(base + 4))),
                a: rgba.a,
            }
        }
    }

    /// Whether window `window` (0 or 1) covers screen position (x, y): its
    /// rectangle, with the line table's per-scanline horizontal range in
    /// place of the rectangle's when line mode is on.
    #[verifier::opaque]
    pub open spec fn window_contains_spec(&self, window: int, x: int, y: int) -> bool {
        let position_base = if window == 0 { 0x00c0int } else { 0x00c8int };
        let start_x = self.reg(position_base) as int % 0x400;
        let start_y = self.reg(position_base + 2) as int % 0x400;
        let end_x = self.reg(position_base + 4) as int % 0x400;
        let end_y = self.reg(position_base + 6) as int % 0x400;
        if start_y > end_y || y < start_y || y > end_y || start_x > end_x {
            false
        } else {
            let line_register = if window == 0 { 0x00d8int } else { 0x00dcint };
            let upper = self.reg(line_register) as int;
            if upper < 0x8000 {
                start_x <= x <= end_x
            } else {
                let lower = self.reg(line_register + 2) as int;
                let address_value = (upper % 8) * 0x8000 + (lower / 2) % 0x8000;
                let table = (address_value * 4) % 0x8_0000;
                let entry = (table + y * 4) % 0x8_0000;
                let line_start = self.vram16(entry) as int % 0x400;
                let line_end = self.vram16(entry + 2) as int % 0x400;
                line_start <= line_end && line_start <= x <= line_end
            }
        }
    }

    /// The window logic of control byte `control`: bits 1 and 3 enable
    /// windows 0 and 1, bits 0 and 2 select their outside area, bit 7 ANDs
    /// the enabled windows (else ORs); no enabled window allows everything.
    pub open spec fn window_allows_spec(&self, control: u8, x: int, y: int) -> bool {
        let w0 = control & 0x02 != 0;
        let w1 = control & 0x08 != 0;
        let v0 = if control & 0x01 != 0 {
            !self.window_contains_spec(0, x, y)
        } else {
            self.window_contains_spec(0, x, y)
        };
        let v1 = if control & 0x04 != 0 {
            !self.window_contains_spec(1, x, y)
        } else {
            self.window_contains_spec(1, x, y)
        };
        if !w0 && !w1 {
            true
        } else if control & 0x80 != 0 {
            (!w0 || v0) && (!w1 || v1)
        } else {
            (w0 && v0) || (w1 && v1)
        }
    }

    /// The window control byte of normal scroll screen `index`.
    pub open spec fn nbg_window_control(&self, index: int) -> u8 {
        let word = self.reg(if index < 2 { 0x00d0int } else { 0x00d2int }) as int;
        (if index % 2 == 0 { word % 0x100 } else { word / 0x100 }) as u8
    }

    /// The mosaic block origin that screen position (x, y) samples.
    pub open spec fn mosaic_spec(&self, enabled: bool, x: int, y: int) -> (int, int) {
        let control = self.reg(0x0022) as int;
        if !enabled {
            (x, y)
        } else {
            let width = control / 0x100 % 16 + 1;
            let height = control / 0x1000 % 16 + 1;
            (x - x % width, y - y % height)
        }
    }

    pub open spec fn nbg_mosaic_on(&self, index: int) -> bool {
        0 <= index <= 3 && self.reg(0x0022) & (1u16 << (index as u16)) != 0
    }

    /// A scroll value register pair: 11 integer bits, and 8 fraction bits
    /// when `fractional`, as 16.16 fixed point.
    pub open spec fn scroll_spec(&self, offset: int, fractional: bool) -> int {
        (self.reg(offset) as int % 0x800) * 0x1_0000 + if fractional {
            (self.reg(offset + 2) as int / 0x100 % 0x100) * 0x100
        } else {
            0
        }
    }

    /// A coordinate increment register pair (3.8 fixed point); zero reads as 1.0.
    pub open spec fn zoom_spec(&self, offset: int) -> int {
        let raw = (self.reg(offset) as int % 8) * 0x1_0000 + (self.reg(offset + 2) as int / 0x100
            % 0x100) * 0x100;
        if raw == 0 {
            0x1_0000
        } else {
            raw
        }
    }

    /// The line-scroll table of NBG0 (`index` 0) or NBG1: per group of
    /// lines, optional horizontal scroll, vertical scroll and horizontal
    /// increment entries replace or adjust (scroll_x, scroll_y, zoom_x).
    #[verifier::opaque]
    pub open spec fn line_scroll_spec(
        &self,
        index: int,
        sample_y: int,
        scroll_x: int,
        scroll_y: int,
        zoom_x: int,
        zoom_y: int,
    ) -> (int, int, int) {
        let control = self.reg(0x009a);
        let h = if index == 0 { control & 0x0002 != 0 } else { control & 0x0200 != 0 };
        let v = if index == 0 { control & 0x0004 != 0 } else { control & 0x0400 != 0 };
        let lz = if index == 0 { control & 0x0008 != 0 } else { control & 0x0800 != 0 };
        let shift = if index == 0 { control as int / 0x10 % 4 } else { control as int / 0x1000 % 4 };
        let table = if index == 0 { 0x00a0int } else { 0x00a4int };
        let active = (if h { 1int } else { 0 }) + (if v { 1int } else { 0 }) + (if lz { 1int } else { 0 });
        if active == 0 {
            (scroll_x, scroll_y, zoom_x)
        } else {
            let interval = if shift == 0 { 1int } else if shift == 1 { 2 } else if shift == 2 { 4 } else { 8 };
            let group = sample_y / interval;
            let word_address = ((self.reg(table) as int % 8) * 0x1_0000 + self.reg(table + 2) as int)
                % 0x4_0000;
            let a0 = (word_address * 2 + group * (active * 4)) % 0x8_0000;
            let sx = if h { scroll_x + signed_in(bits_8_to_26(self.vram32(a0)), 0x800_0000) } else { scroll_x };
            let a1 = if h { (a0 + 4) % 0x8_0000 } else { a0 };
            let sy = if v {
                scroll_y + signed_in(bits_8_to_26(self.vram32(a1)), 0x800_0000) - (group * interval)
                    * zoom_y
            } else {
                scroll_y
            };
            let a2 = if v { (a1 + 4) % 0x8_0000 } else { a1 };
            let lzv = signed_in(bits_8_to_18(self.vram32(a2)), 0x8_0000);
            (sx, sy, if lz && lzv != 0 { lzv } else { zoom_x })
        }
    }

    /// The map position (integer, may be negative) normal scroll screen
    /// `index` shows at screen position (x, y): mosaic origin, then scroll,
    /// coordinate increment and line scroll in 16.16 fixed point, floored.
    #[verifier::opaque]
    pub open spec fn nbg_source_spec(
        &self,
        index: int,
        x: int,
        y: int,
        scroll_x_offset: int,
        scroll_y_offset: int,
    ) -> (int, int) {
        let sample = self.mosaic_spec(self.nbg_mosaic_on(index), x, y);
        let fractional = index <= 1;
        let scroll_x = self.scroll_spec(scroll_x_offset, fractional);
        let scroll_y = self.scroll_spec(scroll_y_offset, fractional);
        let zoom_x = if index == 0 {
            self.zoom_spec(0x0078)
        } else if index == 1 {
            self.zoom_spec(0x0088)
        } else {
            0x1_0000
        };
        let zoom_y = if index == 0 {
            self.zoom_spec(0x007c)
        } else if index == 1 {
            self.zoom_spec(0x008c)
        } else {
            0x1_0000
        };
        let adjusted = if index <= 1 {
            self.line_scroll_spec(index, sample.1, scroll_x, scroll_y, zoom_x, zoom_y)
        } else {
            (scroll_x, scroll_y, zoom_x)
        };
        (
            (adjusted.0 + sample.0 * adjusted.2) / 0x1_0000,
            (adjusted.1 + sample.1 * zoom_y) / 0x1_0000,
        )
    }

    /// The colour of a palette-coded dot of `format`, or None for the
    /// transparent code 0.
    pub open spec fn paletted_spec(&self, value: int, shift: int, palette: int, format: NormalBgFormat) -> Option<Rgba> {
        if value == 0 && !format.transparent_code_disabled {
            None
        } else {
            Some(self.cram_color_spec((palette * shift + value) as u16, format.color_ram_offset as int))
        }
    }

    /// The dot at byte address `address` (pixel number `pixel`) of a bitmap
    /// or cell in colour mode `format.color_mode`: 4 or 8-bit palette codes,
    /// 11-bit CRAM addresses, RGB555 or RGB888; None when transparent.
    #[verifier::opaque]
    pub open spec fn dot_spec(&self, base: int, pixel: int, palette4: int, palette8: int, format: NormalBgFormat) -> Option<Rgba> {
        let mode = format.color_mode;
        if mode == 0 {
            let byte = self.vram_byte(base + pixel / 2) as int;
            let value = if pixel % 2 == 0 { byte / 16 } else { byte % 16 };
            self.paletted_spec(value, 16, palette4, format)
        } else if mode == 1 {
            self.paletted_spec(self.vram_byte(base + pixel) as int, 0x100, palette8, format)
        } else if mode == 2 {
            let value = self.vram16(base + pixel * 2) as int % 0x800;
            if value == 0 && !format.transparent_code_disabled {
                None
            } else {
                Some(self.cram_color_spec(value as u16, format.color_ram_offset as int))
            }
        } else if mode == 3 {
            let value = self.vram16(base + pixel * 2);
            if value < 0x8000 && !format.transparent_code_disabled {
                None
            } else {
                Some(color_of((value as int % 0x8000) as u16))
            }
        } else if mode == 4 {
            let offset = base + pixel * 4;
            if self.vram_byte(offset) < 0x80 && !format.transparent_code_disabled {
                None
            } else {
                Some(Rgba {
                    r: self.vram_byte(offset + 3),
                    g: self.vram_byte(offset + 2),
                    b: self.vram_byte(offset + 1),
                    a: 255,
                })
            }
        } else {
            None
        }
    }

    /// The dot at (x, y), wrapped to the `width` by `height` bitmap at `base`.
    pub open spec fn bitmap_pixel_spec(&self, base: int, width: int, height: int, x: int, y: int, format: NormalBgFormat) -> Option<Rgba> {
        let pixel = (y % height) * width + x % width;
        self.dot_spec(base, pixel, format.palette as int % 0x1000, format.palette as int % 0x100, format)
    }

    /// The dot at (x, y) of an 8x8 or 16x16 character, flips applied.
    #[verifier::opaque]
    pub open spec fn character_pixel_spec(&self, c: NormalBgCharacter, x: int, y: int, format: NormalBgFormat) -> Option<Rgba> {
        let size = c.size as int;
        if size != 8 && size != 16 {
            None
        } else {
            let fx = if c.flip_x { sat_sub(size - 1, x) } else { x };
            let fy = if c.flip_y { sat_sub(size - 1, y) } else { y };
            let cell_index = (fy / 8) * (size / 8) + fx / 8;
            let cell_bytes = cell_bytes_of(format.color_mode);
            if cell_bytes == 0 {
                None
            } else {
                let base = c.index as int * 0x20 + cell_index * cell_bytes;
                self.dot_spec(base, (fy % 8) * 8 + fx % 8, c.palette as int % 0x1000, c.palette as int % 8, format)
            }
        }
    }

    /// Byte address of the pattern-name table of one plane, by map register,
    /// map offset, entry size, plane size and character size.
    #[verifier::opaque]
    pub open spec fn plane_base_spec(
        &self,
        map_register: u16,
        map_offset: u16,
        one_word: bool,
        plane_size: u16,
        character_size: int,
    ) -> int {
        let c = (map_offset as int % 8) * 64 + map_register as int % 64;
        let large = character_size == 16;
        let address = if plane_size > 2 {
            0
        } else if one_word && !large {
            if plane_size == 0 { c % 0x80 * 0x2000 } else if plane_size == 1 { c / 2 % 0x40 * 0x4000 } else { c / 4 % 0x20 * 0x8000 }
        } else if !one_word && !large {
            if plane_size == 0 { c % 0x40 * 0x4000 } else if plane_size == 1 { c / 2 % 0x20 * 0x8000 } else { c / 4 % 0x10 * 0x1_0000 }
        } else if one_word {
            if plane_size == 0 { c % 0x200 * 0x800 } else if plane_size == 1 { c / 2 % 0x100 * 0x1000 } else { c / 4 % 0x80 * 0x2000 }
        } else {
            if plane_size == 0 { c % 0x100 * 0x1000 } else if plane_size == 1 { c / 2 % 0x80 * 0x2000 } else { c / 4 % 0x40 * 0x4000 }
        };
        address % 0x8_0000
    }

    /// The character number, palette and flips a pattern-name entry at
    /// `address` encodes: two-word entries carry them whole; one-word
    /// entries take the missing bits from the pattern-name control `pnc`.
    #[verifier::opaque]
    pub open spec fn pattern_name_spec(
        &self,
        address: int,
        one_word: bool,
        color_mode: u16,
        pnc: u16,
        character_size: int,
    ) -> (int, int, bool, bool) {
        if !one_word {
            let control = self.vram16(address);
            (
                self.vram16(address + 2) as int % 0x8000,
                control as int % 0x80,
                control & 0x4000 != 0,
                control & 0x8000 != 0,
            )
        } else {
            let entry = self.vram16(address);
            let e = entry as int;
            let p = pnc as int;
            let palette = if color_mode == 0 {
                (p / 32 % 8) * 16 + e / 0x1000 % 16
            } else {
                e / 0x1000 % 8
            };
            let auxiliary = pnc & 0x4000 != 0;
            if character_size == 16 {
                if auxiliary {
                    ((p / 16 % 2) * 0x4000 + (e % 0x1000) * 4 + p % 4, palette, false, false)
                } else {
                    ((p / 4 % 8) * 0x1000 + (e % 0x400) * 4 + p % 4, palette, entry & 0x0400 != 0, entry & 0x0800 != 0)
                }
            } else if auxiliary {
                ((p / 4 % 8) * 0x1000 + e % 0x1000, palette, false, false)
            } else {
                ((p % 0x20) * 0x400 + e % 0x400, palette, entry & 0x0400 != 0, entry & 0x0800 != 0)
            }
        }
    }

    /// The back-screen colour of scanline `line`: one VRAM colour, or one
    /// per line when bit 15 of BKTAU is set; colour offset layer 5.
    pub open spec fn back_screen_spec(&self, line: int) -> Rgba {
        let upper = self.reg(0x00ac) as int;
        let lower = self.reg(0x00ae) as int;
        let word_address = (upper % 8) * 0x1_0000 + lower;
        let line_offset = if upper >= 0x8000 { line * 2 } else { 0 };
        let address = (word_address * 2 + line_offset) % 0x8_0000;
        self.color_offset_spec(5, color_of((self.vram16(address) as int % 0x8000) as u16))
    }

    /// The 6-bit map register of plane `plane`: two per register word, low
    /// byte first, from register offset `base` on.
    pub open spec fn map_register(&self, base: int, plane: int) -> u16 {
        let word = self.reg(base + (plane / 2) * 2) as int;
        (if plane % 2 == 0 { word % 64 } else { word / 0x100 % 64 }) as u16
    }

    /// The dot of a cell-mode map at map position (wx, wy): plane, page and
    /// pattern-name entry are found from the position, the entry names the
    /// character, and the character gives the dot.
    pub open spec fn cell_fetch_spec(&self, g: CellGeometry, wx: int, wy: int) -> Option<Rgba> {
        let cs = g.character_size as int;
        let pw = g.plane_width();
        let ph = g.plane_height();
        let plane = (wy / ph) * g.planes_across as int + wx / pw;
        let wpx = wx % pw;
        let wpy = wy % ph;
        let page = (wpy / 512) * g.pages_x as int + wpx / 512;
        let x = wpx % 512;
        let y = wpy % 512;
        let per_row = 512int / cs;
        let entry_size = if g.one_word() { 2int } else { 4int };
        let table_base = self.plane_base_spec(
            self.map_register(g.map_register_base as int, plane),
            g.map_offset,
            g.one_word(),
            g.plane_size,
            cs,
        );
        let address = table_base + page * (per_row * per_row * entry_size) + ((y / cs) * per_row + x / cs)
            * entry_size;
        let name = self.pattern_name_spec(address, g.one_word(), g.color_mode, g.pnc, cs);
        self.character_pixel_spec(
            NormalBgCharacter {
                index: name.0 as usize,
                palette: name.1 as usize,
                size: g.character_size,
                flip_x: name.2,
                flip_y: name.3,
            },
            x % cs,
            y % cs,
            NormalBgFormat {
                color_mode: g.color_mode,
                palette: name.1 as usize,
                color_ram_offset: g.color_ram_offset,
                transparent_code_disabled: g.transparent_code_disabled,
            },
        )
    }

    /// The bitmap of NBG0 or NBG1, when that screen is on in bitmap mode.
    pub open spec fn nbg_bitmap_geometry(&self, index: int) -> Option<BitmapGeometry> {
        let bgon = self.reg(0x0020);
        let chctla = self.reg(0x0028);
        let l = nbg_registers(index);
        if index < 0 || index > 1 || bgon & l.enable_mask == 0 || chctla & l.bitmap_mask == 0 {
            None
        } else {
            let size = if index == 0 { chctla as int / 4 % 4 } else { chctla as int / 0x400 % 4 };
            let color_mode = if index == 0 { chctla as int / 0x10 % 8 } else { chctla as int / 0x1000 % 4 };
            let palette = if index == 0 { self.reg(0x002c) as int % 8 } else { self.reg(0x002c) as int / 0x100 % 8 };
            let map_offset = self.reg(0x003c) as int / l.field_div as int % 8;
            Some(BitmapGeometry {
                base: ((map_offset * 0x2_0000) % 0x8_0000) as usize,
                width: if size <= 1 { 512 } else { 1024 },
                height: if size % 2 == 0 { 256 } else { 512 },
                format: NormalBgFormat {
                    color_mode: color_mode as u16,
                    palette: palette as usize,
                    color_ram_offset: (self.reg(0x00e4) as int / l.field_div as int % 8) as usize,
                    transparent_code_disabled: bgon & l.transparency_mask != 0,
                },
            })
        }
    }

    /// The map of NBG0-NBG3, when that screen is on in cell mode with a
    /// valid plane size.
    pub open spec fn nbg_cell_geometry(&self, index: int) -> Option<CellGeometry> {
        let bgon = self.reg(0x0020);
        let l = nbg_registers(index);
        let chctl = self.reg(l.chctl_offset as int);
        let plane_size = self.reg(0x003a) as int / l.plane_size_div as int % 4;
        if index < 0 || index > 3 || bgon & l.enable_mask == 0 || chctl & l.bitmap_mask != 0
            || plane_size == 2 {
            None
        } else {
            Some(CellGeometry {
                character_size: if chctl & l.character_size_mask != 0 { 16 } else { 8 },
                color_mode: (chctl as int / l.color_div as int % l.color_modulus as int) as u16,
                plane_size: plane_size as u16,
                pages_x: if plane_size == 0 { 1 } else { 2 },
                pages_y: if plane_size == 3 { 2 } else { 1 },
                pnc: self.reg(l.pnc_offset as int),
                map_register_base: l.map_register_base,
                planes_across: 2,
                map_offset: (self.reg(0x003c) as int / l.field_div as int % 8) as u16,
                color_ram_offset: (self.reg(0x00e4) as int / l.field_div as int % 8) as usize,
                transparent_code_disabled: bgon & l.transparency_mask != 0,
            })
        }
    }

    /// What NBG0 or NBG1 in bitmap mode paints at (x, y), if anything.
    #[verifier::opaque]
    pub open spec fn nbg_bitmap_dot(&self, index: int, x: int, y: int) -> Option<Rgba> {
        match self.nbg_bitmap_geometry(index) {
            None => None,
            Some(g) => if !self.window_allows_spec(self.nbg_window_control(index), x, y) {
                None
            } else {
                let l = nbg_registers(index);
                let s = self.nbg_source_spec(index, x, y, l.scroll_x_offset as int, l.scroll_y_offset as int);
                match self.bitmap_pixel_spec(g.base as int, g.width as int, g.height as int, s.0 % (g.width as int), s.1 % (g.height as int), g.format) {
                    Some(c) => Some(self.color_offset_spec(index, c)),
                    None => None,
                }
            },
        }
    }

    /// What NBG0-NBG3 in cell mode paints at (x, y), if anything.
    #[verifier::opaque]
    pub open spec fn nbg_cell_dot(&self, index: int, x: int, y: int) -> Option<Rgba> {
        match self.nbg_cell_geometry(index) {
            None => None,
            Some(g) => if !self.window_allows_spec(self.nbg_window_control(index), x, y) {
                None
            } else {
                let l = nbg_registers(index);
                let s = self.nbg_source_spec(index, x, y, l.scroll_x_offset as int, l.scroll_y_offset as int);
                match self.cell_fetch_spec(g, s.0 % g.map_width(), s.1 % g.map_height()) {
                    Some(c) => Some(self.color_offset_spec(index, c)),
                    None => None,
                }
            },
        }
    }

    /// What normal scroll screen `index` paints at (x, y): its bitmap or its
    /// cell map, whichever mode it is in.
    pub open spec fn nbg_dot(&self, index: int, x: int, y: int) -> Option<Rgba> {
        if self.nbg_bitmap_geometry(index) is Some {
            self.nbg_bitmap_dot(index, x, y)
        } else {
            self.nbg_cell_dot(index, x, y)
        }
    }
}

impl Vdp2Mem {
    /// What `layer` paints at (x, y), if anything.
    pub open spec fn layer_dot(self, layer: Layer, x: int, y: int) -> Option<Rgba> {
        match layer {
            Layer::NbgBitmap(index) => self.nbg_bitmap_dot(index, x, y),
            Layer::NbgCell(index) => self.nbg_cell_dot(index, x, y),
            Layer::Rbg0Bitmap(parameter) => self.rbg0_bitmap_dot(parameter, x, y),
            Layer::Rbg0Cell(parameter) => self.rbg0_cell_dot(parameter, x, y),
            Layer::Nbg(index) => self.nbg_dot(index, x, y),
            Layer::Rbg0Parameter(parameter) => self.rbg0_parameter_dot(parameter, x, y),
            Layer::Rbg0 => self.rbg0_dot(x, y),
        }
    }
}

impl SaturnVdp2 {
    pub open spec fn mem(&self) -> Vdp2Mem {
        Vdp2Mem { vram: self.vram@, cram: self.cram@, regs: self.regs@ }
    }
}

impl SaturnVdp2 {
    pub open spec fn wf(&self) -> bool {
        &&& self.vram@.len() == VDP2_VRAM_SIZE
        &&& self.cram@.len() == VDP2_CRAM_SIZE
        &&& self.regs@.len() == VDP2_REGS_SIZE
        &&& self.video.width == WIDTH
        &&& self.video.height == HEIGHT
        &&& self.video.wf()
        &&& self.priority@.len() == WIDTH * HEIGHT
    }

}


/// Scales a 5-bit channel to 8 bits.
fn channel_of(v: u16) -> (r: u8)
    requires
        v < 32,
    ensures
        r == channel(v as int),
{
    (v * 255 / 31) as u8
}

/// The RGB555 colour `word` as opaque RGBA.
pub fn color(word: u16) -> (c: Rgba)
    ensures
        c == color_of(word),
{
    Rgba { r: channel_of(word % 32), g: channel_of(word / 32 % 32), b: channel_of(word / 1024 % 32), a: 255 }
}

/// The 9-bit two's-complement colour offset held in `value`.
pub fn signed_color_offset(value: u16) -> (r: i16)
    ensures
        r == signed_offset(value),
{
    let raw = (value % 0x200) as i16;
    if raw >= 0x100 {
        raw - 0x200
    } else {
        raw
    }
}

fn clamp_add(c: u8, delta: i16) -> (r: u8)
    ensures
        r == clamp_channel(c, delta as int),
{
    let v = c as i32 + delta as i32;
    if v < 0 {
        0
    } else if v > 255 {
        255
    } else {
        v as u8
    }
}

/// Which sprite priority register a framebuffer word selects.
pub fn sprite_priority_selector(word: u16, sprite_type: u8, rgb: bool) -> (r: u8)
    ensures
        r == sprite_selector(word, sprite_type, rgb),
{
    if rgb {
        return 0;
    }
    if sprite_type == 0 {
        (word / 0x4000 % 4) as u8
    } else if sprite_type == 1 {
        (word / 0x2000 % 8) as u8
    } else if sprite_type == 2 {
        (word / 0x4000 % 2) as u8
    } else if sprite_type == 3 || sprite_type == 4 {
        (word / 0x2000 % 4) as u8
    } else if 5 <= sprite_type && sprite_type <= 7 {
        (word / 0x1000 % 8) as u8
    } else if sprite_type == 8 || sprite_type == 9 || sprite_type == 12 || sprite_type == 13 {
        (word / 0x80 % 2) as u8
    } else if sprite_type == 10 || sprite_type == 14 {
        (word / 0x40 % 4) as u8
    } else {
        0
    }
}

impl SaturnVdp2 {
    /// A VDP2 with VRAM, CRAM and registers cleared and a black frame.
    pub fn new() -> (v: Self)
        ensures
            v.wf(),
            forall|i: int| 0 <= i < VDP2_VRAM_SIZE ==> v.vram@[i] == 0,
            forall|i: int| 0 <= i < VDP2_CRAM_SIZE ==> v.cram@[i] == 0,
            forall|i: int| 0 <= i < VDP2_REGS_SIZE ==> v.regs@[i] == 0,
            forall|i: int| 0 <= i < WIDTH * HEIGHT ==> v.priority@[i] == 0,
            forall|p: int| 0 <= p < WIDTH * HEIGHT ==> shows(v.video.pixels@, p, Rgba { r: 0, g: 0, b: 0, a: 255 }),
            v.frame == 0,
    {
        SaturnVdp2 {
            vram: vec![0u8; VDP2_VRAM_SIZE],
            cram: vec![0u8; VDP2_CRAM_SIZE],
            regs: vec![0u8; VDP2_REGS_SIZE],
            video: VideoBuffer::new(WIDTH as u32, HEIGHT as u32),
            priority: vec![0u8; WIDTH * HEIGHT],
            frame: 0,
        }
    }

    /// Back to the power-on state.
    pub fn reset(&mut self)
        ensures
            final(self).wf(),
            forall|i: int| 0 <= i < VDP2_VRAM_SIZE ==> final(self).vram@[i] == 0,
            forall|i: int| 0 <= i < VDP2_CRAM_SIZE ==> final(self).cram@[i] == 0,
            forall|i: int| 0 <= i < VDP2_REGS_SIZE ==> final(self).regs@[i] == 0,
            forall|i: int| 0 <= i < WIDTH * HEIGHT ==> final(self).priority@[i] == 0,
            forall|p: int| 0 <= p < WIDTH * HEIGHT ==> shows(final(self).video.pixels@, p, Rgba { r: 0, g: 0, b: 0, a: 255 }),
            final(self).frame == 0,
    {
        *self = Self::new();
    }

    pub fn reg16(&self, offset: usize) -> (r: u16)
        requires
            self.wf(),
            offset + 1 < VDP2_REGS_SIZE,
        ensures
            r == self.mem().reg(offset as int),
    {
        be16(self.regs.as_slice(), offset)
    }

    fn vram16_at(&self, address: usize) -> (r: u16)
        requires
            self.wf(),
            address < usize::MAX,
        ensures
            r == self.mem().vram16(address as int),
    {
        be16_wrapped(self.vram.as_slice(), address)
    }

    fn vram32_at(&self, address: usize) -> (r: u32)
        requires
            self.wf(),
            address < usize::MAX - 3,
        ensures
            r == self.mem().vram32(address as int),
    {
        be32_wrapped(self.vram.as_slice(), address)
    }

    /// The colour CRAM holds for dot colour `dot_color` at colour-RAM offset
    /// `address_offset`.
    pub fn cram_color(&self, dot_color: u16, address_offset: usize) -> (r: Rgba)
        requires
            self.wf(),
        ensures
            r == self.mem().cram_color_spec(dot_color, address_offset as int),
    {
        reveal(Vdp2Mem::cram_color_spec);
        let mode = self.reg16(0x000e) / 0x1000 % 4;
        let mut index = (dot_color as usize % 0x800 + (address_offset % 8) * 0x100) % 0x800;
        if mode != 1 {
            index = index % 0x400;
        }
        if mode == 2 {
            let offset = (index * 4) % VDP2_CRAM_SIZE;
            Rgba {
                r: self.cram[(offset + 3) % VDP2_CRAM_SIZE],
                g: self.cram[(offset + 2) % VDP2_CRAM_SIZE],
                b: self.cram[(offset + 1) % VDP2_CRAM_SIZE],
                a: 255,
            }
        } else {
            color(be16_wrapped(self.cram.as_slice(), (index * 2) % VDP2_CRAM_SIZE))
        }
    }

    /// A CPU byte read; addresses outside VDP2 read 0.
    pub fn read8(&self, address: u32) -> (r: u8)
        requires
            self.wf(),
        ensures
            r == self.mem().read8_spec(address),
    {
        if 0x05e0_0000 <= address && address <= 0x05ef_ffff {
            self.vram[((address - 0x05e0_0000) % 0x8_0000) as usize]
        } else if 0x05f0_0000 <= address && address <= 0x05f7_ffff {
            self.cram[((address - 0x05f0_0000) % 0x1000) as usize]
        } else if 0x05f8_0000 <= address && address <= 0x05fb_ffff {
            self.regs[((address - 0x05f8_0000) % 0x200) as usize]
        } else {
            0
        }
    }

    /// A CPU byte write; VRAM mirrors every 512 KiB, CRAM every 4 KiB and the
    /// register file every 512 bytes; other addresses are ignored.
    pub fn write8(&mut self, address: u32, value: u8)
        requires
            old(self).wf(),
        ensures
            final(self).wf(),
            final(self).video == old(self).video,
            final(self).priority == old(self).priority,
            final(self).frame == old(self).frame,
            final(self).vram@ == (if 0x05e0_0000 <= address <= 0x05ef_ffff {
                old(self).vram@.update((address - 0x05e0_0000) % 0x8_0000, value)
            } else {
                old(self).vram@
            }),
            final(self).cram@ == (if 0x05f0_0000 <= address <= 0x05f7_ffff {
                old(self).cram@.update((address - 0x05f0_0000) % 0x1000, value)
            } else {
                old(self).cram@
            }),
            final(self).regs@ == (if 0x05f8_0000 <= address <= 0x05fb_ffff {
                old(self).regs@.update((address - 0x05f8_0000) % 0x200, value)
            } else {
                old(self).regs@
            }),
            (0x05e0_0000 <= address <= 0x05ef_ffff || 0x05f0_0000 <= address <= 0x05f7_ffff || 0x05f8_0000
                <= address <= 0x05fb_ffff) ==> final(self).mem().read8_spec(address) == value,
    {
        if 0x05e0_0000 <= address && address <= 0x05ef_ffff {
            self.vram.set(((address - 0x05e0_0000) % 0x8_0000) as usize, value);
        } else if 0x05f0_0000 <= address && address <= 0x05f7_ffff {
            self.cram.set(((address - 0x05f0_0000) % 0x1000) as usize, value);
        } else if 0x05f8_0000 <= address && address <= 0x05fb_ffff {
            self.regs.set(((address - 0x05f8_0000) % 0x200) as usize, value);
        }
    }

    /// Priority number of normal scroll screen `index`.
    pub fn normal_bg_priority(&self, index: usize) -> (r: u8)
        requires
            self.wf(),
        ensures
            r == self.mem().nbg_priority(index as int),
    {
        if index == 0 {
            (self.reg16(0x00f8) % 8) as u8
        } else if index == 1 {
            (self.reg16(0x00f8) / 0x100 % 8) as u8
        } else if index == 2 {
            (self.reg16(0x00fa) % 8) as u8
        } else if index == 3 {
            (self.reg16(0x00fa) / 0x100 % 8) as u8
        } else {
            0
        }
    }

    pub fn rbg0_priority(&self) -> (r: u8)
        requires
            self.wf(),
        ensures
            r == self.mem().rbg0_priority_spec(),
    {
        (self.reg16(0x00fc) % 8) as u8
    }

    pub fn sprite_priority(&self, selector: u8) -> (r: u8)
        requires
            self.wf(),
        ensures
            r == self.mem().sprite_priority_spec(selector),
    {
        let s: usize = if selector > 7 { 7 } else { selector as usize };
        let word = self.reg16(0x00f0 + (s / 2) * 2);
        (if s % 2 == 0 { word % 8 } else { word / 0x100 % 8 }) as u8
    }

    /// Applies the colour offset of layer `layer_bit` to `rgba`.
    pub fn apply_color_offset(&self, layer_bit: usize, rgba: Rgba) -> (r: Rgba)
        requires
            self.wf(),
        ensures
            r == self.mem().color_offset_spec(layer_bit as int, rgba),
    {
        let enable = self.reg16(0x0110);
        if layer_bit > 6 || enable & (1u16 << (layer_bit as u16)) == 0 {
            return rgba;
        }
        let select = self.reg16(0x0112);
        let base: usize = if select & (1u16 << (layer_bit as u16)) != 0 { 0x011a } else { 0x0114 };
        Rgba {
            r: clamp_add(rgba.r, signed_color_offset(self.reg16(base))),
            g: clamp_add(rgba.g, signed_color_offset(self.reg16(base + 2))),
            b: clamp_add(rgba.b, signed_color_offset(self.reg16(base + 4))),
            a: rgba.a,
        }
    }

    /// Whether window `window` covers screen position (x, y).
    pub fn window_contains(&self, window: usize, x: usize, y: usize) -> (r: bool)
        requires
            self.wf(),
            y < 0x1_0000,
        ensures
            r == self.mem().window_contains_spec(window as int, x as int, y as int),
    {
        reveal(Vdp2Mem::window_contains_spec);
        let position_base: usize = if window == 0 { 0x00c0 } else { 0x00c8 };
        let start_x = (self.reg16(position_base) % 0x400) as usize;
        let start_y = (self.reg16(position_base + 2) % 0x400) as usize;
        let end_x = (self.reg16(position_base + 4) % 0x400) as usize;
        let end_y = (self.reg16(position_base + 6) % 0x400) as usize;
        if start_y > end_y || y < start_y || y > end_y || start_x > end_x {
            return false;
        }
        let line_register: usize = if window == 0 { 0x00d8 } else { 0x00dc };
        let upper = self.reg16(line_register) as usize;
        if upper < 0x8000 {
            return x >= start_x && x <= end_x;
        }
        let lower = self.reg16(line_register + 2) as usize;
        let address_value = (upper % 8) * 0x8000 + (lower / 2) % 0x8000;
        let table = (address_value * 4) % VDP2_VRAM_SIZE;
        let entry = (table + y * 4) % VDP2_VRAM_SIZE;
        let line_start = (self.vram16_at(entry) % 0x400) as usize;
        let line_end = (self.vram16_at(entry + 2) % 0x400) as usize;
        line_start <= line_end && x >= line_start && x <= line_end
    }

    /// The window logic of control byte `control` at (x, y).
    pub fn window_control_allows(&self, control: u8, x: usize, y: usize) -> (r: bool)
        requires
            self.wf(),
            y < 0x1_0000,
        ensures
            r == self.mem().window_allows_spec(control, x as int, y as int),
    {
        let w0 = control & 0x02 != 0;
        let w1 = control & 0x08 != 0;
        if !w0 && !w1 {
            return true;
        }
        let v0 = if w0 {
            let inside = self.window_contains(0, x, y);
            if control & 0x01 != 0 { !inside } else { inside }
        } else {
            false
        };
        let v1 = if w1 {
            let inside = self.window_contains(1, x, y);
            if control & 0x04 != 0 { !inside } else { inside }
        } else {
            false
        };
        if control & 0x80 != 0 {
            (!w0 || v0) && (!w1 || v1)
        } else {
            (w0 && v0) || (w1 && v1)
        }
    }

    pub fn normal_bg_window_allows(&self, index: usize, x: usize, y: usize) -> (r: bool)
        requires
            self.wf(),
            y < 0x1_0000,
        ensures
            r == self.mem().window_allows_spec(self.mem().nbg_window_control(index as int), x as int, y as int),
    {
        let word = self.reg16(if index < 2 { 0x00d0 } else { 0x00d2 });
        let control = (if index % 2 == 0 { word % 0x100 } else { word / 0x100 }) as u8;
        self.window_control_allows(control, x, y)
    }

    pub fn sprite_window_allows(&self, x: usize, y: usize) -> (r: bool)
        requires
            self.wf(),
            y < 0x1_0000,
        ensures
            r == self.mem().window_allows_spec((self.mem().reg(0x00d4) as int / 0x100) as u8, x as int, y as int),
    {
        let control = (self.reg16(0x00d4) / 0x100) as u8;
        self.window_control_allows(control, x, y)
    }

    pub fn rbg0_window_allows(&self, x: usize, y: usize) -> (r: bool)
        requires
            self.wf(),
            y < 0x1_0000,
        ensures
            r == self.mem().window_allows_spec((self.mem().reg(0x00d4) as int % 0x100) as u8, x as int, y as int),
    {
        let control = (self.reg16(0x00d4) % 0x100) as u8;
        self.window_control_allows(control, x, y)
    }

    fn mosaic_sample(&self, enabled: bool, x: usize, y: usize) -> (r: (usize, usize))
        requires
            self.wf(),
        ensures
            (r.0 as int, r.1 as int) == self.mem().mosaic_spec(enabled, x as int, y as int),
    {
        if !enabled {
            return (x, y);
        }
        let control = self.reg16(0x0022) as usize;
        let width = control / 0x100 % 16 + 1;
        let height = control / 0x1000 % 16 + 1;
        assert(x % width <= x) by (nonlinear_arith)
            requires
                width > 0,
        ;
        assert(y % height <= y) by (nonlinear_arith)
            requires
                height > 0,
        ;
        (x - x % width, y - y % height)
    }

    /// The mosaic block origin normal scroll screen `index` samples at (x, y).
    pub fn normal_bg_mosaic_sample(&self, index: usize, x: usize, y: usize) -> (r: (usize, usize))
        requires
            self.wf(),
        ensures
            (r.0 as int, r.1 as int) == self.mem().mosaic_spec(self.mem().nbg_mosaic_on(index as int), x as int, y as int),
    {
        let control = self.reg16(0x0022);
        let enabled = index <= 3 && control & (1u16 << (index as u16)) != 0;
        self.mosaic_sample(enabled, x, y)
    }

    /// The mosaic block origin RBG0 samples at (x, y).
    pub fn rbg0_mosaic_sample(&self, x: usize, y: usize) -> (r: (usize, usize))
        requires
            self.wf(),
        ensures
            (r.0 as int, r.1 as int) == self.mem().mosaic_spec(self.mem().reg(0x0022) & 0x0010 != 0, x as int, y as int),
    {
        let control = self.reg16(0x0022);
        self.mosaic_sample(control & 0x0010 != 0, x, y)
    }
}


/// The 32-bit word `w` with only bits 8-26 kept.
pub open spec fn bits_8_to_26(w: u32) -> int {
    (w as int % 0x800_0000) / 0x100 * 0x100
}

/// The 32-bit word `w` with only bits 8-18 kept.
pub open spec fn bits_8_to_18(w: u32) -> int {
    (w as int % 0x8_0000) / 0x100 * 0x100
}

/// `m` (below `p`) read as a two's-complement number of width `p`.
pub open spec fn signed_in(m: int, p: int) -> int {
    if m >= p / 2 {
        m - p
    } else {
        m
    }
}

pub open spec fn sat_sub(a: int, b: int) -> int {
    if a <= b {
        0
    } else {
        a - b
    }
}

/// Bytes per 8x8 cell for a colour mode (0 when the mode is invalid).
pub open spec fn cell_bytes_of(color_mode: u16) -> int {
    if color_mode == 0 {
        0x20
    } else if color_mode == 1 {
        0x40
    } else if color_mode == 2 || color_mode == 3 {
        0x80
    } else if color_mode == 4 {
        0x100
    } else {
        0
    }
}

impl SaturnVdp2 {
}


/// `v / 65536`, rounded toward negative infinity.
fn floor_div_65536(v: i64) -> (r: i64)
    requires
        -0x4000_0000_0000_0000 < v < 0x4000_0000_0000_0000,
    ensures
        r == v / 0x1_0000,
        r * 0x1_0000 <= v < r * 0x1_0000 + 0x1_0000,
{
    let shifted = (v + 0x4000_0000_0000_0000) as u64;
    let q = (shifted / 0x1_0000) as i64;
    assert((v + 0x4000_0000_0000_0000) / 0x1_0000 == v / 0x1_0000 + 0x4000_0000_0000) by (nonlinear_arith);
    q - 0x4000_0000_0000
}

fn signed_from(m: u32, p: u32) -> (r: i64)
    requires
        m < p,
    ensures
        r == signed_in(m as int, p as int),
{
    if m >= p / 2 {
        m as i64 - p as i64
    } else {
        m as i64
    }
}

impl SaturnVdp2 {
    fn scroll_value(&self, offset: usize, fractional: bool) -> (r: i64)
        requires
            self.wf(),
            offset + 3 < VDP2_REGS_SIZE,
        ensures
            r == self.mem().scroll_spec(offset as int, fractional),
            0 <= r < 0x800_0000,
    {
        let integer = (self.reg16(offset) % 0x800) as i64 * 0x1_0000;
        if fractional {
            integer + (self.reg16(offset + 2) / 0x100 % 0x100) as i64 * 0x100
        } else {
            integer
        }
    }

    fn zoom_value(&self, offset: usize) -> (r: i64)
        requires
            self.wf(),
            offset + 3 < VDP2_REGS_SIZE,
        ensures
            r == self.mem().zoom_spec(offset as int),
            0 < r < 0x8_0000,
    {
        let raw = (self.reg16(offset) % 8) as i64 * 0x1_0000 + (self.reg16(offset + 2) / 0x100
            % 0x100) as i64 * 0x100;
        if raw == 0 {
            0x1_0000
        } else {
            raw
        }
    }

    #[verifier::rlimit(50)]
    fn line_scroll(
        &self,
        index: usize,
        sample_y: usize,
        scroll_x: i64,
        scroll_y: i64,
        zoom_x: i64,
        zoom_y: i64,
    ) -> (r: (i64, i64, i64))
        requires
            self.wf(),
            index <= 1,
            sample_y < 0x1_0000,
            0 <= scroll_x < 0x800_0000,
            0 <= scroll_y < 0x800_0000,
            0 < zoom_x < 0x8_0000,
            0 < zoom_y < 0x8_0000,
        ensures
            (r.0 as int, r.1 as int, r.2 as int) == self.mem().line_scroll_spec(
                index as int,
                sample_y as int,
                scroll_x as int,
                scroll_y as int,
                zoom_x as int,
                zoom_y as int,
            ),
            -0x400_0000 <= r.0 < 0x1000_0000,
            -0x10_0000_0000 < r.1 < 0x1000_0000,
            -0x4_0000 <= r.2 < 0x8_0000,
    {
        reveal(Vdp2Mem::line_scroll_spec);
        let control = self.reg16(0x009a);
        let h = if index == 0 { control & 0x0002 != 0 } else { control & 0x0200 != 0 };
        let v = if index == 0 { control & 0x0004 != 0 } else { control & 0x0400 != 0 };
        let lz = if index == 0 { control & 0x0008 != 0 } else { control & 0x0800 != 0 };
        let shift = if index == 0 { control / 0x10 % 4 } else { control / 0x1000 % 4 };
        let table: usize = if index == 0 { 0x00a0 } else { 0x00a4 };
        let active: usize = (if h { 1 } else { 0 }) + (if v { 1 } else { 0 }) + (if lz { 1 } else { 0 });
        if active == 0 {
            return (scroll_x, scroll_y, zoom_x);
        }
        let interval: usize = if shift == 0 { 1 } else if shift == 1 { 2 } else if shift == 2 { 4 } else { 8 };
        let group = sample_y / interval;
        assert(group * (active * 4) <= 0x1_0000 * 12) by (nonlinear_arith)
            requires
                group <= 0x1_0000,
                active <= 3,
        ;
        assert(group * interval <= sample_y) by (nonlinear_arith)
            requires
                group == sample_y / interval,
                interval > 0,
        ;
        let word_address = ((self.reg16(table) % 8) as usize * 0x1_0000 + self.reg16(table + 2) as usize)
            % 0x4_0000;
        let a0 = (word_address * 2 + group * (active * 4)) % VDP2_VRAM_SIZE;
        let mut sx = scroll_x;
        let mut a1 = a0;
        if h {
            let w = self.vram32_at(a0);
            sx = scroll_x + signed_from((w % 0x800_0000) / 0x100 * 0x100, 0x800_0000);
            a1 = (a0 + 4) % VDP2_VRAM_SIZE;
        }
        let mut sy = scroll_y;
        let mut a2 = a1;
        if v {
            let w = self.vram32_at(a1);
            let lines = (group * interval) as i64;
            assert(lines * zoom_y < 0x1_0000 * 0x8_0000) by (nonlinear_arith)
                requires
                    0 <= lines <= 0x1_0000,
                    0 < zoom_y < 0x8_0000,
            ;
            assert(lines * zoom_y >= 0) by (nonlinear_arith)
                requires
                    0 <= lines,
                    0 < zoom_y,
            ;
            sy = scroll_y + signed_from((w % 0x800_0000) / 0x100 * 0x100, 0x800_0000) - lines
                * zoom_y;
            a2 = (a1 + 4) % VDP2_VRAM_SIZE;
        }
        let w = self.vram32_at(a2);
        let lzv = signed_from((w % 0x8_0000) / 0x100 * 0x100, 0x8_0000);
        (sx, sy, if lz && lzv != 0 { lzv } else { zoom_x })
    }

    /// The map position normal scroll screen `index` shows at (x, y); the
    /// renderers reduce it modulo their power-of-two map size.
    pub fn normal_bg_source_position(
        &self,
        index: usize,
        x: usize,
        y: usize,
        scroll_x_offset: usize,
        scroll_y_offset: usize,
    ) -> (r: (i64, i64))
        requires
            self.wf(),
            x < 0x1_0000,
            y < 0x1_0000,
            scroll_x_offset + 3 < VDP2_REGS_SIZE,
            scroll_y_offset + 3 < VDP2_REGS_SIZE,
        ensures
            (r.0 as int, r.1 as int) == self.mem().nbg_source_spec(
                index as int,
                x as int,
                y as int,
                scroll_x_offset as int,
                scroll_y_offset as int,
            ),
            -0x1_0000_0000 <= r.0 <= 0x1_0000_0000,
            -0x1_0000_0000 <= r.1 <= 0x1_0000_0000,
    {
        reveal(Vdp2Mem::nbg_source_spec);
        let (sample_x, sample_y) = self.normal_bg_mosaic_sample(index, x, y);
        let fractional = index <= 1;
        let scroll_x = self.scroll_value(scroll_x_offset, fractional);
        let scroll_y = self.scroll_value(scroll_y_offset, fractional);
        let zoom_x = if index == 0 {
            self.zoom_value(0x0078)
        } else if index == 1 {
            self.zoom_value(0x0088)
        } else {
            0x1_0000
        };
        let zoom_y = if index == 0 {
            self.zoom_value(0x007c)
        } else if index == 1 {
            self.zoom_value(0x008c)
        } else {
            0x1_0000
        };
        let (sx, sy, zx) = if index <= 1 {
            self.line_scroll(index, sample_y, scroll_x, scroll_y, zoom_x, zoom_y)
        } else {
            (scroll_x, scroll_y, zoom_x)
        };
        let px = sample_x as i64;
        let py = sample_y as i64;
        assert(-0x1_0000 * 0x4_0000 <= px * zx <= 0x1_0000 * 0x8_0000) by (nonlinear_arith)
            requires
                0 <= px < 0x1_0000,
                -0x4_0000 <= zx < 0x8_0000,
        ;
        assert(0 <= py * zoom_y <= 0x1_0000 * 0x8_0000) by (nonlinear_arith)
            requires
                0 <= py < 0x1_0000,
                0 < zoom_y < 0x8_0000,
        ;
        (floor_div_65536(sx + px * zx), floor_div_65536(sy + py * zoom_y))
    }
}


impl SaturnVdp2 {
    fn paletted(&self, value: usize, shift: usize, palette: usize, format: NormalBgFormat) -> (r: Option<Rgba>)
        requires
            self.wf(),
            value < shift,
            shift == 16 || shift == 0x100,
            palette * shift + value < 0x1_0000,
        ensures
            r == self.mem().paletted_spec(value as int, shift as int, palette as int, format),
    {
        if value == 0 && !format.transparent_code_disabled {
            None
        } else {
            Some(self.cram_color((palette * shift + value) as u16, format.color_ram_offset))
        }
    }

    /// The dot numbered `pixel` of the pattern or bitmap at byte address `base`.
    fn dot(&self, base: usize, pixel: usize, palette4: usize, palette8: usize, format: NormalBgFormat) -> (r: Option<Rgba>)
        requires
            self.wf(),
            base < 0x100_0000,
            pixel < 0x100_0000,
            palette4 < 0x1000,
            palette8 < 0x100,
        ensures
            r == self.mem().dot_spec(base as int, pixel as int, palette4 as int, palette8 as int, format),
    {
        reveal(Vdp2Mem::dot_spec);
        let mode = format.color_mode;
        if mode == 0 {
            let byte = self.vram[(base + pixel / 2) % VDP2_VRAM_SIZE] as usize;
            let value = if pixel % 2 == 0 { byte / 16 } else { byte % 16 };
            self.paletted(value, 16, palette4, format)
        } else if mode == 1 {
            self.paletted(self.vram[(base + pixel) % VDP2_VRAM_SIZE] as usize, 0x100, palette8, format)
        } else if mode == 2 {
            let value = self.vram16_at(base + pixel * 2) % 0x800;
            if value == 0 && !format.transparent_code_disabled {
                None
            } else {
                Some(self.cram_color(value, format.color_ram_offset))
            }
        } else if mode == 3 {
            let value = self.vram16_at(base + pixel * 2);
            if value < 0x8000 && !format.transparent_code_disabled {
                None
            } else {
                Some(color(value % 0x8000))
            }
        } else if mode == 4 {
            let offset = base + pixel * 4;
            if self.vram[offset % VDP2_VRAM_SIZE] < 0x80 && !format.transparent_code_disabled {
                None
            } else {
                Some(Rgba {
                    r: self.vram[(offset + 3) % VDP2_VRAM_SIZE],
                    g: self.vram[(offset + 2) % VDP2_VRAM_SIZE],
                    b: self.vram[(offset + 1) % VDP2_VRAM_SIZE],
                    a: 255,
                })
            }
        } else {
            None
        }
    }

    /// The dot at (x, y) of a `dimensions` bitmap at `base`, coordinates
    /// wrapping at its edges.
    pub fn normal_bg_bitmap_pixel(
        &self,
        base: usize,
        dimensions: [usize; 2],
        position: [usize; 2],
        format: NormalBgFormat,
    ) -> (r: Option<Rgba>)
        requires
            self.wf(),
            base < VDP2_VRAM_SIZE,
            0 < dimensions[0] <= 0x800,
            0 < dimensions[1] <= 0x800,
        ensures
            r == self.mem().bitmap_pixel_spec(
                base as int,
                dimensions[0] as int,
                dimensions[1] as int,
                position[0] as int,
                position[1] as int,
                format,
            ),
    {
        let width = dimensions[0];
        let height = dimensions[1];
        let x = position[0] % width;
        let y = position[1] % height;
        assert(y * width + x < 0x800 * 0x800) by (nonlinear_arith)
            requires
                y < height <= 0x800,
                x < width <= 0x800,
        ;
        let pixel = y * width + x;
        self.dot(base, pixel, format.palette % 0x1000, format.palette % 0x100, format)
    }

    /// The dot at `position` of character `character`.
    #[verifier::rlimit(60)]
    pub fn normal_bg_character_pixel(
        &self,
        character: NormalBgCharacter,
        position: [usize; 2],
        format: NormalBgFormat,
    ) -> (r: Option<Rgba>)
        requires
            self.wf(),
            character.index < 0x1_0000,
            position[0] < 16,
            position[1] < 16,
        ensures
            r == self.mem().character_pixel_spec(character, position[0] as int, position[1] as int, format),
    {
        reveal(Vdp2Mem::character_pixel_spec);
        let size = character.size;
        if size != 8 && size != 16 {
            return None;
        }
        let x = if character.flip_x {
            if size - 1 <= position[0] { 0 } else { size - 1 - position[0] }
        } else {
            position[0]
        };
        let y = if character.flip_y {
            if size - 1 <= position[1] { 0 } else { size - 1 - position[1] }
        } else {
            position[1]
        };
        let cells_per_row = size / 8;
        assert((y / 8) * cells_per_row <= 2) by (nonlinear_arith)
            requires
                y < 16,
                cells_per_row <= 2,
        ;
        let cell_index = (y / 8) * cells_per_row + x / 8;
        let mode = format.color_mode;
        let cell_bytes: usize = if mode == 0 {
            0x20
        } else if mode == 1 {
            0x40
        } else if mode == 2 || mode == 3 {
            0x80
        } else if mode == 4 {
            0x100
        } else {
            return None;
        };
        assert(cell_index * cell_bytes <= 3 * 0x100) by (nonlinear_arith)
            requires
                cell_index <= 3,
                cell_bytes <= 0x100,
        ;
        let base = character.index * 0x20 + cell_index * cell_bytes;
        self.dot(base, (y % 8) * 8 + x % 8, character.palette % 0x1000, character.palette % 8, format)
    }
}


impl SaturnVdp2 {
    pub fn normal_bg_plane_base(
        &self,
        map_register: u16,
        map_offset: u16,
        one_word: bool,
        plane_size: u16,
        character_size: usize,
    ) -> (r: usize)
        ensures
            r == self.mem().plane_base_spec(map_register, map_offset, one_word, plane_size, character_size as int),
            r < VDP2_VRAM_SIZE,
    {
        reveal(Vdp2Mem::plane_base_spec);
        let c = (map_offset % 8) as usize * 64 + (map_register % 64) as usize;
        let large = character_size == 16;
        let address: usize = if plane_size > 2 {
            0
        } else if one_word && !large {
            if plane_size == 0 { c % 0x80 * 0x2000 } else if plane_size == 1 { c / 2 % 0x40 * 0x4000 } else { c / 4 % 0x20 * 0x8000 }
        } else if !one_word && !large {
            if plane_size == 0 { c % 0x40 * 0x4000 } else if plane_size == 1 { c / 2 % 0x20 * 0x8000 } else { c / 4 % 0x10 * 0x1_0000 }
        } else if one_word {
            if plane_size == 0 { c % 0x200 * 0x800 } else if plane_size == 1 { c / 2 % 0x100 * 0x1000 } else { c / 4 % 0x80 * 0x2000 }
        } else {
            if plane_size == 0 { c % 0x100 * 0x1000 } else if plane_size == 1 { c / 2 % 0x80 * 0x2000 } else { c / 4 % 0x40 * 0x4000 }
        };
        address % VDP2_VRAM_SIZE
    }

    pub fn normal_bg_pattern_name(
        &self,
        address: usize,
        one_word: bool,
        color_mode: u16,
        pnc: u16,
        character_size: usize,
    ) -> (r: (usize, usize, bool, bool))
        requires
            self.wf(),
            address < usize::MAX - 3,
        ensures
            (r.0 as int, r.1 as int, r.2, r.3) == self.mem().pattern_name_spec(
                address as int,
                one_word,
                color_mode,
                pnc,
                character_size as int,
            ),
            r.0 < 0x8000,
            r.1 < 0x80,
    {
        reveal(Vdp2Mem::pattern_name_spec);
        if !one_word {
            let control = self.vram16_at(address);
            let character = self.vram16_at(address + 2) % 0x8000;
            return (
                character as usize,
                (control % 0x80) as usize,
                control & 0x4000 != 0,
                control & 0x8000 != 0,
            );
        }
        let entry = self.vram16_at(address);
        let e = entry as usize;
        let p = pnc as usize;
        let palette = if color_mode == 0 {
            (p / 32 % 8) * 16 + e / 0x1000 % 16
        } else {
            e / 0x1000 % 8
        };
        let auxiliary = pnc & 0x4000 != 0;
        if character_size == 16 {
            if auxiliary {
                ((p / 16 % 2) * 0x4000 + (e % 0x1000) * 4 + p % 4, palette, false, false)
            } else {
                ((p / 4 % 8) * 0x1000 + (e % 0x400) * 4 + p % 4, palette, entry & 0x0400 != 0, entry & 0x0800 != 0)
            }
        } else if auxiliary {
            ((p / 4 % 8) * 0x1000 + e % 0x1000, palette, false, false)
        } else {
            ((p % 0x20) * 0x400 + e % 0x400, palette, entry & 0x0400 != 0, entry & 0x0800 != 0)
        }
    }

    /// The back-screen colour of scanline `line`.
    pub fn back_screen_color(&self, line: usize) -> (r: Rgba)
        requires
            self.wf(),
            line < 0x1_0000,
        ensures
            r == self.mem().back_screen_spec(line as int),
    {
        let upper = self.reg16(0x00ac) as usize;
        let lower = self.reg16(0x00ae) as usize;
        let word_address = (upper % 8) * 0x1_0000 + lower;
        let line_offset = if upper >= 0x8000 { line * 2 } else { 0 };
        let address = (word_address * 2 + line_offset) % VDP2_VRAM_SIZE;
        self.apply_color_offset(5, color(self.vram16_at(address) % 0x8000))
    }
}


/// What a cell-mode scroll screen's registers fix for a whole frame.
#[derive(Debug, Clone, Copy)]
pub struct CellGeometry {
    pub character_size: usize,
    pub color_mode: u16,
    pub plane_size: u16,
    pub pages_x: usize,
    pub pages_y: usize,
    pub pnc: u16,
    pub map_register_base: usize,
    pub planes_across: usize,
    pub map_offset: u16,
    pub color_ram_offset: usize,
    pub transparent_code_disabled: bool,
}

impl CellGeometry {
    pub open spec fn wf(&self) -> bool {
        &&& self.character_size == 8 || self.character_size == 16
        &&& self.pages_x == 1 || self.pages_x == 2
        &&& self.pages_y == 1 || self.pages_y == 2
        &&& self.planes_across == 2 || self.planes_across == 4
        &&& self.color_mode <= 7
        &&& self.map_register_base + 32 < VDP2_REGS_SIZE
    }

    pub open spec fn one_word(&self) -> bool {
        self.pnc >= 0x8000
    }

    pub open spec fn plane_width(&self) -> int {
        self.pages_x as int * 512
    }

    pub open spec fn plane_height(&self) -> int {
        self.pages_y as int * 512
    }

    /// Width of the whole map: `planes_across` planes.
    pub open spec fn map_width(&self) -> int {
        self.plane_width() * self.planes_across as int
    }

    pub open spec fn map_height(&self) -> int {
        self.plane_height() * self.planes_across as int
    }
}

impl SaturnVdp2 {
    fn map_register_at(&self, base: usize, plane: usize) -> (r: u16)
        requires
            self.wf(),
            base + 32 < VDP2_REGS_SIZE,
            plane < 16,
        ensures
            r == self.mem().map_register(base as int, plane as int),
    {
        let word = self.reg16(base + (plane / 2) * 2);
        if plane % 2 == 0 { word % 64 } else { word / 0x100 % 64 }
    }

    /// The dot of a cell-mode map at map position (wx, wy).
    #[verifier::rlimit(60)]
    pub fn cell_fetch(&self, g: CellGeometry, wx: usize, wy: usize) -> (r: Option<Rgba>)
        requires
            self.wf(),
            g.wf(),
            wx < g.map_width(),
            wy < g.map_height(),
        ensures
            r == self.mem().cell_fetch_spec(g, wx as int, wy as int),
    {
        let cs = g.character_size;
        let pw = g.pages_x * 512;
        let ph = g.pages_y * 512;
        assert(wy / ph < g.planes_across) by (nonlinear_arith)
            requires
                wy < ph * g.planes_across,
                ph > 0,
        ;
        assert(wx / pw < g.planes_across) by (nonlinear_arith)
            requires
                wx < pw * g.planes_across,
                pw > 0,
        ;
        let row = wy / ph;
        let column = wx / pw;
        assert(row * g.planes_across + column < 16) by (nonlinear_arith)
            requires
                row < g.planes_across,
                column < g.planes_across,
                g.planes_across <= 4,
        ;
        let plane = row * g.planes_across + column;
        let wpx = wx % pw;
        let wpy = wy % ph;
        assert((wpy / 512) * g.pages_x <= 2 && wpx / 512 <= 1) by (nonlinear_arith)
            requires
                wpy < ph,
                ph == g.pages_y * 512,
                wpx < pw,
                pw == g.pages_x * 512,
                g.pages_x <= 2,
                g.pages_y <= 2,
        ;
        let page = (wpy / 512) * g.pages_x + wpx / 512;
        let x = wpx % 512;
        let y = wpy % 512;
        let per_row = 512 / cs;
        let one_word = g.pnc >= 0x8000;
        let entry_size: usize = if one_word { 2 } else { 4 };
        let map_register = self.map_register_at(g.map_register_base, plane);
        let table_base = self.normal_bg_plane_base(map_register, g.map_offset, one_word, g.plane_size, cs);
        assert(per_row * per_row <= 64 * 64) by (nonlinear_arith)
            requires
                per_row <= 64,
        ;
        assert(per_row * per_row * entry_size <= 0x4000) by (nonlinear_arith)
            requires
                per_row * per_row <= 64 * 64,
                entry_size <= 4,
        ;
        let page_capacity = per_row * per_row * entry_size;
        assert(page * page_capacity <= 3 * 0x4000) by (nonlinear_arith)
            requires
                page <= 3,
                page_capacity <= 0x4000,
        ;
        let row = y / cs;
        assert(row * per_row <= 64 * 64) by (nonlinear_arith)
            requires
                row < 64,
                per_row <= 64,
        ;
        let entry = row * per_row + x / cs;
        assert(entry * entry_size <= 0x5000) by (nonlinear_arith)
            requires
                entry <= 64 * 64 + 64,
                entry_size <= 4,
        ;
        let address = table_base + page * page_capacity + entry * entry_size;
        let (character, palette, flip_x, flip_y) = self.normal_bg_pattern_name(address, one_word, g.color_mode, g.pnc, cs);
        self.normal_bg_character_pixel(
            NormalBgCharacter { index: character, palette, size: cs, flip_x, flip_y },
            [x % cs, y % cs],
            NormalBgFormat {
                color_mode: g.color_mode,
                palette,
                color_ram_offset: g.color_ram_offset,
                transparent_code_disabled: g.transparent_code_disabled,
            },
        )
    }
}


/// Where a bitmap-mode scroll screen's bitmap lies and how its dots read.
#[derive(Debug, Clone, Copy)]
pub struct BitmapGeometry {
    pub base: usize,
    pub width: usize,
    pub height: usize,
    pub format: NormalBgFormat,
}

impl BitmapGeometry {
    pub open spec fn wf(&self) -> bool {
        &&& self.base < VDP2_VRAM_SIZE
        &&& self.width == 512 || self.width == 1024
        &&& self.height == 256 || self.height == 512
    }
}

/// Register offsets and field positions of one normal scroll screen.
#[derive(Debug, Clone, Copy)]
pub struct NbgRegisters {
    pub chctl_offset: usize,
    pub enable_mask: u16,
    pub transparency_mask: u16,
    pub bitmap_mask: u16,
    pub character_size_mask: u16,
    pub color_div: u16,
    pub color_modulus: u16,
    pub pnc_offset: usize,
    pub plane_size_div: u16,
    pub field_div: u16,
    pub map_register_base: usize,
    pub scroll_x_offset: usize,
    pub scroll_y_offset: usize,
}

/// The register layout of NBG0-NBG3 (`index` 0-3).
pub open spec fn nbg_registers(index: int) -> NbgRegisters {
    if index == 0 {
        NbgRegisters {
            chctl_offset: 0x0028,
            enable_mask: 0x0001,
            transparency_mask: 0x0100,
            bitmap_mask: 0x0002,
            character_size_mask: 0x0001,
            color_div: 0x10,
            color_modulus: 8,
            pnc_offset: 0x0030,
            plane_size_div: 1,
            field_div: 1,
            map_register_base: 0x0040,
            scroll_x_offset: 0x0070,
            scroll_y_offset: 0x0074,
        }
    } else if index == 1 {
        NbgRegisters {
            chctl_offset: 0x0028,
            enable_mask: 0x0002,
            transparency_mask: 0x0200,
            bitmap_mask: 0x0200,
            character_size_mask: 0x0100,
            color_div: 0x1000,
            color_modulus: 4,
            pnc_offset: 0x0032,
            plane_size_div: 4,
            field_div: 0x10,
            map_register_base: 0x0044,
            scroll_x_offset: 0x0080,
            scroll_y_offset: 0x0084,
        }
    } else if index == 2 {
        NbgRegisters {
            chctl_offset: 0x002a,
            enable_mask: 0x0004,
            transparency_mask: 0x0400,
            bitmap_mask: 0,
            character_size_mask: 0x0001,
            color_div: 2,
            color_modulus: 2,
            pnc_offset: 0x0034,
            plane_size_div: 0x10,
            field_div: 0x100,
            map_register_base: 0x0048,
            scroll_x_offset: 0x0090,
            scroll_y_offset: 0x0092,
        }
    } else {
        NbgRegisters {
            chctl_offset: 0x002a,
            enable_mask: 0x0008,
            transparency_mask: 0x0800,
            bitmap_mask: 0,
            character_size_mask: 0x0010,
            color_div: 0x20,
            color_modulus: 2,
            pnc_offset: 0x0036,
            plane_size_div: 0x40,
            field_div: 0x1000,
            map_register_base: 0x004c,
            scroll_x_offset: 0x0094,
            scroll_y_offset: 0x0096,
        }
    }
}

/// The register layout of NBG0-NBG3.
pub fn normal_bg_registers(index: usize) -> (r: NbgRegisters)
    requires
        index <= 3,
    ensures
        r == nbg_registers(index as int),
{
    if index == 0 {
        NbgRegisters {
            chctl_offset: 0x0028,
            enable_mask: 0x0001,
            transparency_mask: 0x0100,
            bitmap_mask: 0x0002,
            character_size_mask: 0x0001,
            color_div: 0x10,
            color_modulus: 8,
            pnc_offset: 0x0030,
            plane_size_div: 1,
            field_div: 1,
            map_register_base: 0x0040,
            scroll_x_offset: 0x0070,
            scroll_y_offset: 0x0074,
        }
    } else if index == 1 {
        NbgRegisters {
            chctl_offset: 0x0028,
            enable_mask: 0x0002,
            transparency_mask: 0x0200,
            bitmap_mask: 0x0200,
            character_size_mask: 0x0100,
            color_div: 0x1000,
            color_modulus: 4,
            pnc_offset: 0x0032,
            plane_size_div: 4,
            field_div: 0x10,
            map_register_base: 0x0044,
            scroll_x_offset: 0x0080,
            scroll_y_offset: 0x0084,
        }
    } else if index == 2 {
        NbgRegisters {
            chctl_offset: 0x002a,
            enable_mask: 0x0004,
            transparency_mask: 0x0400,
            bitmap_mask: 0,
            character_size_mask: 0x0001,
            color_div: 2,
            color_modulus: 2,
            pnc_offset: 0x0034,
            plane_size_div: 0x10,
            field_div: 0x100,
            map_register_base: 0x0048,
            scroll_x_offset: 0x0090,
            scroll_y_offset: 0x0092,
        }
    } else {
        NbgRegisters {
            chctl_offset: 0x002a,
            enable_mask: 0x0008,
            transparency_mask: 0x0800,
            bitmap_mask: 0,
            character_size_mask: 0x0010,
            color_div: 0x20,
            color_modulus: 2,
            pnc_offset: 0x0036,
            plane_size_div: 0x40,
            field_div: 0x1000,
            map_register_base: 0x004c,
            scroll_x_offset: 0x0094,
            scroll_y_offset: 0x0096,
        }
    }
}

/// `v` modulo `m`, the result in 0..m.
fn wrap_mod(v: i64, m: usize) -> (r: usize)
    requires
        -0x4000_0000_0000_0000 < v < 0x4000_0000_0000_0000,
        m == 256 || m == 512 || m == 1024 || m == 2048 || m == 4096,
    ensures
        r == (v as int) % (m as int),
        r < m,
{
    let shifted = (v + 0x4000_0000_0000_0000) as u64;
    let ghost k: int = 0x4000_0000_0000_0000int / (m as int);
    assert(m as int * k == 0x4000_0000_0000_0000int);
    proof {
        vstd::arithmetic::div_mod::lemma_mod_multiples_vanish(k, v as int, m as int);
    }
    (shifted % (m as u64)) as usize
}

impl SaturnVdp2 {
    /// Pixel `p` of this frame, against frame `before`, after a layer with
    /// dots `dots` and priority `prio` painted over it.
    pub open spec fn pixel_painted(&self, before: &SaturnVdp2, layer: Layer, prio: u8, p: int) -> bool {
        match before.mem().layer_dot(layer, p % WIDTH as int, p / WIDTH as int) {
            Some(c) => shows(self.video.pixels@, p, c) && self.priority@[p] == prio,
            None => same_pixel(self.video.pixels@, before.video.pixels@, p) && self.priority@[p]
                == before.priority@[p],
        }
    }

    /// This frame is `before` with the layer `dots` painted at priority `prio`.
    pub open spec fn painted(&self, before: &SaturnVdp2, layer: Layer, prio: u8) -> bool {
        forall|p: int| 0 <= p < WIDTH * HEIGHT ==> #[trigger] self.pixel_painted(before, layer, prio, p)
    }

    /// Same VRAM, CRAM, registers and frame counter.
    pub open spec fn same_memory(&self, other: &SaturnVdp2) -> bool {
        &&& self.vram@ == other.vram@
        &&& self.cram@ == other.cram@
        &&& self.regs@ == other.regs@
        &&& self.frame == other.frame
    }

    pub fn normal_bg_bitmap_geometry(&self, index: usize) -> (r: Option<BitmapGeometry>)
        requires
            self.wf(),
        ensures
            r == self.mem().nbg_bitmap_geometry(index as int),
            r matches Some(g) ==> g.wf(),
    {
        if index > 1 {
            return None;
        }
        let bgon = self.reg16(0x0020);
        let chctla = self.reg16(0x0028);
        let l = normal_bg_registers(index);
        if bgon & l.enable_mask == 0 || chctla & l.bitmap_mask == 0 {
            return None;
        }
        let size = if index == 0 { chctla / 4 % 4 } else { chctla / 0x400 % 4 };
        let color_mode = if index == 0 { chctla / 0x10 % 8 } else { chctla / 0x1000 % 4 };
        let palette = if index == 0 { self.reg16(0x002c) % 8 } else { self.reg16(0x002c) / 0x100 % 8 };
        let map_offset = (self.reg16(0x003c) / l.field_div % 8) as usize;
        Some(BitmapGeometry {
            base: (map_offset * 0x2_0000) % VDP2_VRAM_SIZE,
            width: if size <= 1 { 512 } else { 1024 },
            height: if size % 2 == 0 { 256 } else { 512 },
            format: NormalBgFormat {
                color_mode,
                palette: palette as usize,
                color_ram_offset: (self.reg16(0x00e4) / l.field_div % 8) as usize,
                transparent_code_disabled: bgon & l.transparency_mask != 0,
            },
        })
    }

    pub fn normal_bg_cell_geometry(&self, index: usize) -> (r: Option<CellGeometry>)
        requires
            self.wf(),
        ensures
            r == self.mem().nbg_cell_geometry(index as int),
            r matches Some(g) ==> g.wf(),
    {
        if index > 3 {
            return None;
        }
        let bgon = self.reg16(0x0020);
        let l = normal_bg_registers(index);
        let chctl = self.reg16(l.chctl_offset);
        let plane_size = self.reg16(0x003a) / l.plane_size_div % 4;
        if bgon & l.enable_mask == 0 || chctl & l.bitmap_mask != 0 || plane_size == 2 {
            return None;
        }
        Some(CellGeometry {
            character_size: if chctl & l.character_size_mask != 0 { 16 } else { 8 },
            color_mode: chctl / l.color_div % l.color_modulus,
            plane_size,
            pages_x: if plane_size == 0 { 1 } else { 2 },
            pages_y: if plane_size == 3 { 2 } else { 1 },
            pnc: self.reg16(l.pnc_offset),
            map_register_base: l.map_register_base,
            planes_across: 2,
            map_offset: self.reg16(0x003c) / l.field_div % 8,
            color_ram_offset: (self.reg16(0x00e4) / l.field_div % 8) as usize,
            transparent_code_disabled: bgon & l.transparency_mask != 0,
        })
    }
}


impl SaturnVdp2 {
    /// What NBG0 or NBG1 in bitmap mode paints at (x, y).
    fn nbg_bitmap_dot_at(&self, index: usize, g: BitmapGeometry, x: usize, y: usize) -> (r: Option<Rgba>)
        requires
            self.wf(),
            self.mem().nbg_bitmap_geometry(index as int) == Some(g),
            g.wf(),
            x < WIDTH,
            y < HEIGHT,
        ensures
            r == self.mem().nbg_bitmap_dot(index as int, x as int, y as int),
    {
        reveal(Vdp2Mem::nbg_bitmap_dot);
        if !self.normal_bg_window_allows(index, x, y) {
            return None;
        }
        let l = normal_bg_registers(index);
        let (sx, sy) = self.normal_bg_source_position(index, x, y, l.scroll_x_offset, l.scroll_y_offset);
        let px = wrap_mod(sx, g.width);
        let py = wrap_mod(sy, g.height);
        match self.normal_bg_bitmap_pixel(g.base, [g.width, g.height], [px, py], g.format) {
            Some(c) => Some(self.apply_color_offset(index, c)),
            None => None,
        }
    }

    /// What NBG0-NBG3 in cell mode paints at (x, y).
    fn nbg_cell_dot_at(&self, index: usize, g: CellGeometry, x: usize, y: usize) -> (r: Option<Rgba>)
        requires
            self.wf(),
            self.mem().nbg_cell_geometry(index as int) == Some(g),
            g.wf(),
            x < WIDTH,
            y < HEIGHT,
        ensures
            r == self.mem().nbg_cell_dot(index as int, x as int, y as int),
    {
        reveal(Vdp2Mem::nbg_cell_dot);
        if !self.normal_bg_window_allows(index, x, y) {
            return None;
        }
        let l = normal_bg_registers(index);
        let (sx, sy) = self.normal_bg_source_position(index, x, y, l.scroll_x_offset, l.scroll_y_offset);
        let wx = wrap_mod(sx, g.pages_x * 1024);
        let wy = wrap_mod(sy, g.pages_y * 1024);
        match self.cell_fetch(g, wx, wy) {
            Some(c) => Some(self.apply_color_offset(index, c)),
            None => None,
        }
    }
}


/// One layer ready to paint, with the geometry its registers fix.
pub enum PaintJob {
    NbgBitmap(usize, BitmapGeometry),
    NbgCell(usize, CellGeometry),
    Rbg0Bitmap(usize, BitmapGeometry, RotationParameters),
    Rbg0Cell(usize, CellGeometry, RotationParameters),
}

impl PaintJob {
    pub open spec fn layer(self) -> Layer {
        match self {
            PaintJob::NbgBitmap(index, _) => Layer::NbgBitmap(index as int),
            PaintJob::NbgCell(index, _) => Layer::NbgCell(index as int),
            PaintJob::Rbg0Bitmap(parameter, _, _) => Layer::Rbg0Bitmap(parameter as int),
            PaintJob::Rbg0Cell(parameter, _, _) => Layer::Rbg0Cell(parameter as int),
        }
    }

    /// The geometry carried is the one the registers of `mem` fix.
    pub open spec fn ready(self, mem: Vdp2Mem) -> bool {
        match self {
            PaintJob::NbgBitmap(index, g) => mem.nbg_bitmap_geometry(index as int) == Some(g) && g.wf(),
            PaintJob::NbgCell(index, g) => mem.nbg_cell_geometry(index as int) == Some(g) && g.wf(),
            PaintJob::Rbg0Bitmap(parameter, g, r) => mem.rbg0_bitmap_geometry() == Some(g) && g.wf()
                && r == mem.rotation_params_spec(parameter as int) && r.bounded(),
            PaintJob::Rbg0Cell(parameter, g, r) => mem.rbg0_cell_geometry(parameter as int) == Some(g)
                && g.wf() && r == mem.rotation_params_spec(parameter as int) && r.bounded(),
        }
    }
}

impl SaturnVdp2 {
    fn job_dot(&self, job: &PaintJob, x: usize, y: usize) -> (r: Option<Rgba>)
        requires
            self.wf(),
            job.ready(self.mem()),
            x < WIDTH,
            y < HEIGHT,
        ensures
            r == self.mem().layer_dot(job.layer(), x as int, y as int),
    {
        match job {
            PaintJob::NbgBitmap(index, g) => self.nbg_bitmap_dot_at(*index, *g, x, y),
            PaintJob::NbgCell(index, g) => self.nbg_cell_dot_at(*index, *g, x, y),
            PaintJob::Rbg0Bitmap(parameter, g, r) => self.rbg0_bitmap_dot_at(*parameter, *g, *r, x, y),
            PaintJob::Rbg0Cell(parameter, g, r) => self.rbg0_cell_dot_at(*parameter, *g, *r, x, y),
        }
    }

    /// Paints `job`'s layer over the frame at priority `prio`.
    fn paint(&mut self, job: &PaintJob, prio: u8)
        requires
            old(self).wf(),
            job.ready(old(self).mem()),
        ensures
            final(self).wf(),
            final(self).same_memory(old(self)),
            final(self).painted(old(self), job.layer(), prio),
    {
        let ghost before = *self;
        let ghost layer = job.layer();
        let mut p: usize = 0;
        while p < WIDTH * HEIGHT
            invariant
                before.wf(),
                self.wf(),
                self.same_memory(&before),
                job.ready(before.mem()),
                layer == job.layer(),
                p <= WIDTH * HEIGHT,
                forall|q: int| 0 <= q < p ==> #[trigger] self.pixel_painted(&before, layer, prio, q),
                forall|q: int|
                    p <= q < WIDTH * HEIGHT ==> #[trigger] same_pixel(self.video.pixels@, before.video.pixels@, q)
                        && self.priority@[q] == before.priority@[q],
            decreases WIDTH * HEIGHT - p,
        {
            let x = p % WIDTH;
            let y = p / WIDTH;
            proof {
                assert(self.mem() == before.mem());
            }
            let dot = self.job_dot(job, x, y);
            let ghost mid = *self;
            if let Some(c) = dot {
                self.video.put(p, c);
                self.priority.set(p, prio);
            }
            proof {
                assert forall|q: int| 0 <= q < p + 1 implies #[trigger] self.pixel_painted(&before, layer, prio, q) by {
                    if q < p {
                        assert(mid.pixel_painted(&before, layer, prio, q));
                        if dot is Some {
                            assert(same_pixel(self.video.pixels@, mid.video.pixels@, q));
                        }
                    } else {
                        assert(same_pixel(mid.video.pixels@, before.video.pixels@, q));
                        assert(x as int == q % WIDTH as int && y as int == q / WIDTH as int);
                        assert(dot == before.mem().layer_dot(layer, x as int, y as int));
                        if let Some(c) = dot {
                            assert(shows(self.video.pixels@, q, c));
                            assert(self.priority@[q] == prio);
                        }
                    }
                }
                assert forall|q: int| p + 1 <= q < WIDTH * HEIGHT implies #[trigger] same_pixel(self.video.pixels@, before.video.pixels@, q)
                    && self.priority@[q] == before.priority@[q] by {
                    assert(same_pixel(mid.video.pixels@, before.video.pixels@, q));
                    if dot is Some {
                        assert(same_pixel(self.video.pixels@, mid.video.pixels@, q));
                    }
                }
            }
            p = p + 1;
        }
    }

    /// A frame with nothing painted over it is painted by any layer that
    /// has no dots.
    proof fn lemma_nothing_painted(&self, layer: Layer, prio: u8)
        requires
            forall|x: int, y: int| self.mem().layer_dot(layer, x, y) is None,
        ensures
            self.painted(self, layer, prio),
    {
        assert forall|p: int| 0 <= p < WIDTH * HEIGHT implies #[trigger] self.pixel_painted(self, layer, prio, p) by {
            assert(self.mem().layer_dot(layer, p % WIDTH as int, p / WIDTH as int) is None);
        }
    }

    /// Paints NBG0 or NBG1 in bitmap mode over the frame.
    pub fn render_normal_bg_bitmap(&mut self, index: usize)
        requires
            old(self).wf(),
        ensures
            final(self).wf(),
            final(self).same_memory(old(self)),
            final(self).painted(old(self), Layer::NbgBitmap(index as int), old(self).mem().nbg_priority(index as int)),
    {
        let prio = self.normal_bg_priority(index);
        match self.normal_bg_bitmap_geometry(index) {
            Some(g) => self.paint(&PaintJob::NbgBitmap(index, g), prio),
            None => {
                proof {
                    reveal(Vdp2Mem::nbg_bitmap_dot);
                    self.lemma_nothing_painted(Layer::NbgBitmap(index as int), prio);
                }
            },
        }
    }

    /// Paints NBG0-NBG3 in cell mode over the frame.
    pub fn render_normal_bg_cell(&mut self, index: usize)
        requires
            old(self).wf(),
        ensures
            final(self).wf(),
            final(self).same_memory(old(self)),
            final(self).painted(old(self), Layer::NbgCell(index as int), old(self).mem().nbg_priority(index as int)),
    {
        let prio = self.normal_bg_priority(index);
        match self.normal_bg_cell_geometry(index) {
            Some(g) => self.paint(&PaintJob::NbgCell(index, g), prio),
            None => {
                proof {
                    reveal(Vdp2Mem::nbg_cell_dot);
                    self.lemma_nothing_painted(Layer::NbgCell(index as int), prio);
                }
            },
        }
    }
}


/// The coefficients of one rotation parameter table.
#[derive(Debug, Clone, Copy)]
pub struct RotationParameters {
    pub xst: i64,
    pub yst: i64,
    pub zst: i64,
    pub dxst: i64,
    pub dyst: i64,
    pub dx: i64,
    pub dy: i64,
    pub a: i64,
    pub b: i64,
    pub c: i64,
    pub d: i64,
    pub e: i64,
    pub f: i64,
    pub px: i64,
    pub py: i64,
    pub pz: i64,
    pub cx: i64,
    pub cy: i64,
    pub cz: i64,
    pub mx: i64,
    pub my: i64,
    pub kx: i64,
    pub ky: i64,
}

pub open spec fn within(v: i64, bound: int) -> bool {
    -bound <= v <= bound
}

impl RotationParameters {
    /// Every coefficient within the range its table field can hold.
    pub open spec fn bounded(&self) -> bool {
        &&& within(self.xst, 0x1000_0000) && within(self.yst, 0x1000_0000) && within(self.zst, 0x1000_0000)
        &&& within(self.dxst, 0x4_0000) && within(self.dyst, 0x4_0000)
        &&& within(self.dx, 0x4_0000) && within(self.dy, 0x4_0000)
        &&& within(self.a, 0x8_0000) && within(self.b, 0x8_0000) && within(self.c, 0x8_0000)
        &&& within(self.d, 0x8_0000) && within(self.e, 0x8_0000) && within(self.f, 0x8_0000)
        &&& within(self.px, 0x2000_0000) && within(self.py, 0x2000_0000) && within(self.pz, 0x2000_0000)
        &&& within(self.cx, 0x2000_0000) && within(self.cy, 0x2000_0000) && within(self.cz, 0x2000_0000)
        &&& within(self.mx, 0x2000_0000) && within(self.my, 0x2000_0000)
        &&& within(self.kx, 0x80_0000) && within(self.ky, 0x80_0000)
    }
}

/// The product of two 16.16 fixed-point numbers, floored.
pub open spec fn fixed_mul_spec(left: int, right: int) -> int {
    (left * right) / 0x1_0000
}

/// `w` with the bits from `drop_below` up to below `keep_below` kept.
pub open spec fn masked_field(w: u32, keep_below: int, drop_below: int) -> int {
    (w as int % keep_below) / drop_below * drop_below
}

/// The map position rotation table `p` gives screen position (x, y):
/// the screen line is rotated by the matrix A-F about the centre, scaled by
/// the coefficients kx and ky, then stepped along the line; 16.16 fixed
/// point, floored.
pub open spec fn rotation_source_spec(p: RotationParameters, x: int, y: int) -> (int, int) {
    let fy = y * 0x1_0000;
    let line_x = p.xst + fixed_mul_spec(p.dxst as int, fy) - p.px;
    let line_y = p.yst + fixed_mul_spec(p.dyst as int, fy) - p.py;
    let line_z = p.zst - p.pz;
    let xsp = fixed_mul_spec(p.a as int, line_x) + fixed_mul_spec(p.b as int, line_y) + fixed_mul_spec(p.c as int, line_z);
    let ysp = fixed_mul_spec(p.d as int, line_x) + fixed_mul_spec(p.e as int, line_y) + fixed_mul_spec(p.f as int, line_z);
    let xp = fixed_mul_spec(p.a as int, p.px - p.cx) + fixed_mul_spec(p.b as int, p.py - p.cy)
        + fixed_mul_spec(p.c as int, p.pz - p.cz) + p.cx + p.mx;
    let yp = fixed_mul_spec(p.d as int, p.px - p.cx) + fixed_mul_spec(p.e as int, p.py - p.cy)
        + fixed_mul_spec(p.f as int, p.pz - p.cz) + p.cy + p.my;
    let dx = fixed_mul_spec(p.a as int, p.dx as int) + fixed_mul_spec(p.b as int, p.dy as int);
    let dy = fixed_mul_spec(p.d as int, p.dx as int) + fixed_mul_spec(p.e as int, p.dy as int);
    let xs = fixed_mul_spec(p.kx as int, xsp) + xp;
    let ys = fixed_mul_spec(p.ky as int, ysp) + yp;
    let dxs = fixed_mul_spec(p.kx as int, dx);
    let dys = fixed_mul_spec(p.ky as int, dy);
    ((xs + dxs * x) / 0x1_0000, (ys + dys * x) / 0x1_0000)
}

proof fn lemma_mul_within(a: int, bound_a: int, b: int, bound_b: int)
    requires
        -bound_a <= a <= bound_a,
        -bound_b <= b <= bound_b,
    ensures
        -(bound_a * bound_b) <= a * b <= bound_a * bound_b,
{
    assert(-(bound_a * bound_b) <= a * b <= bound_a * bound_b) by (nonlinear_arith)
        requires
            -bound_a <= a <= bound_a,
            -bound_b <= b <= bound_b,
    ;
}

/// The product of two 16.16 fixed-point numbers, floored.
pub fn fixed_mul(left: i64, right: i64) -> (r: i64)
    requires
        -0x4000_0000_0000_0000 < left * right < 0x4000_0000_0000_0000,
    ensures
        r == fixed_mul_spec(left as int, right as int),
        r * 0x1_0000 <= left * right < r * 0x1_0000 + 0x1_0000,
{
    floor_div_65536(left * right)
}

/// The low `bits` bits of `value` as a two's-complement number.
pub fn sign_extend(value: u32, bits: u32) -> (r: i64)
    requires
        1 <= bits <= 32,
    ensures
        r == sign_extended(value, bits as int),
{
    let mut p: u64 = 1;
    let mut i: u32 = 0;
    proof {
        vstd::arithmetic::power2::lemma2_to64();
    }
    while i < bits
        invariant
            i <= bits <= 32,
            p == vstd::arithmetic::power2::pow2(i as nat),
            1 <= p <= 0x1_0000_0000,
        decreases bits - i,
    {
        proof {
            vstd::arithmetic::power2::lemma_pow2_unfold((i + 1) as nat);
            vstd::arithmetic::power2::lemma_pow2_strictly_increases((i + 1) as nat, 33);
            vstd::arithmetic::power2::lemma2_to64();
            if i + 1 < 32 {
                vstd::arithmetic::power2::lemma_pow2_strictly_increases((i + 1) as nat, 32);
            }
        }
        p = p * 2;
        i = i + 1;
    }
    let low = value as u64 % p;
    if low >= p / 2 {
        low as i64 - p as i64
    } else {
        low as i64
    }
}

impl Vdp2Mem {
    /// Byte address of rotation parameter table `parameter` (A at bit 7
    /// clear, B at bit 7 set).
    pub open spec fn rotation_base(self, parameter: int) -> int {
        let b = ((self.reg(0x00bc) as int % 8) * 0x1_0000 + self.reg(0x00be) as int) * 2;
        let cleared = b - (b / 0x80 % 2) * 0x80;
        if parameter == 0 {
            cleared
        } else {
            cleared + 0x80
        }
    }

    #[verifier::opaque]
    pub open spec fn rot_field(self, base: int, i: int, keep_below: int, drop_below: int) -> i64 {
        signed_in(masked_field(self.vram32(base + i * 4), keep_below, drop_below), keep_below) as i64
    }

    #[verifier::opaque]
    pub open spec fn rot_low(self, base: int, i: int) -> i64 {
        signed_in((self.vram32(base + i * 4) as int % 0x4000) * 0x1_0000, 0x4000_0000) as i64
    }

    /// Rotation parameter table `parameter` as read from VRAM.
    pub open spec fn rotation_params_spec(self, parameter: int) -> RotationParameters {
        let base = self.rotation_base(parameter);
        RotationParameters {
            xst: self.rot_field(base, 0, 0x2000_0000, 0x40),
            yst: self.rot_field(base, 1, 0x2000_0000, 0x40),
            zst: self.rot_field(base, 2, 0x2000_0000, 0x40),
            dxst: self.rot_field(base, 3, 0x8_0000, 0x40),
            dyst: self.rot_field(base, 4, 0x8_0000, 0x40),
            dx: self.rot_field(base, 5, 0x8_0000, 0x40),
            dy: self.rot_field(base, 6, 0x8_0000, 0x40),
            a: self.rot_field(base, 7, 0x10_0000, 0x40),
            b: self.rot_field(base, 8, 0x10_0000, 0x40),
            c: self.rot_field(base, 9, 0x10_0000, 0x40),
            d: self.rot_field(base, 10, 0x10_0000, 0x40),
            e: self.rot_field(base, 11, 0x10_0000, 0x40),
            f: self.rot_field(base, 12, 0x10_0000, 0x40),
            px: self.rot_field(base, 13, 0x4000_0000, 0x1_0000),
            py: self.rot_low(base, 13),
            pz: self.rot_field(base, 14, 0x4000_0000, 0x1_0000),
            cx: self.rot_field(base, 15, 0x4000_0000, 0x1_0000),
            cy: self.rot_low(base, 15),
            cz: self.rot_field(base, 16, 0x4000_0000, 0x1_0000),
            mx: self.rot_field(base, 17, 0x4000_0000, 0x40),
            my: self.rot_field(base, 18, 0x4000_0000, 0x40),
            kx: self.rot_field(base, 19, 0x100_0000, 1),
            ky: self.rot_field(base, 20, 0x100_0000, 1),
        }
    }
}

impl SaturnVdp2 {
    fn rot_field_at(&self, base: usize, i: usize, keep_below: u32, drop_below: u32) -> (r: i64)
        requires
            self.wf(),
            base < 0x10_0000,
            i < 21,
            keep_below == 0x2000_0000 || keep_below == 0x8_0000 || keep_below == 0x10_0000
                || keep_below == 0x4000_0000 || keep_below == 0x100_0000,
            drop_below == 0x40 || drop_below == 0x1_0000 || drop_below == 1,
        ensures
            r == self.mem().rot_field(base as int, i as int, keep_below as int, drop_below as int),
            -(keep_below as int) / 2 <= r < keep_below as int / 2,
    {
        reveal(Vdp2Mem::rot_field);
        let w = self.vram32_at(base + i * 4);
        let m = (w % keep_below) / drop_below * drop_below;
        assert(m <= w % keep_below) by (nonlinear_arith)
            requires
                m == (w % keep_below) / drop_below * drop_below,
                drop_below > 0,
        ;
        signed_from(m, keep_below)
    }

    fn rot_low_at(&self, base: usize, i: usize) -> (r: i64)
        requires
            self.wf(),
            base < 0x10_0000,
            i < 21,
        ensures
            r == self.mem().rot_low(base as int, i as int),
            -0x2000_0000 <= r < 0x2000_0000,
    {
        reveal(Vdp2Mem::rot_low);
        let w = self.vram32_at(base + i * 4);
        signed_from((w % 0x4000) * 0x1_0000, 0x4000_0000)
    }

    /// Reads rotation parameter table `parameter` from VRAM.
    #[verifier::rlimit(40)]
    pub fn rotation_parameters(&self, parameter: usize) -> (r: RotationParameters)
        requires
            self.wf(),
        ensures
            r == self.mem().rotation_params_spec(parameter as int),
            r.bounded(),
    {
        let b = ((self.reg16(0x00bc) % 8) as usize * 0x1_0000 + self.reg16(0x00be) as usize) * 2;
        let cleared = b - (b / 0x80 % 2) * 0x80;
        let base = if parameter == 0 { cleared } else { cleared + 0x80 };
        RotationParameters {
            xst: self.rot_field_at(base, 0, 0x2000_0000, 0x40),
            yst: self.rot_field_at(base, 1, 0x2000_0000, 0x40),
            zst: self.rot_field_at(base, 2, 0x2000_0000, 0x40),
            dxst: self.rot_field_at(base, 3, 0x8_0000, 0x40),
            dyst: self.rot_field_at(base, 4, 0x8_0000, 0x40),
            dx: self.rot_field_at(base, 5, 0x8_0000, 0x40),
            dy: self.rot_field_at(base, 6, 0x8_0000, 0x40),
            a: self.rot_field_at(base, 7, 0x10_0000, 0x40),
            b: self.rot_field_at(base, 8, 0x10_0000, 0x40),
            c: self.rot_field_at(base, 9, 0x10_0000, 0x40),
            d: self.rot_field_at(base, 10, 0x10_0000, 0x40),
            e: self.rot_field_at(base, 11, 0x10_0000, 0x40),
            f: self.rot_field_at(base, 12, 0x10_0000, 0x40),
            px: self.rot_field_at(base, 13, 0x4000_0000, 0x1_0000),
            py: self.rot_low_at(base, 13),
            pz: self.rot_field_at(base, 14, 0x4000_0000, 0x1_0000),
            cx: self.rot_field_at(base, 15, 0x4000_0000, 0x1_0000),
            cy: self.rot_low_at(base, 15),
            cz: self.rot_field_at(base, 16, 0x4000_0000, 0x1_0000),
            mx: self.rot_field_at(base, 17, 0x4000_0000, 0x40),
            my: self.rot_field_at(base, 18, 0x4000_0000, 0x40),
            kx: self.rot_field_at(base, 19, 0x100_0000, 1),
            ky: self.rot_field_at(base, 20, 0x100_0000, 1),
        }
    }
}

/// A rotated and scaled line origin: `k * s + o` with |k| <= 2^23.
fn scaled_axis(k: i64, s: i64, o: i64) -> (r: i64)
    requires
        within(k, 0x80_0000),
        within(s, 0x10_0000_0000),
        within(o, 0x20_0000_0000),
    ensures
        r == fixed_mul_spec(k as int, s as int) + o,
        within(r, 0x1000_0000_0000),
{
    proof {
        lemma_mul_within(k as int, 0x80_0000, s as int, 0x10_0000_0000);
    }
    fixed_mul(k, s) + o
}

/// `m1 * v1 + m2 * v2 + m3 * v3` in fixed point, for matrix entries below 2^19.
fn matrix_row(m1: i64, v1: i64, m2: i64, v2: i64, m3: i64, v3: i64) -> (r: i64)
    requires
        within(m1, 0x8_0000),
        within(m2, 0x8_0000),
        within(m3, 0x8_0000),
        within(v1, 0x8000_0000),
        within(v2, 0x8000_0000),
        within(v3, 0x8000_0000),
    ensures
        r == fixed_mul_spec(m1 as int, v1 as int) + fixed_mul_spec(m2 as int, v2 as int) + fixed_mul_spec(m3 as int, v3 as int),
        within(r, 0x10_0000_0000),
{
    proof {
        lemma_mul_within(m1 as int, 0x8_0000, v1 as int, 0x8000_0000);
        lemma_mul_within(m2 as int, 0x8_0000, v2 as int, 0x8000_0000);
        lemma_mul_within(m3 as int, 0x8_0000, v3 as int, 0x8000_0000);
    }
    fixed_mul(m1, v1) + fixed_mul(m2, v2) + fixed_mul(m3, v3)
}

/// The map position rotation table `parameters` gives screen position (x, y).
pub fn rotation_source_position(parameters: RotationParameters, screen_x: usize, screen_y: usize) -> (r: (i64, i64))
    requires
        parameters.bounded(),
        screen_x < 0x400,
        screen_y < 0x400,
    ensures
        (r.0 as int, r.1 as int) == rotation_source_spec(parameters, screen_x as int, screen_y as int),
        -0x100_0000_0000 <= r.0 <= 0x100_0000_0000,
        -0x100_0000_0000 <= r.1 <= 0x100_0000_0000,
{
    let p = parameters;
    let fy = screen_y as i64 * 0x1_0000;
    proof {
        lemma_mul_within(p.dxst as int, 0x4_0000, fy as int, 0x400_0000);
        lemma_mul_within(p.dyst as int, 0x4_0000, fy as int, 0x400_0000);
    }
    let line_x = p.xst + fixed_mul(p.dxst, fy) - p.px;
    let line_y = p.yst + fixed_mul(p.dyst, fy) - p.py;
    let line_z = p.zst - p.pz;
    let xsp = matrix_row(p.a, line_x, p.b, line_y, p.c, line_z);
    let ysp = matrix_row(p.d, line_x, p.e, line_y, p.f, line_z);
    let xp = matrix_row(p.a, p.px - p.cx, p.b, p.py - p.cy, p.c, p.pz - p.cz) + p.cx + p.mx;
    let yp = matrix_row(p.d, p.px - p.cx, p.e, p.py - p.cy, p.f, p.pz - p.cz) + p.cy + p.my;
    let dx = matrix_row(p.a, p.dx, p.b, p.dy, 0, 0);
    let dy = matrix_row(p.d, p.dx, p.e, p.dy, 0, 0);
    assert(fixed_mul_spec(0, 0) == 0);
    let xs = scaled_axis(p.kx, xsp, xp);
    let ys = scaled_axis(p.ky, ysp, yp);
    let dxs = scaled_axis(p.kx, dx, 0);
    let dys = scaled_axis(p.ky, dy, 0);
    proof {
        lemma_mul_within(dxs as int, 0x1000_0000_0000, screen_x as int, 0x400);
        lemma_mul_within(dys as int, 0x1000_0000_0000, screen_x as int, 0x400);
    }
    (floor_div_65536(xs + dxs * screen_x as i64), floor_div_65536(ys + dys * screen_x as i64))
}


impl Vdp2Mem {
    /// RBG0's screen-over mode for rotation parameter `parameter`.
    pub open spec fn over_mode(self, parameter: int) -> int {
        if parameter == 0 {
            self.reg(0x003a) as int / 0x400 % 4
        } else {
            self.reg(0x003a) as int / 0x4000 % 4
        }
    }

    /// A rotated map position resolved against a `w` by `h` map by the
    /// screen-over mode: 0 repeats the map, 3 keeps a 512x512 window, the
    /// others keep the map itself; None where nothing is drawn.
    pub open spec fn over_position(mode: int, sx: int, sy: int, w: int, h: int) -> Option<(int, int)> {
        if mode == 0 {
            Some((sx % w, sy % h))
        } else if mode == 3 {
            if 0 <= sx < 512 && 0 <= sy < 512 {
                Some((sx, sy))
            } else {
                None
            }
        } else if sx < 0 || sy < 0 || sx >= w || sy >= h {
            None
        } else {
            Some((sx, sy))
        }
    }

    /// RBG0's bitmap, when RBG0 is on, in bitmap mode, with a nonzero
    /// priority and a valid colour mode.
    pub open spec fn rbg0_bitmap_geometry(self) -> Option<BitmapGeometry> {
        let bgon = self.reg(0x0020);
        let chctl = self.reg(0x002a);
        let color_mode = chctl as int / 0x1000 % 8;
        if bgon & 0x0010 == 0 || chctl & 0x0200 == 0 || self.rbg0_priority_spec() == 0 || color_mode > 4 {
            None
        } else {
            Some(BitmapGeometry {
                base: ((self.reg(0x003e) as int / 0x10 % 4) * 0x2_0000 % 0x8_0000) as usize,
                width: 512,
                height: if chctl & 0x0400 != 0 { 512 } else { 256 },
                format: NormalBgFormat {
                    color_mode: color_mode as u16,
                    palette: (self.reg(0x002e) as int % 8) as usize,
                    color_ram_offset: (self.reg(0x00e6) as int % 8) as usize,
                    transparent_code_disabled: bgon & 0x1000 != 0,
                },
            })
        }
    }

    /// RBG0's map for rotation parameter `parameter`, when RBG0 is on in
    /// cell mode with a nonzero priority, a valid colour mode and plane size.
    pub open spec fn rbg0_cell_geometry(self, parameter: int) -> Option<CellGeometry> {
        let bgon = self.reg(0x0020);
        let chctl = self.reg(0x002a);
        let color_mode = chctl as int / 0x1000 % 8;
        let plane_size = if parameter == 0 {
            self.reg(0x003a) as int / 0x100 % 4
        } else {
            self.reg(0x003a) as int / 0x1000 % 4
        };
        if bgon & 0x0010 == 0 || chctl & 0x0200 != 0 || self.rbg0_priority_spec() == 0 || color_mode > 4
            || plane_size == 2 {
            None
        } else {
            Some(CellGeometry {
                character_size: if chctl & 0x0100 != 0 { 16 } else { 8 },
                color_mode: color_mode as u16,
                plane_size: plane_size as u16,
                pages_x: if plane_size == 0 { 1 } else { 2 },
                pages_y: if plane_size == 3 { 2 } else { 1 },
                pnc: self.reg(0x0038),
                map_register_base: if parameter == 0 { 0x0050 } else { 0x0060 },
                planes_across: 4,
                map_offset: (if parameter == 0 {
                    self.reg(0x003e) as int % 4
                } else {
                    self.reg(0x003e) as int / 0x10 % 4
                }) as u16,
                color_ram_offset: (self.reg(0x00e6) as int % 8) as usize,
                transparent_code_disabled: bgon & 0x1000 != 0,
            })
        }
    }

    /// The rotated map position RBG0 shows at (x, y), mosaic applied.
    pub open spec fn rbg0_source(self, parameter: int, x: int, y: int) -> (int, int) {
        let s = self.mosaic_spec(self.reg(0x0022) & 0x0010 != 0, x, y);
        rotation_source_spec(self.rotation_params_spec(parameter), s.0, s.1)
    }

    /// What RBG0 in bitmap mode paints at (x, y) with rotation parameter
    /// `parameter`, if anything.
    #[verifier::opaque]
    pub open spec fn rbg0_bitmap_dot(self, parameter: int, x: int, y: int) -> Option<Rgba> {
        match self.rbg0_bitmap_geometry() {
            None => None,
            Some(g) => if !self.window_allows_spec((self.reg(0x00d4) as int % 0x100) as u8, x, y) {
                None
            } else {
                let s = self.rbg0_source(parameter, x, y);
                match Self::over_position(self.over_mode(parameter), s.0, s.1, 512, g.height as int) {
                    None => None,
                    Some(q) => match self.bitmap_pixel_spec(g.base as int, 512, g.height as int, q.0, q.1, g.format) {
                        Some(c) => Some(self.color_offset_spec(4, c)),
                        None => None,
                    },
                }
            },
        }
    }

    /// What RBG0 in cell mode paints at (x, y) with rotation parameter
    /// `parameter`, if anything.
    #[verifier::opaque]
    pub open spec fn rbg0_cell_dot(self, parameter: int, x: int, y: int) -> Option<Rgba> {
        match self.rbg0_cell_geometry(parameter) {
            None => None,
            Some(g) => if !self.window_allows_spec((self.reg(0x00d4) as int % 0x100) as u8, x, y) {
                None
            } else {
                let s = self.rbg0_source(parameter, x, y);
                match Self::over_position(self.over_mode(parameter), s.0, s.1, g.map_width(), g.map_height()) {
                    None => None,
                    Some(q) => match self.cell_fetch_spec(g, q.0, q.1) {
                        Some(c) => Some(self.color_offset_spec(4, c)),
                        None => None,
                    },
                }
            },
        }
    }
}

/// A rotated map position resolved by screen-over mode `mode`.
fn over_position(mode: u16, sx: i64, sy: i64, w: usize, h: usize) -> (r: Option<(usize, usize)>)
    requires
        -0x100_0000_0000 <= sx <= 0x100_0000_0000,
        -0x100_0000_0000 <= sy <= 0x100_0000_0000,
        w == 512 || w == 1024 || w == 2048 || w == 4096,
        h == 256 || h == 512 || h == 1024 || h == 2048 || h == 4096,
    ensures
        r matches Some(q) ==> Vdp2Mem::over_position(mode as int, sx as int, sy as int, w as int, h as int)
            == Some((q.0 as int, q.1 as int)) && (q.0 < w || q.0 < 512) && (q.1 < h || q.1 < 512),
        r is None ==> Vdp2Mem::over_position(mode as int, sx as int, sy as int, w as int, h as int) is None,
{
    if mode == 0 {
        Some((wrap_mod(sx, w), wrap_mod(sy, h)))
    } else if mode == 3 {
        if 0 <= sx && sx < 512 && 0 <= sy && sy < 512 {
            Some((sx as usize, sy as usize))
        } else {
            None
        }
    } else if sx < 0 || sy < 0 || sx >= w as i64 || sy >= h as i64 {
        None
    } else {
        Some((sx as usize, sy as usize))
    }
}


impl SaturnVdp2 {
    pub fn rbg0_bitmap_geometry(&self) -> (r: Option<BitmapGeometry>)
        requires
            self.wf(),
        ensures
            r == self.mem().rbg0_bitmap_geometry(),
            r matches Some(g) ==> g.wf(),
    {
        let bgon = self.reg16(0x0020);
        let chctl = self.reg16(0x002a);
        let color_mode = chctl / 0x1000 % 8;
        if bgon & 0x0010 == 0 || chctl & 0x0200 == 0 || self.rbg0_priority() == 0 || color_mode > 4 {
            return None;
        }
        Some(BitmapGeometry {
            base: ((self.reg16(0x003e) / 0x10 % 4) as usize * 0x2_0000) % VDP2_VRAM_SIZE,
            width: 512,
            height: if chctl & 0x0400 != 0 { 512 } else { 256 },
            format: NormalBgFormat {
                color_mode,
                palette: (self.reg16(0x002e) % 8) as usize,
                color_ram_offset: (self.reg16(0x00e6) % 8) as usize,
                transparent_code_disabled: bgon & 0x1000 != 0,
            },
        })
    }

    pub fn rbg0_cell_geometry(&self, parameter: usize) -> (r: Option<CellGeometry>)
        requires
            self.wf(),
        ensures
            r == self.mem().rbg0_cell_geometry(parameter as int),
            r matches Some(g) ==> g.wf(),
    {
        let bgon = self.reg16(0x0020);
        let chctl = self.reg16(0x002a);
        let color_mode = chctl / 0x1000 % 8;
        let plane_size = if parameter == 0 {
            self.reg16(0x003a) / 0x100 % 4
        } else {
            self.reg16(0x003a) / 0x1000 % 4
        };
        if bgon & 0x0010 == 0 || chctl & 0x0200 != 0 || self.rbg0_priority() == 0 || color_mode > 4
            || plane_size == 2 {
            return None;
        }
        Some(CellGeometry {
            character_size: if chctl & 0x0100 != 0 { 16 } else { 8 },
            color_mode,
            plane_size,
            pages_x: if plane_size == 0 { 1 } else { 2 },
            pages_y: if plane_size == 3 { 2 } else { 1 },
            pnc: self.reg16(0x0038),
            map_register_base: if parameter == 0 { 0x0050 } else { 0x0060 },
            planes_across: 4,
            map_offset: if parameter == 0 { self.reg16(0x003e) % 4 } else { self.reg16(0x003e) / 0x10 % 4 },
            color_ram_offset: (self.reg16(0x00e6) % 8) as usize,
            transparent_code_disabled: bgon & 0x1000 != 0,
        })
    }

    fn over_mode_of(&self, parameter: usize) -> (r: u16)
        requires
            self.wf(),
        ensures
            r as int == self.mem().over_mode(parameter as int),
    {
        if parameter == 0 {
            self.reg16(0x003a) / 0x400 % 4
        } else {
            self.reg16(0x003a) / 0x4000 % 4
        }
    }

    fn rbg0_source_at(&self, parameters: RotationParameters, parameter: usize, x: usize, y: usize) -> (r: (i64, i64))
        requires
            self.wf(),
            parameters == self.mem().rotation_params_spec(parameter as int),
            parameters.bounded(),
            x < WIDTH,
            y < HEIGHT,
        ensures
            (r.0 as int, r.1 as int) == self.mem().rbg0_source(parameter as int, x as int, y as int),
            -0x100_0000_0000 <= r.0 <= 0x100_0000_0000,
            -0x100_0000_0000 <= r.1 <= 0x100_0000_0000,
    {
        let (sample_x, sample_y) = self.rbg0_mosaic_sample(x, y);
        rotation_source_position(parameters, sample_x, sample_y)
    }

    fn rbg0_bitmap_dot_at(&self, parameter: usize, g: BitmapGeometry, parameters: RotationParameters, x: usize, y: usize) -> (r: Option<Rgba>)
        requires
            self.wf(),
            self.mem().rbg0_bitmap_geometry() == Some(g),
            g.wf(),
            parameters == self.mem().rotation_params_spec(parameter as int),
            parameters.bounded(),
            x < WIDTH,
            y < HEIGHT,
        ensures
            r == self.mem().rbg0_bitmap_dot(parameter as int, x as int, y as int),
    {
        reveal(Vdp2Mem::rbg0_bitmap_dot);
        if !self.rbg0_window_allows(x, y) {
            return None;
        }
        let (sx, sy) = self.rbg0_source_at(parameters, parameter, x, y);
        match over_position(self.over_mode_of(parameter), sx, sy, 512, g.height) {
            None => None,
            Some((px, py)) => match self.normal_bg_bitmap_pixel(g.base, [512, g.height], [px, py], g.format) {
                Some(c) => Some(self.apply_color_offset(4, c)),
                None => None,
            },
        }
    }

    fn rbg0_cell_dot_at(&self, parameter: usize, g: CellGeometry, parameters: RotationParameters, x: usize, y: usize) -> (r: Option<Rgba>)
        requires
            self.wf(),
            self.mem().rbg0_cell_geometry(parameter as int) == Some(g),
            g.wf(),
            parameters == self.mem().rotation_params_spec(parameter as int),
            parameters.bounded(),
            x < WIDTH,
            y < HEIGHT,
        ensures
            r == self.mem().rbg0_cell_dot(parameter as int, x as int, y as int),
    {
        reveal(Vdp2Mem::rbg0_cell_dot);
        if !self.rbg0_window_allows(x, y) {
            return None;
        }
        let (sx, sy) = self.rbg0_source_at(parameters, parameter, x, y);
        match over_position(self.over_mode_of(parameter), sx, sy, g.pages_x * 2048, g.pages_y * 2048) {
            None => None,
            Some((px, py)) => match self.cell_fetch(g, px, py) {
                Some(c) => Some(self.apply_color_offset(4, c)),
                None => None,
            },
        }
    }
}


impl SaturnVdp2 {
    /// Paints RBG0 in bitmap mode with rotation parameter `parameter`.
    pub fn render_rbg0_bitmap_parameter(&mut self, parameter: usize)
        requires
            old(self).wf(),
        ensures
            final(self).wf(),
            final(self).same_memory(old(self)),
            final(self).painted(old(self), Layer::Rbg0Bitmap(parameter as int), old(self).mem().rbg0_priority_spec()),
    {
        let prio = self.rbg0_priority();
        match self.rbg0_bitmap_geometry() {
            Some(g) => {
                let parameters = self.rotation_parameters(parameter);
                self.paint(&PaintJob::Rbg0Bitmap(parameter, g, parameters), prio);
            },
            None => {
                proof {
                    reveal(Vdp2Mem::rbg0_bitmap_dot);
                    self.lemma_nothing_painted(Layer::Rbg0Bitmap(parameter as int), prio);
                }
            },
        }
    }

    /// Paints RBG0 in cell mode with rotation parameter `parameter`.
    pub fn render_rbg0_cell_parameter(&mut self, parameter: usize)
        requires
            old(self).wf(),
        ensures
            final(self).wf(),
            final(self).same_memory(old(self)),
            final(self).painted(old(self), Layer::Rbg0Cell(parameter as int), old(self).mem().rbg0_priority_spec()),
    {
        let prio = self.rbg0_priority();
        match self.rbg0_cell_geometry(parameter) {
            Some(g) => {
                let parameters = self.rotation_parameters(parameter);
                self.paint(&PaintJob::Rbg0Cell(parameter, g, parameters), prio);
            },
            None => {
                proof {
                    reveal(Vdp2Mem::rbg0_cell_dot);
                    self.lemma_nothing_painted(Layer::Rbg0Cell(parameter as int), prio);
                }
            },
        }
    }
}


impl Vdp2Mem {
    /// What RBG0 paints at (x, y) with rotation parameter `parameter`, in
    /// whichever mode CHCTLB selects.
    pub open spec fn rbg0_parameter_dot(self, parameter: int, x: int, y: int) -> Option<Rgba> {
        if self.reg(0x002a) & 0x0200 != 0 {
            self.rbg0_bitmap_dot(parameter, x, y)
        } else {
            self.rbg0_cell_dot(parameter, x, y)
        }
    }

    /// What RBG0 paints at (x, y): parameter A, parameter B, or A over B,
    /// as RPMD selects.
    pub open spec fn rbg0_dot(self, x: int, y: int) -> Option<Rgba> {
        let mode = self.reg(0x00b0) as int % 4;
        if mode == 0 {
            self.rbg0_parameter_dot(0, x, y)
        } else if mode == 1 {
            self.rbg0_parameter_dot(1, x, y)
        } else if self.rbg0_parameter_dot(0, x, y) is Some {
            self.rbg0_parameter_dot(0, x, y)
        } else {
            self.rbg0_parameter_dot(1, x, y)
        }
    }
}

impl SaturnVdp2 {
    /// Painting `first` and then `second` at one priority paints `layer`
    /// when `layer` shows `second` where it has a dot and `first` elsewhere.
    proof fn lemma_paint_twice(
        before: &SaturnVdp2,
        mid: &SaturnVdp2,
        after: &SaturnVdp2,
        first: Layer,
        second: Layer,
        layer: Layer,
        prio: u8,
    )
        requires
            mid.painted(before, first, prio),
            after.painted(mid, second, prio),
            mid.mem() == before.mem(),
            forall|x: int, y: int| #[trigger] before.mem().layer_dot(layer, x, y) == (if before.mem().layer_dot(second, x, y) is Some {
                before.mem().layer_dot(second, x, y)
            } else {
                before.mem().layer_dot(first, x, y)
            }),
        ensures
            after.painted(before, layer, prio),
    {
        assert forall|p: int| 0 <= p < WIDTH * HEIGHT implies #[trigger] after.pixel_painted(before, layer, prio, p) by {
            assert(mid.pixel_painted(before, first, prio, p));
            assert(after.pixel_painted(mid, second, prio, p));
            let x = p % WIDTH as int;
            let y = p / WIDTH as int;
            assert(before.mem().layer_dot(layer, x, y) == (if before.mem().layer_dot(second, x, y) is Some {
                before.mem().layer_dot(second, x, y)
            } else {
                before.mem().layer_dot(first, x, y)
            }));
        }
    }

    /// Paints normal scroll screen `index`: its bitmap (NBG0 and NBG1) and
    /// its cell map; one of the two has no dots.
    pub fn render_normal_bg(&mut self, index: usize)
        requires
            old(self).wf(),
        ensures
            final(self).wf(),
            final(self).same_memory(old(self)),
            final(self).painted(old(self), Layer::Nbg(index as int), old(self).mem().nbg_priority(index as int)),
    {
        let ghost before = *self;
        let ghost m = self.mem();
        let ghost prio = m.nbg_priority(index as int);
        if index <= 1 {
            self.render_normal_bg_bitmap(index);
            let ghost mid = *self;
            assert(mid.mem() == m);
            self.render_normal_bg_cell(index);
            proof {
                reveal(Vdp2Mem::nbg_bitmap_dot);
                reveal(Vdp2Mem::nbg_cell_dot);
                assert forall|x: int, y: int| #[trigger] m.layer_dot(Layer::Nbg(index as int), x, y) == (if m.layer_dot(Layer::NbgCell(index as int), x, y) is Some {
                    m.layer_dot(Layer::NbgCell(index as int), x, y)
                } else {
                    m.layer_dot(Layer::NbgBitmap(index as int), x, y)
                }) by {}
                Self::lemma_paint_twice(&before, &mid, self, Layer::NbgBitmap(index as int), Layer::NbgCell(index as int), Layer::Nbg(index as int), prio);
            }
        } else {
            self.render_normal_bg_cell(index);
            proof {
                reveal(Vdp2Mem::nbg_bitmap_dot);
                assert(m.nbg_bitmap_geometry(index as int) is None);
                assert forall|p: int| 0 <= p < WIDTH * HEIGHT implies #[trigger] self.pixel_painted(&before, Layer::Nbg(index as int), prio, p) by {
                    assert(self.pixel_painted(&before, Layer::NbgCell(index as int), prio, p));
                }
            }
        }
    }

    /// Paints RBG0 with rotation parameter `parameter`.
    pub fn render_rbg0_parameter(&mut self, parameter: usize)
        requires
            old(self).wf(),
        ensures
            final(self).wf(),
            final(self).same_memory(old(self)),
            final(self).painted(old(self), Layer::Rbg0Parameter(parameter as int), old(self).mem().rbg0_priority_spec()),
    {
        let ghost before = *self;
        let ghost prio = self.mem().rbg0_priority_spec();
        if self.reg16(0x002a) & 0x0200 != 0 {
            self.render_rbg0_bitmap_parameter(parameter);
            assert forall|p: int| 0 <= p < WIDTH * HEIGHT implies #[trigger] self.pixel_painted(&before, Layer::Rbg0Parameter(parameter as int), prio, p) by {
                assert(self.pixel_painted(&before, Layer::Rbg0Bitmap(parameter as int), prio, p));
            }
        } else {
            self.render_rbg0_cell_parameter(parameter);
            assert forall|p: int| 0 <= p < WIDTH * HEIGHT implies #[trigger] self.pixel_painted(&before, Layer::Rbg0Parameter(parameter as int), prio, p) by {
                assert(self.pixel_painted(&before, Layer::Rbg0Cell(parameter as int), prio, p));
            }
        }
    }

    /// Paints RBG0: parameter A, parameter B, or B and then A, as RPMD selects.
    pub fn render_rbg0(&mut self)
        requires
            old(self).wf(),
        ensures
            final(self).wf(),
            final(self).same_memory(old(self)),
            final(self).painted(old(self), Layer::Rbg0, old(self).mem().rbg0_priority_spec()),
    {
        let ghost before = *self;
        let ghost m = self.mem();
        let ghost prio = m.rbg0_priority_spec();
        let mode = self.reg16(0x00b0) % 4;
        if mode == 0 {
            self.render_rbg0_parameter(0);
            assert forall|p: int| 0 <= p < WIDTH * HEIGHT implies #[trigger] self.pixel_painted(&before, Layer::Rbg0, prio, p) by {
                assert(self.pixel_painted(&before, Layer::Rbg0Parameter(0), prio, p));
            }
        } else if mode == 1 {
            self.render_rbg0_parameter(1);
            assert forall|p: int| 0 <= p < WIDTH * HEIGHT implies #[trigger] self.pixel_painted(&before, Layer::Rbg0, prio, p) by {
                assert(self.pixel_painted(&before, Layer::Rbg0Parameter(1), prio, p));
            }
        } else {
            self.render_rbg0_parameter(1);
            let ghost mid = *self;
            assert(mid.mem() == m);
            self.render_rbg0_parameter(0);
            proof {
                assert forall|x: int, y: int| #[trigger] m.layer_dot(Layer::Rbg0, x, y) == (if m.layer_dot(Layer::Rbg0Parameter(0), x, y) is Some {
                    m.layer_dot(Layer::Rbg0Parameter(0), x, y)
                } else {
                    m.layer_dot(Layer::Rbg0Parameter(1), x, y)
                }) by {}
                Self::lemma_paint_twice(&before, &mid, self, Layer::Rbg0Parameter(1), Layer::Rbg0Parameter(0), Layer::Rbg0, prio);
            }
        }
    }
}


/// The dot-colour field width of sprite type `sprite_type`, as a modulus.
pub open spec fn sprite_dot_modulus(sprite_type: int) -> int {
    if sprite_type == 0 || sprite_type == 1 || sprite_type == 2 || sprite_type == 3 || sprite_type == 5 {
        0x800
    } else if sprite_type == 4 || sprite_type == 6 {
        0x400
    } else if sprite_type == 7 {
        0x200
    } else if sprite_type == 8 || sprite_type == 12 {
        0x80
    } else {
        0x40
    }
}

pub open spec fn opaque_black() -> Rgba {
    Rgba { r: 0, g: 0, b: 0, a: 255 }
}

impl Vdp2Mem {
    /// The scroll layer drawn at position `order` of a priority level:
    /// NBG3, NBG2, NBG1, NBG0, then RBG0.
    pub open spec fn order_layer(order: int) -> Layer {
        if order == 4 {
            Layer::Rbg0
        } else {
            Layer::Nbg(3 - order)
        }
    }

    pub open spec fn order_priority(self, order: int) -> u8 {
        if order == 4 {
            self.rbg0_priority_spec()
        } else {
            self.nbg_priority(3 - order)
        }
    }

    /// Colour and priority at (x, y) once the back screen and the first `r`
    /// scroll layers in drawing order are painted: lower priorities first,
    /// and at one priority NBG3, NBG2, NBG1, NBG0, RBG0; priority 0 hides
    /// a layer.
    pub open spec fn scroll_top(self, x: int, y: int, r: nat) -> (Rgba, u8)
        decreases r,
    {
        if r == 0 {
            (self.back_screen_spec(y), 0)
        } else {
            let prev = self.scroll_top(x, y, (r - 1) as nat);
            let k = r - 1;
            let prio = k / 5 + 1;
            let order = k % 5;
            if self.order_priority(order) as int == prio {
                match self.layer_dot(Self::order_layer(order), x, y) {
                    Some(c) => (c, prio as u8),
                    None => prev,
                }
            } else {
                prev
            }
        }
    }

    /// The sprite framebuffer's dot at (x, y) and its priority, when the
    /// sprite window allows it and it is neither transparent nor at
    /// priority 0.
    pub open spec fn sprite_dot(self, framebuffer: Seq<u8>, x: int, y: int) -> Option<(Rgba, u8)> {
        let source = (y * 512 + x) * 2;
        if !self.window_allows_spec((self.reg(0x00d4) as int / 0x100) as u8, x, y) || source + 1 >= framebuffer.len() {
            None
        } else {
            let word = be16_at(framebuffer, source);
            let spctl = self.reg(0x00e0);
            let sprite_type = spctl as int % 16;
            let rgb = spctl & 0x0020 != 0 && word >= 0x8000;
            let sp = self.sprite_priority_spec(sprite_selector(word, sprite_type as u8, rgb));
            let index = word as int % sprite_dot_modulus(sprite_type);
            if sp == 0 || (!rgb && index == 0) {
                None
            } else {
                let c = if rgb {
                    color_of((word as int % 0x8000) as u16)
                } else {
                    self.cram_color_spec(index as u16, self.reg(0x00e6) as int / 0x10 % 8)
                };
                Some((self.color_offset_spec(6, c), sp))
            }
        }
    }

    /// Colour and priority of (x, y) in the composed frame: black when the
    /// display is off; otherwise the scroll layers over the back screen, with
    /// a sprite dot on top where its priority is at least theirs.
    pub open spec fn composed(self, framebuffer: Seq<u8>, x: int, y: int) -> (Rgba, u8) {
        if self.reg(0x0000) < 0x8000 {
            (opaque_black(), 0)
        } else {
            let top = self.scroll_top(x, y, 35);
            match self.sprite_dot(framebuffer, x, y) {
                Some(s) => if s.1 >= top.1 { s } else { top },
                None => top,
            }
        }
    }
}

impl SaturnVdp2 {
    /// Pixel `p` holds colour `c.0` at priority `c.1`.
    pub open spec fn holds(&self, p: int, c: (Rgba, u8)) -> bool {
        shows(self.video.pixels@, p, c.0) && self.priority@[p] == c.1
    }

    /// Paints every pixel its scanline's back-screen colour.
    pub fn render_back_screen(&mut self)
        requires
            old(self).wf(),
        ensures
            final(self).wf(),
            final(self).same_memory(old(self)),
            final(self).priority == old(self).priority,
            forall|p: int| 0 <= p < WIDTH * HEIGHT ==> #[trigger] shows(final(self).video.pixels@, p, old(self).mem().back_screen_spec(p / WIDTH as int)),
    {
        let ghost m = self.mem();
        let mut p: usize = 0;
        while p < WIDTH * HEIGHT
            invariant
                self.wf(),
                self.mem() == m,
                self.frame == old(self).frame,
                self.priority == old(self).priority,
                p <= WIDTH * HEIGHT,
                forall|q: int| 0 <= q < p ==> #[trigger] shows(self.video.pixels@, q, m.back_screen_spec(q / WIDTH as int)),
            decreases WIDTH * HEIGHT - p,
        {
            let c = self.back_screen_color(p / WIDTH);
            let ghost before = self.video.pixels@;
            self.video.put(p, c);
            assert forall|q: int| 0 <= q < p + 1 implies #[trigger] shows(self.video.pixels@, q, m.back_screen_spec(q / WIDTH as int)) by {
                if q < p {
                    assert(shows(before, q, m.back_screen_spec(q / WIDTH as int)));
                    assert(same_pixel(self.video.pixels@, before, q));
                }
            }
            p = p + 1;
        }
    }

    fn clear_priority(&mut self)
        requires
            old(self).wf(),
        ensures
            final(self).wf(),
            final(self).same_memory(old(self)),
            final(self).video == old(self).video,
            forall|p: int| 0 <= p < WIDTH * HEIGHT ==> final(self).priority@[p] == 0,
    {
        let mut p: usize = 0;
        while p < WIDTH * HEIGHT
            invariant
                self.wf(),
                self.same_memory(old(self)),
                self.video == old(self).video,
                p <= WIDTH * HEIGHT,
                forall|q: int| 0 <= q < p ==> self.priority@[q] == 0,
            decreases WIDTH * HEIGHT - p,
        {
            self.priority.set(p, 0);
            p = p + 1;
        }
    }

    /// The sprite framebuffer's dot at (x, y) and its priority.
    pub fn sprite_dot_at(&self, framebuffer: &[u8], x: usize, y: usize) -> (r: Option<(Rgba, u8)>)
        requires
            self.wf(),
            x < WIDTH,
            y < HEIGHT,
        ensures
            r == self.mem().sprite_dot(framebuffer@, x as int, y as int),
    {
        let source = (y * 512 + x) * 2;
        if !self.sprite_window_allows(x, y) || source + 1 >= framebuffer.len() {
            return None;
        }
        let word = be16(framebuffer, source);
        let spctl = self.reg16(0x00e0);
        let sprite_type = (spctl % 16) as u8;
        let rgb = spctl & 0x0020 != 0 && word >= 0x8000;
        let sp = self.sprite_priority(sprite_priority_selector(word, sprite_type, rgb));
        let modulus: u16 = if sprite_type == 0 || sprite_type == 1 || sprite_type == 2 || sprite_type == 3
            || sprite_type == 5 {
            0x800
        } else if sprite_type == 4 || sprite_type == 6 {
            0x400
        } else if sprite_type == 7 {
            0x200
        } else if sprite_type == 8 || sprite_type == 12 {
            0x80
        } else {
            0x40
        };
        let index = word % modulus;
        if sp == 0 || (!rgb && index == 0) {
            return None;
        }
        let c = if rgb {
            color(word % 0x8000)
        } else {
            self.cram_color(index, (self.reg16(0x00e6) / 0x10 % 8) as usize)
        };
        Some((self.apply_color_offset(6, c), sp))
    }
}


impl SaturnVdp2 {
    /// Paints the scroll layer at drawing position `k` (priority k / 5 + 1,
    /// order k % 5) when its priority is that level.
    fn paint_scroll_rank(&mut self, k: usize)
        requires
            old(self).wf(),
            k < 35,
            forall|p: int| 0 <= p < WIDTH * HEIGHT ==> #[trigger] old(self).holds(p, old(self).mem().scroll_top(p % WIDTH as int, p / WIDTH as int, k as nat)),
        ensures
            final(self).wf(),
            final(self).same_memory(old(self)),
            forall|p: int| 0 <= p < WIDTH * HEIGHT ==> #[trigger] final(self).holds(p, final(self).mem().scroll_top(p % WIDTH as int, p / WIDTH as int, (k + 1) as nat)),
    {
        let ghost m = self.mem();
        let ghost before = *self;
        let prio = (k / 5 + 1) as u8;
        let order = k % 5;
        let layer_priority = if order == 4 { self.rbg0_priority() } else { self.normal_bg_priority(3 - order) };
        if layer_priority == prio {
            if order == 4 {
                self.render_rbg0();
            } else {
                self.render_normal_bg(3 - order);
            }
            assert forall|p: int| 0 <= p < WIDTH * HEIGHT implies #[trigger] self.holds(p, m.scroll_top(p % WIDTH as int, p / WIDTH as int, (k + 1) as nat)) by {
                assert(before.holds(p, m.scroll_top(p % WIDTH as int, p / WIDTH as int, k as nat)));
                assert(self.pixel_painted(&before, Vdp2Mem::order_layer(order as int), prio, p));
            }
        } else {
            assert forall|p: int| 0 <= p < WIDTH * HEIGHT implies #[trigger] self.holds(p, m.scroll_top(p % WIDTH as int, p / WIDTH as int, (k + 1) as nat)) by {
                assert(before.holds(p, m.scroll_top(p % WIDTH as int, p / WIDTH as int, k as nat)));
                assert(m.order_priority(order as int) != prio);
            }
        }
    }

    /// Composes the frame from the back screen, the scroll layers and the
    /// sprite framebuffer `framebuffer` (512 dots per line, 16 bits per dot).
    pub fn compose_framebuffer(&mut self, framebuffer: &[u8])
        requires
            old(self).wf(),
        ensures
            final(self).wf(),
            final(self).same_memory(old(self)),
            forall|p: int| 0 <= p < WIDTH * HEIGHT ==> #[trigger] final(self).holds(p, old(self).mem().composed(framebuffer@, p % WIDTH as int, p / WIDTH as int)),
    {
        let ghost m = self.mem();
        if self.reg16(0x0000) < 0x8000 {
            self.video.clear(Rgba { r: 0, g: 0, b: 0, a: 255 });
            self.clear_priority();
            assert forall|p: int| 0 <= p < WIDTH * HEIGHT implies #[trigger] self.holds(p, m.composed(framebuffer@, p % WIDTH as int, p / WIDTH as int)) by {}
            return;
        }
        self.render_back_screen();
        self.clear_priority();
        assert(self.mem() == m);
        assert forall|p: int| 0 <= p < WIDTH * HEIGHT implies #[trigger] self.holds(p, self.mem().scroll_top(p % WIDTH as int, p / WIDTH as int, 0)) by {}
        let mut k: usize = 0;
        while k < 35
            invariant
                self.wf(),
                self.mem() == m,
                self.frame == old(self).frame,
                k <= 35,
                forall|p: int| 0 <= p < WIDTH * HEIGHT ==> #[trigger] self.holds(p, self.mem().scroll_top(p % WIDTH as int, p / WIDTH as int, k as nat)),
            decreases 35 - k,
        {
            self.paint_scroll_rank(k);
            assert(self.mem() == m);
            let ghost previous = k;
            k = k + 1;
            assert forall|p: int| 0 <= p < WIDTH * HEIGHT implies #[trigger] self.holds(p, self.mem().scroll_top(p % WIDTH as int, p / WIDTH as int, k as nat)) by {
                assert(self.holds(p, self.mem().scroll_top(p % WIDTH as int, p / WIDTH as int, (previous + 1) as nat)));
            }
        }
        let mut p: usize = 0;
        while p < WIDTH * HEIGHT
            invariant
                self.wf(),
                self.mem() == m,
                self.frame == old(self).frame,
                m.reg(0x0000) >= 0x8000,
                p <= WIDTH * HEIGHT,
                forall|q: int| 0 <= q < p ==> #[trigger] self.holds(q, m.composed(framebuffer@, q % WIDTH as int, q / WIDTH as int)),
                forall|q: int| p <= q < WIDTH * HEIGHT ==> #[trigger] self.holds(q, m.scroll_top(q % WIDTH as int, q / WIDTH as int, 35)),
            decreases WIDTH * HEIGHT - p,
        {
            let x = p % WIDTH;
            let y = p / WIDTH;
            let dot = self.sprite_dot_at(framebuffer, x, y);
            let ghost mid = *self;
            assert(mid.holds(p as int, m.scroll_top(x as int, y as int, 35)));
            if let Some((c, sp)) = dot {
                if sp >= self.priority[p] {
                    self.video.put(p, c);
                    self.priority.set(p, sp);
                }
            }
            assert forall|q: int| 0 <= q < p + 1 implies #[trigger] self.holds(q, m.composed(framebuffer@, q % WIDTH as int, q / WIDTH as int)) by {
                if q < p {
                    assert(mid.holds(q, m.composed(framebuffer@, q % WIDTH as int, q / WIDTH as int)));
                    assert(same_pixel(self.video.pixels@, mid.video.pixels@, q));
                } else {
                    assert(x as int == q % WIDTH as int && y as int == q / WIDTH as int);
                }
            }
            assert forall|q: int| p + 1 <= q < WIDTH * HEIGHT implies #[trigger] self.holds(q, m.scroll_top(q % WIDTH as int, q / WIDTH as int, 35)) by {
                assert(mid.holds(q, m.scroll_top(q % WIDTH as int, q / WIDTH as int, 35)));
                assert(same_pixel(self.video.pixels@, mid.video.pixels@, q));
            }
            p = p + 1;
        }
    }
}


impl SaturnVdp2 {
    /// Composes the frame over VDP1's shown framebuffer.
    pub fn compose(&mut self, vdp1: &SaturnVdp1)
        requires
            old(self).wf(),
            vdp1.wf(),
        ensures
            final(self).wf(),
            final(self).same_memory(old(self)),
            forall|p: int| 0 <= p < WIDTH * HEIGHT ==> #[trigger] final(self).holds(
                p,
                old(self).mem().composed(vdp1.framebuffers[vdp1.display as int]@, p % WIDTH as int, p / WIDTH as int),
            ),
    {
        self.compose_framebuffer(vdp1.display_buffer());
    }

    /// Composes the frame over VDP1's shown framebuffer and counts it.
    pub fn render(&mut self, vdp1: &SaturnVdp1)
        requires
            old(self).wf(),
            vdp1.wf(),
        ensures
            final(self).wf(),
            final(self).mem() == old(self).mem(),
            final(self).frame == (old(self).frame + 1) % 0x1_0000_0000_0000_0000,
            forall|p: int| 0 <= p < WIDTH * HEIGHT ==> #[trigger] final(self).holds(
                p,
                old(self).mem().composed(vdp1.framebuffers[vdp1.display as int]@, p % WIDTH as int, p / WIDTH as int),
            ),
    {
        self.compose(vdp1);
        let ghost composed = *self;
        self.frame = self.frame.wrapping_add(1);
        assert forall|p: int| 0 <= p < WIDTH * HEIGHT implies #[trigger] self.holds(
            p,
            old(self).mem().composed(vdp1.framebuffers[vdp1.display as int]@, p % WIDTH as int, p / WIDTH as int),
        ) by {
            assert(composed.holds(p, old(self).mem().composed(vdp1.framebuffers[vdp1.display as int]@, p % WIDTH as int, p / WIDTH as int)));
        }
    }
}

impl Default for SaturnVdp2 {
    fn default() -> (v: Self)
        ensures
            v.wf(),
            v.frame == 0,
    {
        Self::new()
    }
}

} // verus!
