//! Saturn VDP1: the sprite command list in VRAM drawn into a pair of
//! 512x256 16-bit framebuffers, with system and user clipping, local
//! coordinates, textured sprites and lines.
use vstd::prelude::*;
use crate::bytes::{be16, be16_at, be16_wrapped, be16_wrapped_at, is_pow2};
use vstd::arithmetic::div_mod::{lemma_add_mod_noop, lemma_mod_twice, lemma_mul_mod_noop_left};

verus! {

pub const VDP1_VRAM_SIZE: usize = 0x8_0000;
pub const VDP1_FB_SIZE: usize = 0x4_0000;
pub const FB_WIDTH: usize = 512;
pub const FB_HEIGHT: usize = 256;

/// The texture a sprite command reads.
#[derive(Debug, Clone, Copy)]
pub struct Vdp1Texture {
    pub source: usize,
    pub width: usize,
    pub height: usize,
    pub ctrl: u16,
    pub pmod: u16,
    pub color: u16,
}

impl Vdp1Texture {
    /// The texture of a command: `size` holds width / 8 in bits 8-13 and
    /// height in bits 0-7.
    pub fn from_command(source: usize, size: u16, ctrl: u16, pmod: u16, color: u16) -> (t: Self)
        ensures
            t.source == source,
            t.width == (size as int / 0x100 % 0x40) * 8,
            t.height == size as int % 0x100,
            t.ctrl == ctrl,
            t.pmod == pmod,
            t.color == color,
    {
        Vdp1Texture {
            source,
            width: (size / 0x100 % 0x40) as usize * 8,
            height: (size % 0x100) as usize,
            ctrl,
            pmod,
            color,
        }
    }
}

pub struct SaturnVdp1 {
    pub vram: Vec<u8>,
    pub framebuffers: [Vec<u8>; 2],
    pub regs: [u8; 0x20],
    pub draw: usize,
    pub display: usize,
    pub local: [i32; 2],
    pub system_clip: [i32; 4],
    pub user_clip: [i32; 4],
}

/// The VDP1 as values.
pub struct Vdp1View {
    pub vram: Seq<u8>,
    pub fb0: Seq<u8>,
    pub fb1: Seq<u8>,
    pub regs: Seq<u8>,
    pub draw: usize,
    pub display: usize,
    pub local: [i32; 2],
    pub system_clip: [i32; 4],
    pub user_clip: [i32; 4],
}

impl View for SaturnVdp1 {
    type V = Vdp1View;

    open spec fn view(&self) -> Vdp1View {
        Vdp1View {
            vram: self.vram@,
            fb0: self.framebuffers[0]@,
            fb1: self.framebuffers[1]@,
            regs: self.regs@,
            draw: self.draw,
            display: self.display,
            local: self.local,
            system_clip: self.system_clip,
            user_clip: self.user_clip,
        }
    }
}

impl Vdp1View {
    /// Whether a dot at (x, y) with draw mode `pmod` survives clipping and
    /// mesh: on the framebuffer, inside the system clip, inside (or, with
    /// bit 9, outside) the user clip when bit 10 enables it, and on the
    /// checkerboard when bit 8 selects mesh.
    pub open spec fn allowed(self, x: int, y: int, pmod: u16) -> bool {
        if x < 0 || y < 0 || x >= 512 || y >= 256 || !in_rect(self.system_clip, x, y) {
            false
        } else if pmod & 0x0400 != 0 && ((pmod & 0x0200 == 0 && !in_rect(self.user_clip, x, y)) || (
        pmod & 0x0200 != 0 && in_rect(self.user_clip, x, y))) {
            false
        } else {
            pmod & 0x0100 == 0 || (x + y) % 2 == 0
        }
    }

    /// What a textured sprite spanning `rect` (corner A to corner C, either
    /// order) draws at framebuffer position (x, y): the texel its position
    /// scales to, if the dot survives clipping.
    pub open spec fn rect_dot(self, t: Vdp1Texture, rect: [i32; 4], x: int, y: int) -> Option<u16> {
        let width = t.width as int;
        let height = t.height as int;
        let (x0, y0, x1, y1) = (rect[0] as int, rect[1] as int, rect[2] as int, rect[3] as int);
        let dest_width = abs(x1 - x0) + 1;
        let dest_height = abs(y1 - y0) + 1;
        let dx = if x1 >= x0 { x - x0 } else { x0 - x };
        let dy = if y1 >= y0 { y - y0 } else { y0 - y };
        if width == 0 || height == 0 || dx < 0 || dx >= dest_width || dy < 0 || dy >= dest_height
            || !self.allowed(x, y, t.pmod) {
            None
        } else {
            let sx = dx * width / dest_width;
            let sy = dy * height / dest_height;
            texture_pixel_of(self.vram, t, if sx < width - 1 { sx } else { width - 1 }, if sy < height - 1 { sy } else { height - 1 })
        }
    }

    /// What a line plotting walk points 0..n in `color` leaves at (x, y).
    pub open spec fn line_dot(self, ends: (int, int, int, int), n: nat, color: u16, pmod: u16, x: int, y: int) -> Option<u16> {
        if line_hits(ends.0, ends.1, ends.2, ends.3, n, x, y) && self.allowed(x, y, pmod) {
            Some(color)
        } else {
            None
        }
    }

    pub open spec fn vram16(self, address: int) -> u16 {
        be16_at(self.vram, address)
    }

    /// The command at `address` as its 16-bit words read it.
    pub open spec fn command_at(self, address: int) -> Vdp1Command {
        let raw = |i: int| (self.vram16(address + 0x0c + 2 * i) as i16) as i32;
        Vdp1Command {
            ctrl: self.vram16(address),
            link: (self.vram16(address + 2) as int * 8) as usize,
            pmod: self.vram16(address + 4),
            color: self.vram16(address + 6),
            source: (self.vram16(address + 8) as int * 8) as usize,
            size: self.vram16(address + 0x0a),
            raw: [raw(0), raw(1), raw(2), raw(3), raw(4), raw(5), raw(6), raw(7)],
            xy: [
                (raw(0) + self.local[0]) as i32,
                (raw(1) + self.local[1]) as i32,
                (raw(2) + self.local[0]) as i32,
                (raw(3) + self.local[1]) as i32,
                (raw(4) + self.local[0]) as i32,
                (raw(5) + self.local[1]) as i32,
                (raw(6) + self.local[0]) as i32,
                (raw(7) + self.local[1]) as i32,
            ],
        }
    }

    /// What line `k` of command `c` (vertex k to vertex k + 1, wrapping) paints at (x, y).
    pub open spec fn edge_dot(self, c: Vdp1Command, k: int, x: int, y: int) -> Option<u16> {
        let i = 2 * k;
        let j = 2 * ((k + 1) % 4);
        let ends = (c.xy[i] as int, c.xy[i + 1] as int, c.xy[j] as int, c.xy[j + 1] as int);
        self.line_dot(ends, line_last(ends.0, ends.1, ends.2, ends.3) + 1, c.color, c.pmod, x, y)
    }

    /// What drawing command `c` paints at (x, y): a normal or scaled
    /// sprite's texel, a polyline's or line's colour.
    pub open spec fn command_dot(self, c: Vdp1Command, x: int, y: int) -> Option<u16> {
        let kind = c.ctrl as int % 16;
        if kind == 0 || kind == 1 {
            match command_rect(c) {
                Some(rect) => self.rect_dot(command_texture(c), rect, x, y),
                None => None,
            }
        } else if kind == 5 {
            if self.edge_dot(c, 0, x, y) is Some || self.edge_dot(c, 1, x, y) is Some || self.edge_dot(c, 2, x, y) is Some
                || self.edge_dot(c, 3, x, y) is Some {
                Some(c.color)
            } else {
                None
            }
        } else if kind == 6 {
            self.edge_dot(c, 0, x, y)
        } else {
            None
        }
    }
}

/// The clip rectangle that covers the whole framebuffer.
pub open spec fn full_clip(rect: [i32; 4]) -> bool {
    rect[0] == 0 && rect[1] == 0 && rect[2] == 511 && rect[3] == 255
}

pub open spec fn in_rect(rect: [i32; 4], x: int, y: int) -> bool {
    rect[0] <= x <= rect[2] && rect[1] <= y <= rect[3]
}

/// Whether `v` fits in 17 signed bits: every coordinate a command can form.
pub open spec fn coordinate(v: int) -> bool {
    -0x2_0000 <= v <= 0x2_0000
}

pub open spec fn sat_sub(a: int, b: int) -> int {
    if a <= b {
        0
    } else {
        a - b
    }
}

pub open spec fn abs(v: int) -> int {
    if v < 0 {
        -v
    } else {
        v
    }
}

/// Framebuffer pixel `p` holds the 16-bit value `v`.
pub open spec fn fb_holds(fb: Seq<u8>, p: int, v: u16) -> bool {
    fb[2 * p] == v as int / 0x100 && fb[2 * p + 1] == v as int % 0x100
}

pub open spec fn fb_same(a: Seq<u8>, b: Seq<u8>, p: int) -> bool {
    a[2 * p] == b[2 * p] && a[2 * p + 1] == b[2 * p + 1]
}

/// The texel coordinates (sx, sy) of `t` read after its flips.
pub open spec fn texel_position(t: Vdp1Texture, sx: int, sy: int) -> (int, int) {
    let dir = t.ctrl as int / 0x10 % 4;
    (
        if dir % 2 == 1 { sat_sub(t.width as int - 1, sx) } else { sx },
        if dir / 2 == 1 { sat_sub(sat_sub(t.height as int, 1), sy) } else { sy },
    )
}

pub open spec fn transparent_zero(t: Vdp1Texture) -> bool {
    t.pmod & 0x0040 == 0
}

pub open spec fn end_codes(t: Vdp1Texture) -> bool {
    t.pmod & 0x0080 == 0
}

/// A 4-bit texel: colour-bank (mode 0) or lookup-table (mode 1).
pub open spec fn texel4(vram: Seq<u8>, t: Vdp1Texture, index: int, mode: int) -> Option<u16> {
    let byte = vram[(t.source as int + index / 2) % 0x8_0000] as int;
    let value = if index % 2 == 0 { byte / 16 } else { byte % 16 };
    if (transparent_zero(t) && value == 0) || (end_codes(t) && value == 0x0f) {
        None
    } else if mode == 0 {
        Some(((t.color as int / 16) * 16 + value) as u16)
    } else {
        Some(be16_wrapped_at(vram, (t.color as int * 8 + value * 2) % 0x8_0000))
    }
}

/// An 8-bit texel of a 64, 128 or 256-colour bank (modes 2, 3, 4).
pub open spec fn texel8(vram: Seq<u8>, t: Vdp1Texture, index: int, mode: int) -> Option<u16> {
    let value = vram[(t.source as int + index) % 0x8_0000] as int;
    if (transparent_zero(t) && value == 0) || (end_codes(t) && value == 0xff) {
        None
    } else {
        let unit = if mode == 2 { 0x40int } else if mode == 3 { 0x80 } else { 0x100 };
        Some(((t.color as int / unit) * unit + value % unit) as u16)
    }
}

/// An RGB555 texel (mode 5), marked RGB by bit 15.
pub open spec fn texel16(vram: Seq<u8>, t: Vdp1Texture, index: int) -> Option<u16> {
    let value = be16_wrapped_at(vram, t.source as int + index * 2) as int;
    if (transparent_zero(t) && value % 0x8000 == 0) || (end_codes(t) && value % 0x8000 == 0x7fff) {
        None
    } else if value >= 0x8000 {
        Some(value as u16)
    } else {
        Some((value + 0x8000) as u16)
    }
}

/// The texel at (sx, sy) of `t` in VRAM `vram`, after its flips, or None
/// when transparent (code 0) or an end code.
pub open spec fn texture_pixel_of(vram: Seq<u8>, t: Vdp1Texture, sx: int, sy: int) -> Option<u16> {
    if t.width == 0 {
        None
    } else {
        let position = texel_position(t, sx, sy);
        let index = position.1 * t.width as int + position.0;
        let mode = t.pmod as int / 8 % 8;
        if mode == 0 || mode == 1 {
            texel4(vram, t, index, mode)
        } else if 2 <= mode <= 4 {
            texel8(vram, t, index, mode)
        } else if mode == 5 {
            texel16(vram, t, index)
        } else {
            None
        }
    }
}

impl SaturnVdp1 {
    pub open spec fn wf(&self) -> bool {
        &&& self.vram@.len() == VDP1_VRAM_SIZE
        &&& self.framebuffers[0]@.len() == VDP1_FB_SIZE
        &&& self.framebuffers[1]@.len() == VDP1_FB_SIZE
        &&& self.draw < 2
        &&& self.display < 2
        &&& -0x8000 <= self.local[0] < 0x8000 && -0x8000 <= self.local[1] < 0x8000
    }

    /// The framebuffer being drawn.
    pub open spec fn draw_fb(&self) -> Seq<u8> {
        self.framebuffers[self.draw as int]@
    }

    /// Whether a dot at (x, y) with draw mode `pmod` survives clipping and
    /// mesh: on the framebuffer, inside the system clip, inside (or, with
    /// bit 9, outside) the user clip when bit 10 enables it, and on the
    /// checkerboard when bit 8 selects mesh.
    pub open spec fn allowed(&self, x: int, y: int, pmod: u16) -> bool {
        self@.allowed(x, y, pmod)
    }

    /// What a textured sprite spanning `rect` (corner A to corner C, either
    /// order) draws at framebuffer position (x, y): the texel its position
    /// scales to, if the dot survives clipping.
    pub open spec fn rect_dot(&self, t: Vdp1Texture, rect: [i32; 4], x: int, y: int) -> Option<u16> {
        self@.rect_dot(t, rect, x, y)
    }
}


pub fn in_rect_exec(rect: [i32; 4], x: i32, y: i32) -> (r: bool)
    ensures
        r == in_rect(rect, x as int, y as int),
{
    x >= rect[0] && x <= rect[2] && y >= rect[1] && y <= rect[3]
}

impl SaturnVdp1 {
    /// Cleared VRAM, registers and framebuffers; drawing into buffer 0 while
    /// buffer 1 is shown; clips covering the whole framebuffer.
    pub fn new() -> (v: Self)
        ensures
            v.wf(),
            v.draw == 0,
            v.display == 1,
            v.local[0] == 0 && v.local[1] == 0,
            full_clip(v.system_clip),
            full_clip(v.user_clip),
            forall|i: int| 0 <= i < VDP1_VRAM_SIZE ==> v.vram@[i] == 0,
            forall|i: int| 0 <= i < VDP1_FB_SIZE ==> v.framebuffers[0]@[i] == 0 && v.framebuffers[1]@[i] == 0,
    {
        SaturnVdp1 {
            vram: vec![0u8; VDP1_VRAM_SIZE],
            framebuffers: [vec![0u8; VDP1_FB_SIZE], vec![0u8; VDP1_FB_SIZE]],
            regs: [0u8; 0x20],
            draw: 0,
            display: 1,
            local: [0i32; 2],
            system_clip: [0i32, 0, 511, 255],
            user_clip: [0i32, 0, 511, 255],
        }
    }

    /// Back to the power-on state.
    pub fn reset(&mut self)
        ensures
            final(self).wf(),
            final(self).draw == 0,
            final(self).display == 1,
            final(self).local[0] == 0 && final(self).local[1] == 0,
            full_clip(final(self).system_clip),
            full_clip(final(self).user_clip),
            forall|i: int| 0 <= i < VDP1_VRAM_SIZE ==> final(self).vram@[i] == 0,
            forall|i: int| 0 <= i < VDP1_FB_SIZE ==> final(self).framebuffers[0]@[i] == 0 && final(self).framebuffers[1]@[i] == 0,
    {
        *self = Self::new();
    }

    /// A CPU byte read of VRAM, the drawn framebuffer or the registers;
    /// other addresses read 0.
    pub open spec fn read8_spec(&self, address: u32) -> u8 {
        if 0x05c0_0000 <= address <= 0x05c7_ffff {
            self.vram@[(address - 0x05c0_0000) % 0x8_0000]
        } else if 0x05c8_0000 <= address <= 0x05cb_ffff {
            self.draw_fb()[(address - 0x05c8_0000) % 0x4_0000]
        } else if 0x05d0_0000 <= address <= 0x05d0_001f {
            self.regs[address - 0x05d0_0000]
        } else {
            0
        }
    }

    /// A CPU byte read of VRAM, the drawn framebuffer or the registers.
    pub fn read8(&self, address: u32) -> (r: u8)
        requires
            self.wf(),
        ensures
            r == self.read8_spec(address),
    {
        if 0x05c0_0000 <= address && address <= 0x05c7_ffff {
            self.vram[((address - 0x05c0_0000) % 0x8_0000) as usize]
        } else if 0x05c8_0000 <= address && address <= 0x05cb_ffff {
            self.framebuffers[self.draw][((address - 0x05c8_0000) % 0x4_0000) as usize]
        } else if 0x05d0_0000 <= address && address <= 0x05d0_001f {
            self.regs[(address - 0x05d0_0000) as usize]
        } else {
            0
        }
    }

    /// A CPU byte write of VRAM, the drawn framebuffer or the registers.
    pub fn write8(&mut self, address: u32, value: u8)
        requires
            old(self).wf(),
        ensures
            final(self).wf(),
            final(self).draw == old(self).draw,
            final(self).display == old(self).display,
            final(self).local == old(self).local,
            final(self).system_clip == old(self).system_clip,
            final(self).user_clip == old(self).user_clip,
            final(self).vram@ == (if 0x05c0_0000 <= address <= 0x05c7_ffff {
                old(self).vram@.update((address - 0x05c0_0000) % 0x8_0000, value)
            } else {
                old(self).vram@
            }),
            final(self).draw_fb() == (if 0x05c8_0000 <= address <= 0x05cb_ffff {
                old(self).draw_fb().update((address - 0x05c8_0000) % 0x4_0000, value)
            } else {
                old(self).draw_fb()
            }),
            final(self).framebuffers[1 - old(self).draw] == old(self).framebuffers[1 - old(self).draw],
            final(self).regs@ == (if 0x05d0_0000 <= address <= 0x05d0_001f {
                old(self).regs@.update(address - 0x05d0_0000, value)
            } else {
                old(self).regs@
            }),
            (0x05c0_0000 <= address <= 0x05cb_ffff || 0x05d0_0000 <= address <= 0x05d0_001f)
                ==> final(self).read8_spec(address) == value,
    {
        if 0x05c0_0000 <= address && address <= 0x05c7_ffff {
            self.vram.set(((address - 0x05c0_0000) % 0x8_0000) as usize, value);
        } else if 0x05c8_0000 <= address && address <= 0x05cb_ffff {
            let d = self.draw;
            self.framebuffers[d].set(((address - 0x05c8_0000) % 0x4_0000) as usize, value);
        } else if 0x05d0_0000 <= address && address <= 0x05d0_001f {
            self.regs[(address - 0x05d0_0000) as usize] = value;
        }
    }

    /// Whether a dot at (x, y) survives clipping and mesh under `pmod`.
    pub fn pixel_allowed(&self, x: i32, y: i32, pmod: u16) -> (r: bool)
        ensures
            r == self.allowed(x as int, y as int, pmod),
    {
        if x < 0 || y < 0 || x >= 512 || y >= 256 || !in_rect_exec(self.system_clip, x, y) {
            return false;
        }
        if pmod & 0x0400 != 0 {
            let inside = in_rect_exec(self.user_clip, x, y);
            if (pmod & 0x0200 == 0 && !inside) || (pmod & 0x0200 != 0 && inside) {
                return false;
            }
        }
        pmod & 0x0100 == 0 || (x + y) % 2 == 0
    }

    /// Stores `v` at framebuffer pixel `p` of the drawn buffer.
    fn set_fb_pixel(&mut self, p: usize, v: u16)
        requires
            old(self).wf(),
            p < FB_WIDTH * FB_HEIGHT,
        ensures
            final(self).wf(),
            final(self).vram == old(self).vram,
            final(self).regs == old(self).regs,
            final(self).draw == old(self).draw,
            final(self).display == old(self).display,
            final(self).local == old(self).local,
            final(self).system_clip == old(self).system_clip,
            final(self).user_clip == old(self).user_clip,
            final(self).framebuffers[1 - old(self).draw] == old(self).framebuffers[1 - old(self).draw],
            fb_holds(final(self).draw_fb(), p as int, v),
            forall|q: int| 0 <= q < FB_WIDTH * FB_HEIGHT && q != p ==> #[trigger] fb_same(final(self).draw_fb(), old(self).draw_fb(), q),
            final(self).draw_fb().len() == VDP1_FB_SIZE,
    {
        let d = self.draw;
        self.framebuffers[d].set(2 * p, (v / 0x100) as u8);
        self.framebuffers[d].set(2 * p + 1, (v % 0x100) as u8);
    }

    /// Plots `color` at (x, y) when the dot survives clipping and mesh.
    pub fn put_pixel(&mut self, x: i32, y: i32, color: u16, pmod: u16)
        requires
            old(self).wf(),
        ensures
            final(self).wf(),
            final(self).vram == old(self).vram,
            final(self).regs == old(self).regs,
            final(self).draw == old(self).draw,
            final(self).display == old(self).display,
            final(self).local == old(self).local,
            final(self).system_clip == old(self).system_clip,
            final(self).user_clip == old(self).user_clip,
            final(self).framebuffers[1 - old(self).draw] == old(self).framebuffers[1 - old(self).draw],
            old(self).allowed(x as int, y as int, pmod) ==> fb_holds(final(self).draw_fb(), y * 512 + x, color)
                && forall|q: int| 0 <= q < FB_WIDTH * FB_HEIGHT && q != y * 512 + x ==> #[trigger] fb_same(final(self).draw_fb(), old(self).draw_fb(), q),
            !old(self).allowed(x as int, y as int, pmod) ==> final(self).draw_fb() == old(self).draw_fb(),
    {
        if !self.pixel_allowed(x, y, pmod) {
            return;
        }
        self.set_fb_pixel(y as usize * 512 + x as usize, color);
    }

    fn texel4_at(&self, t: Vdp1Texture, index: u128, mode: u16) -> (r: Option<u16>)
        requires
            self.wf(),
        ensures
            r == texel4(self.vram@, t, index as int, mode as int),
    {
        let m: u128 = 0x8_0000;
        let address = ((t.source as u128 % m + (index / 2) % m) % m) as usize;
        proof {
            lemma_add_mod_noop(t.source as int, index as int / 2, 0x8_0000);
        }
        let byte = self.vram[address] as u16;
        let value = if index % 2 == 0 { byte / 16 } else { byte % 16 };
        if (t.pmod & 0x0040 == 0 && value == 0) || (t.pmod & 0x0080 == 0 && value == 0x0f) {
            None
        } else if mode == 0 {
            Some((t.color / 16) * 16 + value)
        } else {
            Some(be16_wrapped(self.vram.as_slice(), (t.color as usize * 8 + value as usize * 2) % VDP1_VRAM_SIZE))
        }
    }

    fn texel8_at(&self, t: Vdp1Texture, index: u128, mode: u16) -> (r: Option<u16>)
        requires
            self.wf(),
        ensures
            r == texel8(self.vram@, t, index as int, mode as int),
    {
        let m: u128 = 0x8_0000;
        let address = ((t.source as u128 % m + index % m) % m) as usize;
        proof {
            lemma_add_mod_noop(t.source as int, index as int, 0x8_0000);
        }
        let value = self.vram[address] as u16;
        if (t.pmod & 0x0040 == 0 && value == 0) || (t.pmod & 0x0080 == 0 && value == 0xff) {
            None
        } else {
            let unit: u16 = if mode == 2 { 0x40 } else if mode == 3 { 0x80 } else { 0x100 };
            Some((t.color / unit) * unit + value % unit)
        }
    }

    fn texel16_at(&self, t: Vdp1Texture, index: u128) -> (r: Option<u16>)
        requires
            self.wf(),
        ensures
            r == texel16(self.vram@, t, index as int),
    {
        let m: u128 = 0x8_0000;
        let offset = ((t.source as u128 % m + (index % m) * 2 % m) % m) as usize;
        proof {
            let o = t.source as int + index as int * 2;
            lemma_mul_mod_noop_left(index as int, 2, 0x8_0000);
            lemma_add_mod_noop(t.source as int, index as int * 2, 0x8_0000);
            lemma_add_mod_noop(o, 1, 0x8_0000);
            lemma_add_mod_noop(o % 0x8_0000, 1, 0x8_0000);
            lemma_mod_twice(o, 0x8_0000);
            assert(be16_wrapped_at(self.vram@, offset as int) == be16_wrapped_at(self.vram@, o));
        }
        let value = be16_wrapped(self.vram.as_slice(), offset);
        if (t.pmod & 0x0040 == 0 && value % 0x8000 == 0) || (t.pmod & 0x0080 == 0 && value % 0x8000 == 0x7fff) {
            None
        } else if value >= 0x8000 {
            Some(value)
        } else {
            Some(value + 0x8000)
        }
    }

    /// The texel at (sx, sy) of `t`, or None when transparent.
    pub fn texture_pixel(&self, t: Vdp1Texture, sx: usize, sy: usize) -> (r: Option<u16>)
        requires
            self.wf(),
        ensures
            r == texture_pixel_of(self.vram@, t, sx as int, sy as int),
    {
        let width = t.width;
        let height = t.height;
        if width == 0 {
            return None;
        }
        let dir = t.ctrl / 0x10 % 4;
        let x = if dir % 2 == 1 { if width - 1 <= sx { 0 } else { width - 1 - sx } } else { sx };
        let h1 = if height <= 1 { 0 } else { height - 1 };
        let y = if dir / 2 == 1 { if h1 <= sy { 0 } else { h1 - sy } } else { sy };
        assert((x as int, y as int) == texel_position(t, sx as int, sy as int));
        assert(y * width + x <= u128::MAX) by (nonlinear_arith)
            requires
                y <= usize::MAX,
                width <= usize::MAX,
                x <= usize::MAX,
                usize::MAX < 0x1_0000_0000_0000_0000,
        ;
        let index = y as u128 * width as u128 + x as u128;
        let mode = t.pmod / 8 % 8;
        if mode == 0 || mode == 1 {
            self.texel4_at(t, index, mode)
        } else if 2 <= mode && mode <= 4 {
            self.texel8_at(t, index, mode)
        } else if mode == 5 {
            self.texel16_at(t, index)
        } else {
            None
        }
    }
}


impl SaturnVdp1 {
    /// Pixel `p` of this VDP1's drawn framebuffer, against `before`, after a
    /// layer with dot `dot` there.
    pub open spec fn dot_painted(&self, before: &SaturnVdp1, p: int, dot: Option<u16>) -> bool {
        match dot {
            Some(v) => fb_holds(self.draw_fb(), p, v),
            None => fb_same(self.draw_fb(), before.draw_fb(), p),
        }
    }

    /// Everything but the drawn framebuffer is as in `other`.
    pub open spec fn same_but_draw(&self, other: &SaturnVdp1) -> bool {
        &&& self.wf()
        &&& self.vram == other.vram
        &&& self.regs == other.regs
        &&& self.draw == other.draw
        &&& self.display == other.display
        &&& self.local == other.local
        &&& self.system_clip == other.system_clip
        &&& self.user_clip == other.user_clip
        &&& self.framebuffers[1 - other.draw] == other.framebuffers[1 - other.draw]
    }

    fn rect_dot_at(&self, t: Vdp1Texture, rect: [i32; 4], x: i32, y: i32) -> (r: Option<u16>)
        requires
            self.wf(),
            coordinate(rect[0] as int),
            coordinate(rect[1] as int),
            coordinate(rect[2] as int),
            coordinate(rect[3] as int),
            0 <= x < 512,
            0 <= y < 256,
        ensures
            r == self.rect_dot(t, rect, x as int, y as int),
    {
        let width = t.width as i128;
        let height = t.height as i128;
        let (x0, y0, x1, y1) = (rect[0] as i128, rect[1] as i128, rect[2] as i128, rect[3] as i128);
        let dest_width = (if x1 >= x0 { x1 - x0 } else { x0 - x1 }) + 1;
        let dest_height = (if y1 >= y0 { y1 - y0 } else { y0 - y1 }) + 1;
        let dx = if x1 >= x0 { x as i128 - x0 } else { x0 - x as i128 };
        let dy = if y1 >= y0 { y as i128 - y0 } else { y0 - y as i128 };
        if width == 0 || height == 0 || dx < 0 || dx >= dest_width || dy < 0 || dy >= dest_height
            || !self.pixel_allowed(x, y, t.pmod) {
            return None;
        }
        assert(0 <= dx * width <= 0x4_0001 * 0x1_0000_0000_0000_0000) by (nonlinear_arith)
            requires
                0 <= dx <= 0x4_0001,
                0 < width < 0x1_0000_0000_0000_0000,
        ;
        assert(0 <= dy * height <= 0x4_0001 * 0x1_0000_0000_0000_0000) by (nonlinear_arith)
            requires
                0 <= dy <= 0x4_0001,
                0 < height < 0x1_0000_0000_0000_0000,
        ;
        let sx = dx * width / dest_width;
        let sy = dy * height / dest_height;
        assert(sx < width) by (nonlinear_arith)
            requires
                sx as int == (dx as int * width as int) / (dest_width as int),
                0 <= dx < dest_width,
                width > 0,
        ;
        assert(sy < height) by (nonlinear_arith)
            requires
                sy as int == (dy as int * height as int) / (dest_height as int),
                0 <= dy < dest_height,
                height > 0,
        ;
        assert(sx >= 0 && sy >= 0) by (nonlinear_arith)
            requires
                sx as int == (dx as int * width as int) / (dest_width as int),
                sy as int == (dy as int * height as int) / (dest_height as int),
                dx >= 0,
                dy >= 0,
                width >= 0,
                height >= 0,
                dest_width > 0,
                dest_height > 0,
        ;
        let sx = if sx < width - 1 { sx } else { width - 1 };
        let sy = if sy < height - 1 { sy } else { height - 1 };
        self.texture_pixel(t, sx as usize, sy as usize)
    }

    /// Draws texture `t` scaled onto the rectangle from corner (rect[0],
    /// rect[1]) to corner (rect[2], rect[3]), flipped where the corners run
    /// backwards.
    pub fn draw_textured_rect(&mut self, t: Vdp1Texture, rect: [i32; 4])
        requires
            old(self).wf(),
            coordinate(rect[0] as int),
            coordinate(rect[1] as int),
            coordinate(rect[2] as int),
            coordinate(rect[3] as int),
        ensures
            final(self).same_but_draw(old(self)),
            forall|p: int| 0 <= p < FB_WIDTH * FB_HEIGHT ==> #[trigger] final(self).dot_painted(
                old(self),
                p,
                old(self).rect_dot(t, rect, p % 512, p / 512),
            ),
    {
        let ghost before = *self;
        let mut p: usize = 0;
        while p < FB_WIDTH * FB_HEIGHT
            invariant
                self.same_but_draw(&before),
                before.wf(),
                            coordinate(rect[0] as int),
                coordinate(rect[1] as int),
                coordinate(rect[2] as int),
                coordinate(rect[3] as int),
                p <= FB_WIDTH * FB_HEIGHT,
                forall|q: int| 0 <= q < p ==> #[trigger] self.dot_painted(&before, q, before.rect_dot(t, rect, q % 512, q / 512)),
                forall|q: int| p <= q < FB_WIDTH * FB_HEIGHT ==> #[trigger] fb_same(self.draw_fb(), before.draw_fb(), q),
            decreases FB_WIDTH * FB_HEIGHT - p,
        {
            let x = (p % 512) as i32;
            let y = (p / 512) as i32;
            let dot = self.rect_dot_at(t, rect, x, y);
            let ghost mid = *self;
            assert(mid.rect_dot(t, rect, x as int, y as int) == before.rect_dot(t, rect, x as int, y as int));
            if let Some(v) = dot {
                self.set_fb_pixel(p, v);
            }
            assert forall|q: int| 0 <= q < p + 1 implies #[trigger] self.dot_painted(&before, q, before.rect_dot(t, rect, q % 512, q / 512)) by {
                if q < p {
                    assert(mid.dot_painted(&before, q, before.rect_dot(t, rect, q % 512, q / 512)));
                    if dot is Some {
                        assert(fb_same(self.draw_fb(), mid.draw_fb(), q));
                    }
                } else {
                    assert(fb_same(mid.draw_fb(), before.draw_fb(), q));
                    assert(x as int == q % 512 && y as int == q / 512);
                }
            }
            assert forall|q: int| p + 1 <= q < FB_WIDTH * FB_HEIGHT implies #[trigger] fb_same(self.draw_fb(), before.draw_fb(), q) by {
                assert(fb_same(mid.draw_fb(), before.draw_fb(), q));
                if dot is Some {
                    assert(fb_same(self.draw_fb(), mid.draw_fb(), q));
                }
            }
            p = p + 1;
        }
    }
}


/// A point of a line walk and the walk's error term.
pub struct LineWalk {
    pub x: int,
    pub y: int,
    pub error: int,
}

/// Point `k` of the Bresenham walk from (x0, y0) toward (x1, y1).
pub open spec fn line_walk(x0: int, y0: int, x1: int, y1: int, k: nat) -> LineWalk
    decreases k,
{
    let dx = abs(x1 - x0);
    let dy = -abs(y1 - y0);
    let sx = if x0 < x1 { 1int } else { -1 };
    let sy = if y0 < y1 { 1int } else { -1 };
    if k == 0 {
        LineWalk { x: x0, y: y0, error: dx + dy }
    } else {
        let w = line_walk(x0, y0, x1, y1, (k - 1) as nat);
        let doubled = w.error * 2;
        let (e1, nx) = if doubled >= dy { (w.error + dy, w.x + sx) } else { (w.error, w.x) };
        if doubled <= dx {
            LineWalk { x: nx, y: w.y + sy, error: e1 + dx }
        } else {
            LineWalk { x: nx, y: w.y, error: e1 }
        }
    }
}

/// The walk stops at the first point from `k` on that is the end point,
/// and at point `limit` at the latest.
pub open spec fn line_stop(x0: int, y0: int, x1: int, y1: int, k: nat, limit: nat) -> nat
    decreases limit - k,
{
    let w = line_walk(x0, y0, x1, y1, k);
    if k >= limit || (w.x == x1 && w.y == y1) {
        k
    } else {
        line_stop(x0, y0, x1, y1, k + 1, limit)
    }
}

/// The index of the last point a line from (x0, y0) to (x1, y1) plots: the
/// end point, reached within |dx| + |dy| steps.
pub open spec fn line_last(x0: int, y0: int, x1: int, y1: int) -> nat {
    line_stop(x0, y0, x1, y1, 0, (abs(x1 - x0) + abs(y1 - y0)) as nat)
}

/// Whether one of the walk's points 0..n is (x, y).
pub open spec fn line_hits(x0: int, y0: int, x1: int, y1: int, n: nat, x: int, y: int) -> bool {
    exists|k: nat| k < n && #[trigger] line_walk(x0, y0, x1, y1, k).x == x && line_walk(x0, y0, x1, y1, k).y == y
}

/// A walk point other than (x, y) adds no hit on (x, y).
proof fn lemma_hits_step(x0: int, y0: int, x1: int, y1: int, k: nat, x: int, y: int)
    requires
        !(line_walk(x0, y0, x1, y1, k).x == x && line_walk(x0, y0, x1, y1, k).y == y),
    ensures
        line_hits(x0, y0, x1, y1, k + 1, x, y) == line_hits(x0, y0, x1, y1, k, x, y),
{
    if line_hits(x0, y0, x1, y1, k + 1, x, y) {
        let j = choose|j: nat| j < k + 1 && #[trigger] line_walk(x0, y0, x1, y1, j).x == x && line_walk(x0, y0, x1, y1, j).y == y;
        assert(j != k);
        assert(line_hits(x0, y0, x1, y1, k, x, y));
    }
    if line_hits(x0, y0, x1, y1, k, x, y) {
        let j = choose|j: nat| j < k && #[trigger] line_walk(x0, y0, x1, y1, j).x == x && line_walk(x0, y0, x1, y1, j).y == y;
        assert(line_hits(x0, y0, x1, y1, k + 1, x, y));
    }
}

proof fn lemma_line_stop_bounds(x0: int, y0: int, x1: int, y1: int, k: nat, limit: nat)
    requires
        k <= limit,
    ensures
        k <= line_stop(x0, y0, x1, y1, k, limit) <= limit,
        line_stop(x0, y0, x1, y1, k, limit) < limit ==> ({
            let w = line_walk(x0, y0, x1, y1, line_stop(x0, y0, x1, y1, k, limit));
            w.x == x1 && w.y == y1
        }),
        forall|j: nat| k <= j < line_stop(x0, y0, x1, y1, k, limit) ==> !(#[trigger] line_walk(x0, y0, x1, y1, j).x == x1
            && line_walk(x0, y0, x1, y1, j).y == y1),
    decreases limit - k,
{
    let w = line_walk(x0, y0, x1, y1, k);
    if k >= limit || (w.x == x1 && w.y == y1) {
    } else {
        lemma_line_stop_bounds(x0, y0, x1, y1, k + 1, limit);
    }
}

impl SaturnVdp1 {
    /// What a line plotting walk points 0..n in `color` leaves at (x, y).
    pub open spec fn line_dot(&self, ends: (int, int, int, int), n: nat, color: u16, pmod: u16, x: int, y: int) -> Option<u16> {
        self@.line_dot(ends, n, color, pmod, x, y)
    }

    /// Draws a Bresenham line from (x0, y0) to (x1, y1) in `color`: every
    /// walk point up to the end point (or the |dx| + |dy|-th) that survives
    /// clipping and mesh.
    pub fn line(&mut self, x0: i32, y0: i32, x1: i32, y1: i32, color: u16, pmod: u16)
        requires
            old(self).wf(),
            coordinate(x0 as int),
            coordinate(y0 as int),
            coordinate(x1 as int),
            coordinate(y1 as int),
        ensures
            final(self).same_but_draw(old(self)),
            forall|p: int| 0 <= p < FB_WIDTH * FB_HEIGHT ==> #[trigger] final(self).dot_painted(
                old(self),
                p,
                old(self).line_dot(
                    (x0 as int, y0 as int, x1 as int, y1 as int),
                    line_last(x0 as int, y0 as int, x1 as int, y1 as int) + 1,
                    color,
                    pmod,
                    p % 512,
                    p / 512,
                ),
            ),
    {
        let ghost before = *self;
        let ghost ends = (x0 as int, y0 as int, x1 as int, y1 as int);
        let dx: i64 = if x1 >= x0 { (x1 - x0) as i64 } else { (x0 - x1) as i64 };
        let sx: i64 = if x0 < x1 { 1 } else { -1 };
        let dy: i64 = if y1 >= y0 { (y0 - y1) as i64 } else { (y1 - y0) as i64 };
        let sy: i64 = if y0 < y1 { 1 } else { -1 };
        let limit: i64 = dx - dy;
        let ghost last = line_last(x0 as int, y0 as int, x1 as int, y1 as int);
        proof {
            lemma_line_stop_bounds(x0 as int, y0 as int, x1 as int, y1 as int, 0, limit as nat);
        }
        let mut x: i64 = x0 as i64;
        let mut y: i64 = y0 as i64;
        let mut error: i64 = dx + dy;
        let mut k: i64 = 0;
        loop
            invariant_except_break
                self.same_but_draw(&before),
                before.wf(),
                0 <= k <= limit,
                k <= last,
                last <= limit,
                limit == abs(x1 - x0) + abs(y1 - y0),
                ends == (x0 as int, y0 as int, x1 as int, y1 as int),
                last == line_stop(x0 as int, y0 as int, x1 as int, y1 as int, 0, limit as nat),
                dx == abs(x1 - x0),
                dy == -abs(y1 - y0),
                sx == (if x0 < x1 { 1int } else { -1 }),
                sy == (if y0 < y1 { 1int } else { -1 }),
                coordinate(x0 as int),
                coordinate(y0 as int),
                coordinate(x1 as int),
                coordinate(y1 as int),
                line_walk(x0 as int, y0 as int, x1 as int, y1 as int, k as nat) == (LineWalk { x: x as int, y: y as int, error: error as int }),
                -k <= x - x0 <= k && -k <= y - y0 <= k,
                -0x10_0000 * (k + 1) <= error <= 0x10_0000 * (k + 1),
                last < limit ==> line_walk(x0 as int, y0 as int, x1 as int, y1 as int, last).x == x1
                    && line_walk(x0 as int, y0 as int, x1 as int, y1 as int, last).y == y1,
                forall|j: nat| j < last ==> !(#[trigger] line_walk(x0 as int, y0 as int, x1 as int, y1 as int, j).x == x1
                    && line_walk(x0 as int, y0 as int, x1 as int, y1 as int, j).y == y1),
                forall|q: int| 0 <= q < FB_WIDTH * FB_HEIGHT ==> #[trigger] self.dot_painted(&before, q, before.line_dot(ends, k as nat, color, pmod, q % 512, q / 512)),
            ensures
                self.same_but_draw(&before),
                forall|q: int| 0 <= q < FB_WIDTH * FB_HEIGHT ==> #[trigger] self.dot_painted(&before, q, before.line_dot(ends, last + 1, color, pmod, q % 512, q / 512)),
            decreases limit - k,
        {
            let ghost mid = *self;
            let on_screen = 0 <= x && x < 512 && 0 <= y && y < 256;
            if on_screen {
                self.put_pixel(x as i32, y as i32, color, pmod);
            }
            let ghost target = y * 512 + x;
            proof {
                assert forall|q: int| 0 <= q < FB_WIDTH * FB_HEIGHT implies #[trigger] self.dot_painted(&before, q, before.line_dot(ends, (k + 1) as nat, color, pmod, q % 512, q / 512)) by {
                    let qx = q % 512;
                    let qy = q / 512;
                    assert(q == qy * 512 + qx);
                    assert(mid.dot_painted(&before, q, before.line_dot(ends, k as nat, color, pmod, qx, qy)));
                    assert(before.allowed(qx, qy, pmod) == mid.allowed(qx, qy, pmod));
                    if qx == x && qy == y {
                        assert(line_walk(x0 as int, y0 as int, x1 as int, y1 as int, k as nat).x == qx);
                        assert(line_hits(x0 as int, y0 as int, x1 as int, y1 as int, (k + 1) as nat, qx, qy));
                        assert(q == target);
                        assert(on_screen);
                        if !mid.allowed(x as int, y as int, pmod) {
                            assert(self.draw_fb() == mid.draw_fb());
                        }
                    } else {
                        lemma_hits_step(x0 as int, y0 as int, x1 as int, y1 as int, k as nat, qx, qy);
                        assert(ends == (x0 as int, y0 as int, x1 as int, y1 as int));
                        assert(before.line_dot(ends, k as nat, color, pmod, qx, qy) == before.line_dot(ends, (k + 1) as nat, color, pmod, qx, qy));
                        if on_screen && mid.allowed(x as int, y as int, pmod) {
                            assert(q != target);
                            assert(fb_same(self.draw_fb(), mid.draw_fb(), q));
                        } else {
                            assert(self.draw_fb() == mid.draw_fb());
                        }
                    }
                }
            }
            if x == x1 as i64 && y == y1 as i64 {
                proof {
                    if (k as int) < last {
                        assert(line_walk(x0 as int, y0 as int, x1 as int, y1 as int, k as nat).x == x1);
                    }
                }
                assert(k == last);
                break;
            }
            if k >= limit {
                assert(k == last);
                break;
            }
            let doubled = error * 2;
            if doubled >= dy {
                error = error + dy;
                x = x + sx;
            }
            if doubled <= dx {
                error = error + dx;
                y = y + sy;
            }
            k = k + 1;
        }
    }
}


/// A sprite command read from VRAM, with its vertices moved by the local
/// coordinate origin.
#[derive(Debug, Clone, Copy)]
pub struct Vdp1Command {
    pub ctrl: u16,
    pub link: usize,
    pub pmod: u16,
    pub color: u16,
    pub source: usize,
    pub size: u16,
    pub raw: [i32; 8],
    pub xy: [i32; 8],
}

/// A polygon or distorted-sprite command, which this library leaves to a
/// rasteriser: the four vertices, and the texture or colour to fill with.
#[derive(Debug, Clone, Copy)]
pub enum PolygonCommand {
    DistortedSprite { points: [(i32, i32); 4], texture: Vdp1Texture },
    Polygon { points: [(i32, i32); 4], color: u16, pmod: u16 },
}

/// Where the command walk goes after the command at `next - 0x20`: on, to
/// the link (0 meaning on), to the link pushing the return address, or back
/// to the last return address.
pub open spec fn next_address_spec(jump: u16, link: usize, next: usize, stack: Seq<usize>) -> (usize, Seq<usize>) {
    let j = jump as int % 4;
    if j == 0 {
        (next, stack)
    } else if j == 1 {
        (if link == 0 { next } else { link }, stack)
    } else if j == 2 {
        (if link == 0 { next } else { link }, stack.push(next))
    } else if stack.len() == 0 {
        (next, stack)
    } else {
        (stack.last(), stack.drop_last())
    }
}

/// The walk's next command address, updating the return stack.
pub fn next_address(jump: u16, link: usize, next: usize, call_stack: &mut Vec<usize>) -> (r: usize)
    ensures
        (r, final(call_stack)@) == next_address_spec(jump, link, next, old(call_stack)@),
{
    let j = jump % 4;
    if j == 0 {
        next
    } else if j == 1 {
        if link == 0 { next } else { link }
    } else if j == 2 {
        call_stack.push(next);
        if link == 0 { next } else { link }
    } else {
        match call_stack.pop() {
            Some(address) => address,
            None => next,
        }
    }
}

impl SaturnVdp1 {
    pub open spec fn vram16(&self, address: int) -> u16 {
        self@.vram16(address)
    }

    /// The command at `address` as its 16-bit words read it.
    pub open spec fn command_at(&self, address: int) -> Vdp1Command {
        self@.command_at(address)
    }
}


/// The texture of command `c`.
pub open spec fn command_texture(c: Vdp1Command) -> Vdp1Texture {
    Vdp1Texture {
        source: c.source,
        width: ((c.size as int / 0x100 % 0x40) * 8) as usize,
        height: (c.size as int % 0x100) as usize,
        ctrl: c.ctrl,
        pmod: c.pmod,
        color: c.color,
    }
}

/// The rectangle a normal (0) or scaled (1) sprite command covers.
pub open spec fn command_rect(c: Vdp1Command) -> Option<[i32; 4]> {
    let kind = c.ctrl as int % 16;
    let (xa, ya, xc, yc) = (c.xy[0] as int, c.xy[1] as int, c.xy[4] as int, c.xy[5] as int);
    if kind == 0 {
        let width = (c.size as int / 0x100 % 0x40) * 8;
        let height = c.size as int % 0x100;
        if width > 0 && height > 0 {
            Some([xa as i32, ya as i32, (xa + width - 1) as i32, (ya + height - 1) as i32])
        } else {
            None
        }
    } else if c.ctrl as int / 0x100 % 16 == 0 {
        Some([xa as i32, ya as i32, xc as i32, yc as i32])
    } else {
        let width = if abs(c.raw[2] as int) < 1 { 1 } else { abs(c.raw[2] as int) };
        let height = if abs(c.raw[3] as int) < 1 { 1 } else { abs(c.raw[3] as int) };
        Some([xa as i32, ya as i32, (xa + width - 1) as i32, (ya + height - 1) as i32])
    }
}

/// Whether the command's vertices and texture lie in the ranges its words
/// can give.
pub open spec fn command_bounded(c: Vdp1Command) -> bool {
    &&& c.source < 0x8_0000
    &&& forall|i: int| 0 <= i < 8 ==> -0x8000 <= #[trigger] c.raw[i] < 0x8000
    &&& forall|i: int| 0 <= i < 8 ==> -0x1_0000 <= #[trigger] c.xy[i] < 0x1_0000
}

impl SaturnVdp1 {
    /// What line `k` of command `c` (vertex k to vertex k + 1, wrapping) paints at (x, y).
    pub open spec fn edge_dot(&self, c: Vdp1Command, k: int, x: int, y: int) -> Option<u16> {
        self@.edge_dot(c, k, x, y)
    }

    /// What drawing command `c` paints at (x, y): a normal or scaled
    /// sprite's texel, a polyline's or line's colour.
    pub open spec fn command_dot(&self, c: Vdp1Command, x: int, y: int) -> Option<u16> {
        self@.command_dot(c, x, y)
    }

    /// Reads the command at `address`.
    pub fn read_command(&self, address: usize) -> (c: Vdp1Command)
        requires
            self.wf(),
            address + 0x20 <= VDP1_VRAM_SIZE,
        ensures
            c == self.command_at(address as int),
            command_bounded(c),
    {
        let vram = self.vram.as_slice();
        let r0 = be16(vram, address + 0x0c) as i16 as i32;
        let r1 = be16(vram, address + 0x0e) as i16 as i32;
        let r2 = be16(vram, address + 0x10) as i16 as i32;
        let r3 = be16(vram, address + 0x12) as i16 as i32;
        let r4 = be16(vram, address + 0x14) as i16 as i32;
        let r5 = be16(vram, address + 0x16) as i16 as i32;
        let r6 = be16(vram, address + 0x18) as i16 as i32;
        let r7 = be16(vram, address + 0x1a) as i16 as i32;
        let lx = self.local[0];
        let ly = self.local[1];
        let c = Vdp1Command {
            ctrl: be16(vram, address),
            link: be16(vram, address + 2) as usize * 8,
            pmod: be16(vram, address + 4),
            color: be16(vram, address + 6),
            source: be16(vram, address + 8) as usize * 8,
            size: be16(vram, address + 0x0a),
            raw: [r0, r1, r2, r3, r4, r5, r6, r7],
            xy: [r0 + lx, r1 + ly, r2 + lx, r3 + ly, r4 + lx, r5 + ly, r6 + lx, r7 + ly],
        };
        assert(c.raw =~= self.command_at(address as int).raw);
        assert(c.xy =~= self.command_at(address as int).xy);
        c
    }
}


/// The polygon request a distorted-sprite (2) or polygon (4) command makes.
pub open spec fn polygon_of(c: Vdp1Command) -> Option<PolygonCommand> {
    let kind = c.ctrl as int % 16;
    let points = [(c.xy[0], c.xy[1]), (c.xy[2], c.xy[3]), (c.xy[4], c.xy[5]), (c.xy[6], c.xy[7])];
    if kind == 2 {
        Some(PolygonCommand::DistortedSprite { points, texture: command_texture(c) })
    } else if kind == 4 {
        Some(PolygonCommand::Polygon { points, color: c.color, pmod: c.pmod })
    } else {
        None
    }
}

proof fn lemma_same_color_twice(a: &SaturnVdp1, b: &SaturnVdp1, c: &SaturnVdp1, p: int, d1: Option<u16>, d2: Option<u16>, color: u16)
    requires
        b.dot_painted(a, p, d1),
        c.dot_painted(b, p, d2),
        d1 is Some ==> d1 == Some(color),
        d2 is Some ==> d2 == Some(color),
    ensures
        c.dot_painted(a, p, if d1 is Some || d2 is Some { Some(color) } else { None }),
{
}

impl SaturnVdp1 {
    fn edge(&mut self, c: Vdp1Command, k: usize)
        requires
            old(self).wf(),
            command_bounded(c),
            k < 4,
        ensures
            final(self).same_but_draw(old(self)),
            forall|p: int| 0 <= p < FB_WIDTH * FB_HEIGHT ==> #[trigger] final(self).dot_painted(
                old(self),
                p,
                old(self).edge_dot(c, k as int, p % 512, p / 512),
            ),
    {
        let i = 2 * k;
        let j = 2 * ((k + 1) % 4);
        let ghost before = *self;
        self.line(c.xy[i], c.xy[i + 1], c.xy[j], c.xy[j + 1], c.color, c.pmod);
        assert forall|p: int| 0 <= p < FB_WIDTH * FB_HEIGHT implies #[trigger] self.dot_painted(
            &before,
            p,
            before.edge_dot(c, k as int, p % 512, p / 512),
        ) by {
            let ends = (c.xy[i as int] as int, c.xy[i + 1] as int, c.xy[j as int] as int, c.xy[j + 1] as int);
            assert(self.dot_painted(
                &before,
                p,
                before.line_dot(ends, line_last(ends.0, ends.1, ends.2, ends.3) + 1, c.color, c.pmod, p % 512, p / 512),
            ));
        }
    }

    /// This state is `before` after command `c` was carried out: the
    /// clip and local-origin commands set their registers, the drawing
    /// commands paint their dots into the drawn framebuffer, and nothing
    /// else changes.
    pub open spec fn executed(&self, before: &SaturnVdp1, c: Vdp1Command) -> bool {
        &&& self.wf()
        &&& self.vram == before.vram
        &&& self.regs == before.regs
        &&& self.draw == before.draw
        &&& self.display == before.display
        &&& self.framebuffers[1 - before.draw] == before.framebuffers[1 - before.draw]
        &&& self.local == (if c.ctrl as int % 16 == 10 { [c.raw[0], c.raw[1]] } else { before.local })
        &&& self.system_clip == (if c.ctrl as int % 16 == 9 { [0i32, 0i32, c.raw[4], c.raw[5]] } else { before.system_clip })
        &&& self.user_clip == (if c.ctrl as int % 16 == 8 { [c.raw[0], c.raw[1], c.raw[4], c.raw[5]] } else { before.user_clip })
        &&& forall|p: int| 0 <= p < FB_WIDTH * FB_HEIGHT ==> #[trigger] self.dot_painted(
            before,
            p,
            before.command_dot(c, p % 512, p / 512),
        )
    }

    fn draw_sprite(&mut self, c: Vdp1Command)
        requires
            old(self).wf(),
            command_bounded(c),
            c.ctrl % 16 == 0 || c.ctrl % 16 == 1,
        ensures
            final(self).executed(old(self), c),
    {
        let ghost before = *self;
        let kind = c.ctrl % 16;
        let xa = c.xy[0];
        let ya = c.xy[1];
        let texture = Vdp1Texture::from_command(c.source, c.size, c.ctrl, c.pmod, c.color);
        let rect = if kind == 0 {
            let width = (c.size / 0x100 % 0x40) as i32 * 8;
            let height = (c.size % 0x100) as i32;
            if width > 0 && height > 0 {
                Some([xa, ya, xa + width - 1, ya + height - 1])
            } else {
                None
            }
        } else if c.ctrl / 0x100 % 16 == 0 {
            Some([xa, ya, c.xy[4], c.xy[5]])
        } else {
            let w = if c.raw[2] < 0 { -c.raw[2] } else { c.raw[2] };
            let h = if c.raw[3] < 0 { -c.raw[3] } else { c.raw[3] };
            let width = if w < 1 { 1 } else { w };
            let height = if h < 1 { 1 } else { h };
            Some([xa, ya, xa + width - 1, ya + height - 1])
        };
        assert(rect == command_rect(c));
        match rect {
            Some(rect) => {
                self.draw_textured_rect(texture, rect);
                assert(texture == command_texture(c));
                assert forall|p: int| 0 <= p < FB_WIDTH * FB_HEIGHT implies #[trigger] self.dot_painted(&before, p, before.command_dot(c, p % 512, p / 512)) by {
                    assert(self.dot_painted(&before, p, before.rect_dot(texture, rect, p % 512, p / 512)));
                }
            },
            None => {
                assert forall|p: int| 0 <= p < FB_WIDTH * FB_HEIGHT implies #[trigger] self.dot_painted(&before, p, before.command_dot(c, p % 512, p / 512)) by {}
            },
        }
    }

    fn draw_polyline(&mut self, c: Vdp1Command)
        requires
            old(self).wf(),
            command_bounded(c),
            c.ctrl % 16 == 5,
        ensures
            final(self).executed(old(self), c),
    {
        let ghost before = *self;
        self.edge(c, 0);
        let ghost s1 = *self;
        self.edge(c, 1);
        let ghost s2 = *self;
        self.edge(c, 2);
        let ghost s3 = *self;
        self.edge(c, 3);
        assert forall|p: int| 0 <= p < FB_WIDTH * FB_HEIGHT implies #[trigger] self.dot_painted(&before, p, before.command_dot(c, p % 512, p / 512)) by {
            let x = p % 512;
            let y = p / 512;
            assert(s1.dot_painted(&before, p, before.edge_dot(c, 0, x, y)));
            assert(s2.dot_painted(&s1, p, s1.edge_dot(c, 1, x, y)));
            assert(s3.dot_painted(&s2, p, s2.edge_dot(c, 2, x, y)));
            assert(self.dot_painted(&s3, p, s3.edge_dot(c, 3, x, y)));
            assert(s1.edge_dot(c, 1, x, y) == before.edge_dot(c, 1, x, y));
            assert(s2.edge_dot(c, 2, x, y) == before.edge_dot(c, 2, x, y));
            assert(s3.edge_dot(c, 3, x, y) == before.edge_dot(c, 3, x, y));
            lemma_same_color_twice(&before, &s1, &s2, p, before.edge_dot(c, 0, x, y), before.edge_dot(c, 1, x, y), c.color);
            let d01 = if before.edge_dot(c, 0, x, y) is Some || before.edge_dot(c, 1, x, y) is Some { Some(c.color) } else { None };
            lemma_same_color_twice(&before, &s2, &s3, p, d01, before.edge_dot(c, 2, x, y), c.color);
            let d012 = if d01 is Some || before.edge_dot(c, 2, x, y) is Some { Some(c.color) } else { None };
            lemma_same_color_twice(&before, &s3, self, p, d012, before.edge_dot(c, 3, x, y), c.color);
        }
    }

    fn draw_line_command(&mut self, c: Vdp1Command)
        requires
            old(self).wf(),
            command_bounded(c),
            c.ctrl % 16 == 6,
        ensures
            final(self).executed(old(self), c),
    {
        let ghost before = *self;
        self.edge(c, 0);
        assert forall|p: int| 0 <= p < FB_WIDTH * FB_HEIGHT implies #[trigger] self.dot_painted(&before, p, before.command_dot(c, p % 512, p / 512)) by {
            assert(self.dot_painted(&before, p, before.edge_dot(c, 0, p % 512, p / 512)));
        }
    }

    fn set_command_registers(&mut self, c: Vdp1Command)
        requires
            old(self).wf(),
            command_bounded(c),
            !(c.ctrl % 16 == 0 || c.ctrl % 16 == 1 || c.ctrl % 16 == 5 || c.ctrl % 16 == 6),
        ensures
            final(self).executed(old(self), c),
    {
        let ghost before = *self;
        let kind = c.ctrl % 16;
        if kind == 8 {
            self.user_clip = [c.raw[0], c.raw[1], c.raw[4], c.raw[5]];
        } else if kind == 9 {
            self.system_clip = [0, 0, c.raw[4], c.raw[5]];
        } else if kind == 10 {
            self.local = [c.raw[0], c.raw[1]];
        }
        assert forall|p: int| 0 <= p < FB_WIDTH * FB_HEIGHT implies #[trigger] self.dot_painted(&before, p, before.command_dot(c, p % 512, p / 512)) by {
            assert(before.command_dot(c, p % 512, p / 512) is None);
        }
    }

    /// Carries out command `c`: draws a sprite or line, sets a clip or the
    /// local origin, or returns the polygon it asks a rasteriser to fill.
    #[verifier::rlimit(60)]
    pub fn execute_command(&mut self, c: Vdp1Command) -> (r: Option<PolygonCommand>)
        requires
            old(self).wf(),
            command_bounded(c),
        ensures
            final(self).executed(old(self), c),
            r == polygon_of(c),
    {
        let kind = c.ctrl % 16;
        if kind == 0 || kind == 1 {
            self.draw_sprite(c);
            return None;
        }
        if kind == 5 {
            self.draw_polyline(c);
            return None;
        }
        if kind == 6 {
            self.draw_line_command(c);
            return None;
        }
        self.set_command_registers(c);
        if kind == 2 {
            let points = [(c.xy[0], c.xy[1]), (c.xy[2], c.xy[3]), (c.xy[4], c.xy[5]), (c.xy[6], c.xy[7])];
            let texture = Vdp1Texture::from_command(c.source, c.size, c.ctrl, c.pmod, c.color);
            assert(points =~= [(c.xy[0], c.xy[1]), (c.xy[2], c.xy[3]), (c.xy[4], c.xy[5]), (c.xy[6], c.xy[7])]);
            Some(PolygonCommand::DistortedSprite { points, texture })
        } else if kind == 4 {
            let points = [(c.xy[0], c.xy[1]), (c.xy[2], c.xy[3]), (c.xy[4], c.xy[5]), (c.xy[6], c.xy[7])];
            Some(PolygonCommand::Polygon { points, color: c.color, pmod: c.pmod })
        } else {
            None
        }
    }
}


/// Where the command walk stands: the next command's address, the return
/// stack of CALL commands, and how many commands it has taken (4096 ends it).
pub struct CommandWalker {
    pub address: usize,
    pub call_stack: Vec<usize>,
    pub steps: usize,
}

/// Where the command walk stands, as values.
pub struct WalkState {
    pub address: usize,
    pub stack: Seq<usize>,
    pub steps: usize,
}

impl View for CommandWalker {
    type V = WalkState;

    open spec fn view(&self) -> WalkState {
        WalkState { address: self.address, stack: self.call_stack@, steps: self.steps }
    }
}

impl Vdp1View {
    /// The framebuffer being drawn.
    pub open spec fn draw_fb(self) -> Seq<u8> {
        if self.draw == 0 {
            self.fb0
        } else {
            self.fb1
        }
    }

    /// The model with the drawn framebuffer replaced.
    pub open spec fn with_draw_fb(self, fb: Seq<u8>) -> Vdp1View {
        if self.draw == 0 {
            Vdp1View { fb0: fb, ..self }
        } else {
            Vdp1View { fb1: fb, ..self }
        }
    }

    /// The drawn framebuffer after command `c` paints its dots into it.
    pub open spec fn painted_fb(self, c: Vdp1Command) -> Seq<u8> {
        Seq::new(
            self.draw_fb().len(),
            |i: int|
                match self.command_dot(c, (i / 2) % 512, (i / 2) / 512) {
                    Some(v) => if i % 2 == 0 {
                        (v as int / 0x100) as u8
                    } else {
                        (v as int % 0x100) as u8
                    },
                    None => self.draw_fb()[i],
                },
        )
    }

    /// The model after command `c` is carried out: its dots painted, and a
    /// clip or the local origin set by the commands that set them.
    pub open spec fn after_command(self, c: Vdp1Command) -> Vdp1View {
        let kind = c.ctrl as int % 16;
        Vdp1View {
            local: if kind == 10 { [c.raw[0], c.raw[1]] } else { self.local },
            system_clip: if kind == 9 { [0i32, 0i32, c.raw[4], c.raw[5]] } else { self.system_clip },
            user_clip: if kind == 8 { [c.raw[0], c.raw[1], c.raw[4], c.raw[5]] } else { self.user_clip },
            ..self.with_draw_fb(self.painted_fb(c))
        }
    }

    /// One command of the walk: the list ends (the walk counts 4096) at an
    /// end bit or past VRAM; a skip (jump mode 4-7) only moves on; any other
    /// command is carried out; then the walk follows the jump mode. Returns
    /// the model, the walk, and the polygon the command asks for.
    pub open spec fn command_step(self, w: WalkState) -> (Vdp1View, WalkState, Option<PolygonCommand>) {
        let a = w.address;
        if a > VDP1_VRAM_SIZE - 0x20 {
            (self, WalkState { steps: 4096, ..w }, None)
        } else {
            let c = self.command_at(a as int);
            if c.ctrl >= 0x8000 {
                (self, WalkState { steps: 4096, ..w }, None)
            } else {
                let jump = (c.ctrl / 0x1000 % 8) as u16;
                let (next, stack) = next_address_spec(jump, c.link, (a + 0x20) as usize, w.stack);
                let moved = WalkState { address: next, stack, steps: (w.steps + 1) as usize };
                if jump >= 4 {
                    (self, moved, None)
                } else {
                    (self.after_command(c), moved, polygon_of(c))
                }
            }
        }
    }

    /// The walk from `w` up to and including the next command that asks
    /// for a polygon, or to the end of the list (the 4096th command, an end
    /// bit, or the end of VRAM).
    pub open spec fn walk_until_polygon(self, w: WalkState) -> (Vdp1View, WalkState, Option<PolygonCommand>)
        decreases 4096 - w.steps,
    {
        if w.steps >= 4096 {
            (self, w, None)
        } else {
            let (v, w1, r) = self.command_step(w);
            if r is Some || w1.steps >= 4096 || w1.steps <= w.steps {
                (v, w1, r)
            } else {
                v.walk_until_polygon(w1)
            }
        }
    }
}

/// The command walk changes nothing but the framebuffer being drawn, the
/// local origin and the clips: VRAM, the registers, which buffer is drawn
/// and which shown, and the framebuffer not being drawn stay as they were.
pub proof fn command_walk_changes_only_drawing(v: Vdp1View, w: WalkState)
    ensures
        v.walk_until_polygon(w).0.vram == v.vram,
        v.walk_until_polygon(w).0.regs == v.regs,
        v.walk_until_polygon(w).0.draw == v.draw,
        v.walk_until_polygon(w).0.display == v.display,
        v.draw == 0 ==> v.walk_until_polygon(w).0.fb1 == v.fb1,
        v.draw != 0 ==> v.walk_until_polygon(w).0.fb0 == v.fb0,
    decreases 4096 - w.steps,
{
    if w.steps < 4096 {
        let (v1, w1, r) = v.command_step(w);
        if !(r is Some || w1.steps >= 4096 || w1.steps <= w.steps) {
            command_walk_changes_only_drawing(v1, w1);
        }
    }
}

impl SaturnVdp1 {
    proof fn lemma_executed(&self, before: &SaturnVdp1, c: Vdp1Command)
        requires
            before.wf(),
            self.executed(before, c),
        ensures
            self@ == before@.after_command(c),
    {
        let d = before.draw;
        assert(before@.draw_fb() == before.draw_fb());
        assert forall|i: int| 0 <= i < VDP1_FB_SIZE implies #[trigger] self.draw_fb()[i] == before@.painted_fb(c)[i] by {
            let p = i / 2;
            assert(0 <= p < FB_WIDTH * FB_HEIGHT);
            assert(self.dot_painted(before, p, before.command_dot(c, p % 512, p / 512)));
        }
        assert(self.draw_fb() =~= before@.painted_fb(c));
        if d == 0 {
            assert(self@.fb0 =~= before@.painted_fb(c));
            assert(self@.fb1 =~= before@.fb1);
        } else {
            assert(self@.fb1 =~= before@.painted_fb(c));
            assert(self@.fb0 =~= before@.fb0);
        }
        assert(self@.regs =~= before@.regs);
        assert(self@.vram =~= before@.vram);
    }
}

impl SaturnVdp1 {
    fn clear_draw(&mut self)
        requires
            old(self).wf(),
        ensures
            final(self).same_but_draw(old(self)),
            forall|i: int| 0 <= i < VDP1_FB_SIZE ==> final(self).draw_fb()[i] == 0,
    {
        let d = self.draw;
        let mut i: usize = 0;
        while i < VDP1_FB_SIZE
            invariant
                self.same_but_draw(old(self)),
                d == self.draw,
                i <= VDP1_FB_SIZE,
                forall|j: int| 0 <= j < i ==> self.draw_fb()[j] == 0,
            decreases VDP1_FB_SIZE - i,
        {
            let ghost before = self.draw_fb();
            self.framebuffers[d].set(i, 0);
            assert(self.draw_fb() == before.update(i as int, 0u8));
            i = i + 1;
        }
    }

    /// Clears the framebuffer being drawn and starts the command walk at
    /// VRAM address 0.
    pub fn begin_commands(&mut self) -> (w: CommandWalker)
        requires
            old(self).wf(),
        ensures
            final(self).same_but_draw(old(self)),
            forall|i: int| 0 <= i < VDP1_FB_SIZE ==> final(self).draw_fb()[i] == 0,
            final(self)@ == old(self)@.with_draw_fb(Seq::new(VDP1_FB_SIZE as nat, |i: int| 0u8)),
            w@ == (WalkState { address: 0, stack: Seq::empty(), steps: 0 }),
    {
        self.clear_draw();
        proof {
            assert(self.draw_fb() =~= Seq::new(VDP1_FB_SIZE as nat, |i: int| 0u8));
            if self.draw == 0 {
                assert(self@.fb1 =~= old(self)@.fb1);
            } else {
                assert(self@.fb0 =~= old(self)@.fb0);
            }
            assert(self@.regs =~= old(self)@.regs);
        }
        let w = CommandWalker { address: 0, call_stack: Vec::new(), steps: 0 };
        assert(w@.stack =~= Seq::empty());
        w
    }

    /// Takes commands from the walk until one asks for a polygon, which is
    /// returned once the walk has moved past it, or until the list ends (an
    /// end bit, the end of VRAM, or the 4096th command), which returns None
    /// and ends the walk. Skipped commands only move the walk; the others are
    /// carried out as `execute_command` describes.
    pub fn run_commands(&mut self, walker: &mut CommandWalker) -> (r: Option<PolygonCommand>)
        requires
            old(self).wf(),
            old(walker).steps <= 4096,
        ensures
            final(self).wf(),
            final(walker).steps <= 4096,
            (final(self)@, final(walker)@, r) == old(self)@.walk_until_polygon(old(walker)@),
    {
        while walker.steps < 4096
            invariant
                self.wf(),
                walker.steps <= 4096,
                self@.walk_until_polygon(walker@) == old(self)@.walk_until_polygon(old(walker)@),
            decreases 4096 - walker.steps,
        {
            let polygon = self.step_command(walker);
            if walker.steps == 4096 && polygon.is_none() {
                return None;
            }
            if polygon.is_some() {
                return polygon;
            }
        }
        None
    }

    /// Takes one command from the walk: the list ends at an end bit or past
    /// VRAM; a skip (jump mode 4-7) only moves on; any other command is
    /// carried out; then the walk follows the command's jump mode.
    pub fn step_command(&mut self, walker: &mut CommandWalker) -> (r: Option<PolygonCommand>)
        requires
            old(self).wf(),
            old(walker).steps < 4096,
        ensures
            final(self).wf(),
            old(walker).steps < final(walker).steps <= 4096,
            (final(self)@, final(walker)@, r) == old(self)@.command_step(old(walker)@),
    {
        let address = walker.address;
        if address > VDP1_VRAM_SIZE - 0x20 {
            walker.steps = 4096;
            return None;
        }
        let c = self.read_command(address);
        if c.ctrl >= 0x8000 {
            walker.steps = 4096;
            return None;
        }
        let jump = c.ctrl / 0x1000 % 8;
        let ghost before = *self;
        let polygon = if jump >= 4 { None } else { self.execute_command(c) };
        proof {
            if jump < 4 {
                self.lemma_executed(&before, c);
            }
        }
        walker.address = next_address(jump, c.link, address + 0x20, &mut walker.call_stack);
        walker.steps = walker.steps + 1;
        polygon
    }

    /// Swaps the framebuffers: the drawn one is shown, the shown one drawn.
    pub fn finish_frame(&mut self)
        requires
            old(self).wf(),
        ensures
            final(self).wf(),
            final(self).vram == old(self).vram,
            final(self).framebuffers == old(self).framebuffers,
            final(self).display == old(self).draw,
            final(self).draw == 1 - old(self).draw,
            final(self)@ == (Vdp1View { display: old(self).draw, draw: (1 - old(self).draw) as usize, ..old(self)@ }),
    {
        self.display = self.draw;
        self.draw = 1 - self.draw;
    }

    /// The framebuffer being shown.
    pub fn display_buffer(&self) -> (r: &[u8])
        requires
            self.wf(),
        ensures
            r@ == self.framebuffers[self.display as int]@,
    {
        self.framebuffers[self.display].as_slice()
    }
}

impl Default for SaturnVdp1 {
    fn default() -> (v: Self)
        ensures
            v.wf(),
            v.draw == 0,
            v.display == 1,
    {
        Self::new()
    }
}

} // verus!
