//! An RGBA frame: four bytes per pixel, rows top to bottom.
use vstd::prelude::*;

verus! {

/// One pixel's red, green, blue and alpha bytes.
#[derive(Debug, Clone, Copy, PartialEq, Eq, Structural)]
pub struct Rgba {
    pub r: u8,
    pub g: u8,
    pub b: u8,
    pub a: u8,
}

/// Whether pixel `p` of the RGBA bytes `pixels` holds `c`.
pub open spec fn shows(pixels: Seq<u8>, p: int, c: Rgba) -> bool {
    &&& pixels[4 * p] == c.r
    &&& pixels[4 * p + 1] == c.g
    &&& pixels[4 * p + 2] == c.b
    &&& pixels[4 * p + 3] == c.a
}

/// Whether pixel `p` reads the same in both frames.
pub open spec fn same_pixel(a: Seq<u8>, b: Seq<u8>, p: int) -> bool {
    &&& a[4 * p] == b[4 * p]
    &&& a[4 * p + 1] == b[4 * p + 1]
    &&& a[4 * p + 2] == b[4 * p + 2]
    &&& a[4 * p + 3] == b[4 * p + 3]
}

pub struct VideoBuffer {
    pub width: u32,
    pub height: u32,
    pub pixels: Vec<u8>,
}

impl VideoBuffer {
    /// The number of pixels.
    pub open spec fn count(&self) -> int {
        self.width as int * self.height as int
    }

    pub open spec fn wf(&self) -> bool {
        self.pixels@.len() == 4 * self.count()
    }

    /// A frame of `width` by `height` opaque black pixels.
    pub fn new(width: u32, height: u32) -> (v: Self)
        requires
            4 * (width as int * height as int) <= usize::MAX,
        ensures
            v.wf(),
            v.width == width,
            v.height == height,
            forall|p: int| 0 <= p < v.count() ==> shows(v.pixels@, p, Rgba { r: 0, g: 0, b: 0, a: 255 }),
    {
        let mut v = VideoBuffer { width, height, pixels: Vec::new() };
        assert(0 <= width as int * height as int) by (nonlinear_arith);
        let count = width as usize * height as usize;
        v.fill_to(count, Rgba { r: 0, g: 0, b: 0, a: 255 });
        v
    }

    /// Appends `count` pixels of `c` to an empty frame.
    fn fill_to(&mut self, count: usize, c: Rgba)
        requires
            old(self).pixels@.len() == 0,
            count == old(self).count(),
            4 * count <= usize::MAX,
        ensures
            final(self).wf(),
            final(self).width == old(self).width,
            final(self).height == old(self).height,
            forall|p: int| 0 <= p < count ==> shows(final(self).pixels@, p, c),
    {
        let mut i: usize = 0;
        while i < count
            invariant
                i <= count,
                4 * count <= usize::MAX,
                self.pixels@.len() == 4 * i,
                self.width == old(self).width,
                self.height == old(self).height,
                forall|p: int| 0 <= p < i ==> shows(self.pixels@, p, c),
            decreases count - i,
        {
            let ghost before = self.pixels@;
            self.pixels.push(c.r);
            self.pixels.push(c.g);
            self.pixels.push(c.b);
            self.pixels.push(c.a);
            assert forall|p: int| 0 <= p < i + 1 implies shows(self.pixels@, p, c) by {
                if p < i {
                    assert(shows(before, p, c));
                }
            }
            i = i + 1;
        }
    }

    pub fn pixels(&self) -> (r: &[u8])
        ensures
            r@ == self.pixels@,
    {
        self.pixels.as_slice()
    }

    /// Paints every pixel `c`.
    pub fn clear(&mut self, c: Rgba)
        requires
            old(self).wf(),
        ensures
            final(self).wf(),
            final(self).width == old(self).width,
            final(self).height == old(self).height,
            forall|p: int| 0 <= p < old(self).count() ==> shows(final(self).pixels@, p, c),
    {
        let count = self.pixels.len() / 4;
        let mut i: usize = 0;
        while i < count
            invariant
                count == self.count(),
                self.wf(),
                i <= count,
                self.width == old(self).width,
                self.height == old(self).height,
                forall|p: int| 0 <= p < i ==> shows(self.pixels@, p, c),
            decreases count - i,
        {
            let ghost before = self.pixels@;
            self.put(i, c);
            assert forall|p: int| 0 <= p < i + 1 implies shows(self.pixels@, p, c) by {
                if p < i {
                    assert(shows(before, p, c));
                    assert(same_pixel(self.pixels@, before, p));
                }
            }
            i = i + 1;
        }
    }

    /// Paints pixel `p`.
    pub fn put(&mut self, p: usize, c: Rgba)
        requires
            old(self).wf(),
            p < old(self).count(),
        ensures
            final(self).wf(),
            final(self).width == old(self).width,
            final(self).height == old(self).height,
            shows(final(self).pixels@, p as int, c),
            forall|q: int| 0 <= q < old(self).count() && q != p ==> same_pixel(
                final(self).pixels@,
                old(self).pixels@,
                q,
            ),
    {
        let n = self.pixels.len();
        let t = 4 * p;
        self.pixels.set(t, c.r);
        self.pixels.set(t + 1, c.g);
        self.pixels.set(t + 2, c.b);
        self.pixels.set(t + 3, c.a);
    }
}

} // verus!
