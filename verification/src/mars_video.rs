//! The 32X picture: the displayed framebuffer, read through its line table
//! as packed palette indices, direct colors or run lengths, laid over the
//! Genesis picture by priority and transparency.
use vstd::prelude::*;
use crate::bytes::be16_at;
use crate::mars_board::{MarsBoard, MarsView, MARS_WIDTH, MARS_HEIGHT, FRAMEBUFFER_SIZE};
use crate::video::{VideoBuffer, Rgba, shows, same_pixel};

verus! {

/// A 5-bit color component scaled to 8 bits, rounded.
pub open spec fn expand5(v: int) -> u8 {
    ((v * 255 + 15) / 31) as u8
}

/// The RGBA color of a 15-bit 32X color (red in the low bits).
pub open spec fn mars_color(value: u16) -> Rgba {
    Rgba { r: expand5(value as int % 32), g: expand5(value as int / 32 % 32), b: expand5(value as int / 1024 % 32), a: 255 }
}

/// The byte offset of line `y`'s pixel data: twice the line table's word.
pub open spec fn line_start(frame: Seq<u8>, y: int) -> int {
    2 * be16_at(frame, 2 * y)
}

/// The palette index the run-length data at `cursor`, whose first run
/// starts at column `x0`, gives column `x`; `None` past the data's end or
/// the line's end.
pub open spec fn rle_index(frame: Seq<u8>, cursor: int, x0: int, x: int) -> Option<u8>
    decreases MARS_WIDTH + 0x100 - x0,
{
    if x0 < 0 || x0 >= MARS_WIDTH || cursor < 0 || cursor + 2 > frame.len() {
        None
    } else {
        let run = frame[cursor] + 1;
        if x < x0 + run {
            Some(frame[cursor + 1])
        } else {
            rle_index(frame, cursor + 2, x0 + run, x)
        }
    }
}

/// What the display needs to draw the 32X picture.
pub struct Bitmap {
    pub frame: Seq<u8>,
    pub palette: Seq<u16>,
    pub mode: u16,
    pub shift: u16,
}

/// The index of pixel (`x`, `y`) in the picture.
pub open spec fn pix(x: int, y: int) -> int {
    y * MARS_WIDTH + x
}

/// Whether the Genesis pixel `p` is transparent: black whatever its alpha.
pub open spec fn base_transparent(base: Seq<u8>, p: int) -> bool {
    base[4 * p] == 0 && base[4 * p + 1] == 0 && base[4 * p + 2] == 0
}

/// Whether a 32X color shows in front of the Genesis picture: the priority
/// bit of the bitmap mode, flipped by the color's through bit.
pub open spec fn mars_front(bitmap_mode: u16, value: u16) -> bool {
    (bitmap_mode & 0x0080 != 0) != (value & 0x8000 != 0)
}

impl Bitmap {
    /// The 15-bit color the bitmap gives pixel (`x`, `y`): mode 1 packs a
    /// palette index per byte (shifted by a byte when asked), mode 2 a
    /// direct color per word, mode 3 runs of (length - 1, index) byte
    /// pairs; `None` where the line's data has ended or the mode is 0.
    pub open spec fn color(self, x: int, y: int) -> Option<u16> {
        let cursor = line_start(self.frame, y);
        let mode = self.mode % 4;
        if mode == 1 {
            let i = cursor + x + self.shift % 2;
            Some(self.palette[(if i < self.frame.len() { self.frame[i] } else { 0u8 }) as int])
        } else if mode == 2 {
            if cursor + 2 * x + 2 <= self.frame.len() {
                Some(be16_at(self.frame, cursor + 2 * x))
            } else {
                None
            }
        } else if mode == 3 {
            match rle_index(self.frame, cursor, 0, x) {
                Some(i) => Some(self.palette[i as int]),
                None => None,
            }
        } else {
            None
        }
    }

    /// What the bitmap paints at (`x`, `y`) over the Genesis picture
    /// `base`, if anything.
    pub open spec fn painted(self, base: Seq<u8>, x: int, y: int) -> Option<Rgba> {
        match self.color(x, y) {
            Some(v) => if mars_front(self.mode, v) || base_transparent(base, pix(x, y)) {
                Some(mars_color(v))
            } else {
                None
            },
            None => None,
        }
    }
}

/// Whether `video` shows at (`x`, `y`) what the bitmap paints there, or
/// else the pixel of `start`.
pub open spec fn painted_at(video: Seq<u8>, start: Seq<u8>, bm: Bitmap, base: Seq<u8>, x: int, y: int) -> bool {
    match bm.painted(base, x, y) {
        Some(c) => shows(video, pix(x, y), c),
        None => same_pixel(video, start, pix(x, y)),
    }
}

/// The picture's pixel count.
pub open spec fn picture_pixels() -> int {
    MARS_WIDTH * MARS_HEIGHT
}

impl MarsView {
    /// The displayed framebuffer with the palette and display mode.
    pub open spec fn bitmap(self) -> Bitmap {
        Bitmap {
            frame: self.framebuffer(self.display_buffer as int),
            palette: self.palette,
            mode: self.bitmap_mode,
            shift: self.screen_shift,
        }
    }
}

proof fn lemma_pix(x: int, y: int)
    requires
        0 <= x < MARS_WIDTH,
        0 <= y < MARS_HEIGHT,
    ensures
        0 <= pix(x, y) < picture_pixels(),
        4 * pix(x, y) + 3 < 4 * picture_pixels(),
        forall|x2: int, y2: int|
            0 <= x2 < MARS_WIDTH && 0 <= y2 < MARS_HEIGHT && (x2 != x || y2 != y) ==> pix(x2, y2) != pix(x, y),
{
}

/// The bitmap a frame, palette and mode describe.
pub open spec fn bitmap_of(frame: Seq<u8>, palette: Seq<u16>, mode: u16, shift: u16) -> Bitmap {
    Bitmap { frame, palette, mode, shift }
}

/// Line `y` of `video` is painted up to column `x` over `start`, the rest
/// of the picture still shows `start`.
pub open spec fn row_progress(video: Seq<u8>, start: Seq<u8>, bm: Bitmap, base: Seq<u8>, y: int, x: int) -> bool {
    &&& forall|x2: int| 0 <= x2 < x ==> #[trigger] painted_at(video, start, bm, base, x2, y)
    &&& forall|x2: int| x <= x2 < MARS_WIDTH ==> #[trigger] same_pixel(video, start, pix(x2, y))
    &&& forall|x2: int, y2: int|
        0 <= x2 < MARS_WIDTH && 0 <= y2 < MARS_HEIGHT && y2 != y ==> #[trigger] same_pixel(video, start, pix(x2, y2))
}

/// Lines above `y` of `video` are painted over `start`, the others still
/// show `start`.
pub open spec fn picture_progress(video: Seq<u8>, start: Seq<u8>, bm: Bitmap, base: Seq<u8>, y: int) -> bool {
    &&& forall|x2: int, y2: int|
        0 <= x2 < MARS_WIDTH && 0 <= y2 < y ==> #[trigger] painted_at(video, start, bm, base, x2, y2)
    &&& forall|x2: int, y2: int|
        0 <= x2 < MARS_WIDTH && y <= y2 < MARS_HEIGHT ==> #[trigger] same_pixel(video, start, pix(x2, y2))
}

proof fn lemma_row_step(
    prev: Seq<u8>,
    new: Seq<u8>,
    start: Seq<u8>,
    bm: Bitmap,
    base: Seq<u8>,
    x: int,
    y: int,
    value: u16,
)
    requires
        0 <= x < MARS_WIDTH,
        0 <= y < MARS_HEIGHT,
        row_progress(prev, start, bm, base, y, x),
        bm.color(x, y) == Some(value),
        if mars_front(bm.mode, value) || base_transparent(base, pix(x, y)) {
            shows(new, pix(x, y), mars_color(value))
        } else {
            same_pixel(new, prev, pix(x, y))
        },
        forall|q: int| 0 <= q < picture_pixels() && q != pix(x, y) ==> same_pixel(new, prev, q),
    ensures
        row_progress(new, start, bm, base, y, x + 1),
{
    lemma_pix(x, y);
    assert forall|x2: int| 0 <= x2 < x + 1 implies #[trigger] painted_at(new, start, bm, base, x2, y) by {
        lemma_pix(x2, y);
        if x2 < x {
            assert(painted_at(prev, start, bm, base, x2, y));
            assert(same_pixel(new, prev, pix(x2, y)));
        } else {
            assert(same_pixel(prev, start, pix(x, y)));
        }
    }
    assert forall|x2: int| x + 1 <= x2 < MARS_WIDTH implies #[trigger] same_pixel(new, start, pix(x2, y)) by {
        lemma_pix(x2, y);
        assert(same_pixel(prev, start, pix(x2, y)));
        assert(same_pixel(new, prev, pix(x2, y)));
    }
    assert forall|x2: int, y2: int|
        0 <= x2 < MARS_WIDTH && 0 <= y2 < MARS_HEIGHT && y2 != y implies #[trigger] same_pixel(
        new,
        start,
        pix(x2, y2),
    ) by {
        lemma_pix(x2, y2);
        assert(same_pixel(prev, start, pix(x2, y2)));
        assert(same_pixel(new, prev, pix(x2, y2)));
    }
}

proof fn lemma_row_rest(video: Seq<u8>, start: Seq<u8>, bm: Bitmap, base: Seq<u8>, x: int, y: int)
    requires
        0 <= x,
        0 <= y < MARS_HEIGHT,
        row_progress(video, start, bm, base, y, x),
        forall|x2: int| x <= x2 < MARS_WIDTH ==> #[trigger] bm.color(x2, y) is None,
    ensures
        row_progress(video, start, bm, base, y, MARS_WIDTH as int),
{
    assert forall|x2: int| 0 <= x2 < MARS_WIDTH implies #[trigger] painted_at(video, start, bm, base, x2, y) by {
        if x2 >= x {
            assert(bm.color(x2, y) is None);
            assert(same_pixel(video, start, pix(x2, y)));
        }
    }
}

proof fn lemma_picture_step(prev: Seq<u8>, new: Seq<u8>, start: Seq<u8>, bm: Bitmap, base: Seq<u8>, y: int)
    requires
        0 <= y < MARS_HEIGHT,
        picture_progress(prev, start, bm, base, y),
        row_progress(new, prev, bm, base, y, MARS_WIDTH as int),
    ensures
        picture_progress(new, start, bm, base, y + 1),
{
    assert forall|x2: int, y2: int| 0 <= x2 < MARS_WIDTH && 0 <= y2 < y + 1 implies #[trigger] painted_at(
        new,
        start,
        bm,
        base,
        x2,
        y2,
    ) by {
        if y2 < y {
            assert(painted_at(prev, start, bm, base, x2, y2));
            assert(same_pixel(new, prev, pix(x2, y2)));
        } else {
            assert(painted_at(new, prev, bm, base, x2, y2));
            assert(same_pixel(prev, start, pix(x2, y2)));
        }
    }
    assert forall|x2: int, y2: int| 0 <= x2 < MARS_WIDTH && y + 1 <= y2 < MARS_HEIGHT implies #[trigger] same_pixel(
        new,
        start,
        pix(x2, y2),
    ) by {
        assert(same_pixel(new, prev, pix(x2, y2)));
        assert(same_pixel(prev, start, pix(x2, y2)));
    }
}

impl MarsBoard {
    /// The RGBA color of a 15-bit 32X color.
    pub fn color(value: u16) -> (r: Rgba)
        ensures
            r == mars_color(value),
    {
        let red = value % 32;
        let green = value / 32 % 32;
        let blue = value / 1024 % 32;
        Rgba {
            r: ((red * 255 + 15) / 31) as u8,
            g: ((green * 255 + 15) / 31) as u8,
            b: ((blue * 255 + 15) / 31) as u8,
            a: 255,
        }
    }

    /// Paints pixel (`x`, `y`) of `video` with the 32X color `value`, where
    /// it shows over the Genesis picture `base`.
    pub fn overlay_pixel(video: &mut VideoBuffer, bitmap_mode: u16, base: &[u8], x: usize, y: usize, value: u16)
        requires
            old(video).wf(),
            old(video).width == MARS_WIDTH,
            old(video).height == MARS_HEIGHT,
            x < MARS_WIDTH,
            y < MARS_HEIGHT,
            base@.len() >= 4 * picture_pixels(),
        ensures
            final(video).wf(),
            final(video).width == MARS_WIDTH,
            final(video).height == MARS_HEIGHT,
            if mars_front(bitmap_mode, value) || base_transparent(base@, pix(x as int, y as int)) {
                shows(final(video).pixels@, pix(x as int, y as int), mars_color(value))
            } else {
                same_pixel(final(video).pixels@, old(video).pixels@, pix(x as int, y as int))
            },
            forall|q: int| 0 <= q < picture_pixels() && q != pix(x as int, y as int) ==> same_pixel(
                final(video).pixels@,
                old(video).pixels@,
                q,
            ),
    {
        let through = value & 0x8000 != 0;
        let mars_priority = bitmap_mode & 0x0080 != 0;
        let mars_front = mars_priority != through;
        proof {
            lemma_pix(x as int, y as int);
        }
        let p = y * 320 + x;
        let offset = p * 4;
        let base_transparent = base[offset] == 0 && base[offset + 1] == 0 && base[offset + 2] == 0;
        if mars_front || base_transparent {
            video.put(p, Self::color(value));
        }
    }

    /// The byte offset of line `y`'s data from the line table at the start
    /// of `buffer`; `None` where the table entry lies outside the buffer.
    pub fn line_offset(buffer: &[u8], y: usize) -> (r: Option<usize>)
        requires
            y * 2 > usize::MAX || y * 2 + 2 <= usize::MAX,
        ensures
            r == (if 2 * y + 2 <= buffer@.len() {
                Some(line_start(buffer@, y as int) as usize)
            } else {
                None::<usize>
            }),
    {
        let n = buffer.len();
        let table = match y.checked_mul(2) {
            Some(t) => t,
            None => return None,
        };
        if table + 2 > n {
            return None;
        }
        let word = crate::bytes::be16(buffer, table);
        Some(word as usize * 2)
    }

    /// Paints line `y` in mode 1: a palette index per byte.
    fn render_packed(
        video: &mut VideoBuffer,
        frame: &Vec<u8>,
        palette: &[u16; 256],
        bitmap_mode: u16,
        screen_shift: u16,
        base: &[u8],
        y: usize,
        cursor: usize,
    )
        requires
            old(video).wf(),
            old(video).width == MARS_WIDTH,
            old(video).height == MARS_HEIGHT,
            y < MARS_HEIGHT,
            frame@.len() == FRAMEBUFFER_SIZE,
            base@.len() >= 4 * picture_pixels(),
            bitmap_mode % 4 == 1,
            cursor == line_start(frame@, y as int),
        ensures
            final(video).wf(),
            final(video).width == MARS_WIDTH,
            final(video).height == MARS_HEIGHT,
            row_progress(
                final(video).pixels@,
                old(video).pixels@,
                bitmap_of(frame@, palette@, bitmap_mode, screen_shift),
                base@,
                y as int,
                MARS_WIDTH as int,
            ),
    {
        let ghost bm = bitmap_of(frame@, palette@, bitmap_mode, screen_shift);
        let shift = (screen_shift % 2) as usize;
        let mut x: usize = 0;
        while x < 320
            invariant
                video.wf(),
                video.width == MARS_WIDTH,
                video.height == MARS_HEIGHT,
                y < MARS_HEIGHT,
                x <= MARS_WIDTH,
                frame@.len() == FRAMEBUFFER_SIZE,
                base@.len() >= 4 * picture_pixels(),
                bitmap_mode % 4 == 1,
                cursor == line_start(frame@, y as int),
                shift == screen_shift % 2,
                bm == bitmap_of(frame@, palette@, bitmap_mode, screen_shift),
                row_progress(video.pixels@, old(video).pixels@, bm, base@, y as int, x as int),
            decreases 320 - x,
        {
            let i = cursor + x + shift;
            let index: u8 = if i < frame.len() { frame[i] } else { 0 };
            let color = palette[index as usize];
            let ghost prev = video.pixels@;
            Self::overlay_pixel(video, bitmap_mode, base, x, y, color);
            proof {
                lemma_row_step(prev, video.pixels@, old(video).pixels@, bm, base@, x as int, y as int, color);
            }
            x = x + 1;
        }
    }

    /// Paints line `y` in mode 2: a direct color per word.
    fn render_direct(
        video: &mut VideoBuffer,
        frame: &Vec<u8>,
        palette: &[u16; 256],
        bitmap_mode: u16,
        screen_shift: u16,
        base: &[u8],
        y: usize,
        cursor: usize,
    )
        requires
            old(video).wf(),
            old(video).width == MARS_WIDTH,
            old(video).height == MARS_HEIGHT,
            y < MARS_HEIGHT,
            frame@.len() == FRAMEBUFFER_SIZE,
            base@.len() >= 4 * picture_pixels(),
            bitmap_mode % 4 == 2,
            cursor == line_start(frame@, y as int),
        ensures
            final(video).wf(),
            final(video).width == MARS_WIDTH,
            final(video).height == MARS_HEIGHT,
            row_progress(
                final(video).pixels@,
                old(video).pixels@,
                bitmap_of(frame@, palette@, bitmap_mode, screen_shift),
                base@,
                y as int,
                MARS_WIDTH as int,
            ),
    {
        let ghost bm = bitmap_of(frame@, palette@, bitmap_mode, screen_shift);
        let mut at = cursor;
        let mut x: usize = 0;
        while x < 320 && at + 2 <= frame.len()
            invariant
                video.wf(),
                video.width == MARS_WIDTH,
                video.height == MARS_HEIGHT,
                y < MARS_HEIGHT,
                x <= MARS_WIDTH,
                at == cursor + 2 * x,
                cursor <= 0x1_fffe,
                frame@.len() == FRAMEBUFFER_SIZE,
                base@.len() >= 4 * picture_pixels(),
                bitmap_mode % 4 == 2,
                cursor == line_start(frame@, y as int),
                bm == bitmap_of(frame@, palette@, bitmap_mode, screen_shift),
                row_progress(video.pixels@, old(video).pixels@, bm, base@, y as int, x as int),
            decreases 320 - x,
        {
            let color = crate::bytes::be16(frame.as_slice(), at);
            let ghost prev = video.pixels@;
            Self::overlay_pixel(video, bitmap_mode, base, x, y, color);
            proof {
                lemma_row_step(prev, video.pixels@, old(video).pixels@, bm, base@, x as int, y as int, color);
            }
            at = at + 2;
            x = x + 1;
        }
        proof {
            lemma_row_rest(video.pixels@, old(video).pixels@, bm, base@, x as int, y as int);
        }
    }

    /// Paints line `y` in mode 3: runs of (length - 1, palette index).
    fn render_runs(
        video: &mut VideoBuffer,
        frame: &Vec<u8>,
        palette: &[u16; 256],
        bitmap_mode: u16,
        screen_shift: u16,
        base: &[u8],
        y: usize,
        cursor: usize,
    )
        requires
            old(video).wf(),
            old(video).width == MARS_WIDTH,
            old(video).height == MARS_HEIGHT,
            y < MARS_HEIGHT,
            frame@.len() == FRAMEBUFFER_SIZE,
            base@.len() >= 4 * picture_pixels(),
            bitmap_mode % 4 == 3,
            cursor == line_start(frame@, y as int),
        ensures
            final(video).wf(),
            final(video).width == MARS_WIDTH,
            final(video).height == MARS_HEIGHT,
            row_progress(
                final(video).pixels@,
                old(video).pixels@,
                bitmap_of(frame@, palette@, bitmap_mode, screen_shift),
                base@,
                y as int,
                MARS_WIDTH as int,
            ),
    {
        let ghost bm = bitmap_of(frame@, palette@, bitmap_mode, screen_shift);
        let mut at = cursor;
        let mut x: usize = 0;
        while x < 320 && at + 2 <= frame.len()
            invariant
                video.wf(),
                video.width == MARS_WIDTH,
                video.height == MARS_HEIGHT,
                y < MARS_HEIGHT,
                x <= MARS_WIDTH + 0x100,
                at <= FRAMEBUFFER_SIZE + 0x1_0000,
                frame@.len() == FRAMEBUFFER_SIZE,
                base@.len() >= 4 * picture_pixels(),
                bitmap_mode % 4 == 3,
                cursor == line_start(frame@, y as int),
                bm == bitmap_of(frame@, palette@, bitmap_mode, screen_shift),
                forall|x2: int| #![trigger rle_index(frame@, cursor as int, 0, x2)]
                    x <= x2 ==> rle_index(frame@, cursor as int, 0, x2) == rle_index(frame@, at as int, x as int, x2),
                row_progress(video.pixels@, old(video).pixels@, bm, base@, y as int, if x < MARS_WIDTH { x as int } else { MARS_WIDTH as int }),
            decreases MARS_WIDTH + 0x100 - x,
        {
            let run = frame[at] as usize + 1;
            let index = frame[at + 1];
            let color = palette[index as usize];
            let ghost run_at = at as int;
            let end = if x + run < 320 { x + run } else { 320 };
            let mut px = x;
            while px < end
                invariant
                    video.wf(),
                    video.width == MARS_WIDTH,
                    video.height == MARS_HEIGHT,
                    y < MARS_HEIGHT,
                    x <= px <= end <= MARS_WIDTH,
                    end <= x + run,
                    run == frame@[run_at] + 1,
                    index == frame@[run_at + 1],
                    color == palette@[index as int],
                    base@.len() >= 4 * picture_pixels(),
                    cursor == line_start(frame@, y as int),
                    bm == bitmap_of(frame@, palette@, bitmap_mode, screen_shift),
                    bitmap_mode % 4 == 3,
                    forall|x2: int| #![trigger rle_index(frame@, cursor as int, 0, x2)]
                        x <= x2 < x + run ==> rle_index(frame@, cursor as int, 0, x2) == Some(index),
                    row_progress(video.pixels@, old(video).pixels@, bm, base@, y as int, px as int),
                decreases end - px,
            {
                let ghost prev = video.pixels@;
                assert(rle_index(frame@, cursor as int, 0, px as int) == Some(index));
                Self::overlay_pixel(video, bitmap_mode, base, px, y, color);
                proof {
                    lemma_row_step(prev, video.pixels@, old(video).pixels@, bm, base@, px as int, y as int, color);
                }
                px = px + 1;
            }
            at = at + 2;
            x = x + run;
        }
        proof {
            assert forall|x2: int| (if x < MARS_WIDTH { x as int } else { MARS_WIDTH as int }) <= x2 < MARS_WIDTH implies #[trigger] bm.color(x2, y as int) is None by {
                assert(rle_index(frame@, cursor as int, 0, x2) == rle_index(frame@, at as int, x as int, x2));
            }
            lemma_row_rest(
                video.pixels@,
                old(video).pixels@,
                bm,
                base@,
                if x < MARS_WIDTH { x as int } else { MARS_WIDTH as int },
                y as int,
            );
        }
    }

    /// Copies the Genesis picture into the 32X picture.
    fn copy_pixels(video: &mut VideoBuffer, source: &[u8])
        requires
            old(video).wf(),
            source@.len() == old(video).pixels@.len(),
        ensures
            final(video).wf(),
            final(video).width == old(video).width,
            final(video).height == old(video).height,
            final(video).pixels@ == source@,
    {
        let n = source.len();
        let mut i: usize = 0;
        while i < n
            invariant
                n == source@.len(),
                i <= n,
                video.pixels@.len() == n,
                video.width == old(video).width,
                video.height == old(video).height,
                old(video).wf(),
                n == old(video).pixels@.len(),
                forall|k: int| 0 <= k < i ==> video.pixels@[k] == source@[k],
            decreases n - i,
        {
            video.pixels.set(i, source[i]);
            i = i + 1;
        }
        assert(video.pixels@ =~= source@);
    }

    /// Draws the 32X picture: the Genesis picture `base` (black when its
    /// size differs), with the displayed framebuffer laid over it as the
    /// bitmap mode says.
    pub fn render(&mut self, base: &VideoBuffer)
        requires
            old(self).wf(),
            old(self).bitmap_mode % 4 != 0 ==> base.pixels@.len() >= 4 * picture_pixels(),
        ensures
            final(self).wf(),
            final(self)@ == (MarsView { video: final(self)@.video, ..old(self)@ }),
            forall|x: int, y: int|
                0 <= x < MARS_WIDTH && 0 <= y < MARS_HEIGHT ==> match #[trigger] old(self)@.bitmap().painted(
                    base.pixels@,
                    x,
                    y,
                ) {
                    Some(c) => shows(final(self)@.video, pix(x, y), c),
                    None => if base.pixels@.len() == 4 * picture_pixels() {
                        same_pixel(final(self)@.video, base.pixels@, pix(x, y))
                    } else {
                        shows(final(self)@.video, pix(x, y), Rgba { r: 0, g: 0, b: 0, a: 255 })
                    },
                },
    {
        let source = base.pixels();
        if source.len() == self.video.pixels.len() {
            Self::copy_pixels(&mut self.video, source);
        } else {
            self.video.clear(Rgba { r: 0, g: 0, b: 0, a: 255 });
        }
        let ghost start = self.video.pixels@;
        let ghost copied = source@.len() == 4 * picture_pixels();
        assert(copied ==> start == base.pixels@);
        assert(!copied ==> forall|p: int| 0 <= p < picture_pixels() ==> shows(start, p, Rgba { r: 0, g: 0, b: 0, a: 255 }));
        let ghost bm = old(self)@.bitmap();
        let mode = self.bitmap_mode % 4;
        if mode == 0 {
            proof {
                assert forall|x: int, y: int| 0 <= x < MARS_WIDTH && 0 <= y < MARS_HEIGHT implies #[trigger] bm.painted(base.pixels@, x, y) is None by {}
            }
            return;
        }
        let frame = &self.framebuffers[self.display_buffer];
        let mut y: usize = 0;
        while y < 224
            invariant
                self.wf(),
                y <= MARS_HEIGHT,
                mode == self.bitmap_mode % 4,
                mode != 0,
                base.pixels@.len() >= 4 * picture_pixels(),
                source@ == base.pixels@,
                *frame == self.framebuffers@[self.display_buffer as int],
                bm == bitmap_of(frame@, self.palette@, self.bitmap_mode, self.screen_shift),
                self@ == (MarsView { video: self@.video, ..old(self)@ }),
                picture_progress(self.video.pixels@, start, bm, base.pixels@, y as int),
            decreases 224 - y,
        {
            let cursor = crate::bytes::be16(frame.as_slice(), 2 * y) as usize * 2;
            let ghost prev = self.video.pixels@;
            if mode == 1 {
                Self::render_packed(&mut self.video, frame, &self.palette, self.bitmap_mode, self.screen_shift, source, y, cursor);
            } else if mode == 2 {
                Self::render_direct(&mut self.video, frame, &self.palette, self.bitmap_mode, self.screen_shift, source, y, cursor);
            } else {
                Self::render_runs(&mut self.video, frame, &self.palette, self.bitmap_mode, self.screen_shift, source, y, cursor);
            }
            proof {
                lemma_picture_step(prev, self.video.pixels@, start, bm, base.pixels@, y as int);
            }
            y = y + 1;
        }
        proof {
            assert forall|x: int, y: int| 0 <= x < MARS_WIDTH && 0 <= y < MARS_HEIGHT implies match #[trigger] old(self)@.bitmap().painted(
                base.pixels@,
                x,
                y,
            ) {
                Some(c) => shows(self@.video, pix(x, y), c),
                None => if base.pixels@.len() == 4 * picture_pixels() {
                    same_pixel(self@.video, base.pixels@, pix(x, y))
                } else {
                    shows(self@.video, pix(x, y), Rgba { r: 0, g: 0, b: 0, a: 255 })
                },
            } by {
                lemma_pix(x, y);
                assert(painted_at(self.video.pixels@, start, bm, base.pixels@, x, y));
                if bm.painted(base.pixels@, x, y) is None {
                    assert(same_pixel(self.video.pixels@, start, pix(x, y)));
                    if copied {
                        assert(same_pixel(self.video.pixels@, base.pixels@, pix(x, y)));
                    } else {
                        assert(shows(start, pix(x, y), Rgba { r: 0, g: 0, b: 0, a: 255 }));
                    }
                }
            }
        }
    }
}

} // verus!
