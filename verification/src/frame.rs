//! The in-memory monochrome frame buffer mirrored to the OLED panel.
//!
//! The display has no text-erase primitive, so each iteration clears the
//! drawn region in memory, redraws the text, and transmits the whole buffer
//! in one flush. Glyph rasterization is the font table's business: the
//! library asks embedded-graphics which pixels a string lights and sets
//! exactly those.

use vstd::prelude::*;

use embedded_graphics::drawable::Pixel;
use embedded_graphics::fonts::{Font6x8, Text};
use embedded_graphics::geometry::Point;
use embedded_graphics::pixelcolor::BinaryColor;
use embedded_graphics::style::TextStyleBuilder;

verus! {

/// Width of the panel in pixels.
pub const FRAME_WIDTH: usize = 128;

/// Height of the panel in pixels.
pub const FRAME_HEIGHT: usize = 32;

/// Number of pixels in one frame.
pub const FRAME_PIXELS: usize = 4096;

/// The pixel at column `x`, row `y` lives at this index of a frame's
/// row-major pixel sequence.
pub open spec fn pixel_index(x: int, y: int) -> int {
    y * 128 + x
}

/// True when the coordinate lies on the panel.
pub open spec fn on_panel(x: int, y: int) -> bool {
    0 <= x < 128 && 0 <= y < 32
}

/// One monochrome frame: a row-major pixel sequence, `true` for a lit
/// pixel. Its view is that sequence, always exactly one panel's worth.
pub struct Frame {
    pixels: Vec<bool>,
}

impl View for Frame {
    type V = Seq<bool>;

    closed spec fn view(&self) -> Seq<bool> {
        self.pixels@
    }
}

/// A frame with every pixel off.
pub open spec fn all_off() -> Seq<bool> {
    Seq::new(4096, |i: int| false)
}

/// The frame after every pixel of the half-open rectangle
/// `[x0, x1) x [y0, y1)` is switched off and the rest left alone.
pub open spec fn region_cleared(f: Seq<bool>, x0: int, y0: int, x1: int, y1: int) -> Seq<bool> {
    Seq::new(
        f.len(),
        |i: int|
            if x0 <= i % 128 < x1 && y0 <= i / 128 < y1 {
                false
            } else {
                f[i]
            },
    )
}

/// True when some listed point names the given coordinate.
pub open spec fn covers(pts: Seq<(int, int)>, x: int, y: int) -> bool {
    exists|j: int| 0 <= j < pts.len() && pts[j] == (x, y)
}

/// The frame after every listed on-panel point is lit and the rest left
/// alone.
pub open spec fn points_drawn(f: Seq<bool>, pts: Seq<(int, int)>) -> Seq<bool> {
    Seq::new(
        f.len(),
        |i: int|
            if covers(pts, i % 128, i / 128) {
                true
            } else {
                f[i]
            },
    )
}

/// The pixels that rasterizing a string with the 6x8 font at a top-left
/// coordinate lights, a fixed function of the text and position alone.
pub uninterp spec fn glyph_points(text: Seq<char>, x: int, y: int) -> Seq<(int, int)>;

/// Relies on embedded_graphics' styled-text pixel iterator for the 6x8
/// font: with only a text color set it yields exactly the lit glyph
/// pixels, a deterministic function of the string and position.
#[verifier::external_body]
fn rasterize_text(text: &str, x: i32, y: i32) -> (r: Vec<(i32, i32)>)
    requires
        0 <= x < 128,
        0 <= y < 32,
        text@.len() <= 64,
    ensures
        r@.map_values(|p: (i32, i32)| (p.0 as int, p.1 as int)) == glyph_points(
            text@,
            x as int,
            y as int,
        ),
{
    let style = TextStyleBuilder::new(Font6x8).text_color(BinaryColor::On).build();
    let styled = Text::new(text, Point::new(x, y)).into_styled(style);
    (&styled).into_iter().map(|p: Pixel<BinaryColor>| ((p.0).x, (p.0).y)).collect()
}

impl Frame {
    /// A fresh frame with every pixel off.
    pub fn new() -> (r: Frame)
        ensures
            r@ =~= all_off(),
            r@.len() == 4096,
    {
        let mut pixels: Vec<bool> = Vec::new();
        let mut i: usize = 0;
        while i < FRAME_PIXELS
            invariant
                0 <= i <= 4096,
                pixels@.len() == i,
                forall|k: int| 0 <= k < i ==> !(#[trigger] pixels@[k]),
            decreases 4096 - i,
        {
            pixels.push(false);
            i += 1;
        }
        let r = Frame { pixels };
        assert(r@ =~= all_off());
        r
    }

    /// The pixel at a coordinate.
    pub fn get(&self, x: usize, y: usize) -> (r: bool)
        requires
            on_panel(x as int, y as int),
            self@.len() == 4096,
        ensures
            r == self@[pixel_index(x as int, y as int)],
    {
        self.pixels[y * FRAME_WIDTH + x]
    }

    /// An identical copy of this frame.
    pub fn snapshot(&self) -> (r: Frame)
        ensures
            r@ == self@,
    {
        let mut pixels: Vec<bool> = Vec::new();
        let mut i: usize = 0;
        while i < self.pixels.len()
            invariant
                0 <= i <= self.pixels@.len(),
                pixels@ =~= self.pixels@.take(i as int),
            decreases self.pixels@.len() - i,
        {
            pixels.push(self.pixels[i]);
            assert(pixels@ =~= self.pixels@.take(i as int + 1));
            i += 1;
        }
        assert(pixels@ =~= self.pixels@);
        Frame { pixels }
    }

    /// Switch off every pixel of the half-open rectangle `[x0, x1) x
    /// [y0, y1)`, leaving the rest of the frame alone. Called before each
    /// redraw, because stale glyphs persist until explicitly cleared.
    pub fn clear_region(&mut self, x0: usize, y0: usize, x1: usize, y1: usize)
        requires
            x0 <= x1 <= 128,
            y0 <= y1 <= 32,
            old(self)@.len() == 4096,
        ensures
            final(self)@ =~= region_cleared(
                old(self)@,
                x0 as int,
                y0 as int,
                x1 as int,
                y1 as int,
            ),
            final(self)@.len() == 4096,
    {
        let mut y: usize = y0;
        while y < y1
            invariant
                y0 <= y <= y1 <= 32,
                x0 <= x1 <= 128,
                self@.len() == 4096,
                forall|i: int|
                    0 <= i < 4096 ==> #[trigger] self@[i] == (if x0 <= i % 128 < x1 && y0 <= i
                        / 128 < y {
                        false
                    } else {
                        old(self)@[i]
                    }),
            decreases y1 - y,
        {
            let mut x: usize = x0;
            while x < x1
                invariant
                    y0 <= y < y1 <= 32,
                    x0 <= x <= x1 <= 128,
                    self@.len() == 4096,
                    forall|i: int|
                        0 <= i < 4096 ==> #[trigger] self@[i] == (if (x0 <= i % 128 < x1 && y0 <= i
                            / 128 < y) || (x0 <= i % 128 < x && i / 128 == y) {
                            false
                        } else {
                            old(self)@[i]
                        }),
                decreases x1 - x,
            {
                let idx = y * FRAME_WIDTH + x;
                assert(idx == pixel_index(x as int, y as int));
                assert(idx < 4096);
                self.pixels[idx] = false;
                assert(idx as int % 128 == x as int && idx as int / 128 == y as int);
                x += 1;
            }
            y += 1;
        }
        assert(final(self)@ =~= region_cleared(
            old(self)@,
            x0 as int,
            y0 as int,
            x1 as int,
            y1 as int,
        ));
    }

    /// Light every on-panel point of the list, leaving every other pixel
    /// alone.
    fn draw_points(&mut self, pts: &Vec<(i32, i32)>)
        requires
            old(self)@.len() == 4096,
        ensures
            final(self)@ =~= points_drawn(
                old(self)@,
                pts@.map_values(|p: (i32, i32)| (p.0 as int, p.1 as int)),
            ),
            final(self)@.len() == 4096,
    {
        let ghost gpts = pts@.map_values(|p: (i32, i32)| (p.0 as int, p.1 as int));
        let mut k: usize = 0;
        while k < pts.len()
            invariant
                0 <= k <= pts@.len(),
                gpts == pts@.map_values(|p: (i32, i32)| (p.0 as int, p.1 as int)),
                self@.len() == 4096,
                forall|i: int|
                    0 <= i < 4096 ==> #[trigger] self@[i] == (if covers(
                        gpts.take(k as int),
                        i % 128,
                        i / 128,
                    ) {
                        true
                    } else {
                        old(self)@[i]
                    }),
            decreases pts@.len() - k,
        {
            let (px, py) = pts[k];
            assert(gpts[k as int] == (px as int, py as int));
            if 0 <= px && px < FRAME_WIDTH as i32 && 0 <= py && py < FRAME_HEIGHT as i32 {
                let idx = (py as usize) * FRAME_WIDTH + (px as usize);
                assert(idx < 4096);
                self.pixels[idx] = true;
                assert(idx as int % 128 == px as int && idx as int / 128 == py as int);
            }
            proof {
                assert(gpts.take(k as int + 1) =~= gpts.take(k as int).push(gpts[k as int]));
                assert forall|x: int, y: int|
                    covers(gpts.take(k as int + 1), x, y) <==> (covers(gpts.take(k as int), x, y)
                        || (x, y) == gpts[k as int]) by {
                    let t = gpts.take(k as int + 1);
                    if covers(gpts.take(k as int), x, y) {
                        let j = choose|j: int|
                            0 <= j < gpts.take(k as int).len() && gpts.take(k as int)[j] == (x, y);
                        assert(t[j] == (x, y));
                    }
                    if (x, y) == gpts[k as int] {
                        assert(t[k as int] == (x, y));
                    }
                }
            }
            k += 1;
        }
        assert(gpts.take(gpts.len() as int) =~= gpts);
    }

    /// Rasterize a string at a top-left coordinate with the fixed 6x8
    /// glyphs and light exactly those pixels that fall on the panel.
    pub fn draw_text(&mut self, text: &str, x: i32, y: i32)
        requires
            0 <= x < 128,
            0 <= y < 32,
            text@.len() <= 64,
            old(self)@.len() == 4096,
        ensures
            final(self)@ =~= points_drawn(old(self)@, glyph_points(text@, x as int, y as int)),
            final(self)@.len() == 4096,
    {
        let pts = rasterize_text(text, x, y);
        self.draw_points(&pts);
    }
}

/// A full clear switches every pixel off: clearing the whole panel and
/// flushing, with no draw in between, transmits an all-off frame.
pub proof fn lemma_full_clear_all_off(f: Seq<bool>)
    requires
        f.len() == 4096,
    ensures
        region_cleared(f, 0, 0, 128, 32) =~= all_off(),
{
    let c = region_cleared(f, 0, 0, 128, 32);
    assert forall|i: int| 0 <= i < 4096 implies #[trigger] c[i] == all_off()[i] by {
        assert(0 <= i % 128 < 128);
        assert(0 <= i / 128 < 32);
    }
}

/// Clearing any region of an all-off frame leaves it all off: from boot,
/// clears and flushes alone never light a pixel.
pub proof fn lemma_clear_keeps_all_off(x0: int, y0: int, x1: int, y1: int)
    ensures
        region_cleared(all_off(), x0, y0, x1, y1) =~= all_off(),
{
}

/// Redrawing is independent of prior frame contents: clearing the whole
/// panel and then drawing the same points produces the same frame whatever
/// was on the two frames before, so an identical redraw after a clear
/// yields a byte-identical transmitted frame.
pub proof fn lemma_redraw_reproduces_frame(f1: Seq<bool>, f2: Seq<bool>, pts: Seq<(int, int)>)
    requires
        f1.len() == 4096,
        f2.len() == 4096,
    ensures
        points_drawn(region_cleared(f1, 0, 0, 128, 32), pts) =~= points_drawn(
            region_cleared(f2, 0, 0, 128, 32),
            pts,
        ),
{
    lemma_full_clear_all_off(f1);
    lemma_full_clear_all_off(f2);
}

} // verus!
