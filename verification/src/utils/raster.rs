//! The order of a render: which pixel is shaded and written next, and when the
//! render ends.
//!
//! A render visits the pixels row by row from the top, each row from the
//! left. The caller shades and writes the pixel it is handed and reports back
//! whether the write went through; after a failed write no pixel is handed
//! out any more.

use crate::utils::image::{body_line_count, body_text, file_line_count, file_text, line_count, Rgb};
use vstd::prelude::*;

verus! {

/// The number of pixels of an image.
pub open spec fn pixel_count(width: u32, height: u32) -> nat {
    (width as nat) * (height as nat)
}

/// The pixel that is visited as number `k`, counted from zero: its column,
/// then its row.
pub open spec fn pixel_at(width: u32, k: nat) -> (u32, u32) {
    ((k % (width as nat)) as u32, (k / (width as nat)) as u32)
}

/// Every pixel of the image is visited, and row after row: the pixel in
/// column `i` of row `j` has number `j * width + i`.
pub proof fn every_pixel_is_visited(width: u32, height: u32, i: u32, j: u32)
    requires
        i < width,
        j < height,
    ensures
        j * width + i < pixel_count(width, height),
        pixel_at(width, (j * width + i) as nat) == (i, j),
{
    let w = width as int;
    let k = j * w + i;
    assert(k < w * (height as int)) by (nonlinear_arith)
        requires
            k == j * w + i,
            0 <= i < w,
            0 <= j < height,
    ;
    assert(k / w == j && k % w == i) by {
        vstd::arithmetic::div_mod::lemma_fundamental_div_mod_converse(k, w, j as int, i as int);
    }
}

/// Only pixels of the image are visited, and none twice: the pixel with
/// number `k` lies inside the image, and its column and row give `k` back.
pub proof fn only_pixels_are_visited(width: u32, height: u32, k: nat)
    requires
        k < pixel_count(width, height),
    ensures
        pixel_at(width, k).0 < width,
        pixel_at(width, k).1 < height,
        k == pixel_at(width, k).1 * width + pixel_at(width, k).0,
{
    let w = width as int;
    let h = height as int;
    assert(w > 0) by (nonlinear_arith)
        requires
            0 <= k < w * h,
            0 <= w,
    ;
    vstd::arithmetic::div_mod::lemma_fundamental_div_mod(k as int, w);
    vstd::arithmetic::div_mod::lemma_mod_bound(k as int, w);
    let q = (k as int) / w;
    let r = (k as int) % w;
    assert(0 <= q < h) by (nonlinear_arith)
        requires
            k == w * q + r,
            0 <= r < w,
            0 <= k < w * h,
    ;
    assert(w * q == q * w) by (nonlinear_arith);
}

/// Where a render stands, to its callers.
pub struct RasterView {
    /// The width of the image in pixels.
    pub width: u32,
    /// The height of the image in pixels.
    pub height: u32,
    /// The number of pixels handed out so far.
    pub visited: nat,
    /// Whether a write has failed.
    pub stopped: bool,
}

impl RasterView {
    /// A render of an image of the given size, before its first pixel.
    pub open spec fn start(width: u32, height: u32) -> RasterView {
        RasterView { width, height, visited: 0, stopped: false }
    }

    /// The pixel to shade next, if any, when the caller reports `written` of
    /// the pixel before it. None is left once a write has failed or all
    /// pixels have been visited.
    pub open spec fn upcoming(self, written: bool) -> Option<(u32, u32)> {
        if !self.stopped && written && self.visited < pixel_count(self.width, self.height) {
            Some(pixel_at(self.width, self.visited))
        } else {
            None
        }
    }

    /// Where the render stands after that report.
    pub open spec fn step(self, written: bool) -> RasterView {
        if self.stopped || !written {
            RasterView { stopped: true, ..self }
        } else if self.visited < pixel_count(self.width, self.height) {
            RasterView { visited: self.visited + 1, ..self }
        } else {
            self
        }
    }

    /// Where the render stands after `n` more reports of a write that went
    /// through.
    pub open spec fn after(self, n: nat) -> RasterView
        decreases n,
    {
        if n == 0 {
            self
        } else {
            self.after((n - 1) as nat).step(true)
        }
    }
}

/// A render in progress.
pub struct Raster {
    width: u32,
    height: u32,
    next: u64,
    stopped: bool,
}

impl View for Raster {
    type V = RasterView;

    closed spec fn view(&self) -> RasterView {
        RasterView {
            width: self.width,
            height: self.height,
            visited: self.next as nat,
            stopped: self.stopped,
        }
    }
}

impl Raster {
    /// Starts the render of an image of the given size.
    pub fn new(width: u32, height: u32) -> (raster: Raster)
        ensures
            raster@ == RasterView::start(width, height),
    {
        Raster { width, height, next: 0, stopped: false }
    }

    /// Hands out the next pixel to shade and write, as column and row.
    /// `written` tells whether the pixel handed out before was written; before
    /// the first pixel it is `true`.
    pub fn next_pixel(&mut self, written: bool) -> (pixel: Option<(u32, u32)>)
        ensures
            pixel == old(self)@.upcoming(written),
            final(self)@ == old(self)@.step(written),
    {
        if self.stopped || !written {
            self.stopped = true;
            return None;
        }
        let width: u64 = self.width as u64;
        let height: u64 = self.height as u64;
        assert(width * height <= 0xffff_ffff * 0xffff_ffff) by (nonlinear_arith)
            requires
                width <= 0xffff_ffff,
                height <= 0xffff_ffff,
        ;
        if self.next < width * height {
            proof {
                only_pixels_are_visited(self.width, self.height, self.next as nat);
            }
            let column: u32 = (self.next % width) as u32;
            let row: u32 = (self.next / width) as u32;
            self.next = self.next + 1;
            Some((column, row))
        } else {
            None
        }
    }
}

/// A render that no failed write cuts short hands out every pixel of the
/// image once, in order, and then ends: its report number `k` is answered
/// with pixel number `k`, and the one after the last pixel with none.
pub proof fn complete_render_visits_all(width: u32, height: u32, k: nat)
    requires
        k <= pixel_count(width, height),
    ensures
        RasterView::start(width, height).after(k) == (RasterView {
            visited: k,
            ..RasterView::start(width, height)
        }),
        RasterView::start(width, height).after(k).upcoming(true) == if k < pixel_count(
            width,
            height,
        ) {
            Some(pixel_at(width, k))
        } else {
            None
        },
    decreases k,
{
    if k > 0 {
        complete_render_visits_all(width, height, (k - 1) as nat);
    }
}

/// A failed write ends the render for good: nothing is handed out with the
/// report of the failure, and nothing after it, whatever is reported then.
pub proof fn failed_write_ends_render(state: RasterView, later: bool)
    ensures
        state.upcoming(false) is None,
        state.step(false).stopped,
        state.step(false).upcoming(later) is None,
        state.step(false).step(later) == state.step(false),
{
}

/// The colours of a complete render, in the order in which they are written,
/// where `shade` gives the colour of the pixel in a column and a row.
pub open spec fn rendered_colors(width: u32, height: u32, shade: spec_fn(u32, u32) -> Rgb) -> Seq<
    Rgb,
> {
    Seq::new(
        pixel_count(width, height),
        |k: int| shade(pixel_at(width, k as nat).0, pixel_at(width, k as nat).1),
    )
}

/// The text of the file that a complete render writes.
pub open spec fn rendered_text(width: u32, height: u32, shade: spec_fn(u32, u32) -> Rgb) -> Seq<
    u8,
> {
    file_text(width, height, rendered_colors(width, height, shade))
}

/// A complete render writes three header lines and then one line for each
/// pixel of the image, whatever colours the pixels get.
pub proof fn render_line_count(width: u32, height: u32, shade: spec_fn(u32, u32) -> Rgb)
    ensures
        line_count(body_text(rendered_colors(width, height, shade))) == width * height,
        line_count(rendered_text(width, height, shade)) == 3 + width * height,
{
    body_line_count(rendered_colors(width, height, shade));
    file_line_count(width, height, rendered_colors(width, height, shade));
}

/// Two complete renders of images of the same size whose pixels get the same
/// colours write the same bytes. Colours outside the image have no part in
/// it.
pub proof fn render_is_repeatable(
    width: u32,
    height: u32,
    first: spec_fn(u32, u32) -> Rgb,
    second: spec_fn(u32, u32) -> Rgb,
)
    requires
        forall|i: u32, j: u32| i < width && j < height ==> #[trigger] first(i, j) == second(i, j),
    ensures
        rendered_text(width, height, first) == rendered_text(width, height, second),
{
    assert forall|k: int| 0 <= k < pixel_count(width, height) implies rendered_colors(
        width,
        height,
        first,
    )[k] == rendered_colors(width, height, second)[k] by {
        only_pixels_are_visited(width, height, k as nat);
    }
    assert(rendered_colors(width, height, first) =~= rendered_colors(width, height, second));
}

} // verus!
