//! Fitting an image to a region measured in terminal cells.
use vstd::prelude::*;

use crate::config::TerminalSize;
use crate::raster::{byte_len, Image};
use crate::scale::{
    at_least_one, fit_size, sampling_fits, thumbnail, thumbnail_exact, thumbnail_exact_of,
    SAMPLE_LIMIT,
};
use vstd::arithmetic::div_mod::{lemma_div_by_multiple, lemma_div_is_ordered};
use vstd::arithmetic::mul::{lemma_mul_inequality, lemma_mul_strict_inequality};

verus! {

/// The lesser of `a` and `b`.
pub open spec fn smaller(a: int, b: int) -> int {
    if a <= b {
        a
    } else {
        b
    }
}

/// Rows of the viewport left for the image: one is kept free for whatever
/// the terminal prints next.
pub open spec fn usable_rows(term: TerminalSize) -> int {
    if term.rows == 0 {
        0
    } else {
        term.rows - 1
    }
}

/// The pixel box that an `iw` x `ih` image is fitted into when at most one
/// of the target sides is given. A side is never bounded above the image's
/// own, so fitting only ever shrinks.
pub open spec fn fit_bounds(
    iw: int,
    ih: int,
    width: Option<u32>,
    height: Option<u32>,
    term: TerminalSize,
) -> (int, int) {
    match (width, height) {
        (Some(w), _) => (smaller(iw, w as int), ih),
        (None, Some(h)) => (iw, smaller(ih, 2 * h)),
        (None, None) => (smaller(iw, term.columns as int), smaller(ih, 2 * usable_rows(term))),
    }
}

/// Size and bytes of a `w` x `h` grid fitted to the target. Two given sides
/// scale it exactly, unless it has no pixels, when it stays as it is.
/// Otherwise its sides are bounded by [`fit_bounds`]: a grid without pixels,
/// or one that already fits, keeps its bytes; any other is scaled down to
/// [`fit_size`].
pub open spec fn resized(
    w: u32,
    h: u32,
    data: Seq<u8>,
    width: Option<u32>,
    height: Option<u32>,
    term: TerminalSize,
) -> (u32, u32, Seq<u8>) {
    match (width, height) {
        (Some(a), Some(b)) => if w == 0 || h == 0 {
            (w, h, data)
        } else {
            (a, (2 * b) as u32, thumbnail_exact_of(w, h, data, a, (2 * b) as u32))
        },
        _ => {
            let bounds = fit_bounds(w as int, h as int, width, height, term);
            if w == 0 || h == 0 || (bounds.0 == w && bounds.1 == h) {
                (bounds.0 as u32, bounds.1 as u32, data)
            } else {
                let size = fit_size(w as int, h as int, bounds.0, bounds.1);
                (size.0 as u32, size.1 as u32, thumbnail_exact_of(w, h, data, size.0 as u32, size.1 as u32))
            }
        },
    }
}

/// `resize` can serve the request without exceeding what the scaler can
/// hold: the exact target's bytes fit in memory and its height in a `u32`,
/// and no output pixel sums more source pixels than the sampler allows.
/// A grid without pixels is never scaled.
pub open spec fn can_resize(
    w: u32,
    h: u32,
    width: Option<u32>,
    height: Option<u32>,
    term: TerminalSize,
) -> bool {
    if w == 0 || h == 0 {
        true
    } else {
        match (width, height) {
            (Some(a), Some(b)) => 2 * b <= u32::MAX && byte_len(a as int, 2 * b) <= usize::MAX
                && sampling_fits(w as int, h as int, a as int, 2 * b),
            _ => {
                let bounds = fit_bounds(w as int, h as int, width, height, term);
                let size = fit_size(w as int, h as int, bounds.0, bounds.1);
                (bounds.0 == w && bounds.1 == h) || sampling_fits(w as int, h as int, size.0, size.1)
            },
        }
    }
}

/// An `ow` x `oh` result keeps the shape of an `iw` x `ih` source: one side
/// is the other scaled by the source's ratio, rounded down but not to zero.
pub open spec fn kept_aspect(iw: int, ih: int, ow: int, oh: int) -> bool {
    oh == at_least_one(ih * ow / iw) || ow == at_least_one(iw * oh / ih)
}

/// An `iw` x `ih` image already meets the request, so resizing keeps its size.
pub open spec fn meets_target(
    iw: int,
    ih: int,
    width: Option<u32>,
    height: Option<u32>,
    term: TerminalSize,
) -> bool {
    match (width, height) {
        (Some(w), Some(h)) => iw == w && ih == 2 * h,
        (Some(w), None) => 1 <= iw <= w,
        (None, Some(h)) => 1 <= ih <= 2 * h,
        (None, None) => 1 <= iw <= term.columns && 1 <= ih <= 2 * usable_rows(term),
    }
}

/// `a / d` stays within `b` when `a` does within `d * b`.
proof fn lemma_div_within(a: int, b: int, d: int)
    requires
        0 <= b,
        0 < d,
        a <= b * d,
    ensures
        a / d <= b,
{
    lemma_div_is_ordered(a, b * d, d);
    lemma_div_by_multiple(b, d);
}

/// Fitting into bounds no larger than the image stays within those bounds,
/// and leaves the image's size alone when the bounds are that size.
proof fn lemma_fit_size_within(w: int, h: int, bw: int, bh: int)
    requires
        0 < w,
        0 < h,
        1 <= bw <= w,
        1 <= bh <= h,
    ensures
        1 <= fit_size(w, h, bw, bh).0 <= bw,
        1 <= fit_size(w, h, bw, bh).1 <= bh,
        bw == w && bh == h ==> fit_size(w, h, bw, bh) == (w, h),
{
    if bw * h <= w * bh {
        assert(h * bw <= bh * w);
        lemma_div_within(h * bw, bh, w);
        if bw == w {
            assert(h * w / w == h) by {
                lemma_div_by_multiple(h, w);
            }
        }
    } else {
        assert(w * bh <= bw * h);
        lemma_div_within(w * bh, bw, h);
    }
}

/// Resizing is idempotent: resizing the result again with the same request
/// keeps its size. Bounds of zero cells, and a terminal with no column or
/// fewer than two rows, leave no room to fit into and are left out.
pub proof fn lemma_resize_twice(
    w: u32,
    h: u32,
    data: Seq<u8>,
    width: Option<u32>,
    height: Option<u32>,
    term: TerminalSize,
)
    requires
        width matches Some(a) ==> a >= 1,
        height matches Some(b) ==> 1 <= b && 2 * b <= u32::MAX,
        width is None && height is None ==> term.columns >= 1 && term.rows >= 2,
    ensures
        ({
            let first = resized(w, h, data, width, height, term);
            let second = resized(first.0, first.1, first.2, width, height, term);
            second.0 == first.0 && second.1 == first.1
        }),
{
    if w != 0 && h != 0 && !(width is Some && height is Some) {
        let bounds = fit_bounds(w as int, h as int, width, height, term);
        if !(bounds.0 == w && bounds.1 == h) {
            lemma_fit_size_within(w as int, h as int, bounds.0, bounds.1);
        }
    }
}

fn fit_bounds_exec(
    iw: u32,
    ih: u32,
    width: Option<u32>,
    height: Option<u32>,
    terminal: TerminalSize,
) -> (r: (u32, u32))
    ensures
        r.0 == fit_bounds(iw as int, ih as int, width, height, terminal).0,
        r.1 == fit_bounds(iw as int, ih as int, width, height, terminal).1,
{
    match (width, height) {
        (Some(w), _) => (if w < iw {
            w
        } else {
            iw
        }, ih),
        (None, Some(h)) => (iw, if (h as u64) * 2 < ih as u64 {
            2 * h
        } else {
            ih
        }),
        (None, None) => {
            let cols = terminal.columns as u32;
            let rows: u32 = if terminal.rows == 0 {
                0
            } else {
                (terminal.rows - 1) as u32
            };
            (if cols < iw {
                cols
            } else {
                iw
            }, if 2 * rows < ih {
                2 * rows
            } else {
                ih
            })
        },
    }
}

proof fn lemma_u32_product(a: u32, b: u32)
    ensures
        0 <= (a as int) * (b as int) <= u32::MAX as int * u32::MAX as int,
        (a as int) * (b as int) <= u64::MAX,
{
    assert(0 <= (a as int) * (b as int) <= u32::MAX as int * u32::MAX as int) by (nonlinear_arith)
        requires
            a <= u32::MAX,
            b <= u32::MAX,
            0 <= a,
            0 <= b,
    ;
}

fn fit_size_exec(w: u32, h: u32, bw: u32, bh: u32) -> (r: (u32, u32))
    requires
        0 < w,
        0 < h,
        bw <= w,
        bh <= h,
    ensures
        (r.0 as int, r.1 as int) == fit_size(w as int, h as int, bw as int, bh as int),
{
    proof {
        lemma_u32_product(bw, h);
        lemma_u32_product(w, bh);
        lemma_u32_product(h, bw);
    }
    if (bw as u64) * (h as u64) <= (w as u64) * (bh as u64) {
        proof {
            lemma_mul_inequality(bw as int, w as int, h as int);
            lemma_div_within(h * bw, h as int, w as int);
        }
        let t: u64 = (h as u64) * (bw as u64) / (w as u64);
        (bw, if t < 1 {
            1
        } else {
            t as u32
        })
    } else {
        proof {
            lemma_mul_inequality(bh as int, h as int, w as int);
            lemma_div_within(w * bh, w as int, h as int);
        }
        let t: u64 = (w as u64) * (bh as u64) / (h as u64);
        (if t < 1 {
            1
        } else {
            t as u32
        }, bh)
    }
}

fn sampling_fits_exec(w: u32, h: u32, ow: u32, oh: u32) -> (r: bool)
    ensures
        r == sampling_fits(w as int, h as int, ow as int, oh as int),
{
    if ow == 0 || oh == 0 {
        return true;
    }
    proof {
        lemma_u32_product(w, h);
    }
    if (w as u64) * (h as u64) <= SAMPLE_LIMIT {
        return true;
    }
    if w >= 0x40_0000 || h >= 0x40_0000 {
        return false;
    }
    let a: u64 = (w / ow) as u64 + 2;
    let b: u64 = (h / oh) as u64 + 2;
    assert(a * b <= 0x40_0002 * 0x40_0002) by (nonlinear_arith)
        requires
            a <= 0x40_0002,
            b <= 0x40_0002,
            0 <= a,
            0 <= b,
    ;
    a * b <= SAMPLE_LIMIT
}

/// Whether [`resize`] can serve this request for `img`; see [`can_resize`].
pub fn resizable(img: &Image, width: Option<u32>, height: Option<u32>, terminal: TerminalSize) -> (r:
    bool)
    ensures
        r == can_resize(img.width, img.height, width, height, terminal),
{
    let iw = img.width;
    let ih = img.height;
    if iw == 0 || ih == 0 {
        return true;
    }
    match (width, height) {
        (Some(w), Some(h)) => {
            if (h as u64) * 2 > u32::MAX as u64 {
                return false;
            }
            let rows: u32 = 2 * h;
            proof {
                lemma_u32_product(w, rows);
            }
            let bytes: u128 = 4 * ((w as u128) * (rows as u128));
            bytes <= usize::MAX as u128 && sampling_fits_exec(iw, ih, w, rows)
        },
        _ => {
            let (bw, bh) = fit_bounds_exec(iw, ih, width, height, terminal);
            let (ow, oh) = fit_size_exec(iw, ih, bw, bh);
            (bw == iw && bh == ih) || sampling_fits_exec(iw, ih, ow, oh)
        },
    }
}

/// Fits `img` to a target given in cells; one cell holds two rows of pixels.
///
/// - No side given: the image is fitted into the terminal, less one row,
///   keeping its aspect ratio.
/// - One side given: the image is fitted within that side, keeping its
///   aspect ratio.
/// - Both given: the image is scaled to exactly that size, up or down.
///
/// Fitting only shrinks: an image that already fits is returned as it is. An
/// image without pixels is never scaled: fitting only bounds its sides, and
/// an exact target leaves it as it is. The request must be one that the
/// scaler can serve ([`can_resize`]; [`resizable`] tests it).
pub fn resize(img: &Image, width: Option<u32>, height: Option<u32>, terminal: TerminalSize) -> (r:
    Image)
    requires
        img.wf(),
        can_resize(img.width, img.height, width, height, terminal),
    ensures
        r.wf(),
        (r.width, r.height, r.data@) == resized(
            img.width,
            img.height,
            img.data@,
            width,
            height,
            terminal,
        ),
        // scaled exactly
        (width, height) matches (Some(w), Some(h)) ==> (!img.is_empty_spec() ==> r.width == w
            && r.height == 2 * h),
        // fitted into the terminal
        width is None && height is None && terminal.columns >= 1 && terminal.rows >= 2 ==> r.width
            <= terminal.columns && r.height <= 2 * (terminal.rows - 1),
        // fitted to a width
        (width, height) matches (Some(w), None) ==> (w >= 1 ==> if img.width > w {
            &&& r.width == w
            &&& img.height == 0 ==> r.height == 0
            &&& img.height > 0 ==> r.height == at_least_one(img.height * w / img.width as int)
        } else {
            r.width == img.width && r.height == img.height && r.data@ == img.data@
        }),
        // fitted to a height
        (width, height) matches (None, Some(h)) ==> (h >= 1 ==> if img.height > 2 * h {
            &&& r.height == 2 * h
            &&& img.width == 0 ==> r.width == 0
            &&& img.width > 0 ==> r.width == at_least_one(img.width * (2 * h) / img.height as int)
        } else {
            r.width == img.width && r.height == img.height && r.data@ == img.data@
        }),
        // fitted keeping the aspect ratio
        !img.is_empty_spec() && !(width is Some && height is Some) ==> kept_aspect(
            img.width as int,
            img.height as int,
            r.width as int,
            r.height as int,
        ),
        // an image that already fits is kept as it is
        !(width is Some && height is Some) && fit_bounds(
            img.width as int,
            img.height as int,
            width,
            height,
            terminal,
        ) == (img.width as int, img.height as int) ==> r.data@ == img.data@,
        meets_target(img.width as int, img.height as int, width, height, terminal) ==> r.width
            == img.width && r.height == img.height,
{
    let iw = img.width;
    let ih = img.height;
    match (width, height) {
        (Some(w), Some(h)) => {
            if img.is_empty() {
                Image { width: iw, height: ih, data: img.data.clone() }
            } else {
                thumbnail_exact(img, w, 2 * h)
            }
        },
        _ => {
            let (bw, bh) = fit_bounds_exec(iw, ih, width, height, terminal);
            if img.is_empty() || (bw == iw && bh == ih) {
                proof {
                    if !img.is_empty_spec() {
                        lemma_div_by_multiple(ih as int, iw as int);
                    }
                    assert(byte_len(bw as int, bh as int) == byte_len(iw as int, ih as int));
                }
                Image { width: bw, height: bh, data: img.data.clone() }
            } else {
                proof {
                    if 1 <= bw && 1 <= bh {
                        lemma_fit_size_within(iw as int, ih as int, bw as int, bh as int);
                    }
                    if bw < iw {
                        lemma_mul_inequality(bw as int, iw as int, ih as int);
                    }
                    if bh < ih {
                        lemma_mul_strict_inequality(bh as int, ih as int, iw as int);
                    }
                }
                thumbnail(img, bw, bh)
            }
        },
    }
}

} // verus!
