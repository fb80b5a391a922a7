//! Scaling through the `image` crate.
use vstd::prelude::*;

use crate::raster::{byte_len, Image};

verus! {

/// `n`, raised to one if it is smaller.
pub open spec fn at_least_one(n: int) -> int {
    if n < 1 {
        1
    } else {
        n
    }
}

/// Size of a `w` x `h` image scaled, keeping its aspect ratio, to the
/// largest size within `(nw, nh)`: the side whose bound is tighter takes the
/// bound and the other is scaled by the same ratio, rounded down, but never
/// to zero.
pub open spec fn fit_size(w: int, h: int, nw: int, nh: int) -> (int, int) {
    if nw * h <= w * nh {
        (nw, at_least_one(h * nw / w))
    } else {
        (at_least_one(w * nh / h), nh)
    }
}

/// Most source pixels whose channels the sampler may add up in one `u32`
/// without overflow: `u32::MAX / 256`, leaving room for the rounding term.
pub const SAMPLE_LIMIT: u64 = 0xff_ffff;

/// Scaling a `w` x `h` grid to `ow` x `oh` adds up no more than
/// [`SAMPLE_LIMIT`] source pixels for one output pixel: the whole grid is that
/// small, or each output pixel covers at most `(w / ow + 2) x (h / oh + 2)`
/// source pixels, which holds while the sides stay small enough (below 2^22)
/// for the sampler's `f32` positions to be off by less than a pixel.
pub open spec fn sampling_fits(w: int, h: int, ow: int, oh: int) -> bool {
    ||| ow == 0
    ||| oh == 0
    ||| w * h <= SAMPLE_LIMIT
    ||| (w < 0x40_0000 && h < 0x40_0000 && (w / ow + 2) * (h / oh + 2) <= SAMPLE_LIMIT)
}

/// Bytes that `DynamicImage::thumbnail_exact` produces from a `w` x `h` RGBA
/// grid for the size `(nw, nh)`.
pub uninterp spec fn thumbnail_exact_of(w: u32, h: u32, data: Seq<u8>, nw: u32, nh: u32) -> Seq<
    u8,
>;

/// Relies on image's `DynamicImage::thumbnail`, which scales the image to
/// exactly the size that `resize_dimensions` picks; for bounds no larger than
/// the image that size is [`fit_size`]. Its sampler adds channels up in a
/// `u32`, which overflows unless [`sampling_fits`] holds of that size.
#[verifier::external_body]
pub(crate) fn thumbnail(img: &Image, nw: u32, nh: u32) -> (r: Image)
    requires
        img.wf(),
        0 < img.width,
        0 < img.height,
        nw <= img.width,
        nh <= img.height,
        sampling_fits(
            img.width as int,
            img.height as int,
            fit_size(img.width as int, img.height as int, nw as int, nh as int).0,
            fit_size(img.width as int, img.height as int, nw as int, nh as int).1,
        ),
    ensures
        (r.width as int, r.height as int) == fit_size(
            img.width as int,
            img.height as int,
            nw as int,
            nh as int,
        ),
        r.data@ == thumbnail_exact_of(img.width, img.height, img.data@, r.width, r.height),
        r.wf(),
{
    let buf = image::RgbaImage::from_raw(img.width, img.height, img.data.clone()).expect(
        "the buffer holds every pixel",
    );
    let out = image::DynamicImage::ImageRgba8(buf).thumbnail(nw, nh).into_rgba8();
    Image { width: out.width(), height: out.height(), data: out.into_raw() }
}

/// Relies on image's `DynamicImage::thumbnail_exact`: it scales the image to
/// exactly `nw` x `nh` pixels, up or down, without keeping the aspect ratio.
/// It reads the last row and column of the source, so that must not be
/// empty, and adds channels up in a `u32`, so [`sampling_fits`] must hold.
#[verifier::external_body]
pub(crate) fn thumbnail_exact(img: &Image, nw: u32, nh: u32) -> (r: Image)
    requires
        img.wf(),
        0 < img.width,
        0 < img.height,
        byte_len(nw as int, nh as int) <= usize::MAX,
        sampling_fits(img.width as int, img.height as int, nw as int, nh as int),
    ensures
        r.width == nw,
        r.height == nh,
        r.data@ == thumbnail_exact_of(img.width, img.height, img.data@, nw, nh),
        r.wf(),
{
    let buf = image::RgbaImage::from_raw(img.width, img.height, img.data.clone()).expect(
        "the buffer holds every pixel",
    );
    let out = image::DynamicImage::ImageRgba8(buf).thumbnail_exact(nw, nh).into_rgba8();
    Image { width: out.width(), height: out.height(), data: out.into_raw() }
}

} // verus!
