//! Drawing an image as rows of half-block glyphs with 24-bit colour escapes.
use vstd::prelude::*;

use crate::config::{Config, TerminalSize};
use crate::raster::{byte_index, Image};
use crate::resize::{can_resize, resize, resized};

verus! {

/// The escape byte that starts a control sequence.
pub const ESC: u8 = 0x1b;

/// UTF-8 of U+2580 UPPER HALF BLOCK.
pub open spec fn upper_half() -> Seq<u8> {
    seq![0xe2u8, 0x96u8, 0x80u8]
}

/// UTF-8 of U+2584 LOWER HALF BLOCK.
pub open spec fn lower_half() -> Seq<u8> {
    seq![0xe2u8, 0x96u8, 0x84u8]
}

/// UTF-8 of U+2588 FULL BLOCK.
pub open spec fn full_block() -> Seq<u8> {
    seq![0xe2u8, 0x96u8, 0x88u8]
}

/// `ESC [ 0 m`: back to the terminal's own colours.
pub open spec fn reset() -> Seq<u8> {
    seq![ESC, 0x5bu8, 0x30u8, 0x6du8]
}

/// Decimal digits of `v`, without leading zeros.
pub open spec fn decimal(v: u8) -> Seq<u8> {
    if v >= 100 {
        seq![(0x30 + v / 100) as u8, (0x30 + (v / 10) % 10) as u8, (0x30 + v % 10) as u8]
    } else if v >= 10 {
        seq![(0x30 + v / 10) as u8, (0x30 + v % 10) as u8]
    } else {
        seq![(0x30 + v) as u8]
    }
}

/// `ESC [ 38 ; 2 ; r ; g ; b m` sets the foreground, and with `4` in place of
/// `3` the background, to a 24-bit colour.
pub open spec fn color_escape(layer: u8, c: (u8, u8, u8)) -> Seq<u8> {
    seq![ESC, 0x5bu8, layer, 0x38u8, 0x3bu8, 0x32u8, 0x3bu8] + decimal(c.0) + seq![0x3bu8]
        + decimal(c.1) + seq![0x3bu8] + decimal(c.2) + seq![0x6du8]
}

/// Sets the foreground colour, which paints a half block's glyph.
pub open spec fn fg(c: (u8, u8, u8)) -> Seq<u8> {
    color_escape(0x33, c)
}

/// Sets the background colour, which paints the rest of the cell.
pub open spec fn bg(c: (u8, u8, u8)) -> Seq<u8> {
    color_escape(0x34, c)
}

/// The grey of a checkerboard square at cell `(col, row)`.
pub open spec fn checker(col: int, row: int) -> (u8, u8, u8) {
    if (col + row) % 2 == 0 {
        (102, 102, 102)
    } else {
        (153, 153, 153)
    }
}

/// Channel `c` of pixel `(x, y)` of a grid of width `w`.
pub open spec fn channel_of(data: Seq<u8>, w: int, x: int, y: int, c: int) -> u8 {
    data[byte_index(w, x, y, c)]
}

/// The colour that paints pixel `(x, y)`: its own when it is fully opaque;
/// otherwise none, so the terminal's background shows, or a checkerboard grey.
pub open spec fn half_color(data: Seq<u8>, w: int, x: int, y: int, transparent: bool) -> Option<
    (u8, u8, u8),
> {
    if channel_of(data, w, x, y, 3) == 255 {
        Some((channel_of(data, w, x, y, 0), channel_of(data, w, x, y, 1), channel_of(data, w, x, y, 2)))
    } else if transparent {
        None
    } else {
        Some(checker(x, y / 2))
    }
}

/// A cell showing two pixels: an upper half block drawn in the upper colour
/// over the lower colour; a missing colour leaves the terminal's own.
pub open spec fn pair_cell(top: Option<(u8, u8, u8)>, bottom: Option<(u8, u8, u8)>) -> Seq<u8> {
    match (top, bottom) {
        (Some(t), Some(b)) => fg(t) + bg(b) + upper_half(),
        (Some(t), None) => reset() + fg(t) + upper_half(),
        (None, Some(b)) => reset() + fg(b) + lower_half(),
        (None, None) => reset() + seq![0x20u8],
    }
}

/// A cell of the last row of an image of odd height: one full block in the
/// colour of its only pixel.
pub open spec fn single_cell(top: Option<(u8, u8, u8)>) -> Seq<u8> {
    match top {
        Some(t) => fg(t) + full_block(),
        None => reset() + seq![0x20u8],
    }
}

/// Cell `x` of output line `k`, which shows rows `2k` and `2k + 1`.
pub open spec fn cell(data: Seq<u8>, w: int, h: int, x: int, k: int, transparent: bool) -> Seq<u8> {
    if 2 * k + 1 < h {
        pair_cell(half_color(data, w, x, 2 * k, transparent), half_color(data, w, x, 2 * k + 1, transparent))
    } else {
        single_cell(half_color(data, w, x, 2 * k, transparent))
    }
}

/// The first `n` cells of line `k`.
pub open spec fn cells(data: Seq<u8>, w: int, h: int, k: int, transparent: bool, n: int) -> Seq<u8>
    decreases n,
{
    if n <= 0 {
        seq![]
    } else {
        cells(data, w, h, k, transparent, n - 1) + cell(data, w, h, n - 1, k, transparent)
    }
}

/// Output line `k`: its cells, a reset so no colour bleeds on, a newline.
pub open spec fn line(data: Seq<u8>, w: int, h: int, k: int, transparent: bool) -> Seq<u8> {
    cells(data, w, h, k, transparent, w) + reset() + seq![0x0au8]
}

/// Number of output lines for an image `h` pixels high.
pub open spec fn line_count(h: int) -> int {
    (h + 1) / 2
}

/// The first `n` output lines.
pub open spec fn lines(data: Seq<u8>, w: int, h: int, transparent: bool, n: int) -> Seq<u8>
    decreases n,
{
    if n <= 0 {
        seq![]
    } else {
        lines(data, w, h, transparent, n - 1) + line(data, w, h, n - 1, transparent)
    }
}

/// Every byte that draws a `w` x `h` grid.
/// An image without pixels draws nothing.
pub open spec fn picture(data: Seq<u8>, w: int, h: int, transparent: bool) -> Seq<u8> {
    if w <= 0 || h <= 0 {
        seq![]
    } else {
        lines(data, w, h, transparent, line_count(h))
    }
}

/// Number of newline bytes in `s`.
pub open spec fn newlines(s: Seq<u8>) -> int
    decreases s.len(),
{
    if s.len() == 0 {
        0
    } else {
        newlines(s.drop_last()) + if s.last() == 0x0a {
            1int
        } else {
            0int
        }
    }
}

/// The first `n` cells of a line drawn from row `y` alone.
pub open spec fn single_cells(data: Seq<u8>, w: int, y: int, transparent: bool, n: int) -> Seq<u8>
    decreases n,
{
    if n <= 0 {
        seq![]
    } else {
        single_cells(data, w, y, transparent, n - 1) + single_cell(
            half_color(data, w, n - 1, y, transparent),
        )
    }
}

/// A line that draws row `y` alone, in full blocks.
pub open spec fn single_line(data: Seq<u8>, w: int, y: int, transparent: bool) -> Seq<u8> {
    single_cells(data, w, y, transparent, w) + reset() + seq![0x0au8]
}

/// `s` holds no newline byte.
pub open spec fn no_newline(s: Seq<u8>) -> bool {
    forall|i: int| 0 <= i < s.len() ==> s[i] != 0x0a
}

proof fn lemma_newlines_concat(a: Seq<u8>, b: Seq<u8>)
    ensures
        newlines(a + b) == newlines(a) + newlines(b),
    decreases b.len(),
{
    if b.len() == 0 {
        assert(a + b =~= a);
    } else {
        assert((a + b).drop_last() =~= a + b.drop_last());
        lemma_newlines_concat(a, b.drop_last());
    }
}

proof fn lemma_no_newline_count(s: Seq<u8>)
    requires
        no_newline(s),
    ensures
        newlines(s) == 0,
    decreases s.len(),
{
    if s.len() > 0 {
        lemma_no_newline_count(s.drop_last());
    }
}

proof fn lemma_color_no_newline(layer: u8, c: (u8, u8, u8))
    requires
        layer != 0x0a,
    ensures
        no_newline(color_escape(layer, c)),
{
    assert(no_newline(decimal(c.0)));
    assert(no_newline(decimal(c.1)));
    assert(no_newline(decimal(c.2)));
}

proof fn lemma_cell_no_newline(data: Seq<u8>, w: int, h: int, x: int, k: int, transparent: bool)
    ensures
        no_newline(cell(data, w, h, x, k, transparent)),
{
    let top = half_color(data, w, x, 2 * k, transparent);
    let bottom = half_color(data, w, x, 2 * k + 1, transparent);
    if let Some(t) = top {
        lemma_color_no_newline(0x33, t);
    }
    if let Some(b) = bottom {
        lemma_color_no_newline(0x33, b);
        lemma_color_no_newline(0x34, b);
    }
}

proof fn lemma_cells_newlines(data: Seq<u8>, w: int, h: int, k: int, transparent: bool, n: int)
    ensures
        newlines(cells(data, w, h, k, transparent, n)) == 0,
    decreases n,
{
    if n > 0 {
        lemma_cells_newlines(data, w, h, k, transparent, n - 1);
        lemma_cell_no_newline(data, w, h, n - 1, k, transparent);
        lemma_no_newline_count(cell(data, w, h, n - 1, k, transparent));
        lemma_newlines_concat(
            cells(data, w, h, k, transparent, n - 1),
            cell(data, w, h, n - 1, k, transparent),
        );
    }
}

proof fn lemma_lines_newlines(data: Seq<u8>, w: int, h: int, transparent: bool, n: int)
    requires
        n >= 0,
    ensures
        newlines(lines(data, w, h, transparent, n)) == n,
    decreases n,
{
    if n > 0 {
        let c = cells(data, w, h, n - 1, transparent, w);
        lemma_lines_newlines(data, w, h, transparent, n - 1);
        lemma_cells_newlines(data, w, h, n - 1, transparent, w);
        lemma_no_newline_count(reset());
        lemma_newlines_concat(c, reset());
        assert(newlines(seq![0x0au8]) == 1) by {
            assert(seq![0x0au8].drop_last() =~= Seq::<u8>::empty());
            assert(newlines(Seq::<u8>::empty()) == 0);
        }
        lemma_newlines_concat(c + reset(), seq![0x0au8]);
        lemma_newlines_concat(
            lines(data, w, h, transparent, n - 1),
            line(data, w, h, n - 1, transparent),
        );
    }
}

proof fn lemma_last_cells_single(data: Seq<u8>, w: int, h: int, transparent: bool, n: int)
    requires
        h % 2 == 1,
        h >= 1,
    ensures
        cells(data, w, h, (h - 1) / 2, transparent, n) == single_cells(
            data,
            w,
            h - 1,
            transparent,
            n,
        ),
    decreases n,
{
    if n > 0 {
        lemma_last_cells_single(data, w, h, transparent, n - 1);
    }
}

/// Drawing a grid with pixels gives one line, ended by a newline, per two
/// rows of pixels, rounded up: `(h + 1) / 2` lines.
pub proof fn lemma_picture_line_count(data: Seq<u8>, w: int, h: int, transparent: bool)
    requires
        w >= 1,
        h >= 1,
    ensures
        newlines(picture(data, w, h, transparent)) == line_count(h),
        line_count(h) * 2 == h || line_count(h) * 2 == h + 1,
{
    lemma_lines_newlines(data, w, h, transparent, line_count(h));
}

/// When the height is odd, the last of the `(h + 1) / 2` lines draws the
/// last row of pixels alone, in single-colour full blocks.
pub proof fn lemma_odd_height_last_line(data: Seq<u8>, w: int, h: int, transparent: bool)
    requires
        w >= 1,
        h >= 1,
        h % 2 == 1,
    ensures
        picture(data, w, h, transparent) == lines(data, w, h, transparent, line_count(h) - 1)
            + single_line(data, w, h - 1, transparent),
        newlines(picture(data, w, h, transparent)) == line_count(h),
{
    lemma_last_cells_single(data, w, h, transparent, w);
    lemma_picture_line_count(data, w, h, transparent);
}

fn push_decimal(out: &mut Vec<u8>, v: u8)
    ensures
        final(out)@ == old(out)@ + decimal(v),
{
    if v >= 100 {
        out.push(0x30 + v / 100);
        out.push(0x30 + (v / 10) % 10);
        out.push(0x30 + v % 10);
    } else if v >= 10 {
        out.push(0x30 + v / 10);
        out.push(0x30 + v % 10);
    } else {
        out.push(0x30 + v);
    }
    assert(final(out)@ =~= old(out)@ + decimal(v));
}

fn push_color(out: &mut Vec<u8>, layer: u8, c: (u8, u8, u8))
    ensures
        final(out)@ == old(out)@ + color_escape(layer, c),
{
    let start = Ghost(out@);
    out.push(ESC);
    out.push(0x5b);
    out.push(layer);
    out.push(0x38);
    out.push(0x3b);
    out.push(0x32);
    out.push(0x3b);
    push_decimal(out, c.0);
    out.push(0x3b);
    push_decimal(out, c.1);
    out.push(0x3b);
    push_decimal(out, c.2);
    out.push(0x6d);
    assert(out@ =~= start@ + color_escape(layer, c));
}

fn push_reset(out: &mut Vec<u8>)
    ensures
        final(out)@ == old(out)@ + reset(),
{
    out.push(ESC);
    out.push(0x5b);
    out.push(0x30);
    out.push(0x6d);
    assert(final(out)@ =~= old(out)@ + reset());
}

fn push_glyph(out: &mut Vec<u8>, last: u8)
    ensures
        final(out)@ == old(out)@ + seq![0xe2u8, 0x96u8, last],
{
    out.push(0xe2);
    out.push(0x96);
    out.push(last);
    assert(final(out)@ =~= old(out)@ + seq![0xe2u8, 0x96u8, last]);
}

fn push_pair_cell(out: &mut Vec<u8>, top: Option<(u8, u8, u8)>, bottom: Option<(u8, u8, u8)>)
    ensures
        final(out)@ == old(out)@ + pair_cell(top, bottom),
{
    let start = Ghost(out@);
    match (top, bottom) {
        (Some(t), Some(b)) => {
            push_color(out, 0x33, t);
            push_color(out, 0x34, b);
            push_glyph(out, 0x80);
        },
        (Some(t), None) => {
            push_reset(out);
            push_color(out, 0x33, t);
            push_glyph(out, 0x80);
        },
        (None, Some(b)) => {
            push_reset(out);
            push_color(out, 0x33, b);
            push_glyph(out, 0x84);
        },
        (None, None) => {
            push_reset(out);
            out.push(0x20);
        },
    }
    assert(out@ =~= start@ + pair_cell(top, bottom));
}

fn push_single_cell(out: &mut Vec<u8>, top: Option<(u8, u8, u8)>)
    ensures
        final(out)@ == old(out)@ + single_cell(top),
{
    let start = Ghost(out@);
    match top {
        Some(t) => {
            push_color(out, 0x33, t);
            push_glyph(out, 0x88);
        },
        None => {
            push_reset(out);
            out.push(0x20);
        },
    }
    assert(out@ =~= start@ + single_cell(top));
}

fn pixel_color(img: &Image, x: u32, y: u32, transparent: bool) -> (r: Option<(u8, u8, u8)>)
    requires
        img.wf(),
        x < img.width,
        y < img.height,
    ensures
        r == half_color(img.data@, img.width as int, x as int, y as int, transparent),
{
    let p = img.pixel(x, y);
    if p[3] == 255 {
        Some((p[0], p[1], p[2]))
    } else if transparent {
        None
    } else if ((x % 2) + ((y / 2) % 2)) % 2 == 0 {
        Some((102, 102, 102))
    } else {
        Some((153, 153, 153))
    }
}

/// The bytes that draw `img`: one line per two rows of pixels, each cell a
/// half block whose upper half shows the upper pixel and lower half the
/// lower one, and each line ending in a colour reset and a newline. A last
/// row without a partner is drawn with full blocks. An image without pixels
/// draws nothing. With `transparent`,
/// pixels that are not fully opaque leave the terminal's background showing;
/// without it they show as a grey checkerboard.
pub fn render_image(img: &Image, transparent: bool) -> (r: Vec<u8>)
    requires
        img.wf(),
    ensures
        r@ == picture(img.data@, img.width as int, img.height as int, transparent),
{
    let w = img.width;
    let h = img.height;
    let ghost data = img.data@;
    let mut out: Vec<u8> = Vec::new();
    if w == 0 || h == 0 {
        return out;
    }
    let mut k: u32 = 0;
    let n: u32 = h / 2 + h % 2;
    assert(n == line_count(h as int));
    while k < n
        invariant
            img.wf(),
            w == img.width,
            h == img.height,
            w > 0,
            h > 0,
            data == img.data@,
            n == line_count(h as int),
            k <= n,
            out@ == lines(data, w as int, h as int, transparent, k as int),
        decreases n - k,
    {
        let ghost before = out@;
        let y: u32 = 2 * k;
        let paired: bool = h - y > 1;
        let mut x: u32 = 0;
        while x < w
            invariant
                img.wf(),
                w == img.width,
                h == img.height,
                data == img.data@,
                k < n,
                n == line_count(h as int),
                y == 2 * k,
                y < h,
                paired == (2 * k + 1 < h),
                x <= w,
                out@ == before + cells(data, w as int, h as int, k as int, transparent, x as int),
            decreases w - x,
        {
            let top = pixel_color(img, x, y, transparent);
            if paired {
                let bottom = pixel_color(img, x, y + 1, transparent);
                push_pair_cell(&mut out, top, bottom);
            } else {
                push_single_cell(&mut out, top);
            }
            x = x + 1;
        }
        push_reset(&mut out);
        out.push(0x0a);
        assert(out@ =~= before + line(data, w as int, h as int, k as int, transparent));
        k = k + 1;
    }
    out
}

/// Draws `img` as `config` asks: fitted first to the target, or to the
/// terminal when no target side is given, unless resizing is switched off.
pub fn render(img: &Image, config: &Config, terminal: TerminalSize) -> (r: Vec<u8>)
    requires
        img.wf(),
        config.resize ==> can_resize(
            img.width,
            img.height,
            config.width,
            config.height,
            terminal,
        ),
    ensures
        config.resize ==> ({
            let (rw, rh, rdata) = resized(
                img.width,
                img.height,
                img.data@,
                config.width,
                config.height,
                terminal,
            );
            r@ == picture(rdata, rw as int, rh as int, config.transparent)
        }),
        !config.resize ==> r@ == picture(
            img.data@,
            img.width as int,
            img.height as int,
            config.transparent,
        ),
        img.is_empty_spec() ==> r@.len() == 0,
{
    if config.resize {
        let fitted = resize(img, config.width, config.height, terminal);
        render_image(&fitted, config.transparent)
    } else {
        render_image(img, config.transparent)
    }
}

} // verus!
