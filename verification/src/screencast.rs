//! Raw frames delivered by the Wayland screen-cast stream, and their
//! conversion to contiguous RGBA, cropped to the non-black content.
//!
//! Mutter delivers window captures in a buffer of the size of the screen,
//! with black around the window; the crop keeps the content only.

use vstd::prelude::*;

verus! {

/// Pixel layout of a raw frame (all four bytes per pixel).
#[derive(Clone, Copy, PartialEq, Eq, Debug, Structural)]
#[allow(non_camel_case_types)]
pub enum VideoFormat {
    RGBA,
    RGBx,
    BGRA,
    BGRx,
    /// Any layout that is not converted.
    Other,
}

/// A **raw** frame as delivered by the stream, with what is needed to
/// convert it to RGBA. The (costly) conversion is deferred until a click
/// needs a capture.
#[derive(Clone)]
pub struct Frame {
    pub width: u32,
    pub height: u32,
    stride: usize,
    format: VideoFormat,
    bytes: Vec<u8>,
}

/// Mathematical view of a [`Frame`].
#[verifier::ext_equal]
pub struct FrameView {
    pub width: u32,
    pub height: u32,
    /// Bytes from the start of one row to the start of the next.
    pub stride: usize,
    pub format: VideoFormat,
    pub bytes: Seq<u8>,
}

impl View for Frame {
    type V = FrameView;

    closed spec fn view(&self) -> FrameView {
        FrameView {
            width: self.width,
            height: self.height,
            stride: self.stride,
            format: self.format,
            bytes: self.bytes@,
        }
    }
}

/// `(swap_rb, alpha_opaque)` of a layout: whether red and blue are swapped
/// relative to RGBA, and whether the fourth byte is padding (alpha then
/// 255); `None` for a layout that is not converted.
pub open spec fn rb_opaque_spec(format: VideoFormat) -> Option<(bool, bool)> {
    match format {
        VideoFormat::RGBA => Some((false, false)),
        VideoFormat::RGBx => Some((false, true)),
        VideoFormat::BGRA => Some((true, false)),
        VideoFormat::BGRx => Some((true, true)),
        VideoFormat::Other => None,
    }
}

/// Whether the rows of `width` pixels fit in the stride and the buffer
/// holds `height` rows.
pub open spec fn fits(f: FrameView) -> bool {
    f.stride >= f.width * 4 && f.bytes.len() >= f.stride * f.height
}

/// Whether checking the size of a frame of a converted layout stays within
/// `usize`: the row width in bytes, then (for a stride that holds a row) the
/// buffer size that the rows need.
pub open spec fn no_overflow(f: FrameView) -> bool {
    rb_opaque_spec(f.format) is Some ==> {
        &&& f.width * 4 <= usize::MAX
        &&& f.stride >= f.width * 4 ==> f.stride * f.height <= usize::MAX
    }
}

/// The RGBA bytes of the raw pixel starting at byte `p`.
pub open spec fn convert_pixel(bytes: Seq<u8>, p: int, swap_rb: bool, opaque: bool) -> Seq<u8> {
    seq![
        if swap_rb { bytes[p + 2] } else { bytes[p] },
        bytes[p + 1],
        if swap_rb { bytes[p] } else { bytes[p + 2] },
        if opaque { 255u8 } else { bytes[p + 3] },
    ]
}

/// The RGBA bytes of the `n` pixels of row `sy` starting at column `x0`.
pub open spec fn convert_row(
    bytes: Seq<u8>,
    stride: nat,
    x0: nat,
    sy: nat,
    n: nat,
    swap_rb: bool,
    opaque: bool,
) -> Seq<u8>
    decreases n,
{
    if n == 0 {
        Seq::empty()
    } else {
        convert_row(bytes, stride, x0, sy, (n - 1) as nat, swap_rb, opaque) + convert_pixel(
            bytes,
            sy * stride + (x0 + n - 1) * 4,
            swap_rb,
            opaque,
        )
    }
}

/// The RGBA bytes, row after row, of the `cw`×`ch` rectangle whose top
/// left pixel is at column `x0`, row `y0`.
pub open spec fn convert_rect(
    bytes: Seq<u8>,
    stride: nat,
    x0: nat,
    y0: nat,
    cw: nat,
    ch: nat,
    swap_rb: bool,
    opaque: bool,
) -> Seq<u8>
    decreases ch,
{
    if ch == 0 {
        Seq::empty()
    } else {
        convert_rect(bytes, stride, x0, y0, cw, (ch - 1) as nat, swap_rb, opaque) + convert_row(
            bytes,
            stride,
            x0,
            (y0 + ch - 1) as nat,
            cw,
            swap_rb,
            opaque,
        )
    }
}

/// Brightness threshold under which a pixel counts as black (absorbs noise).
pub open spec fn threshold() -> u8 {
    8
}

/// Whether pixel (`x`, `y`) of the frame is content: one of its three
/// color bytes reaches the threshold.
pub open spec fn content_at(f: FrameView, x: int, y: int) -> bool {
    let p = y * f.stride + x * 4;
    &&& 0 <= x < f.width
    &&& 0 <= y < f.height
    &&& (f.bytes[p] >= threshold() || f.bytes[p + 1] >= threshold() || f.bytes[p + 2]
        >= threshold())
}

/// Whether the frame has any content pixel.
pub open spec fn has_content(f: FrameView) -> bool {
    exists|x: int, y: int| content_at(f, x, y)
}

/// Whether columns `x0..=x1` and rows `y0..=y1` form the bounding box of the
/// content: every content pixel lies inside, and each of the four edges
/// holds a content pixel.
pub open spec fn is_bbox(f: FrameView, x0: int, y0: int, x1: int, y1: int) -> bool {
    &&& forall|x: int, y: int| #[trigger]
        content_at(f, x, y) ==> x0 <= x <= x1 && y0 <= y <= y1
    &&& exists|y: int| content_at(f, x0, y)
    &&& exists|y: int| content_at(f, x1, y)
    &&& exists|x: int| content_at(f, x, y0)
    &&& exists|x: int| content_at(f, x, y1)
}

/// The bounding box of the content (meaningful when there is content).
pub open spec fn content_bbox(f: FrameView) -> (int, int, int, int) {
    choose|b: (int, int, int, int)| is_bbox(f, b.0, b.1, b.2, b.3)
}

/// The whole frame in RGBA (`None` for a layout that is not converted or a
/// buffer too small for its size).
pub open spec fn to_rgba_spec(f: FrameView) -> Option<Seq<u8>> {
    match rb_opaque_spec(f.format) {
        None => None,
        Some((swap_rb, opaque)) => if fits(f) {
            Some(
                convert_rect(
                    f.bytes,
                    f.stride as nat,
                    0,
                    0,
                    f.width as nat,
                    f.height as nat,
                    swap_rb,
                    opaque,
                ),
            )
        } else {
            None
        },
    }
}

/// Whether `r` is the frame in RGBA cropped to its content: the bounding
/// box of the content converted, with its width and height; the whole frame
/// when it holds no content.
pub open spec fn cropped_spec(f: FrameView, r: Option<(Seq<u8>, u32, u32)>) -> bool {
    match rb_opaque_spec(f.format) {
        None => r is None,
        Some((swap_rb, opaque)) => if !fits(f) {
            r is None
        } else if !has_content(f) {
            r == Some((to_rgba_spec(f).unwrap(), f.width, f.height))
        } else {
            let (x0, y0, x1, y1) = content_bbox(f);
            &&& is_bbox(f, x0, y0, x1, y1)
            &&& r == Some(
                (
                    convert_rect(
                        f.bytes,
                        f.stride as nat,
                        x0 as nat,
                        y0 as nat,
                        (x1 - x0 + 1) as nat,
                        (y1 - y0 + 1) as nat,
                        swap_rb,
                        opaque,
                    ),
                    (x1 - x0 + 1) as u32,
                    (y1 - y0 + 1) as u32,
                ),
            )
        },
    }
}

/// The last byte of pixel (`x`, `y`) lies in the buffer.
proof fn lemma_pixel_in_bounds(x: int, y: int, w: int, h: int, stride: int, len: int)
    requires
        0 <= x < w,
        0 <= y < h,
        stride >= w * 4,
        len >= stride * h,
    ensures
        0 <= y * stride,
        y * stride + x * 4 + 3 < len,
        y * stride <= len,
{
    assert(y * stride + stride <= h * stride) by (nonlinear_arith)
        requires
            y < h,
            stride >= 0,
    ;
    assert(0 <= y * stride) by (nonlinear_arith)
        requires
            y >= 0,
            stride >= 0,
    ;
}

/// Two bounding boxes of the same frame are the same.
proof fn lemma_bbox_unique(f: FrameView, a: (int, int, int, int), b: (int, int, int, int))
    requires
        is_bbox(f, a.0, a.1, a.2, a.3),
        is_bbox(f, b.0, b.1, b.2, b.3),
    ensures
        a == b,
{
    let ya = choose|y: int| content_at(f, a.0, y);
    let yb = choose|y: int| content_at(f, b.0, y);
    assert(content_at(f, a.0, ya));
    assert(content_at(f, b.0, yb));
    let ya2 = choose|y: int| content_at(f, a.2, y);
    let yb2 = choose|y: int| content_at(f, b.2, y);
    assert(content_at(f, a.2, ya2));
    assert(content_at(f, b.2, yb2));
    let xa = choose|x: int| content_at(f, x, a.1);
    let xb = choose|x: int| content_at(f, x, b.1);
    assert(content_at(f, xa, a.1));
    assert(content_at(f, xb, b.1));
    let xa3 = choose|x: int| content_at(f, x, a.3);
    let xb3 = choose|x: int| content_at(f, x, b.3);
    assert(content_at(f, xa3, a.3));
    assert(content_at(f, xb3, b.3));
}

/// `(swap_rb, alpha_opaque)` of a layout.
fn rb_opaque(format: VideoFormat) -> (r: Option<(bool, bool)>)
    ensures
        r == rb_opaque_spec(format),
{
    match format {
        VideoFormat::RGBA => Some((false, false)),
        VideoFormat::RGBx => Some((false, true)),
        VideoFormat::BGRA => Some((true, false)),
        VideoFormat::BGRx => Some((true, true)),
        VideoFormat::Other => None,
    }
}

/// Converts the `cw`×`ch` rectangle at (`x0`, `y0`) of a raw buffer to
/// contiguous RGBA.
fn convert(
    bytes: &Vec<u8>,
    stride: usize,
    x0: usize,
    y0: usize,
    cw: usize,
    ch: usize,
    w: usize,
    h: usize,
    swap_rb: bool,
    opaque: bool,
) -> (out: Vec<u8>)
    requires
        x0 + cw <= w,
        y0 + ch <= h,
        stride >= w * 4,
        bytes@.len() >= stride * h,
    ensures
        out@ == convert_rect(
            bytes@,
            stride as nat,
            x0 as nat,
            y0 as nat,
            cw as nat,
            ch as nat,
            swap_rb,
            opaque,
        ),
{
    let mut out: Vec<u8> = Vec::new();
    let len: usize = bytes.len();
    let mut y: usize = 0;
    while y < ch
        invariant
            y <= ch,
            x0 + cw <= w,
            y0 + ch <= h,
            stride >= w * 4,
            bytes@.len() >= stride * h,
            len == bytes@.len(),
            out@ == convert_rect(
                bytes@,
                stride as nat,
                x0 as nat,
                y0 as nat,
                cw as nat,
                y as nat,
                swap_rb,
                opaque,
            ),
        decreases ch - y,
    {
        proof {
            if cw > 0 {
                lemma_pixel_in_bounds(x0 as int, (y0 + y) as int, w as int, h as int, stride as int, bytes@.len() as int);
            }
            assert((y0 + y) * stride <= bytes@.len()) by (nonlinear_arith)
                requires
                    y0 + y < h,
                    bytes@.len() >= stride * h,
                    stride >= 0,
            ;
        }
        let srow: usize = (y0 + y) * stride;
        let ghost before = out@;
        let mut x: usize = 0;
        while x < cw
            invariant
                x <= cw,
                y < ch,
                x0 + cw <= w,
                y0 + ch <= h,
                stride >= w * 4,
                bytes@.len() >= stride * h,
                len == bytes@.len(),
                srow == (y0 + y) * stride,
                before == convert_rect(
                    bytes@,
                    stride as nat,
                    x0 as nat,
                    y0 as nat,
                    cw as nat,
                    y as nat,
                    swap_rb,
                    opaque,
                ),
                out@ == before + convert_row(
                    bytes@,
                    stride as nat,
                    x0 as nat,
                    (y0 + y) as nat,
                    x as nat,
                    swap_rb,
                    opaque,
                ),
            decreases cw - x,
        {
            proof {
                lemma_pixel_in_bounds((x0 + x) as int, (y0 + y) as int, w as int, h as int, stride as int, bytes@.len() as int);
            }
            assert(srow + (x0 + x) * 4 + 3 < bytes@.len());
            let p: usize = srow + (x0 + x) * 4;
            let ghost row_before = out@;
            if swap_rb {
                out.push(bytes[p + 2]);
                out.push(bytes[p + 1]);
                out.push(bytes[p]);
            } else {
                out.push(bytes[p]);
                out.push(bytes[p + 1]);
                out.push(bytes[p + 2]);
            }
            if opaque {
                out.push(255u8);
            } else {
                out.push(bytes[p + 3]);
            }
            proof {
                assert(out@ =~= row_before + convert_pixel(bytes@, p as int, swap_rb, opaque));
                assert(convert_row(
                    bytes@,
                    stride as nat,
                    x0 as nat,
                    (y0 + y) as nat,
                    (x + 1) as nat,
                    swap_rb,
                    opaque,
                ) == convert_row(
                    bytes@,
                    stride as nat,
                    x0 as nat,
                    (y0 + y) as nat,
                    x as nat,
                    swap_rb,
                    opaque,
                ) + convert_pixel(bytes@, p as int, swap_rb, opaque));
            }
            x = x + 1;
        }
        y = y + 1;
    }
    out
}

impl Frame {
    /// A raw frame of `width`×`height` pixels in `format`, rows `stride`
    /// bytes apart.
    pub fn new(width: u32, height: u32, stride: usize, format: VideoFormat, bytes: Vec<u8>) -> (r:
        Frame)
        ensures
            r@ == (FrameView { width, height, stride, format, bytes: bytes@ }),
    {
        Frame { width, height, stride, format, bytes }
    }

    /// Bytes from the start of one row to the start of the next.
    pub fn stride(&self) -> (r: usize)
        ensures
            r == self@.stride,
    {
        self.stride
    }

    /// Converts the frame to contiguous RGBA (`None` for a layout that is
    /// not converted).
    pub fn to_rgba(&self) -> (r: Option<Vec<u8>>)
        requires
            no_overflow(self@),
        ensures
            r matches Some(v) ==> to_rgba_spec(self@) == Some(v@),
            r is None ==> to_rgba_spec(self@) is None,
    {
        to_rgba(&self.bytes, self.width, self.height, self.stride, self.format)
    }
}

/// Whether pixel (`px`, `py`) comes before pixel (`x`, `y`) in row-major
/// order.
pub open spec fn scanned(px: int, py: int, x: int, y: int) -> bool {
    py < y || (py == y && px < x)
}

/// The optional result with its buffer taken by view.
pub open spec fn cropped_view(r: Option<(Vec<u8>, u32, u32)>) -> Option<(Seq<u8>, u32, u32)> {
    match r {
        Some((v, cw, ch)) => Some((v@, cw, ch)),
        None => None,
    }
}

impl Frame {
    /// Converts to RGBA **cropped to the non-black area**.
    ///
    /// Returns `(rgba, width, height)` of the cropped area. When the frame
    /// is entirely black the whole image is returned (cropping would give
    /// nothing).
    pub fn to_rgba_cropped(&self) -> (r: Option<(Vec<u8>, u32, u32)>)
        requires
            no_overflow(self@),
        ensures
            cropped_spec(self@, cropped_view(r)),
    {
        let ghost f = self@;
        let (swap_rb, opaque) = match rb_opaque(self.format) {
            Some(p) => p,
            None => return None,
        };
        let w = self.width as usize;
        let h = self.height as usize;
        let stride = self.stride;
        let len: usize = self.bytes.len();
        if stride < w * 4 || self.bytes.len() < stride * h {
            return None;
        }
        // Bounding box of the non-black content.
        let mut x0: usize = w;
        let mut y0: usize = h;
        let mut x1: usize = 0;
        let mut y1: usize = 0;
        let mut found = false;
        // Content pixels on each edge of the box found so far.
        let ghost mut x0_row: int = 0;
        let ghost mut x1_row: int = 0;
        let ghost mut y0_col: int = 0;
        let ghost mut y1_col: int = 0;
        let mut y: usize = 0;
        while y < h
            invariant
                f == self@,
                w == f.width,
                h == f.height,
                stride == f.stride,
                fits(f),
                len == f.bytes.len(),
                y <= h,
                !found ==> x0 == w && y0 == h && x1 == 0 && y1 == 0,
                !found ==> forall|px: int, py: int| #[trigger]
                    content_at(f, px, py) ==> !scanned(px, py, 0, y as int),
                found ==> {
                    &&& content_at(f, x0 as int, x0_row)
                    &&& content_at(f, x1 as int, x1_row)
                    &&& content_at(f, y0_col, y0 as int)
                    &&& content_at(f, y1_col, y1 as int)
                    &&& forall|px: int, py: int| #[trigger]
                        content_at(f, px, py) && scanned(px, py, 0, y as int) ==> x0 <= px <= x1
                            && y0 <= py <= y1
                    &&& y0 <= y1 < y
                },
            decreases h - y,
        {
            proof {
                assert(y * stride <= f.bytes.len()) by (nonlinear_arith)
                    requires
                        y < h,
                        f.bytes.len() >= stride * h,
                        stride >= 0,
                ;
            }
            let row: usize = y * stride;
            let mut x: usize = 0;
            while x < w
                invariant
                    f == self@,
                    w == f.width,
                    h == f.height,
                    stride == f.stride,
                    fits(f),
                    len == f.bytes.len(),
                    y < h,
                    x <= w,
                    row == y * stride,
                    !found ==> x0 == w && y0 == h && x1 == 0 && y1 == 0,
                    !found ==> forall|px: int, py: int| #[trigger]
                        content_at(f, px, py) ==> !scanned(px, py, x as int, y as int),
                    found ==> {
                        &&& content_at(f, x0 as int, x0_row)
                        &&& content_at(f, x1 as int, x1_row)
                        &&& content_at(f, y0_col, y0 as int)
                        &&& content_at(f, y1_col, y1 as int)
                        &&& forall|px: int, py: int| #[trigger]
                            content_at(f, px, py) && scanned(px, py, x as int, y as int) ==> x0
                                <= px <= x1 && y0 <= py <= y1
                        &&& y0 <= y1 <= y
                    },
                decreases w - x,
            {
                proof {
                    lemma_pixel_in_bounds(x as int, y as int, w as int, h as int, stride as int, f.bytes.len() as int);
                }
                let p: usize = row + x * 4;
                let content = self.bytes[p] >= 8 || self.bytes[p + 1] >= 8 || self.bytes[p + 2] >= 8;
                assert(content == content_at(f, x as int, y as int));
                if content {
                    proof {
                        if !found || (x as int) < x0 {
                            x0_row = y as int;
                        }
                        if !found || (x as int) > x1 {
                            x1_row = y as int;
                        }
                        if !found {
                            y0_col = x as int;
                        }
                        y1_col = x as int;
                    }
                    found = true;
                    if x < x0 {
                        x0 = x;
                    }
                    if x > x1 {
                        x1 = x;
                    }
                    if y < y0 {
                        y0 = y;
                    }
                    if y > y1 {
                        y1 = y;
                    }
                    assert(content_at(f, x0 as int, x0_row));
                    assert(content_at(f, x1 as int, x1_row));
                    assert(content_at(f, y0_col, y0 as int));
                    assert(content_at(f, y1_col, y1 as int));
                    assert(y1 <= y);
                    assert forall|px: int, py: int| #[trigger]
                        content_at(f, px, py) && scanned(px, py, x + 1, y as int) implies x0
                            <= px <= x1 && y0 <= py <= y1 by {
                        if px != x || py != y {
                            assert(scanned(px, py, x as int, y as int));
                        }
                    }
                }
                x = x + 1;
            }
            y = y + 1;
        }
        if !found {
            proof {
                assert(!has_content(f));
            }
            let rgba = match self.to_rgba() {
                Some(v) => v,
                None => return None,
            };
            return Some((rgba, self.width, self.height));
        }
        proof {
            let b = (x0 as int, y0 as int, x1 as int, y1 as int);
            assert(is_bbox(f, b.0, b.1, b.2, b.3));
            assert(has_content(f));
            lemma_bbox_unique(f, content_bbox(f), (x0 as int, y0 as int, x1 as int, y1 as int));
        }
        let cw = x1 - x0 + 1;
        let ch = y1 - y0 + 1;
        let out = convert(&self.bytes, stride, x0, y0, cw, ch, w, h, swap_rb, opaque);
        Some((out, cw as u32, ch as u32))
    }
}

/// Least time between two stored frames, in milliseconds: one frame about
/// every 100 ms is plenty for a capture on click, and storing fewer frames
/// saves copies.
pub open spec fn store_interval() -> u128 {
    100
}

/// Whether a frame that arrives `since_last_ms` milliseconds after the last
/// stored one is stored (`None`: no frame stored yet).
pub fn keep_frame(since_last_ms: Option<u128>) -> (r: bool)
    ensures
        r == match since_last_ms {
            None => true,
            Some(e) => e >= store_interval(),
        },
{
    match since_last_ms {
        None => true,
        Some(e) => e >= 100,
    }
}

/// How many bytes of a delivered buffer of `available` bytes make a frame of
/// `height` rows `stride` bytes apart: `stride * height`; `None` for an
/// empty size (`width`, `height` or `stride` zero) or a buffer too short.
pub fn stored_len(width: u32, height: u32, stride: usize, available: usize) -> (r: Option<usize>)
    requires
        width != 0 && height != 0 && stride != 0 ==> stride * height <= usize::MAX,
    ensures
        r == if width == 0 || height == 0 || stride == 0 || stride * height > available {
            None::<usize>
        } else {
            Some((stride * height) as usize)
        },
{
    if width == 0 || height == 0 || stride == 0 {
        return None;
    }
    let needed = stride * (height as usize);
    if available < needed {
        None
    } else {
        Some(needed)
    }
}

/// Converts a raw buffer (one frame) to contiguous RGBA, following the
/// stride and the component order of the layout.
fn to_rgba(src: &Vec<u8>, width: u32, height: u32, stride: usize, format: VideoFormat) -> (r:
    Option<Vec<u8>>)
    requires
        no_overflow(FrameView { width, height, stride, format, bytes: src@ }),
    ensures
        ({
            let f = FrameView { width, height, stride, format, bytes: src@ };
            &&& r matches Some(v) ==> to_rgba_spec(f) == Some(v@)
            &&& r is None ==> to_rgba_spec(f) is None
        }),
{
    let (swap_rb, opaque) = match rb_opaque(format) {
        Some(p) => p,
        None => return None,
    };
    let w = width as usize;
    let h = height as usize;
    if stride < w * 4 || src.len() < stride * h {
        return None;
    }
    Some(convert(src, stride, 0, 0, w, h, w, h, swap_rb, opaque))
}

} // verus!

verus! {

/// The converted rectangle holds four bytes per pixel.
pub proof fn lemma_convert_rect_len(
    bytes: Seq<u8>,
    stride: nat,
    x0: nat,
    y0: nat,
    cw: nat,
    ch: nat,
    swap_rb: bool,
    opaque: bool,
)
    ensures
        convert_rect(bytes, stride, x0, y0, cw, ch, swap_rb, opaque).len() == cw * ch * 4,
    decreases ch,
{
    if ch > 0 {
        lemma_convert_rect_len(bytes, stride, x0, y0, cw, (ch - 1) as nat, swap_rb, opaque);
        lemma_convert_row_len(bytes, stride, x0, (y0 + ch - 1) as nat, cw, swap_rb, opaque);
        assert(cw * (ch - 1) * 4 + cw * 4 == cw * ch * 4) by (nonlinear_arith);
    } else {
        assert(cw * ch * 4 == 0) by (nonlinear_arith)
            requires
                ch == 0,
        ;
    }
}

/// A converted row holds four bytes per pixel.
pub proof fn lemma_convert_row_len(
    bytes: Seq<u8>,
    stride: nat,
    x0: nat,
    sy: nat,
    n: nat,
    swap_rb: bool,
    opaque: bool,
)
    ensures
        convert_row(bytes, stride, x0, sy, n, swap_rb, opaque).len() == n * 4,
    decreases n,
{
    if n > 0 {
        lemma_convert_row_len(bytes, stride, x0, sy, (n - 1) as nat, swap_rb, opaque);
    }
}

/// A cropped frame is a non-empty part of the frame whose buffer holds
/// exactly its pixels, so it always makes a valid image.
pub proof fn lemma_cropped_is_image(f: FrameView, rgba: Seq<u8>, cw: u32, ch: u32)
    requires
        cropped_spec(f, Some((rgba, cw, ch))),
    ensures
        rgba.len() == cw * ch * 4,
        cw <= f.width,
        ch <= f.height,
        has_content(f) ==> cw >= 1 && ch >= 1,
{
    let (swap_rb, opaque) = rb_opaque_spec(f.format).unwrap();
    if has_content(f) {
        let (x0, y0, x1, y1) = content_bbox(f);
        let yx0 = choose|y: int| content_at(f, x0, y);
        let yx1 = choose|y: int| content_at(f, x1, y);
        let xy0 = choose|x: int| content_at(f, x, y0);
        let xy1 = choose|x: int| content_at(f, x, y1);
        assert(content_at(f, x0, yx0));
        assert(content_at(f, x1, yx1));
        assert(content_at(f, xy0, y0));
        assert(content_at(f, xy1, y1));
        lemma_convert_rect_len(
            f.bytes,
            f.stride as nat,
            x0 as nat,
            y0 as nat,
            (x1 - x0 + 1) as nat,
            (y1 - y0 + 1) as nat,
            swap_rb,
            opaque,
        );
    } else {
        lemma_convert_rect_len(f.bytes, f.stride as nat, 0, 0, f.width as nat, f.height as nat, swap_rb, opaque);
    }
}

/// Byte `x * 4 + i` of a converted row is byte `i` of the converted pixel
/// `x` of that row.
pub proof fn lemma_convert_row_index(
    bytes: Seq<u8>,
    stride: nat,
    x0: nat,
    sy: nat,
    n: nat,
    swap_rb: bool,
    opaque: bool,
    x: int,
    i: int,
)
    requires
        0 <= x < n,
        0 <= i < 4,
    ensures
        convert_row(bytes, stride, x0, sy, n, swap_rb, opaque)[x * 4 + i] == convert_pixel(
            bytes,
            sy * stride + (x0 + x) * 4,
            swap_rb,
            opaque,
        )[i],
    decreases n,
{
    lemma_convert_row_len(bytes, stride, x0, sy, (n - 1) as nat, swap_rb, opaque);
    if x < n - 1 {
        lemma_convert_row_index(bytes, stride, x0, sy, (n - 1) as nat, swap_rb, opaque, x, i);
    }
}

/// Byte `(y * cw + x) * 4 + i` of a converted rectangle is byte `i` of the
/// converted pixel at column `x0 + x`, row `y0 + y`.
pub proof fn lemma_convert_rect_index(
    bytes: Seq<u8>,
    stride: nat,
    x0: nat,
    y0: nat,
    cw: nat,
    ch: nat,
    swap_rb: bool,
    opaque: bool,
    x: int,
    y: int,
    i: int,
)
    requires
        0 <= x < cw,
        0 <= y < ch,
        0 <= i < 4,
    ensures
        convert_rect(bytes, stride, x0, y0, cw, ch, swap_rb, opaque)[(y * cw + x) * 4 + i]
            == convert_pixel(bytes, (y0 + y) * stride + (x0 + x) * 4, swap_rb, opaque)[i],
    decreases ch,
{
    let k = (y * cw + x) * 4 + i;
    let head = convert_rect(bytes, stride, x0, y0, cw, (ch - 1) as nat, swap_rb, opaque);
    let row = convert_row(bytes, stride, x0, (y0 + ch - 1) as nat, cw, swap_rb, opaque);
    assert(convert_rect(bytes, stride, x0, y0, cw, ch, swap_rb, opaque) == head + row);
    lemma_convert_rect_len(bytes, stride, x0, y0, cw, (ch - 1) as nat, swap_rb, opaque);
    lemma_convert_row_len(bytes, stride, x0, (y0 + ch - 1) as nat, cw, swap_rb, opaque);
    assert(k >= 0) by (nonlinear_arith)
        requires
            k == (y * cw + x) * 4 + i,
            0 <= x,
            0 <= y,
            0 <= i,
            cw >= 0,
    ;
    if y < ch - 1 {
        assert(k < cw * (ch - 1) * 4) by (nonlinear_arith)
            requires
                k == (y * cw + x) * 4 + i,
                0 <= x < cw,
                0 <= y < ch - 1,
                0 <= i < 4,
        ;
        lemma_convert_rect_index(bytes, stride, x0, y0, cw, (ch - 1) as nat, swap_rb, opaque, x, y, i);
    } else {
        assert(k - cw * (ch - 1) * 4 == x * 4 + i) by (nonlinear_arith)
            requires
                k == (y * cw + x) * 4 + i,
                y == ch - 1,
        ;
        lemma_convert_row_index(bytes, stride, x0, (y0 + ch - 1) as nat, cw, swap_rb, opaque, x, i);
        assert((head + row)[k] == row[x * 4 + i]);
    }
}

/// The top left corner of the crop: that of the content's bounding box, or
/// of the whole frame when it holds no content.
pub open spec fn crop_origin(f: FrameView) -> (int, int) {
    if has_content(f) {
        (content_bbox(f).0, content_bbox(f).1)
    } else {
        (0, 0)
    }
}

/// The cropped frame is a window of the whole frame in RGBA: there is a
/// crop exactly when there is a full conversion, and byte `i` of the
/// crop's pixel (`x`, `y`) is byte `i` of the full conversion's pixel
/// (`x0 + x`, `y0 + y`), where (`x0`, `y0`) is the crop's origin.
pub proof fn lemma_crop_is_window(
    f: FrameView,
    r: Option<(Seq<u8>, u32, u32)>,
    x: int,
    y: int,
    i: int,
)
    requires
        cropped_spec(f, r),
    ensures
        r is None <==> to_rgba_spec(f) is None,
        r matches Some((out, cw, ch)) ==> (0 <= x < cw && 0 <= y < ch && 0 <= i < 4 ==> ({
            let (x0, y0) = crop_origin(f);
            out[(y * cw + x) * 4 + i] == to_rgba_spec(f).unwrap()[((y0 + y) * f.width + x0 + x)
                * 4 + i]
        })),
{
    if let Some((out, cw, ch)) = r {
        if 0 <= x < cw && 0 <= y < ch && 0 <= i < 4 {
            let (swap_rb, opaque) = rb_opaque_spec(f.format).unwrap();
            let (x0, y0) = crop_origin(f);
            lemma_cropped_is_image(f, out, cw, ch);
            if has_content(f) {
                let (bx0, by0, bx1, by1) = content_bbox(f);
                let yx1 = choose|yy: int| content_at(f, bx1, yy);
                let xy1 = choose|xx: int| content_at(f, xx, by1);
                let yx0 = choose|yy: int| content_at(f, bx0, yy);
                let xy0 = choose|xx: int| content_at(f, xx, by0);
                assert(content_at(f, bx1, yx1));
                assert(content_at(f, xy1, by1));
                assert(content_at(f, bx0, yx0));
                assert(content_at(f, xy0, by0));
                lemma_convert_rect_index(
                    f.bytes,
                    f.stride as nat,
                    bx0 as nat,
                    by0 as nat,
                    (bx1 - bx0 + 1) as nat,
                    (by1 - by0 + 1) as nat,
                    swap_rb,
                    opaque,
                    x,
                    y,
                    i,
                );
                assert(0 <= x0 + x < f.width);
                assert(0 <= y0 + y < f.height);
            }
            lemma_convert_rect_index(
                f.bytes,
                f.stride as nat,
                0,
                0,
                f.width as nat,
                f.height as nat,
                swap_rb,
                opaque,
                x0 + x,
                y0 + y,
                i,
            );
        }
    }
}

/// Byte `k` of pixel (`x`, `y`) of the frame.
pub open spec fn pixel_byte(f: FrameView, x: int, y: int, k: int) -> u8 {
    f.bytes[y * f.stride + x * 4 + k]
}

/// Whether `g` has the size, layout and buffer length of `f`, and the same
/// first three (color) bytes in each pixel: the two frames differ at most in
/// the fourth byte of their pixels (alpha or padding) and outside the
/// pixels.
pub open spec fn same_colors(f: FrameView, g: FrameView) -> bool {
    &&& f.width == g.width
    &&& f.height == g.height
    &&& f.stride == g.stride
    &&& f.format == g.format
    &&& f.bytes.len() == g.bytes.len()
    &&& forall|x: int, y: int, k: int|
        0 <= x < f.width && 0 <= y < f.height && 0 <= k < 3 ==> #[trigger] pixel_byte(f, x, y, k)
            == pixel_byte(g, x, y, k)
}

/// The crop is decided by the color bytes alone: two frames that differ
/// only in the fourth byte of their pixels are both cropped or both not,
/// to the same width and height, at the same place.
pub proof fn lemma_crop_ignores_fourth_byte(
    f: FrameView,
    g: FrameView,
    rf: Option<(Seq<u8>, u32, u32)>,
    rg: Option<(Seq<u8>, u32, u32)>,
)
    requires
        same_colors(f, g),
        cropped_spec(f, rf),
        cropped_spec(g, rg),
    ensures
        rf is None <==> rg is None,
        rf matches Some((of, fw, fh)) ==> (rg matches Some((og, gw, gh)) && fw == gw && fh == gh),
        rf is Some ==> crop_origin(f) == crop_origin(g),
{
    assert forall|x: int, y: int| content_at(f, x, y) == content_at(g, x, y) by {
        if 0 <= x < f.width && 0 <= y < f.height {
            assert(pixel_byte(f, x, y, 0) == pixel_byte(g, x, y, 0));
            assert(pixel_byte(f, x, y, 1) == pixel_byte(g, x, y, 1));
            assert(pixel_byte(f, x, y, 2) == pixel_byte(g, x, y, 2));
        }
    }
    assert(has_content(f) == has_content(g)) by {
        if has_content(f) {
            let (x, y) = choose|x: int, y: int| content_at(f, x, y);
            assert(content_at(g, x, y));
        }
        if has_content(g) {
            let (x, y) = choose|x: int, y: int| content_at(g, x, y);
            assert(content_at(f, x, y));
        }
    }
    if rf is Some && has_content(f) {
        let b = content_bbox(f);
        let c = content_bbox(g);
        assert(is_bbox(f, b.0, b.1, b.2, b.3));
        assert(is_bbox(g, c.0, c.1, c.2, c.3));
        assert(is_bbox(f, c.0, c.1, c.2, c.3)) by {
            assert forall|x: int, y: int| #[trigger] content_at(f, x, y) implies c.0 <= x <= c.2
                && c.1 <= y <= c.3 by {
                assert(content_at(g, x, y));
            }
            let y0 = choose|y: int| content_at(g, c.0, y);
            assert(content_at(f, c.0, y0));
            let y2 = choose|y: int| content_at(g, c.2, y);
            assert(content_at(f, c.2, y2));
            let x1 = choose|x: int| content_at(g, x, c.1);
            assert(content_at(f, x1, c.1));
            let x3 = choose|x: int| content_at(g, x, c.3);
            assert(content_at(f, x3, c.3));
        }
        lemma_bbox_unique(f, b, c);
    }
}

} // verus!
