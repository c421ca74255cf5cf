//! Screenshots in memory and the click marker drawn on them.

use vstd::prelude::*;

verus! {

/// An RGBA image: `width`×`height` pixels of four bytes, row after row.
pub struct RgbaImage {
    width: u32,
    height: u32,
    data: Vec<u8>,
}

/// Mathematical view of an [`RgbaImage`].
#[verifier::ext_equal]
pub struct RgbaImageView {
    pub width: u32,
    pub height: u32,
    pub data: Seq<u8>,
}

impl View for RgbaImage {
    type V = RgbaImageView;

    closed spec fn view(&self) -> RgbaImageView {
        RgbaImageView { width: self.width, height: self.height, data: self.data@ }
    }
}

/// Whether the buffer holds exactly the pixels of the image.
pub open spec fn well_formed(img: RgbaImageView) -> bool {
    img.data.len() == img.width * img.height * 4
}

/// Byte offset of pixel (`x`, `y`).
pub open spec fn pixel_offset(width: nat, x: nat, y: nat) -> nat {
    (y * width + x) * 4
}

/// The four bytes of pixel (`x`, `y`).
pub open spec fn pixel(img: RgbaImageView, x: nat, y: nat) -> Seq<u8> {
    let o = pixel_offset(img.width as nat, x, y) as int;
    img.data.subrange(o, o + 4)
}

/// The color of the click marker.
pub open spec fn marker_red() -> Seq<u8> {
    seq![235u8, 30u8, 30u8, 255u8]
}

/// Whether offset (`dx`, `dy`) from the click lies on the marker: a ring of
/// outer radius 16 and thickness 3.
pub open spec fn ring_hit(dx: int, dy: int) -> bool {
    &&& -16 <= dx <= 16
    &&& -16 <= dy <= 16
    &&& 13 * 13 <= dx * dx + dy * dy <= 16 * 16
}

/// Whether the marker centered on (`cx`, `cy`) paints pixel (`x`, `y`) of an
/// image of the given size (whose dimensions are read as `i32`).
pub open spec fn marker_covers(cx: i32, cy: i32, x: nat, y: nat, width: u32, height: u32) -> bool {
    &&& ring_hit(x - cx, y - cy)
    &&& (x as int) < (width as i32) as int
    &&& (y as int) < (height as i32) as int
}

/// Distinct pixels have disjoint bytes.
proof fn lemma_pixels_disjoint(w: nat, h: nat, x: nat, y: nat, x2: nat, y2: nat)
    requires
        x < w,
        x2 < w,
        y < h,
        y2 < h,
    ensures
        (x != x2 || y != y2) ==> (pixel_offset(w, x, y) + 4 <= pixel_offset(w, x2, y2)
            || pixel_offset(w, x2, y2) + 4 <= pixel_offset(w, x, y)),
        pixel_offset(w, x, y) + 4 <= w * h * 4,
        y * w + x + 1 <= w * h,
        0 <= y * w,
{
    if x != x2 || y != y2 {
    assert(y * w + x + 1 <= y2 * w + x2 || y2 * w + x2 + 1 <= y * w + x) by (nonlinear_arith)
        requires
            x < w,
            x2 < w,
            x != x2 || y != y2,
    ;
    }
    assert(y * w + x + 1 <= w * h) by (nonlinear_arith)
        requires
            x < w,
            y < h,
    ;
    assert(0 <= y * w) by (nonlinear_arith);
}

impl RgbaImage {
    /// An image from its raw bytes; `None` unless the buffer holds exactly
    /// `width`×`height` pixels of four bytes.
    pub fn from_raw(width: u32, height: u32, data: Vec<u8>) -> (r: Option<RgbaImage>)
        ensures
            r matches Some(img) ==> img@ == (RgbaImageView { width, height, data: data@ }),
            r is None <==> data@.len() != width * height * 4,
    {
        assert((width as u64) * (height as u64) <= u64::MAX) by (nonlinear_arith)
            requires
                width <= u32::MAX,
                height <= u32::MAX,
        ;
        let n: u64 = (width as u64) * (height as u64);
        if n > (usize::MAX / 4) as u64 {
            let len = data.len();
            assert(data@.len() != width * height * 4);
            return None;
        }
        if data.len() != (n as usize) * 4 {
            return None;
        }
        Some(RgbaImage { width, height, data })
    }

    /// The raw bytes, row after row.
    pub fn into_raw(self) -> (r: Vec<u8>)
        ensures
            r@ == self@.data,
            well_formed(self@),
    {
        proof {
            use_type_invariant(&self);
        }
        self.data
    }

    /// Width in pixels.
    pub fn width(&self) -> (r: u32)
        ensures
            r == self@.width,
    {
        self.width
    }

    /// Height in pixels.
    pub fn height(&self) -> (r: u32)
        ensures
            r == self@.height,
    {
        self.height
    }

    /// The buffer holds exactly the pixels of the image.
    #[verifier::type_invariant]
    closed spec fn inv(&self) -> bool {
        well_formed(self@)
    }

}

/// Sets pixel (`x`, `y`) of the raw buffer of a `width`×`height` image to
/// `rgba`.
fn put_pixel(data: &mut Vec<u8>, width: u32, height: u32, x: u32, y: u32, rgba: [u8; 4])
    requires
        old(data)@.len() == width * height * 4,
        x < width,
        y < height,
    ensures
        final(data)@.len() == old(data)@.len(),
        pixel(RgbaImageView { width, height, data: final(data)@ }, x as nat, y as nat) == rgba@,
        forall|x2: nat, y2: nat|
            x2 < width && y2 < height && (x2 != x || y2 != y) ==> #[trigger] pixel(
                RgbaImageView { width, height, data: final(data)@ },
                x2,
                y2,
            ) == pixel(RgbaImageView { width, height, data: old(data)@ }, x2, y2),
{
    proof {
        lemma_pixels_disjoint(width as nat, height as nat, x as nat, y as nat, x as nat, y as nat);
    }
    let len = data.len();
    let o: usize = ((y as usize) * (width as usize) + (x as usize)) * 4;
    let ghost before = data@;
    data.set(o, rgba[0]);
    data.set(o + 1, rgba[1]);
    data.set(o + 2, rgba[2]);
    data.set(o + 3, rgba[3]);
    proof {
        assert(pixel(RgbaImageView { width, height, data: data@ }, x as nat, y as nat) =~= rgba@);
        assert forall|x2: nat, y2: nat|
            x2 < width && y2 < height && (x2 != x || y2 != y) implies #[trigger] pixel(
            RgbaImageView { width, height, data: data@ },
            x2,
            y2,
        ) == pixel(RgbaImageView { width, height, data: before }, x2, y2) by {
            lemma_pixels_disjoint(width as nat, height as nat, x as nat, y as nat, x2, y2);
            lemma_pixels_disjoint(width as nat, height as nat, x2, y2, x2, y2);
            let o2 = pixel_offset(width as nat, x2, y2) as int;
            assert forall|k: int| o2 <= k < o2 + 4 implies data@[k] == before[k] by {}
            assert(pixel(RgbaImageView { width, height, data: data@ }, x2, y2) =~= pixel(
                RgbaImageView { width, height, data: before },
                x2,
                y2,
            ));
        }
    }
}

/// The length of the span from `from` to `to`, zero when `to` is not past
/// `from`.
pub open spec fn span_len(from: int, to: int) -> int {
    if to > from {
        to - from
    } else {
        0
    }
}

/// The width and height of a window from the edges of its rectangle (left,
/// top, right, bottom, in screen pixels); an edge before its opposite one
/// gives zero.
pub fn window_size(left: i32, top: i32, right: i32, bottom: i32) -> (r: (u32, u32))
    requires
        i32::MIN <= right - left <= i32::MAX,
        i32::MIN <= bottom - top <= i32::MAX,
    ensures
        r.0 == span_len(left as int, right as int),
        r.1 == span_len(top as int, bottom as int),
{
    let w: i32 = right - left;
    let h: i32 = bottom - top;
    let width: u32 = if w > 0 {
        w as u32
    } else {
        0
    };
    let height: u32 = if h > 0 {
        h as u32
    } else {
        0
    };
    (width, height)
}

/// Whether offset (`dx`, `dy`) comes before offset (`ddx`, `ddy`) in the
/// order in which the marker is drawn (row by row).
pub open spec fn drawn_before(dx: int, dy: int, ddx: int, ddy: int) -> bool {
    dy < ddy || (dy == ddy && dx < ddx)
}

/// Draws a click marker (red ring) centered on (`cx`, `cy`), in pixels
/// relative to the image (top-left corner); the parts of the ring outside
/// the image are dropped.
pub fn draw_click_marker(image: &mut RgbaImage, cx: i32, cy: i32)
    requires
        i32::MIN + 16 <= cx <= i32::MAX - 16,
        i32::MIN + 16 <= cy <= i32::MAX - 16,
    ensures
        final(image)@.width == old(image)@.width,
        final(image)@.height == old(image)@.height,
        well_formed(final(image)@),
        forall|x: nat, y: nat|
            x < old(image)@.width && y < old(image)@.height ==> #[trigger] pixel(final(image)@, x, y)
                == if marker_covers(cx, cy, x, y, old(image)@.width, old(image)@.height) {
                marker_red()
            } else {
                pixel(old(image)@, x, y)
            },
{
    proof {
        use_type_invariant(&*image);
    }
    let red: [u8; 4] = [235, 30, 30, 255];
    let ghost old_img = image@;
    let empty: Vec<u8> = Vec::new();
    assert(empty@.len() == 0u32 * 0u32 * 4);
    let mut taken = RgbaImage { width: 0, height: 0, data: empty };
    std::mem::swap(&mut taken, image);
    let RgbaImage { width, height, mut data } = taken;
    let w: i32 = #[verifier::truncate] (width as i32);
    let h: i32 = #[verifier::truncate] (height as i32);
    proof {
        assert(width <= 0x7fff_ffff ==> (width as i32) as int == width as int) by (bit_vector);
        assert(width > 0x7fff_ffff ==> (width as i32) < 0) by (bit_vector);
        assert(height <= 0x7fff_ffff ==> (height as i32) as int == height as int) by (bit_vector);
        assert(height > 0x7fff_ffff ==> (height as i32) < 0) by (bit_vector);
        assert(red@ =~= marker_red());
    }
    let inner: i32 = 13 * 13;
    let outer: i32 = 16 * 16;
    let mut dy: i32 = -16;
    while dy <= 16
        invariant
            -16 <= dy <= 17,
            i32::MIN + 16 <= cx <= i32::MAX - 16,
            i32::MIN + 16 <= cy <= i32::MAX - 16,
            width == old_img.width,
            height == old_img.height,
            w == width as i32,
            h == height as i32,
            red@ == marker_red(),
            inner == 169,
            outer == 256,
            width <= 0x7fff_ffff ==> w as int == width as int,
            width > 0x7fff_ffff ==> w < 0,
            height <= 0x7fff_ffff ==> h as int == height as int,
            height > 0x7fff_ffff ==> h < 0,
            data@.len() == width * height * 4,
            forall|x: nat, y: nat|
                x < width && y < height ==> #[trigger] pixel(RgbaImageView { width, height, data: data@ }, x, y) == if marker_covers(
                    cx,
                    cy,
                    x,
                    y,
                    width,
                    height,
                ) && drawn_before(x - cx, y - cy, -16, dy as int) {
                    marker_red()
                } else {
                    pixel(old_img, x, y)
                },
        decreases 17 - dy,
    {
        let mut dx: i32 = -16;
        while dx <= 16
            invariant
                -16 <= dy <= 16,
                -16 <= dx <= 17,
                i32::MIN + 16 <= cx <= i32::MAX - 16,
                i32::MIN + 16 <= cy <= i32::MAX - 16,
                width == old_img.width,
                height == old_img.height,
                w == width as i32,
                h == height as i32,
                red@ == marker_red(),
                inner == 169,
                outer == 256,
                width <= 0x7fff_ffff ==> w as int == width as int,
                width > 0x7fff_ffff ==> w < 0,
                height <= 0x7fff_ffff ==> h as int == height as int,
                height > 0x7fff_ffff ==> h < 0,
                data@.len() == width * height * 4,
                forall|x: nat, y: nat|
                    x < width && y < height ==> #[trigger] pixel(RgbaImageView { width, height, data: data@ }, x, y) == if marker_covers(
                        cx,
                        cy,
                        x,
                        y,
                        width,
                        height,
                    ) && drawn_before(x - cx, y - cy, dx as int, dy as int) {
                        marker_red()
                    } else {
                        pixel(old_img, x, y)
                    },
            decreases 17 - dx,
        {
            assert(dx * dx <= 256 && dy * dy <= 256 && dx * dx >= 0 && dy * dy >= 0) by (nonlinear_arith)
                requires
                    -16 <= dx <= 16,
                    -16 <= dy <= 16,
            ;
            let dist: i32 = dx * dx + dy * dy;
            if dist <= outer && dist >= inner {
                let px: i32 = cx + dx;
                let py: i32 = cy + dy;
                if px >= 0 && py >= 0 && px < w && py < h {
                    let ghost before = data@;
                    put_pixel(&mut data, width, height, px as u32, py as u32, red);
                    proof {
                        assert forall|x: nat, y: nat| x < width && y < height implies #[trigger] pixel(
                            RgbaImageView { width, height, data: data@ },
                            x,
                            y,
                        ) == if marker_covers(cx, cy, x, y, width, height) && drawn_before(
                            x - cx,
                            y - cy,
                            dx + 1,
                            dy as int,
                        ) {
                            marker_red()
                        } else {
                            pixel(old_img, x, y)
                        } by {
                            if x != px || y != py {
                                assert(pixel(RgbaImageView { width, height, data: data@ }, x, y) == pixel(RgbaImageView { width, height, data: before }, x, y));
                            }
                        }
                    }
                } else {
                    proof {
                        assert forall|x: nat, y: nat| x < width && y < height implies #[trigger] pixel(
                            RgbaImageView { width, height, data: data@ },
                            x,
                            y,
                        ) == if marker_covers(cx, cy, x, y, width, height) && drawn_before(
                            x - cx,
                            y - cy,
                            dx + 1,
                            dy as int,
                        ) {
                            marker_red()
                        } else {
                            pixel(old_img, x, y)
                        } by {
                            if x == cx + dx && y == cy + dy {
                                assert(!marker_covers(cx, cy, x, y, width, height));
                            }
                        }
                    }
                }
            } else {
                proof {
                    assert forall|x: nat, y: nat| x < width && y < height implies #[trigger] pixel(
                        RgbaImageView { width, height, data: data@ },
                        x,
                        y,
                    ) == if marker_covers(cx, cy, x, y, width, height) && drawn_before(
                        x - cx,
                        y - cy,
                        dx + 1,
                        dy as int,
                    ) {
                        marker_red()
                    } else {
                        pixel(old_img, x, y)
                    } by {
                        if x == cx + dx && y == cy + dy {
                            assert(!ring_hit(dx as int, dy as int));
                        }
                    }
                }
            }
            dx = dx + 1;
        }
        proof {
            assert forall|x: nat, y: nat| x < width && y < height implies #[trigger] pixel(
                RgbaImageView { width, height, data: data@ },
                x,
                y,
            ) == if marker_covers(cx, cy, x, y, width, height) && drawn_before(
                x - cx,
                y - cy,
                -16,
                dy + 1,
            ) {
                marker_red()
            } else {
                pixel(old_img, x, y)
            } by {
                if marker_covers(cx, cy, x, y, width, height) {
                    assert(drawn_before(x - cx, y - cy, 17, dy as int) == drawn_before(
                        x - cx,
                        y - cy,
                        -16,
                        dy + 1,
                    ));
                }
            }
        }
        dy = dy + 1;
    }
    proof {
        assert forall|x: nat, y: nat| x < width && y < height implies #[trigger] pixel(
            RgbaImageView { width, height, data: data@ },
            x,
            y,
        ) == if marker_covers(cx, cy, x, y, width, height) {
            marker_red()
        } else {
            pixel(old_img, x, y)
        } by {
            if marker_covers(cx, cy, x, y, width, height) {
                assert(drawn_before(x - cx, y - cy, -16, 17));
            }
        }
    }
    *image = RgbaImage { width, height, data };
}

} // verus!
