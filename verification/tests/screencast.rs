use ssr_core::screencast::{stored_len, Frame, VideoFormat};

/// A BGRx frame `w`×`h` with a block of (white) content in the rectangle
/// `[x0,x1)×[y0,y1)`, the rest black. `stride` = `w*4` + padding.
fn frame_with_block(
    w: usize,
    h: usize,
    pad: usize,
    (x0, y0, x1, y1): (usize, usize, usize, usize),
) -> Frame {
    let stride = w * 4 + pad;
    let mut bytes = vec![0u8; stride * h];
    for y in y0..y1 {
        for x in x0..x1 {
            let p = y * stride + x * 4;
            bytes[p] = 200; // B
            bytes[p + 1] = 200; // G
            bytes[p + 2] = 200; // R
            bytes[p + 3] = 255; // x
        }
    }
    Frame::new(w as u32, h as u32, stride, VideoFormat::BGRx, bytes)
}

#[test]
fn crop_reduces_to_content_bbox() {
    // 2×2 content from (1,1) in a 4×4 frame (the rest black).
    let frame = frame_with_block(4, 4, 0, (1, 1, 3, 3));
    let (rgba, cw, ch) = frame.to_rgba_cropped().expect("crop");
    assert_eq!((cw, ch), (2, 2), "must shrink to the content block");
    assert_eq!(rgba.len(), 2 * 2 * 4);
    // BGRx(200,200,200) -> RGBA(200,200,200,255).
    assert_eq!(&rgba[0..4], &[200, 200, 200, 255]);
}

#[test]
fn crop_handles_row_padding() {
    // Same block, with stride padding: the crop must stay right although
    // rows are wider than w*4.
    let frame = frame_with_block(4, 4, 12, (2, 0, 4, 1));
    let (_, cw, ch) = frame.to_rgba_cropped().expect("crop");
    assert_eq!((cw, ch), (2, 1));
}

#[test]
fn all_black_frame_is_kept_whole() {
    let frame = frame_with_block(3, 2, 0, (0, 0, 0, 0)); // no content
    let (_, cw, ch) = frame.to_rgba_cropped().expect("whole frame");
    assert_eq!((cw, ch), (3, 2), "black frame -> kept whole");
}

#[test]
fn conversion_swaps_red_and_blue_and_keeps_alpha() {
    // One pixel per layout: bytes 10, 20, 30, 40.
    let px = vec![10u8, 20, 30, 40];
    let rgba = Frame::new(1, 1, 4, VideoFormat::RGBA, px.clone()).to_rgba().unwrap();
    assert_eq!(rgba, vec![10, 20, 30, 40]);
    let rgbx = Frame::new(1, 1, 4, VideoFormat::RGBx, px.clone()).to_rgba().unwrap();
    assert_eq!(rgbx, vec![10, 20, 30, 255]);
    let bgra = Frame::new(1, 1, 4, VideoFormat::BGRA, px.clone()).to_rgba().unwrap();
    assert_eq!(bgra, vec![30, 20, 10, 40]);
    let bgrx = Frame::new(1, 1, 4, VideoFormat::BGRx, px.clone()).to_rgba().unwrap();
    assert_eq!(bgrx, vec![30, 20, 10, 255]);
}

#[test]
fn unsupported_layout_or_short_buffer_gives_nothing() {
    let px = vec![10u8, 20, 30, 40];
    assert!(Frame::new(1, 1, 4, VideoFormat::Other, px.clone()).to_rgba().is_none());
    assert!(Frame::new(1, 1, 4, VideoFormat::Other, px.clone()).to_rgba_cropped().is_none());
    // Stride narrower than a row.
    assert!(Frame::new(2, 1, 4, VideoFormat::RGBA, vec![0u8; 8]).to_rgba().is_none());
    // Buffer shorter than stride × height.
    assert!(Frame::new(1, 2, 4, VideoFormat::RGBA, px.clone()).to_rgba_cropped().is_none());
}

#[test]
fn crop_keeps_a_single_dim_pixel_and_ignores_noise() {
    // 3×3 black frame with noise below the threshold and one pixel of content.
    let mut bytes = vec![0u8; 3 * 3 * 4];
    bytes[0] = 7; // noise at (0,0): under the threshold
    let p = (2 * 3 + 1) * 4; // (1,2)
    bytes[p + 2] = 8; // exactly at the threshold: content
    bytes[p + 3] = 99;
    let frame = Frame::new(3, 3, 12, VideoFormat::RGBA, bytes);
    let (rgba, cw, ch) = frame.to_rgba_cropped().unwrap();
    assert_eq!((cw, ch), (1, 1));
    assert_eq!(rgba, vec![0, 0, 8, 99]);
}

#[test]
fn crop_spans_scattered_content() {
    // Content at (0,1) and (3,2) in a 5×4 frame: box 4×2 from (0,1).
    let mut bytes = vec![0u8; 5 * 4 * 4];
    bytes[(1 * 5 + 0) * 4 + 1] = 50;
    bytes[(2 * 5 + 3) * 4] = 60;
    let frame = Frame::new(5, 4, 20, VideoFormat::BGRA, bytes);
    let (rgba, cw, ch) = frame.to_rgba_cropped().unwrap();
    assert_eq!((cw, ch), (4, 2));
    assert_eq!(rgba.len(), 4 * 2 * 4);
    assert_eq!(&rgba[0..4], &[0, 50, 0, 0]);
    // (3,2) is the last pixel of the crop; B=60 becomes R.
    assert_eq!(&rgba[28..32], &[0, 0, 60, 0]);
}

#[test]
fn frames_are_stored_about_every_100_ms() {
    assert!(ssr_core::screencast::keep_frame(None));
    assert!(!ssr_core::screencast::keep_frame(Some(0)));
    assert!(!ssr_core::screencast::keep_frame(Some(99)));
    assert!(ssr_core::screencast::keep_frame(Some(100)));
    assert!(ssr_core::screencast::keep_frame(Some(150)));
    assert!(ssr_core::screencast::keep_frame(Some(5_000)));
}

#[test]
fn stored_frame_length() {
    assert_eq!(stored_len(2, 3, 12, 36), Some(36));
    assert_eq!(stored_len(2, 3, 12, 100), Some(36));
    assert_eq!(stored_len(2, 3, 12, 35), None);
    assert_eq!(stored_len(0, 3, 12, 100), None);
    assert_eq!(stored_len(2, 0, 12, 100), None);
    assert_eq!(stored_len(2, 3, 0, 100), None);
}

#[test]
fn crop_is_a_window_of_the_full_conversion() {
    // Distinct bytes everywhere, with a black border around (1,1)..(3,2).
    let (w, h, stride) = (5usize, 4usize, 24usize);
    let mut bytes = vec![0u8; stride * h];
    for y in 1..3 {
        for x in 1..4 {
            let p = y * stride + x * 4;
            for i in 0..4 {
                bytes[p + i] = (10 + y * 40 + x * 8 + i) as u8;
            }
        }
    }
    let frame = Frame::new(w as u32, h as u32, stride, VideoFormat::BGRA, bytes);
    let full = frame.to_rgba().expect("full");
    let (out, cw, ch) = frame.to_rgba_cropped().expect("crop");
    assert_eq!((cw, ch), (3, 2));
    for y in 0..ch as usize {
        for x in 0..cw as usize {
            for i in 0..4 {
                assert_eq!(out[(y * cw as usize + x) * 4 + i], full[((1 + y) * w + 1 + x) * 4 + i]);
            }
        }
    }
    let other = Frame::new(1, 1, 4, VideoFormat::Other, vec![1, 2, 3, 4]);
    assert!(other.to_rgba().is_none() && other.to_rgba_cropped().is_none());
}
