use squirrel_scanner::yuv::{
    planar_layout, planar_pair_to_rgb, yuv422_interleaved_to_rgb24, yuv422_planar_to_rgb24,
    yuyv_group_to_rgb,
};

fn tag(y: u8, cb: u8, cr: u8) -> (u8, u8, u8) {
    (y, cb, cr)
}

// BT.709 conversion as the camera pipeline computes it.
fn ycbcr_to_rgb(y: u8, cb: u8, cr: u8) -> (u8, u8, u8) {
    let yf = y as f32;
    let cbf = cb as f32 - 128.0f32;
    let crf = cr as f32 - 128.0f32;
    let r = yf + 0.0f32 * cbf + 1.5748f32 * crf + 0.0;
    let g = yf + -0.187324f32 * cbf + -0.468124f32 * crf + 0.0;
    let b = yf + 1.8556f32 * cbf + 0.0f32 * crf + 0.0;
    (clamp(r), clamp(g), clamp(b))
}

fn clamp(v: f32) -> u8 {
    if v < 0.0 {
        0
    } else if v > 255.0 {
        255
    } else {
        v.round() as u8
    }
}

#[test]
fn interleaved_places_samples() {
    let input = [10u8, 20, 30, 40, 50, 60, 70, 80];
    let mut out = [0u8; 12];
    yuv422_interleaved_to_rgb24(&input, &mut out, tag);
    assert_eq!(out, [10, 20, 40, 30, 20, 40, 50, 60, 80, 70, 60, 80]);
}

#[test]
fn interleaved_leaves_tail() {
    // 6 input bytes: one full group, two bytes left over; 9 output bytes.
    let input = [1u8, 2, 3, 4, 5, 6];
    let mut out = [9u8; 9];
    yuv422_interleaved_to_rgb24(&input, &mut out, tag);
    assert_eq!(out, [1, 2, 4, 3, 2, 4, 9, 9, 9]);
}

#[test]
fn interleaved_grey_is_grey() {
    // Neutral chroma (128) gives r == g == b == y.
    let input = [0u8, 128, 255, 128, 100, 128, 200, 128];
    let mut out = [7u8; 12];
    yuv422_interleaved_to_rgb24(&input, &mut out, ycbcr_to_rgb);
    assert_eq!(out, [0, 0, 0, 255, 255, 255, 100, 100, 100, 200, 200, 200]);
}

#[test]
fn interleaved_saturated_red() {
    let input = [128u8, 128, 128, 255];
    let mut out = [0u8; 6];
    yuv422_interleaved_to_rgb24(&input, &mut out, ycbcr_to_rgb);
    // r = 128 + 1.5748 * 127 = 328 -> 255; g = 128 - 0.468124 * 127 = 68.55 -> 69; b = 128
    assert_eq!(out, [255, 69, 128, 255, 69, 128]);
}

#[test]
fn interleaved_empty() {
    let input: [u8; 0] = [];
    let mut out: [u8; 0] = [];
    yuv422_interleaved_to_rgb24(&input, &mut out, tag);
    assert_eq!(out.len(), 0);
}

#[test]
fn planar_layout_offsets() {
    let l = planar_layout(16);
    assert_eq!((l.luma_len, l.chroma_len, l.cb_begin, l.cr_begin), (8, 4, 8, 12));
    let l = planar_layout(6);
    assert_eq!((l.luma_len, l.chroma_len, l.cb_begin, l.cr_begin), (3, 1, 3, 4));
}

#[test]
fn planar_places_samples() {
    // Y plane 1..=8, Cb plane 11..=14, Cr plane 21..=24
    let input = [1u8, 2, 3, 4, 5, 6, 7, 8, 11, 12, 13, 14, 21, 22, 23, 24];
    let mut out = [0u8; 24];
    yuv422_planar_to_rgb24(&input, &mut out, tag);
    assert_eq!(
        out,
        [
            1, 11, 21, 2, 11, 21, 3, 12, 22, 4, 12, 22, 5, 13, 23, 6, 13, 23, 7, 14, 24, 8, 14,
            24
        ]
    );
}

#[test]
fn planar_leaves_tail() {
    // 6 input bytes: Y plane 3 bytes, one chroma sample each; 9 output bytes.
    let input = [1u8, 2, 3, 4, 5, 6];
    let mut out = [9u8; 9];
    yuv422_planar_to_rgb24(&input, &mut out, tag);
    assert_eq!(out, [1, 4, 5, 2, 4, 5, 9, 9, 9]);
}

#[test]
fn work_items_match_whole_buffer() {
    let input = [10u8, 20, 30, 40];
    let mut out = [0u8; 6];
    yuyv_group_to_rgb(&input, &mut out, &tag);
    assert_eq!(out, [10, 20, 40, 30, 20, 40]);
    let mut out2 = [0u8; 6];
    planar_pair_to_rgb(&[1, 2], 3, 4, &mut out2, &tag);
    assert_eq!(out2, [1, 3, 4, 2, 3, 4]);
}
