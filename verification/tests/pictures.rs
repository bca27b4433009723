use snek_apollo::pixels::{
    adjusted_stride, bgra_frame, bgra_frame_size, can_adjust_stride, can_assume_stride, colour_of,
    convert_bgra, convert_nv12, effective_stride, frame_buffer, frame_dimensions, frame_fits,
    locked_size, media_stride, pack,
};

#[test]
fn colours_are_packed() {
    assert_eq!(pack(0x12, 0x34, 0x56), 0x0012_3456);
    assert_eq!(pack(255, 255, 255), 0x00ff_ffff);
}

#[test]
fn colours_come_from_brightness_and_tint() {
    assert_eq!(colour_of(16, 128, 128), 0);
    assert_eq!(colour_of(235, 128, 128), 0x00ff_ffff);
    assert_eq!(colour_of(126, 128, 128), 0x0080_8080);
    assert_eq!(colour_of(81, 90, 240), 0x00ff_0000);
    assert_eq!(colour_of(0, 128, 128), 0);
    assert_eq!(colour_of(255, 255, 255), 0x00ff_7dff);
}

#[test]
fn whole_frames_are_read_pixel_by_pixel() {
    assert_eq!(bgra_frame(&[1, 2, 3, 9, 4, 5, 6, 9, 7]), vec![0x03_02_01, 0x06_05_04]);
    assert_eq!(bgra_frame_size(3, 2), 24);
}

#[test]
fn frame_with_a_stride_is_read_row_by_row() {
    let raw = [1, 2, 3, 0, 99, 4, 5, 6, 0, 99];
    let mut px = vec![0u32; 2];
    convert_bgra(&mut px, &raw, 1, 2, 5, false);
    assert_eq!(px, vec![0x03_02_01, 0x06_05_04]);
    convert_bgra(&mut px, &raw, 1, 2, 5, true);
    assert_eq!(px, vec![0x06_05_04, 0x03_02_01]);
}

#[test]
fn row_that_is_not_whole_stays_as_it_is() {
    let mut px = vec![7u32; 2];
    convert_bgra(&mut px, &[1, 2, 3, 0, 4, 5], 1, 2, 4, false);
    assert_eq!(px, vec![0x03_02_01, 7]);
}

#[test]
fn nv12_shares_tints_between_pixels() {
    let raw = [16, 235, 126, 126, 128, 128];
    let mut px = vec![0u32; 4];
    convert_nv12(&mut px, &raw, 2, 2, 2, false);
    assert_eq!(px, vec![0, 0x00ff_ffff, 0x0080_8080, 0x0080_8080]);
    convert_nv12(&mut px, &raw, 2, 2, 2, true);
    assert_eq!(px, vec![0x0080_8080, 0x0080_8080, 0, 0x00ff_ffff]);
}

#[test]
fn nv12_bytes_that_are_missing_are_black() {
    let mut px = vec![9u32; 2];
    convert_nv12(&mut px, &[235], 2, 1, 2, false);
    assert_eq!(px, vec![0x00ff_ffff, 0]);
}

#[test]
fn buffer_of_the_last_frame_is_used_again() {
    assert_eq!(frame_buffer(None, 2, 1), vec![0, 0]);
    assert_eq!(frame_buffer(Some(vec![1, 2]), 2, 1), vec![1, 2]);
    assert_eq!(frame_buffer(Some(vec![1, 2]), 3, 1), vec![0, 0, 0]);
}

#[test]
fn dimensions_stand_in_one_number() {
    assert_eq!(frame_dimensions((640 << 32) | 360), Some((640, 360)));
    assert_eq!(frame_dimensions(360), None);
    assert_eq!(frame_dimensions(640 << 32), None);
}

#[test]
fn strides_are_named_or_assumed() {
    assert_eq!(media_stride(100, 1, false), 100);
    assert_eq!(media_stride(0u32.wrapping_sub(100), 1, false), -100);
    assert_eq!(media_stride(0, 641, true), 656);
    assert_eq!(media_stride(0, 641, false), 2576);
    assert_eq!(media_stride(0, 640, true), 640);
    assert!(can_assume_stride(1920, false));
    assert!(!can_assume_stride(0x3fff_ffff, false));
    assert_eq!(effective_stride(-100), 100);
    assert_eq!(effective_stride(100), 100);
}

#[test]
fn stride_is_adjusted_to_the_size_of_the_frame() {
    // The named stride divides the frame, or the frame is no longer than its pixels.
    assert_eq!(adjusted_stride(100, 100, 10, true, 1100), 100);
    assert_eq!(adjusted_stride(99, 100, 10, true, 1000), 99);
    // A row up to a multiple of 16, or of 32.
    assert_eq!(adjusted_stride(100, 100, 10, true, 1120), 112);
    assert_eq!(adjusted_stride(100, 100, 10, true, 1280), 128);
    // The share of a row, where that is a little more than a row.
    assert_eq!(adjusted_stride(100, 100, 10, true, 1010), 101);
    assert_eq!(adjusted_stride(100, 100, 10, true, 3559), 355);
    assert_eq!(adjusted_stride(100, 100, 10, true, 3571), 100);
    assert_eq!(adjusted_stride(400, 100, 10, false, 4480), 448);
    assert!(can_adjust_stride(100, 100, 10, true, 5000));
    assert!(!can_adjust_stride(0, 100, 10, true, 1001));
    assert!(can_adjust_stride(0, 100, 10, true, 1000));
}

#[test]
fn sizes_of_frames() {
    assert_eq!(locked_size(2560, 360), 921_600);
    assert_eq!(locked_size(1 << 20, 1 << 13), 0);
    assert!(frame_fits(1920, 1080, 7680, false));
    assert!(frame_fits(1920, 1080, 1920, true));
    assert!(!frame_fits(1, 3, usize::MAX, false));
    assert!(!frame_fits(1, 3, usize::MAX, true));
}

#[test]
fn flipping_twice_changes_nothing() {
    let raw: Vec<u8> = (0..24).collect();
    let (mut upright, mut flipped) = (vec![0u32; 6], vec![0u32; 6]);
    convert_bgra(&mut upright, &raw, 2, 3, 8, false);
    convert_bgra(&mut flipped, &raw, 2, 3, 8, true);
    for row in 0..3 {
        assert_eq!(upright[2 * row..2 * row + 2], flipped[2 * (2 - row)..2 * (2 - row) + 2]);
    }
}
