use rustshot_wayland::capture::{
    alloc_pixels, dim_pixels, grim_args, grim_pixels, DecodeError, swizzle_rb_opaque, swizzle_rb_opaque_rect, swizzle_u32,
};

#[test]
fn swizzle_rb_opaque_swaps_red_blue_and_forces_alpha() {
    let src = [0x11, 0x22, 0x33, 0x44, 0xaa, 0xbb, 0xcc, 0x00];
    let mut dst = [0u8; 8];
    swizzle_rb_opaque(&src, &mut dst);
    assert_eq!(dst, [0x33, 0x22, 0x11, 0xff, 0xcc, 0xbb, 0xaa, 0xff]);
}

#[test]
fn swizzle_u32_exact_value() {
    assert_eq!(swizzle_u32(0x4433_2211), 0xff11_2233);
    assert_eq!(swizzle_u32(0x0000_0000), 0xff00_0000);
}

#[test]
fn swizzle_twice_restores_colour_channels() {
    for px in [0u32, 0x1234_5678, 0xdead_beef, 0x00ff_00ff] {
        assert_eq!(swizzle_u32(swizzle_u32(px)), px | 0xff00_0000);
    }
}

#[test]
fn swizzle_rect_touches_only_the_rect() {
    // 3x2 image, swizzle the 2x1 rect at (1, 1).
    let src: Vec<u8> = (0..24).collect();
    let mut dst = vec![7u8; 24];
    swizzle_rb_opaque_rect(&src, &mut dst, 3, 1, 1, 2, 1);
    let mut want = vec![7u8; 24];
    // pixel (1,1) starts at byte (1*3+1)*4 = 16; pixel (2,1) at 20.
    want[16..20].copy_from_slice(&[18, 17, 16, 0xff]);
    want[20..24].copy_from_slice(&[22, 21, 20, 0xff]);
    assert_eq!(dst, want);
}

#[test]
fn swizzle_rect_stops_at_the_buffer_end() {
    let src = vec![1u8; 8];
    let mut dst = vec![0u8; 8];
    // Rows 0..3 of a 2-pixel-wide image: only row 0 fits.
    swizzle_rb_opaque_rect(&src, &mut dst, 2, 0, 0, 2, 3);
    assert_eq!(dst, vec![1, 1, 1, 0xff, 1, 1, 1, 0xff]);
}

#[test]
fn alloc_pixels_is_zeroed() {
    let v = alloc_pixels(16);
    assert_eq!(v, vec![0u8; 16]);
}

#[test]
fn dim_halves_rgb_and_forces_alpha() {
    let src = [200u8, 101, 1, 7, 255, 0, 2, 255];
    assert_eq!(dim_pixels(&src), vec![100, 50, 0, 0xff, 127, 0, 1, 0xff]);
}

#[test]
fn grim_args_for_one_output_with_cursor() {
    assert_eq!(grim_args("eDP-1", true), vec!["-t", "ppm", "-o", "eDP-1", "-c", "-"]);
}

#[test]
fn grim_args_for_all_outputs() {
    assert_eq!(grim_args("", false), vec!["-t", "ppm", "-"]);
}

#[test]
fn grim_ppm_decodes_to_rgba() {
    let ppm = b"P6\n2 1\n255\n\x01\x02\x03\x0a\x0b\x0c";
    let (w, h, px) = grim_pixels(ppm).unwrap();
    assert_eq!((w, h), (2, 1));
    assert_eq!(px, vec![1, 2, 3, 255, 10, 11, 12, 255]);
}

#[test]
fn grim_garbage_is_not_an_image() {
    assert_eq!(grim_pixels(b"hello, not a picture").err(), Some(DecodeError::NotAnImage));
    assert_eq!(grim_pixels(b"").err(), Some(DecodeError::NotAnImage));
}
