use rustshot_wayland::capture::grim_pixels;
use rustshot_wayland::export::png_bytes;

#[test]
fn png_bytes_writes_a_png_file() {
    let png = png_bytes(1, 1, &[1, 2, 3, 4]).unwrap();
    assert_eq!(&png[..8], b"\x89PNG\r\n\x1a\n");
    assert!(png.len() > 8);
}

#[test]
fn png_bytes_round_trips_through_the_decoder() {
    let rgba = [10u8, 20, 30, 255, 40, 50, 60, 255, 70, 80, 90, 255, 1, 2, 3, 255];
    let png = png_bytes(2, 2, &rgba).unwrap();
    let (w, h, px) = grim_pixels(&png).unwrap();
    assert_eq!((w, h), (2, 2));
    assert_eq!(px, rgba.to_vec());
}
