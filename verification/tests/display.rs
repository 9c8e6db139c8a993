use farbfeld::{decode, pack_image, pack_pixel, Pixel, Reader};

#[test]
fn pack_pixel_places_the_channels() {
    assert_eq!(pack_pixel(Pixel { r: 0x12, g: 0x34, b: 0x56, a: 0x78 }), 0x0012_3456);
    assert_eq!(pack_pixel(Pixel { r: 0xff, g: 0, b: 0, a: 0 }), 0x00ff_0000);
    assert_eq!(pack_pixel(Pixel { r: 0, g: 0xff, b: 0, a: 0 }), 0x0000_ff00);
    assert_eq!(pack_pixel(Pixel { r: 0, g: 0, b: 0xff, a: 0 }), 0x0000_00ff);
}

#[test]
fn pack_pixel_keeps_the_low_eight_bits() {
    assert_eq!(pack_pixel(Pixel { r: 0xab12, g: 0xcd34, b: 0xef56, a: 0 }), 0x0012_3456);
    assert_eq!(pack_pixel(Pixel { r: 0xffff, g: 0xffff, b: 0xffff, a: 0xffff }), 0x00ff_ffff);
    assert_eq!(pack_pixel(Pixel { r: 0x0100, g: 0x0100, b: 0x0100, a: 0 }), 0);
}

#[test]
fn pack_pixel_leaves_alpha_out() {
    let opaque = pack_pixel(Pixel { r: 1, g: 2, b: 3, a: 0xffff });
    let clear = pack_pixel(Pixel { r: 1, g: 2, b: 3, a: 0 });
    assert_eq!(opaque, 0x0001_0203);
    assert_eq!(clear, opaque);
}

#[test]
fn pack_image_packs_each_pixel_in_order() {
    let mut input = b"farbfeld".to_vec();
    input.extend_from_slice(&[0, 0, 0, 2, 0, 0, 0, 1]);
    input.extend_from_slice(&[0, 1, 0, 2, 0, 3, 0, 4]);
    input.extend_from_slice(&[0x11, 0xaa, 0x22, 0xbb, 0x33, 0xcc, 0x44, 0xdd]);
    let mut reader = Reader::new(&input);
    let image = decode(&mut reader).unwrap();
    assert_eq!(pack_image(&image), vec![0x0001_0203, 0x00aa_bbcc]);
}

#[test]
fn pack_image_of_an_empty_image_is_empty() {
    let mut input = b"farbfeld".to_vec();
    input.extend_from_slice(&[0, 0, 0, 0, 0, 0, 0, 5]);
    let mut reader = Reader::new(&input);
    let image = decode(&mut reader).unwrap();
    assert_eq!(pack_image(&image), Vec::<u32>::new());
}
