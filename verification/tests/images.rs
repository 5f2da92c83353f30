use gouda::images::bmp::Bitmap;
use gouda::images::spritesheet::Spritesheet;
use gouda::images::utils::{_i16_from_bytes, _i32_from_bytes, u16_from_bytes, u32_from_bytes};
use gouda::images::{Image, Rgba8};

fn px(r: u8, g: u8, b: u8, a: u8) -> Rgba8 {
    Rgba8 { r, g, b, a }
}

#[test]
fn bytes_assemble_big_endian() {
    assert_eq!(u16_from_bytes([0x12, 0x34]), 0x1234);
    assert_eq!(u16_from_bytes([0xFF, 0xFF]), 0xFFFF);
    assert_eq!(u32_from_bytes([0x12, 0x34, 0x56, 0x78]), 0x1234_5678);
    assert_eq!(u32_from_bytes([0xFF, 0, 0, 1]), 0xFF00_0001);
    assert_eq!(_i16_from_bytes([0x7F, 0xFF]), 0x7FFF);
    assert_eq!(_i16_from_bytes([0xFF, 0xFE]), -2);
    assert_eq!(_i16_from_bytes([0x80, 0x00]), i16::MIN);
    assert_eq!(_i32_from_bytes([0x80, 0, 0, 0]), i32::MIN);
    assert_eq!(_i32_from_bytes([0xFF, 0xFF, 0xFF, 0xFF]), -1);
    assert_eq!(_i32_from_bytes([0x01, 0x02, 0x03, 0x04]), 0x0102_0304);
}

fn put_u32(c: &mut Vec<u8>, at: usize, v: u32) {
    c[at..at + 4].copy_from_slice(&v.to_le_bytes());
}

fn put_u16(c: &mut Vec<u8>, at: usize, v: u16) {
    c[at..at + 2].copy_from_slice(&v.to_le_bytes());
}

/// A 2 by 2 bitmap whose pixel data starts at byte 70.
fn two_by_two() -> Vec<u8> {
    let mut c = vec![0u8; 70];
    c[0] = b'B';
    c[1] = b'M';
    put_u32(&mut c, 2, 84);
    put_u32(&mut c, 10, 70);
    put_u32(&mut c, 14, 56);
    put_u32(&mut c, 18, 2);
    put_u32(&mut c, 22, 2);
    put_u16(&mut c, 26, 1);
    put_u16(&mut c, 28, 24);
    put_u32(&mut c, 34, 14);
    put_u32(&mut c, 38, 0xFFFF_FFFF);
    put_u32(&mut c, 42, 2835);
    put_u32(&mut c, 54, 0x00FF_0000);
    put_u32(&mut c, 66, 0xFF00_0000);
    // stored pixels, bottom row first, blue-green-red
    c.extend_from_slice(&[1, 2, 3, 4, 5, 6, 7, 8, 9, 10, 11, 12, 0, 0]);
    c
}

#[test]
fn bitmap_header_fields_are_little_endian() {
    let c = two_by_two();
    assert!(Bitmap::is_decodable(&c));
    let bmp = Bitmap::from_bytes(&c);
    let h = bmp.header;
    assert_eq!(h.file_type, 0x4D42);
    assert_eq!(h.file_size, 84);
    assert_eq!(h.bmp_offset, 70);
    assert_eq!(h.size, 56);
    assert_eq!(h.width, 2);
    assert_eq!(h.height, 2);
    assert_eq!(h.planes, 1);
    assert_eq!(h.bpp, 24);
    assert_eq!(h.size_of_bmp, 14);
    assert_eq!(h.horz_res, -1);
    assert_eq!(h.vert_res, 2835);
    assert_eq!(h.red_mask, 0x00FF_0000);
    assert_eq!(h.alpha_mask, 0xFF00_0000);
}

#[test]
fn bitmap_rows_come_out_top_first() {
    let bmp = Bitmap::from_bytes(&two_by_two());
    assert_eq!(
        bmp.contents,
        vec![px(9, 8, 7, 255), px(12, 11, 10, 255), px(3, 2, 1, 255), px(6, 5, 4, 255)]
    );
    let image = bmp.image();
    assert_eq!(image.width, 2);
    assert_eq!(image.height, 2);
    assert_eq!(image.data, bmp.contents);
}

#[test]
fn bitmap_rejects_what_it_cannot_decode() {
    let c = two_by_two();
    assert!(!Bitmap::is_decodable(&c[..69]));
    let mut small = c.clone();
    put_u32(&mut small, 34, 1);
    assert!(!Bitmap::is_decodable(&small));
    let mut too_many = c.clone();
    put_u32(&mut too_many, 18, 3);
    assert!(!Bitmap::is_decodable(&too_many));
    let mut past_end = c.clone();
    put_u32(&mut past_end, 10, 75);
    assert!(!Bitmap::is_decodable(&past_end));
    let mut empty = c.clone();
    put_u32(&mut empty, 18, 0);
    put_u32(&mut empty, 34, 2);
    assert!(Bitmap::is_decodable(&empty));
    assert!(Bitmap::from_bytes(&empty).contents.is_empty());
}

#[test]
fn raw_pixels_round_trip() {
    let image = Image { width: 2, height: 1, data: vec![px(1, 2, 3, 4), px(250, 0, 128, 255)] };
    let raw = image.raw_pixels();
    assert_eq!(raw, vec![1, 2, 3, 4, 250, 0, 128, 255]);
    let back = Image::data_from_raw_pixels(2, 1, raw);
    assert_eq!(back, image.data);
    let extra = Image::data_from_raw_pixels(1, 1, vec![9, 8, 7, 6, 5]);
    assert_eq!(extra, vec![px(9, 8, 7, 6)]);
    assert!(Image::data_from_raw_pixels(0, 3, vec![]).is_empty());
}

#[test]
fn sprite_is_cut_from_its_grid_cell() {
    // a 4 by 2 sheet of 2 columns and 1 row: two sprites of 2 by 2
    let data: Vec<Rgba8> = (0u8..8).map(|i| px(i, 0, 0, 255)).collect();
    let sheet = Spritesheet::new(1, 2, Image { width: 4, height: 2, data });
    let left = sheet.sprite(0, 0);
    assert_eq!((left.width, left.height), (2, 2));
    assert_eq!(left.data.iter().map(|p| p.r).collect::<Vec<_>>(), vec![0, 1, 4, 5]);
    let right = sheet.sprite(1, 0);
    assert_eq!(right.data.iter().map(|p| p.r).collect::<Vec<_>>(), vec![2, 3, 6, 7]);
}
