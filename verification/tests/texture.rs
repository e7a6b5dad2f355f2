use std::io::Cursor;
use tone::render::texture::decode_image_bytes;

fn encode_png(width: u32, height: u32, rgba: Vec<u8>) -> Vec<u8> {
    let img = image::RgbaImage::from_raw(width, height, rgba).unwrap();
    let mut bytes = Cursor::new(Vec::new());
    img.write_to(&mut bytes, image::ImageFormat::Png).unwrap();
    bytes.into_inner()
}

#[test]
fn decodes_png_into_rgba_pixels() {
    let rgba = vec![
        255, 0, 0, 255, 0, 255, 0, 128, 0, 0, 255, 255, //
        10, 20, 30, 40, 50, 60, 70, 80, 90, 100, 110, 120,
    ];
    let png = encode_png(3, 2, rgba.clone());
    let decoded = decode_image_bytes(&png).unwrap();
    assert_eq!((decoded.width, decoded.height), (3, 2));
    assert_eq!(decoded.rgba, rgba);
    assert_eq!(decoded.decode_ms, 0);
    assert_ne!(decoded.rgba, png);
}

#[test]
fn rejects_bytes_that_are_no_image() {
    assert!(decode_image_bytes(b"not an image at all").is_err());
    assert!(decode_image_bytes(&[]).is_err());
}

#[test]
fn decoded_pixels_are_four_bytes_each() {
    let rgba: Vec<u8> = (0..5 * 7 * 4).map(|i| i as u8).collect();
    let decoded = decode_image_bytes(&encode_png(5, 7, rgba)).unwrap();
    assert_eq!(decoded.rgba.len(), 4 * 5 * 7);
    let gray = image::GrayImage::from_raw(3, 2, vec![1, 2, 3, 4, 5, 6]).unwrap();
    let mut bytes = Cursor::new(Vec::new());
    gray.write_to(&mut bytes, image::ImageFormat::Png).unwrap();
    let decoded = decode_image_bytes(&bytes.into_inner()).unwrap();
    assert_eq!(decoded.rgba.len(), 4 * 3 * 2);
    assert_eq!(&decoded.rgba[..8], &[1, 1, 1, 255, 2, 2, 2, 255]);
}
