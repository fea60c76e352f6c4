use cloudshot::decode::{decode_image, pixels_from_decoded, DecodeError};

fn encode_png(width: u32, height: u32, rgba: Vec<u8>) -> Vec<u8> {
    let img = image::RgbaImage::from_raw(width, height, rgba).unwrap();
    let mut bytes: Vec<u8> = Vec::new();
    image::DynamicImage::ImageRgba8(img)
        .write_to(&mut std::io::Cursor::new(&mut bytes), image::ImageOutputFormat::Png)
        .unwrap();
    bytes
}

#[test]
fn decodes_png_into_rgba() {
    let pixels = vec![255, 0, 0, 255, 0, 255, 0, 128];
    let bytes = encode_png(2, 1, pixels.clone());
    let p = decode_image(&bytes).unwrap();
    assert_eq!(p.width, 2);
    assert_eq!(p.height, 1);
    assert_eq!(p.rgba, pixels);
}

#[test]
fn grey_png_is_widened_to_four_channels() {
    let img = image::GrayImage::from_raw(1, 2, vec![10, 200]).unwrap();
    let mut bytes: Vec<u8> = Vec::new();
    image::DynamicImage::ImageLuma8(img)
        .write_to(&mut std::io::Cursor::new(&mut bytes), image::ImageOutputFormat::Png)
        .unwrap();
    let p = decode_image(&bytes).unwrap();
    assert_eq!((p.width, p.height), (1, 2));
    assert_eq!(p.rgba, vec![10, 10, 10, 255, 200, 200, 200, 255]);
}

#[test]
fn garbage_is_malformed() {
    assert!(matches!(decode_image(&[1, 2, 3, 4, 5]), Err(DecodeError::Malformed)));
    assert!(matches!(decode_image(&[]), Err(DecodeError::Malformed)));
}

#[test]
fn truncated_png_is_malformed() {
    let bytes = encode_png(4, 4, vec![7; 64]);
    assert!(matches!(decode_image(&bytes[..bytes.len() / 2]), Err(DecodeError::Malformed)));
}

#[test]
fn decoded_results_are_checked() {
    assert!(matches!(pixels_from_decoded(None), Err(DecodeError::Malformed)));
    assert!(matches!(pixels_from_decoded(Some((0, 3, vec![]))), Err(DecodeError::Malformed)));
    assert!(matches!(pixels_from_decoded(Some((2, 2, vec![0; 15]))), Err(DecodeError::Malformed)));
    let p = pixels_from_decoded(Some((2, 2, vec![9; 16]))).unwrap();
    assert_eq!((p.width, p.height, p.rgba), (2, 2, vec![9; 16]));
}
