use image_greet::{describe, read_image, report, to_decimal, Dimensions, InspectError};

fn png_bytes(width: u32, height: u32) -> Vec<u8> {
    let img = image::DynamicImage::new_rgb8(width, height);
    let mut buf = std::io::Cursor::new(Vec::new());
    img.write_to(&mut buf, image::ImageFormat::Png).unwrap();
    buf.into_inner()
}

#[test]
fn decimal_single_digits() {
    assert_eq!(to_decimal(0), "0");
    assert_eq!(to_decimal(7), "7");
}

#[test]
fn decimal_multi_digit() {
    assert_eq!(to_decimal(10), "10");
    assert_eq!(to_decimal(640), "640");
    assert_eq!(to_decimal(u32::MAX), "4294967295");
}

#[test]
fn describe_gives_dimensions_line() {
    let d = Dimensions { width: 640, height: 480 };
    assert_eq!(describe(d), "Image dimensions: 640x480");
}

#[test]
fn describe_largest_size() {
    let d = Dimensions { width: u32::MAX, height: 1 };
    assert_eq!(describe(d), "Image dimensions: 4294967295x1");
}

#[test]
fn report_of_decoded_size() {
    assert_eq!(report(Some((3, 12))), Ok("Image dimensions: 3x12".to_string()));
}

#[test]
fn report_of_failed_decode() {
    assert_eq!(report(None), Err(InspectError::Undecodable));
}

#[test]
fn read_png_of_640_by_480() {
    let bytes = png_bytes(640, 480);
    assert_eq!(read_image(&bytes), Ok("Image dimensions: 640x480".to_string()));
}

#[test]
fn read_png_keeps_width_and_height_apart() {
    let bytes = png_bytes(2, 5);
    assert_eq!(read_image(&bytes), Ok("Image dimensions: 2x5".to_string()));
}

#[test]
fn read_empty_bytes_is_undecodable() {
    assert_eq!(read_image(&[]), Err(InspectError::Undecodable));
}

#[test]
fn read_text_bytes_is_undecodable() {
    assert_eq!(read_image(b"not an image at all"), Err(InspectError::Undecodable));
}

#[test]
fn read_truncated_png_is_undecodable() {
    let bytes = png_bytes(640, 480);
    assert_eq!(read_image(&bytes[..20]), Err(InspectError::Undecodable));
}

#[test]
fn read_twice_gives_same_report() {
    let bytes = png_bytes(17, 9);
    assert_eq!(read_image(&bytes), read_image(&bytes));
}
