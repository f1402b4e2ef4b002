use raytracer::image::Image;

#[test]
fn new_image_has_three_black_bytes_per_pixel() {
    let img = Image::new(4, 3);
    assert_eq!(img.width, 4);
    assert_eq!(img.height, 3);
    assert_eq!(img.pixels.len(), 4 * 3 * 3);
    assert!(img.pixels.iter().all(|&b| b == 0));
}

#[test]
fn set_pixel_round_trips_through_get_pixel() {
    let mut img = Image::new(5, 4);
    img.set_pixel(2, 3, 10, 20, 30);
    assert_eq!(img.get_pixel(2, 3), (10, 20, 30));
    assert_eq!(img.get_pixel(0, 0), (0, 0, 0));
    assert_eq!(img.get_pixel(3, 3), (0, 0, 0));
    assert_eq!(img.get_pixel(2, 2), (0, 0, 0));
}

#[test]
fn set_pixel_stores_row_major_bytes() {
    let mut img = Image::new(5, 4);
    img.set_pixel(2, 3, 7, 8, 9);
    let offset = (3 * 5 + 2) * 3;
    assert_eq!(&img.pixels[offset..offset + 3], &[7, 8, 9]);
}

#[test]
fn set_pixel_overwrites_previous_value() {
    let mut img = Image::new(2, 2);
    img.set_pixel(1, 0, 1, 2, 3);
    img.set_pixel(1, 0, 4, 5, 6);
    assert_eq!(img.get_pixel(1, 0), (4, 5, 6));
}

#[test]
fn pixel_writes_commute() {
    let mut first_order = Image::new(3, 3);
    first_order.set_pixel(0, 1, 1, 2, 3);
    first_order.set_pixel(2, 2, 4, 5, 6);

    let mut second_order = Image::new(3, 3);
    second_order.set_pixel(2, 2, 4, 5, 6);
    second_order.set_pixel(0, 1, 1, 2, 3);

    assert_eq!(first_order.pixels, second_order.pixels);
}

#[test]
fn encode_png_round_trips_through_a_decoder() {
    let mut img = Image::new(2, 2);
    img.set_pixel(0, 0, 255, 0, 0);
    img.set_pixel(1, 0, 0, 255, 0);
    img.set_pixel(0, 1, 0, 0, 255);
    img.set_pixel(1, 1, 10, 20, 30);
    let bytes = img.encode_png().expect("a 2x2 RGB image must encode");

    let decoder = png::Decoder::new(std::io::Cursor::new(bytes));
    let mut reader = decoder.read_info().expect("the stream must parse as PNG");
    let mut buf = vec![0u8; reader.output_buffer_size().unwrap()];
    let info = reader.next_frame(&mut buf).expect("the frame must decode");
    assert_eq!(info.width, 2);
    assert_eq!(info.height, 2);
    assert_eq!(info.color_type, png::ColorType::Rgb);
    assert_eq!(info.bit_depth, png::BitDepth::Eight);
    assert_eq!(&buf[..info.buffer_size()], img.pixels.as_slice());
}

#[test]
fn encode_png_rejects_an_empty_image() {
    let img = Image::new(0, 0);
    assert!(img.encode_png().is_none());
}

#[test]
fn one_pixel_image_round_trips() {
    let mut img = Image::new(1, 1);
    img.set_pixel(0, 0, 9, 8, 7);
    assert_eq!(img.get_pixel(0, 0), (9, 8, 7));
    assert_eq!(img.pixels, vec![9, 8, 7]);
}

#[test]
fn corner_pixels_stay_inside_the_raster() {
    let mut img = Image::new(640, 480);
    img.set_pixel(639, 479, 1, 2, 3);
    img.set_pixel(0, 479, 4, 5, 6);
    img.set_pixel(639, 0, 7, 8, 9);
    assert_eq!(img.get_pixel(639, 479), (1, 2, 3));
    assert_eq!(img.get_pixel(0, 479), (4, 5, 6));
    assert_eq!(img.get_pixel(639, 0), (7, 8, 9));
    assert_eq!(img.pixels.len(), 640 * 480 * 3);
}
