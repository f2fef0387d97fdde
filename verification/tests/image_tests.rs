use vasea::{decimal, Image, Pixel, ThreadPool};

#[test]
fn todo() {
    // A whole shading pass on a small image, written out as PPM.
    let mut image: Image<12> = Image::new("out/output.ppm", 2, 2);
    image.apply_pixel_fn(&|p: Pixel, x: usize, y: usize, w: usize, h: usize| {
        let (r, g, b) = p.get_rgb();
        Pixel::new(r + (x as u8) + 1, g + (y as u8) + 2, b + (w * h) as u8)
    });
    let bytes = image.ppm_bytes();
    let mut expected: Vec<u8> = b"P6\n2 2\n255\n".to_vec();
    expected.extend_from_slice(&[1, 2, 4, 2, 2, 4, 1, 3, 4, 2, 3, 4]);
    assert_eq!(bytes, expected);
}

#[test]
fn pixel_new_and_get_rgb() {
    let p = Pixel::new(1, 2, 3);
    assert_eq!(p.get_rgb(), (1, 2, 3));
    let d = Pixel::default();
    assert_eq!(d.get_rgb(), (0, 0, 0));
    assert_eq!(Pixel::new(255, 0, 7).get_rgb(), (255, 0, 7));
}

#[test]
fn image_new_is_black() {
    let image: Image<6> = Image::new("a.ppm", 1, 2);
    assert_eq!(image.dimensions(), (1, 2));
    assert_eq!(image.path(), "a.ppm");
    assert_eq!(image.ppm_bytes(), b"P6\n1 2\n255\n\0\0\0\0\0\0".to_vec());
}

#[test]
fn apply_leaves_bytes_past_the_pixels() {
    // 1 x 1 pixels in a buffer of 5 bytes: the last two bytes stay.
    let mut image: Image<5> = Image::new("b.ppm", 1, 1);
    image.apply_pixel_fn(&|_p: Pixel, _x: usize, _y: usize, _w: usize, _h: usize| {
        Pixel::new(9, 8, 7)
    });
    assert_eq!(image.ppm_bytes(), b"P6\n1 1\n255\n\x09\x08\x07\0\0".to_vec());
}

#[test]
fn apply_passes_coordinates_by_row_layout() {
    // 3 x 2 image: pixel (x, y) sits at 3 * (y * 3 + x).
    let mut image: Image<18> = Image::new("c.ppm", 3, 2);
    image.apply_pixel_fn(&|_p: Pixel, x: usize, y: usize, _w: usize, _h: usize| {
        Pixel::new(x as u8, y as u8, 0)
    });
    let bytes = image.ppm_bytes();
    let data = &bytes[bytes.len() - 18..];
    assert_eq!(
        data,
        &[0, 0, 0, 1, 0, 0, 2, 0, 0, 0, 1, 0, 1, 1, 0, 2, 1, 0]
    );
}

#[test]
fn apply_on_empty_image_changes_nothing() {
    let mut image: Image<3> = Image::new("d.ppm", 0, 5);
    image.apply_pixel_fn(&|_p: Pixel, _x: usize, _y: usize, _w: usize, _h: usize| {
        Pixel::new(1, 1, 1)
    });
    assert_eq!(image.ppm_bytes(), b"P6\n0 5\n255\n\0\0\0".to_vec());
}

#[test]
fn decimal_digits_of_numbers() {
    assert_eq!(decimal(0), b"0".to_vec());
    assert_eq!(decimal(7), b"7".to_vec());
    assert_eq!(decimal(10), b"10".to_vec());
    assert_eq!(decimal(2560), b"2560".to_vec());
    assert_eq!(decimal(usize::MAX), usize::MAX.to_string().into_bytes());
}

#[test]
fn thread_pool_new() {
    let _pool = ThreadPool::new();
}
