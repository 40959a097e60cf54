use raytracer::{write_ppm, Color, Image};

fn text_of(image: Image) -> String {
    let mut output = Vec::new();
    write_ppm(image, &mut output);
    String::from_utf8(output).unwrap()
}

#[test]
fn ppm_two_by_two_top_row_first() {
    let data = vec![
        Color::new(1, 2, 3),
        Color::new(4, 5, 6),
        Color::new(7, 8, 9),
        Color::new(10, 11, 12),
    ];
    let image = Image::with_data(2, 2, data);
    assert_eq!(text_of(image), "P3\n2 2\n255\n7 8 9\n10 11 12\n1 2 3\n4 5 6\n");
}

#[test]
fn ppm_header_of_an_empty_image() {
    assert_eq!(text_of(Image::new(0, 0)), "P3\n0 0\n255\n");
    assert_eq!(text_of(Image::new(0, 7)), "P3\n0 7\n255\n");
    assert_eq!(text_of(Image::new(12, 0)), "P3\n12 0\n255\n");
}

#[test]
fn ppm_single_pixel() {
    let image = Image::with_background(1, 1, Color::new(255, 0, 128));
    assert_eq!(text_of(image), "P3\n1 1\n255\n255 0 128\n");
}

#[test]
fn ppm_numbers_in_decimal() {
    let data = vec![
        Color::new(0, 9, 10),
        Color::new(99, 100, 101),
        Color::new(199, 200, 255),
    ];
    let image = Image::with_data(3, 1, data);
    assert_eq!(text_of(image), "P3\n3 1\n255\n0 9 10\n99 100 101\n199 200 255\n");
}

#[test]
fn ppm_wide_header() {
    let image = Image::new(4_294_967_295, 0);
    assert_eq!(text_of(image), "P3\n4294967295 0\n255\n");
    let image = Image::new(1_000, 1);
    let text = text_of(image);
    assert!(text.starts_with("P3\n1000 1\n255\n0 0 0\n"));
    assert_eq!(text.lines().count(), 3 + 1_000);
}

#[test]
fn ppm_rows_run_left_to_right() {
    let mut image = Image::new(3, 2);
    for y in 0..2u32 {
        for x in 0..3u32 {
            image[(x, y)] = Color::new(x as u8, y as u8, 0);
        }
    }
    assert_eq!(
        text_of(image),
        "P3\n3 2\n255\n0 1 0\n1 1 0\n2 1 0\n0 0 0\n1 0 0\n2 0 0\n"
    );
}

#[test]
fn ppm_appends_to_what_is_there() {
    let mut output = b"# kept\n".to_vec();
    write_ppm(Image::with_background(1, 2, Color::new(3, 2, 1)), &mut output);
    assert_eq!(output, b"# kept\nP3\n1 2\n255\n3 2 1\n3 2 1\n".to_vec());
}

#[test]
fn ppm_one_line_for_each_pixel() {
    let image = Image::with_background(200, 100, Color::new(255, 0, 0));
    let text = text_of(image);
    let mut lines = text.lines();
    assert_eq!(lines.next(), Some("P3"));
    assert_eq!(lines.next(), Some("200 100"));
    assert_eq!(lines.next(), Some("255"));
    let mut count = 0;
    for line in lines {
        assert_eq!(line, "255 0 0");
        count += 1;
    }
    assert_eq!(count, 200 * 100);
    assert!(text.ends_with('\n'));
}
