use ray_tracer::color::Rgb;
use ray_tracer::ppm;
use ray_tracer::reorder::Row;

#[test]
fn header_has_magic_size_and_range() {
    assert_eq!(ppm::header(256, 256), "P3\n256 256\n255\n");
    assert_eq!(ppm::header(1200, 800), "P3\n1200 800\n255\n");
}

#[test]
fn row_line_writes_space_separated_triples() {
    let pixels = vec![Rgb::new(12, 34, 56), Rgb::new(0, 255, 63)];
    assert_eq!(ppm::row_line(&pixels), "12 34 56 0 255 63 \n");
}

#[test]
fn row_line_of_no_pixels_is_bare_newline() {
    let pixels: Vec<Rgb> = Vec::new();
    assert_eq!(ppm::row_line(&pixels), "\n");
}

#[test]
fn gradient_two_by_two_whole_image() {
    // Top row (image row 1) first: green is full there; red rises with the
    // column; blue is held at a quarter of the channel range.
    assert_eq!(
        ppm::gradient_ppm(2, 2),
        "P3\n2 2\n255\n0 255 63 255 255 63 \n0 0 63 255 0 63 \n"
    );
}

#[test]
fn gradient_256_shape_and_corners() {
    let image = ppm::gradient_ppm(256, 256);
    let lines: Vec<&str> = image.lines().collect();
    // Header: magic, dimensions, channel range; then one line per row.
    assert_eq!(lines.len(), 3 + 256);
    assert_eq!(lines[0], "P3");
    assert_eq!(lines[1], "256 256");
    assert_eq!(lines[2], "255");
    for line in &lines[3..] {
        assert_eq!(line.split_whitespace().count(), 3 * 256);
    }
    // Top-left pixel: column 0 of image row 255.
    let first: Vec<&str> = lines[3].split_whitespace().take(3).collect();
    assert_eq!(first, vec!["0", "255", "63"]);
    // Last emitted row is image row 0; its last pixel is column 255.
    let last_line: Vec<&str> = lines[3 + 255].split_whitespace().collect();
    assert_eq!(&last_line[last_line.len() - 3..], ["255", "0", "63"]);
    // Same row's first pixel.
    assert_eq!(&last_line[..3], ["0", "0", "63"]);
}

#[test]
fn batch_lines_writes_each_row_as_one_line() {
    let rows = vec![
        Row {
            enumerator: 0,
            colors: vec![Rgb::new(1, 2, 3)],
        },
        Row {
            enumerator: 1,
            colors: vec![Rgb::new(4, 5, 6), Rgb::new(7, 8, 9)],
        },
    ];
    assert_eq!(ppm::batch_lines(&rows), "1 2 3 \n4 5 6 7 8 9 \n");
    assert_eq!(ppm::batch_lines(&Vec::new()), "");
}
