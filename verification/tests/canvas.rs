use raytracer::canvas::Canvas;
use raytracer::color::Color;
use raytracer::float::MyFloat;

fn fl(x: f64) -> MyFloat {
    MyFloat::new((x * 1e9).round() as i64)
}

fn color(r: f64, g: f64, b: f64) -> Color {
    Color::new(fl(r), fl(g), fl(b))
}

#[test]
fn should_initialize_correctly() {
    let height = 20;
    let width = 10;
    let c = Canvas::new(width, height);
    let pixel = color(0.0, 0.0, 0.0);
    assert!(c.width() == width);
    assert!(c.height() == height);
    for w in 0..width {
        for h in 0..height {
            println!("{}, {}", w, h);
            let actual = c.pixel_at(w, h);
            if !actual.equals(&pixel) {
                println!("Wrong: {:?}", actual);
            }
            assert!(actual.equals(&pixel));
        }
    }
}

#[test]
fn should_permit_writing_pixels() {
    let red = color(1.0, 0.0, 0.0);
    let mut c: Canvas = Canvas::new(10, 20);
    c.write_pixel(2, 3, red);
    assert!(c.pixel_at(2, 3).equals(&red));
}

#[test]
fn should_generate_valid_ppm_header() {
    let c = Canvas::new(5, 3);
    let lines = c.to_ppm();
    assert!(lines[0] == "P3");
    assert!(lines[1] == "5 3");
    assert!(lines[2] == "255");
}

#[test]
fn should_generate_valid_ppm_pixel_data() {
    let mut c = Canvas::new(5, 3);
    let c1 = color(1.5, 0.0, 0.0);
    let c2 = color(0.0, 0.5, 0.0);
    let c3 = color(-0.5, 0.0, 1.0);
    c.write_pixel(0, 0, c1);
    c.write_pixel(2, 1, c2);
    c.write_pixel(4, 2, c3);
    let lines = c.to_ppm();
    println!("{}", lines[3]);
    println!("{}", lines[4]);
    println!("{}", lines[5]);
    assert!(lines[3] == "255 0 0 0 0 0 0 0 0 0 0 0 0 0 0");
    assert!(lines[4] == "0 0 0 0 0 0 0 128 0 0 0 0 0 0 0");
    assert!(lines[5] == "0 0 0 0 0 0 0 0 0 0 0 0 0 0 255");
}

#[test]
fn should_ensure_short_lines() {
    let width = 10;
    let height = 2;
    let mut c = Canvas::new(width, height);
    let c1 = color(1.0, 0.8, 0.6);
    for w in 0..width {
        for h in 0..height {
            c.write_pixel(w, h, c1);
        }
    }
    let lines = c.to_ppm();
    assert!(lines[3] == "255 204 153 255 204 153 255 204 153 255 204 153 255 204 153");
    assert!(lines[4] == "255 204 153 255 204 153 255 204 153 255 204 153 255 204 153");
    assert!(lines[5] == "255 204 153 255 204 153 255 204 153 255 204 153 255 204 153");
    assert!(lines[6] == "255 204 153 255 204 153 255 204 153 255 204 153 255 204 153");
}

#[test]
fn ppm_has_three_header_lines_and_the_rows() {
    let c = Canvas::new(10, 2);
    let lines = c.to_ppm();
    assert_eq!(lines.len(), 3 + 2 * 2);
}

#[test]
fn ppm_breaks_a_row_of_seven_after_five_pixels() {
    let mut c = Canvas::new(7, 1);
    c.write_pixel(5, 0, color(1.0, 1.0, 1.0));
    let lines = c.to_ppm();
    assert_eq!(lines.len(), 5);
    assert_eq!(lines[1], "7 1");
    assert_eq!(lines[3], "0 0 0 0 0 0 0 0 0 0 0 0 0 0 0");
    assert_eq!(lines[4], "255 255 255 0 0 0");
}

#[test]
fn ppm_of_a_canvas_without_columns_has_an_empty_line_per_row() {
    let c = Canvas::new(0, 2);
    let lines = c.to_ppm();
    assert_eq!(lines.len(), 5);
    assert_eq!(lines[1], "0 2");
    assert_eq!(lines[3], "");
    assert_eq!(lines[4], "");
}

#[test]
fn ppm_of_a_canvas_without_rows_is_the_header() {
    let c = Canvas::new(4, 0);
    let lines = c.to_ppm();
    assert_eq!(lines, vec!["P3", "4 0", "255"]);
}

#[test]
fn ppm_writes_sizes_of_several_digits() {
    let c = Canvas::new(120, 1);
    let lines = c.to_ppm();
    assert_eq!(lines[1], "120 1");
    assert_eq!(lines.len(), 3 + 24);
}

#[test]
fn idx_counts_row_after_row() {
    let c = Canvas::new(10, 20);
    assert_eq!(c.idx(0, 0), 0);
    assert_eq!(c.idx(9, 0), 9);
    assert_eq!(c.idx(0, 1), 10);
    assert_eq!(c.idx(2, 3), 32);
    assert_eq!(c.idx(9, 19), 199);
}

#[test]
fn writing_a_pixel_leaves_the_others() {
    let mut c = Canvas::new(3, 2);
    c.write_pixel(1, 1, color(0.25, 0.5, 0.75));
    for x in 0..3 {
        for y in 0..2 {
            if x == 1 && y == 1 {
                assert!(c.pixel_at(x, y).equals(&color(0.25, 0.5, 0.75)));
            } else {
                assert!(c.pixel_at(x, y).equals(&color(0.0, 0.0, 0.0)));
            }
        }
    }
}
