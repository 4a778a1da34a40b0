use grafix::utils::image::{Image, Rgb};
use grafix::utils::raster::Raster;

fn visit_all(width: u32, height: u32) -> Vec<(u32, u32)> {
    let mut raster = Raster::new(width, height);
    let mut seen = Vec::new();
    while let Some(pixel) = raster.next_pixel(true) {
        seen.push(pixel);
    }
    seen
}

fn shade(column: u32, row: u32) -> Rgb {
    if (column + row) % 2 == 0 {
        Rgb { r: 255, g: 0, b: 0 }
    } else {
        Rgb { r: (column * 40) as u8, g: (row * 90) as u8, b: 255 }
    }
}

fn render(width: u32, scaled: u32, filename: &str) -> Vec<u8> {
    let mut image = Image::new(width, scaled, filename);
    let mut raster = Raster::new(image.width(), image.height());
    let mut file = image.take_pending();
    while let Some((column, row)) = raster.next_pixel(true) {
        image.write_pixel(shade(column, row));
        file.extend(image.take_pending());
    }
    file
}

#[test]
fn rows_from_the_top_each_from_the_left() {
    assert_eq!(visit_all(3, 2), vec![(0, 0), (1, 0), (2, 0), (0, 1), (1, 1), (2, 1)]);
}

#[test]
fn a_single_row() {
    assert_eq!(visit_all(4, 1), vec![(0, 0), (1, 0), (2, 0), (3, 0)]);
}

#[test]
fn a_single_column() {
    assert_eq!(visit_all(1, 3), vec![(0, 0), (0, 1), (0, 2)]);
}

#[test]
fn an_image_without_pixels_has_nothing_to_visit() {
    assert_eq!(visit_all(0, 5), vec![]);
    assert_eq!(visit_all(5, 0), vec![]);
    assert_eq!(visit_all(0, 0), vec![]);
}

#[test]
fn every_pixel_is_visited_once() {
    let seen = visit_all(400, 225);
    assert_eq!(seen.len(), 400 * 225);
    for (k, pixel) in seen.iter().enumerate() {
        assert_eq!(*pixel, ((k % 400) as u32, (k / 400) as u32));
    }
}

#[test]
fn the_render_stays_ended() {
    let mut raster = Raster::new(2, 1);
    assert_eq!(raster.next_pixel(true), Some((0, 0)));
    assert_eq!(raster.next_pixel(true), Some((1, 0)));
    assert_eq!(raster.next_pixel(true), None);
    assert_eq!(raster.next_pixel(true), None);
}

#[test]
fn a_failed_write_ends_the_render() {
    let mut raster = Raster::new(3, 3);
    assert_eq!(raster.next_pixel(true), Some((0, 0)));
    assert_eq!(raster.next_pixel(true), Some((1, 0)));
    assert_eq!(raster.next_pixel(false), None);
}

#[test]
fn a_render_does_not_resume_after_a_failed_write() {
    let mut raster = Raster::new(3, 3);
    assert_eq!(raster.next_pixel(true), Some((0, 0)));
    assert_eq!(raster.next_pixel(false), None);
    assert_eq!(raster.next_pixel(true), None);
    assert_eq!(raster.next_pixel(true), None);
}

#[test]
fn a_failure_before_the_first_pixel_hands_out_nothing() {
    let mut raster = Raster::new(3, 3);
    assert_eq!(raster.next_pixel(false), None);
    assert_eq!(raster.next_pixel(true), None);
}

#[test]
fn wide_images_do_not_wrap_around() {
    let mut raster = Raster::new(u32::MAX, 2);
    assert_eq!(raster.next_pixel(true), Some((0, 0)));
    assert_eq!(raster.next_pixel(true), Some((1, 0)));
}

#[test]
fn a_render_writes_the_whole_file() {
    assert_eq!(
        render(2, 2, "image.ppm"),
        b"P3\n2 2\n255\n255 0 0\n40 0 255\n0 90 255\n255 0 0\n".to_vec()
    );
}

#[test]
fn a_render_writes_one_line_for_each_pixel() {
    for (width, height) in [(1u32, 1u32), (2, 3), (16, 9), (40, 23)] {
        let file = render(width, height, "image.ppm");
        let lines = file.iter().filter(|b| **b == b'\n').count();
        assert_eq!(lines, 3 + (width * height) as usize);
        assert_eq!(file.last(), Some(&b'\n'));
    }
}

#[test]
fn a_render_under_another_name_writes_the_same_file() {
    assert_eq!(render(16, 9, "image.png"), render(16, 9, "image.ppm"));
    let file = render(16, 9, "image.png");
    assert_eq!(file.iter().filter(|b| **b == b'\n').count(), 3 + 16 * 9);
}

#[test]
fn two_renders_of_the_same_image_are_byte_identical() {
    assert_eq!(render(16, 9, "image.ppm"), render(16, 9, "image.ppm"));
    assert_eq!(render(16, 9, "first.ppm"), render(16, 9, "second.ppm"));
}

#[test]
fn a_render_of_a_flattened_image_has_one_row() {
    assert_eq!(render(2, 0, "image.ppm"), b"P3\n2 1\n255\n255 0 0\n40 0 255\n".to_vec());
}
