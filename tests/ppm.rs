use raytracer::ppm::{to_ppm, Rgb8};

fn px(r: u8, g: u8, b: u8) -> Rgb8 {
    Rgb8 { r, g, b }
}

#[test]
fn two_by_two_image() {
    let image = vec![
        vec![px(255, 0, 9), px(10, 99, 100)],
        vec![px(0, 0, 0), px(128, 64, 32)],
    ];
    assert_eq!(
        to_ppm(&image),
        "P3\n2 2\n255\n255 0 9 10 99 100 \n0 0 0 128 64 32 \n"
    );
}

#[test]
fn single_pixel_image() {
    let image = vec![vec![px(1, 2, 3)]];
    assert_eq!(to_ppm(&image), "P3\n1 1\n255\n1 2 3 \n");
}

#[test]
fn header_gives_width_then_height() {
    let image = vec![vec![px(7, 7, 7); 12]; 3];
    let text = to_ppm(&image);
    assert!(text.starts_with("P3\n12 3\n255\n"));
    assert_eq!(text.lines().count(), 3 + 3);
    assert_eq!(text.lines().nth(3), Some("7 7 7 ".repeat(12).as_str()));
}

#[test]
fn empty_rows_give_empty_lines() {
    let image: Vec<Vec<Rgb8>> = vec![vec![], vec![]];
    assert_eq!(to_ppm(&image), "P3\n0 2\n255\n\n\n");
}
