use amaryllis::error::AvatarError;
use amaryllis::initials::extract_initials;
use amaryllis::Avatar;

use noise::NoiseFn;

#[test]
fn initials_two_words() {
    let avatar = Avatar::new(200, 200, Some("John Doe"), Some([0, 0, 0, 255]));
    assert_eq!(avatar.initials, Some("JD".to_string()));
    assert_eq!(avatar.text_color, Some([0, 0, 0, 255]));
}

#[test]
fn initials_three_words_take_first_and_last() {
    let avatar = Avatar::new(200, 200, Some("John Middlename Doe"), Some([0, 0, 0, 255]));
    assert_eq!(avatar.initials, Some("JD".to_string()));
}

#[test]
fn initials_single_word() {
    let avatar = Avatar::new(64, 64, Some("John"), Some([1, 2, 3, 4]));
    assert_eq!(avatar.initials, Some("J".to_string()));
}

#[test]
fn initials_skip_empty_tokens() {
    assert_eq!(extract_initials("  John   Doe  "), "JD".to_string());
    assert_eq!(extract_initials("John "), "J".to_string());
    assert_eq!(extract_initials(""), "".to_string());
    assert_eq!(extract_initials("   "), "".to_string());
}

#[test]
fn name_without_color_suppresses_initials() {
    let avatar = Avatar::new(200, 200, Some("John Doe"), None);
    assert_eq!(avatar.initials, None);
    assert_eq!(avatar.text_color, None);
}

#[test]
fn no_name_no_initials() {
    let avatar = Avatar::new(200, 200, None, Some([9, 9, 9, 9]));
    assert_eq!(avatar.initials, None);
    assert_eq!(avatar.text_color, None);
}

#[test]
fn simple_fills_every_pixel() {
    let avatar = Avatar::new(7, 5, None, None);
    let buf = avatar.simple([10, 20, 30, 40]).unwrap();
    assert_eq!(buf.width, 7);
    assert_eq!(buf.height, 5);
    assert_eq!(buf.data.len(), 35);
    for y in 0..5u32 {
        for x in 0..7u32 {
            assert_eq!(buf.pixel(x, y), [10, 20, 30, 40]);
        }
    }
}

#[test]
fn simple_white_two_hundred_square() {
    let avatar = Avatar::new(200, 200, None, None);
    let buf = avatar.simple([255, 255, 255, 255]).unwrap();
    assert_eq!((buf.width, buf.height), (200, 200));
    for pixel in &buf.data {
        assert_eq!(*pixel, [255, 255, 255, 255]);
    }
}

#[test]
fn one_by_one_buffer() {
    let avatar = Avatar::new(1, 1, None, None);
    let buf = avatar.simple([5, 6, 7, 8]).unwrap();
    assert_eq!((buf.width, buf.height), (1, 1));
    assert_eq!(buf.data, vec![[5, 6, 7, 8]]);
}

#[test]
fn simple_rejects_zero_width() {
    let avatar = Avatar::new(0, 10, None, None);
    assert_eq!(avatar.simple([0, 0, 0, 0]), Err(AvatarError::InvalidDimensions));
}

#[test]
fn simple_rejects_negative_height() {
    let avatar = Avatar::new(10, -3, None, None);
    assert_eq!(avatar.simple([0, 0, 0, 0]), Err(AvatarError::InvalidDimensions));
}

#[test]
fn gradient_rejects_bad_dimensions() {
    let avatar = Avatar::new(-1, 10, None, None);
    assert_eq!(avatar.gradient(&vec![]), Err(AvatarError::InvalidDimensions));
}

#[test]
fn gradient_places_samples_row_major() {
    let avatar = Avatar::new(2, 2, None, None);
    let colors = vec![
        [1, 0, 0, 255],
        [0, 1, 0, 255],
        [0, 0, 1, 255],
        [9, 9, 9, 255],
    ];
    let buf = avatar.gradient(&colors).unwrap();
    assert_eq!((buf.width, buf.height), (2, 2));
    assert_eq!(buf.pixel(0, 0), [1, 0, 0, 255]);
    assert_eq!(buf.pixel(1, 0), [0, 1, 0, 255]);
    assert_eq!(buf.pixel(0, 1), [0, 0, 1, 255]);
    assert_eq!(buf.pixel(1, 1), [9, 9, 9, 255]);
    assert_eq!(buf.data, colors);
}

fn remap_f64(t: f64, a: f64, b: f64, c: f64, d: f64) -> f64 {
    (t - a) * ((d - c) / (b - a)) + c
}

fn sample_colors(
    width: u32,
    height: u32,
    noise_scale: f64,
    gradient: &colorgrad::Gradient,
    seed: u32,
) -> Vec<[u8; 4]> {
    let field = noise::OpenSimplex::new(seed);
    let mut colors = Vec::new();
    for y in 0..height {
        for x in 0..width {
            let t = field.get([x as f64 * noise_scale, y as f64 * noise_scale]);
            let rgba = gradient.at(remap_f64(t, -1.0, 1.0, 0.0, 1.0)).to_rgba8();
            colors.push(rgba);
        }
    }
    colors
}

#[test]
fn gradient_with_pinned_seed_is_deterministic() {
    let avatar = Avatar::new(32, 24, None, None);
    let first = sample_colors(32, 24, 0.0025, &colorgrad::reds(), 42);
    let second = sample_colors(32, 24, 0.0025, &colorgrad::reds(), 42);
    let buf_a = avatar.gradient(&first).unwrap();
    let buf_b = avatar.gradient(&second).unwrap();
    assert_eq!(buf_a.data, buf_b.data);
    assert_eq!((buf_a.width, buf_a.height), (buf_b.width, buf_b.height));
}

#[test]
fn gradient_with_fresh_seeds_usually_differs() {
    let avatar = Avatar::new(32, 24, None, None);
    let first = sample_colors(32, 24, 0.5, &colorgrad::reds(), 1);
    let second = sample_colors(32, 24, 0.5, &colorgrad::reds(), 2);
    let buf_a = avatar.gradient(&first).unwrap();
    let buf_b = avatar.gradient(&second).unwrap();
    assert_ne!(buf_a.data, buf_b.data);
}

#[test]
fn overlay_inputs_present_only_with_name_and_color() {
    let with_both = Avatar::new(200, 200, Some("John Doe"), Some([0, 0, 0, 255]));
    let (initials, color) = with_both.overlay_inputs().unwrap();
    assert_eq!(initials, "JD");
    assert_eq!(color, [0, 0, 0, 255]);

    let without_color = Avatar::new(200, 200, Some("John Doe"), None);
    assert!(without_color.overlay_inputs().is_none());

    let without_name = Avatar::new(200, 200, None, Some([0, 0, 0, 255]));
    assert!(without_name.overlay_inputs().is_none());
}

#[test]
fn text_position_centers_and_lifts() {
    let avatar = Avatar::new(200, 200, Some("John Middlename Doe"), Some([0, 0, 0, 255]));
    let (x, y) = avatar.text_position(50, 30);
    assert_eq!((x, y), (75, 79));
    // A zero-size text box sits at the center, six pixels up.
    assert_eq!(avatar.text_position(0, 0), (100, 94));
}

#[test]
fn construct_two_hundred_square_scenario() {
    let avatar = Avatar::new(200, 200, Some("John Middlename Doe"), Some([0, 0, 0, 255]));
    assert_eq!(avatar.initials, Some("JD".to_string()));
    let buf = avatar.simple([255, 255, 255, 255]).unwrap();
    assert_eq!((buf.width, buf.height), (200, 200));
    for pixel in &buf.data {
        assert_eq!(*pixel, [255, 255, 255, 255]);
    }
}
