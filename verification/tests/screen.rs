use sakipet::screen::{encode_screenshot, sample_colours_of, screen_fingerprint, test_image_data_url, ScreenImage};

fn solid(width: u32, height: u32, pixel: [u8; 4]) -> ScreenImage {
    let mut rgba = Vec::new();
    for _ in 0..(width * height) {
        rgba.extend_from_slice(&pixel);
    }
    ScreenImage { width, height, rgba }
}

fn gradient(width: u32, height: u32) -> ScreenImage {
    let mut rgba = Vec::new();
    for y in 0..height {
        for x in 0..width {
            rgba.extend_from_slice(&[(x * 7) as u8, (y * 13) as u8, ((x + y) * 3) as u8, 255]);
        }
    }
    ScreenImage { width, height, rgba }
}

#[test]
fn provider_test_picture_is_a_jpeg_data_url() {
    let url = test_image_data_url().unwrap();
    assert!(url.starts_with("data:image/jpeg;base64,/9j/"));
    assert!(url.len() > "data:image/jpeg;base64,".len() + 100);
}

#[test]
fn fingerprint_samples_a_grid_and_quantizes_each_channel() {
    let image = gradient(32, 18);
    let colours = sample_colours_of(&image);
    assert_eq!(colours.len(), 576);
    assert_eq!(colours[0], (0, 0, 0));
    assert_eq!(colours[31], ((31 * 7 / 32) as u8, 0, (31 * 3 / 32) as u8));
    assert_eq!(colours[32 * 17 + 5], ((5 * 7 / 32) as u8, (17 * 13 / 32) as u8, (22 * 3 / 32) as u8));
}

#[test]
fn small_colour_changes_keep_the_fingerprint() {
    let a = solid(64, 40, [100, 100, 100, 255]);
    let b = solid(64, 40, [101, 110, 120, 255]);
    let c = solid(64, 40, [200, 100, 100, 255]);
    assert_eq!(screen_fingerprint(&a), screen_fingerprint(&b));
    assert_ne!(screen_fingerprint(&a), screen_fingerprint(&c));
}

#[test]
fn large_screenshots_are_shrunk_and_fingerprinted_whole() {
    let image = gradient(1500, 20);
    let fingerprint = screen_fingerprint(&image);
    let (url, encoded_fingerprint) = encode_screenshot(image).unwrap();
    assert_eq!(encoded_fingerprint, fingerprint);
    assert!(url.starts_with("data:image/jpeg;base64,/9j/"));
}

#[test]
fn small_screenshots_are_sent_as_captured() {
    let (url, _) = encode_screenshot(solid(3, 2, [10, 20, 30, 255])).unwrap();
    assert!(url.starts_with("data:image/jpeg;base64,/9j/"));
}
