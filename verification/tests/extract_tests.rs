use chromash::error::ChromashError;
use chromash::extract::{
    bucket_index, color_of_bucket, dominant_color, get_average_color, histogram,
    scaled_dimensions, weight_of,
};

fn repeat(color: (u8, u8, u8), times: usize) -> Vec<(u8, u8, u8)> {
    vec![color; times]
}

fn encoded(width: u32, height: u32, color: [u8; 3], format: image::ImageFormat) -> Vec<u8> {
    let img = image::RgbImage::from_pixel(width, height, image::Rgb(color));
    let mut bytes = std::io::Cursor::new(Vec::new());
    img.write_to(&mut bytes, format).unwrap();
    bytes.into_inner()
}

fn png(width: u32, height: u32, color: [u8; 3]) -> Vec<u8> {
    encoded(width, height, color, image::ImageFormat::Png)
}

#[test]
fn uniform_image_gives_its_bucket() {
    assert_eq!(dominant_color(&repeat((200, 30, 30), 16)), (192, 16, 16));
    assert_eq!(dominant_color(&repeat((255, 0, 255), 2)), (240, 0, 240));
    assert_eq!(dominant_color(&repeat((17, 33, 49), 1000)), (16, 32, 48));
    assert_eq!(dominant_color(&repeat((16, 32, 48), 3)), (16, 32, 48));
}

#[test]
fn every_uniform_image_gives_its_bucket() {
    for r in (0..=255u8).step_by(5) {
        for g in (0..=255u8).step_by(15) {
            for b in (0..=255u8).step_by(51) {
                let floor = ((r / 16) * 16, (g / 16) * 16, (b / 16) * 16);
                assert_eq!(dominant_color(&repeat((r, g, b), 1)), floor);
                assert_eq!(dominant_color(&repeat((r, g, b), 3)), floor);
            }
        }
    }
}

#[test]
fn no_pixels_give_middle_grey() {
    assert_eq!(dominant_color(&Vec::new()), (128, 128, 128));
}

#[test]
fn grey_pixels_give_their_bucket() {
    assert_eq!(dominant_color(&repeat((100, 100, 100), 4)), (96, 96, 96));
    assert_eq!(dominant_color(&repeat((10, 10, 10), 50)), (0, 0, 0));
    assert_eq!(dominant_color(&repeat((250, 255, 245), 50)), (240, 240, 240));
    assert_eq!(dominant_color(&repeat((128, 128, 128), 1)), (128, 128, 128));
}

#[test]
fn a_single_pixel_gives_its_bucket() {
    assert_eq!(dominant_color(&repeat((200, 30, 30), 1)), (192, 16, 16));
}

#[test]
fn pixels_that_all_score_nothing_give_the_first_bucket() {
    // One pixel each: every score is zero, and the bucket with the lowest number stays.
    let mut pixels = repeat((200, 30, 30), 1);
    pixels.push((30, 200, 30));
    pixels.push((30, 30, 200));
    assert_eq!(dominant_color(&pixels), (16, 16, 192));
    // Greys have no weight, however many there are.
    let mut pixels = repeat((200, 200, 200), 9);
    pixels.extend(repeat((40, 40, 40), 2));
    assert_eq!(dominant_color(&pixels), (32, 32, 32));
    // A single coloured pixel scores zero too, and comes after the grey bucket.
    let mut pixels = repeat((200, 30, 30), 1);
    pixels.extend(repeat((40, 40, 40), 7));
    assert_eq!(dominant_color(&pixels), (32, 32, 32));
}

#[test]
fn colourful_beats_frequent_grey() {
    let mut pixels = repeat((128, 128, 128), 500);
    pixels.extend(repeat((200, 40, 40), 2));
    assert_eq!(dominant_color(&pixels), (192, 32, 32));
}

#[test]
fn frequency_decides_between_equal_weights() {
    let mut pixels = repeat((200, 40, 40), 5);
    pixels.extend(repeat((40, 200, 40), 6));
    assert_eq!(dominant_color(&pixels), (32, 192, 32));
    let mut pixels = repeat((200, 40, 40), 6);
    pixels.extend(repeat((40, 200, 40), 5));
    assert_eq!(dominant_color(&pixels), (192, 32, 32));
}

#[test]
fn weight_of_a_colour() {
    // chroma above 30, mean between 50 and 200: 30 * 2
    assert_eq!(weight_of((192, 32, 32)), 60);
    // chroma above 30, mean 16: 30 * 1
    assert_eq!(weight_of((48, 0, 0)), 30);
    // chroma 16, mean 96: 16 * 2
    assert_eq!(weight_of((96, 96, 112)), 32);
    // chroma 16, mean 5: 16 * 1
    assert_eq!(weight_of((16, 0, 0)), 16);
    // no chroma
    assert_eq!(weight_of((128, 128, 128)), 0);
    // chroma 32, mean 229
    assert_eq!(weight_of((240, 240, 208)), 30);
    // mean exactly 50 and exactly 200 count as extreme
    assert_eq!(weight_of((100, 50, 0)), 30);
    assert_eq!(weight_of((250, 200, 150)), 30);
    assert_eq!(weight_of((101, 52, 0)), 60);
    assert_eq!(weight_of((249, 199, 149)), 60);
    // chroma exactly 30 is not yet full
    assert_eq!(weight_of((130, 100, 100)), 60);
    assert_eq!(weight_of((129, 100, 100)), 58);
}

#[test]
fn half_weight_needs_the_square_of_the_count() {
    // (48, 0, 0) has weight 30, (192, 32, 32) has weight 60.
    // 4 dark pixels against 2 bright ones: 4^30 = 2^60, a tie, and the first bucket stays.
    let mut pixels = repeat((48, 0, 0), 4);
    pixels.extend(repeat((192, 32, 32), 2));
    assert_eq!(dominant_color(&pixels), (48, 0, 0));
    // 5 against 2: 5^30 > 2^60.
    let mut pixels = repeat((48, 0, 0), 5);
    pixels.extend(repeat((192, 32, 32), 2));
    assert_eq!(dominant_color(&pixels), (48, 0, 0));
    // 3 against 2: 3^30 < 2^60.
    let mut pixels = repeat((48, 0, 0), 3);
    pixels.extend(repeat((192, 32, 32), 2));
    assert_eq!(dominant_color(&pixels), (192, 32, 32));
    // 8 against 3: 8^30 < 3^60 = 9^30.
    let mut pixels = repeat((48, 0, 0), 8);
    pixels.extend(repeat((192, 32, 32), 3));
    assert_eq!(dominant_color(&pixels), (192, 32, 32));
    // 10 against 3: 10^30 > 9^30.
    let mut pixels = repeat((48, 0, 0), 10);
    pixels.extend(repeat((192, 32, 32), 3));
    assert_eq!(dominant_color(&pixels), (48, 0, 0));
}

#[test]
fn ties_keep_the_first_bucket() {
    let mut pixels = repeat((40, 200, 40), 7);
    pixels.extend(repeat((200, 40, 40), 7));
    assert_eq!(dominant_color(&pixels), (32, 192, 32));
    let mut pixels = repeat((200, 40, 40), 7);
    pixels.extend(repeat((40, 200, 40), 7));
    assert_eq!(dominant_color(&pixels), (32, 192, 32));
}

#[test]
fn order_of_pixels_does_not_matter() {
    let mut a = Vec::new();
    let mut b = Vec::new();
    for i in 0..300u32 {
        let p = ((i * 7 % 256) as u8, (i * 13 % 256) as u8, (i * 29 % 256) as u8);
        a.push(p);
        b.insert(0, p);
    }
    assert_eq!(dominant_color(&a), dominant_color(&b));
}

#[test]
fn result_is_always_a_bucket_floor() {
    for seed in 0..40u32 {
        let mut pixels = Vec::new();
        for i in 0..(seed * 3) {
            let x = i.wrapping_mul(2654435761).wrapping_add(seed * 97);
            pixels.push(((x >> 3) as u8, (x >> 11) as u8, (x >> 19) as u8));
        }
        let (r, g, b) = dominant_color(&pixels);
        assert_eq!((r % 16, g % 16, b % 16), (0, 0, 0));
    }
}

#[test]
fn large_counts_are_compared_exactly() {
    let mut pixels = repeat((200, 40, 40), 16384);
    pixels.extend(repeat((40, 40, 200), 16383));
    assert_eq!(dominant_color(&pixels), (192, 32, 32));
    let mut pixels = repeat((200, 40, 40), 16383);
    pixels.extend(repeat((40, 40, 200), 16384));
    assert_eq!(dominant_color(&pixels), (32, 32, 192));
}

#[test]
fn buckets_and_their_colours() {
    assert_eq!(bucket_index((0, 0, 0)), 0);
    assert_eq!(bucket_index((255, 255, 255)), 4095);
    assert_eq!(bucket_index((16, 32, 48)), 256 + 2 * 16 + 3);
    assert_eq!(bucket_index((31, 47, 63)), 256 + 2 * 16 + 3);
    assert_eq!(color_of_bucket(0), (0, 0, 0));
    assert_eq!(color_of_bucket(4095), (240, 240, 240));
    assert_eq!(color_of_bucket(256 + 2 * 16 + 3), (16, 32, 48));
    for i in 0..4096usize {
        assert_eq!(bucket_index(color_of_bucket(i)), i);
    }
}

#[test]
fn histogram_counts_each_bucket() {
    let mut pixels = repeat((200, 40, 40), 3);
    pixels.extend(repeat((207, 47, 47), 2));
    pixels.push((0, 0, 0));
    let counts = histogram(&pixels);
    assert_eq!(counts.len(), 4096);
    assert_eq!(counts[bucket_index((192, 32, 32))], 5);
    assert_eq!(counts[0], 1);
    assert_eq!(counts.iter().sum::<u64>(), 6);
}

#[test]
fn small_images_keep_their_size() {
    assert_eq!(scaled_dimensions(100, 100), (100, 100));
    assert_eq!(scaled_dimensions(128, 128), (128, 128));
    assert_eq!(scaled_dimensions(1, 128), (1, 128));
    assert_eq!(scaled_dimensions(0, 0), (0, 0));
}

#[test]
fn large_images_come_down_to_128() {
    assert_eq!(scaled_dimensions(256, 128), (128, 64));
    assert_eq!(scaled_dimensions(129, 129), (128, 128));
    assert_eq!(scaled_dimensions(129, 1), (128, 1));
    // 200 * 128 / 300 = 85.33
    assert_eq!(scaled_dimensions(300, 200), (128, 85));
    assert_eq!(scaled_dimensions(200, 300), (85, 128));
    // 10 * 128 / 1000 = 1.28
    assert_eq!(scaled_dimensions(1000, 10), (128, 1));
    // 1 * 128 / 3000 = 0.04: never less than one
    assert_eq!(scaled_dimensions(3000, 1), (128, 1));
    assert_eq!(scaled_dimensions(3000, 0), (128, 1));
    // 3 * 128 / 768 = 0.5: a half rounds up
    assert_eq!(scaled_dimensions(3, 768), (1, 128));
    // 9 * 128 / 768 = 1.5
    assert_eq!(scaled_dimensions(768, 9), (128, 2));
    // 257 * 128 / 771 = 42.67
    assert_eq!(scaled_dimensions(257, 771), (43, 128));
    assert_eq!(scaled_dimensions(u32::MAX, u32::MAX), (128, 128));
    assert_eq!(scaled_dimensions(u32::MAX, 1), (128, 1));
}

#[test]
fn decodes_a_small_image() {
    assert_eq!(get_average_color(&png(4, 4, [200, 30, 30]), "a.png").unwrap(), (192, 16, 16));
    assert_eq!(get_average_color(&png(128, 128, [17, 33, 200]), "a.png").unwrap(), (16, 32, 192));
}

#[test]
fn decodes_a_grey_image() {
    assert_eq!(get_average_color(&png(2, 2, [100, 100, 100]), "a.png").unwrap(), (96, 96, 96));
}

#[test]
fn decodes_and_scales_a_large_image() {
    assert_eq!(get_average_color(&png(300, 200, [200, 30, 30]), "a.png").unwrap(), (192, 16, 16));
    assert_eq!(get_average_color(&png(1, 500, [40, 200, 120]), "a.png").unwrap(), (32, 192, 112));
}

#[test]
fn scaled_and_unscaled_pick_the_same_colour() {
    let mut img = image::RgbImage::from_pixel(400, 300, image::Rgb([200, 30, 30]));
    for x in 0..400 {
        for y in 0..100 {
            img.put_pixel(x, y, image::Rgb([30, (x % 256) as u8, 200]));
        }
    }
    let mut bytes = std::io::Cursor::new(Vec::new());
    img.write_to(&mut bytes, image::ImageFormat::Png).unwrap();
    let large = get_average_color(&bytes.into_inner(), "large.png").unwrap();
    let small_img = image::imageops::resize(&img, 128, 96, image::imageops::FilterType::CatmullRom);
    let mut bytes = std::io::Cursor::new(Vec::new());
    small_img.write_to(&mut bytes, image::ImageFormat::Png).unwrap();
    let small = get_average_color(&bytes.into_inner(), "small.png").unwrap();
    for c in [large.0, large.1, large.2, small.0, small.1, small.2] {
        assert_eq!(c % 16, 0);
    }
    assert_eq!(large, small);
}

#[test]
fn a_one_pixel_image_gives_its_bucket() {
    assert_eq!(get_average_color(&png(1, 1, [200, 30, 30]), "a.png").unwrap(), (192, 16, 16));
}

#[test]
fn the_bytes_decide_the_format_before_the_path() {
    let bytes = png(4, 4, [200, 30, 30]);
    assert_eq!(get_average_color(&bytes, "a.jpg").unwrap(), (192, 16, 16));
    assert_eq!(get_average_color(&bytes, "a").unwrap(), (192, 16, 16));
    assert_eq!(get_average_color(&bytes, "").unwrap(), (192, 16, 16));
    let bytes = encoded(4, 4, [40, 200, 120], image::ImageFormat::Bmp);
    assert_eq!(get_average_color(&bytes, "a.png").unwrap(), (32, 192, 112));
}

#[test]
fn the_path_names_the_format_where_the_bytes_do_not() {
    let bytes = encoded(4, 4, [200, 30, 30], image::ImageFormat::Tga);
    assert_eq!(get_average_color(&bytes, "/w/a.tga").unwrap(), (192, 16, 16));
    assert_eq!(get_average_color(&bytes, "/w/a.TGA").unwrap(), (192, 16, 16));
    assert!(matches!(get_average_color(&bytes, "/w/a"), Err(ChromashError::Json(_))));
    assert!(matches!(get_average_color(&bytes, "/w/a.txt"), Err(ChromashError::Json(_))));
}

#[test]
fn bytes_that_are_no_image_fail() {
    match get_average_color(b"this is not an image", "a.txt") {
        Err(ChromashError::Json(text)) => {
            assert!(text.starts_with("Failed to decode: "));
            assert!(text.len() > "Failed to decode: ".len());
        }
        other => panic!("unexpected: {:?}", other),
    }
    assert!(matches!(get_average_color(b"this is not an image", "a.png"), Err(ChromashError::Json(_))));
    assert!(matches!(get_average_color(&[], ""), Err(ChromashError::Json(_))));
    let mut cut = png(4, 4, [1, 2, 3]);
    cut.truncate(20);
    assert!(matches!(get_average_color(&cut, "a.png"), Err(ChromashError::Json(_))));
}
