use palette_scale::color::{dist_squared, Color};
use palette_scale::error::ScaleError;
use palette_scale::palette::Palette;
use palette_scale::raster::Image;
use palette_scale::snap::{snap, snap_color};
use rand::rngs::StdRng;
use rand::SeedableRng;

const BLACK: Color = Color { r: 0, g: 0, b: 0, a: 255 };
const WHITE: Color = Color { r: 255, g: 255, b: 255, a: 255 };
const RED: Color = Color { r: 255, g: 0, b: 0, a: 255 };
const GREEN: Color = Color { r: 0, g: 255, b: 0, a: 255 };

fn four_colors() -> Palette {
    Palette::from_colors(&vec![BLACK, WHITE, RED, GREEN])
}

#[test]
fn snap_color_keeps_a_palette_color() {
    let palette = four_colors();
    let mut rng = StdRng::seed_from_u64(1);
    for _ in 0..100 {
        assert_eq!(snap_color(&palette, GREEN, &mut rng), Some(GREEN));
    }
}

#[test]
fn snap_color_of_an_empty_palette_is_none() {
    let palette = Palette::from_colors(&Vec::new());
    let mut rng = StdRng::seed_from_u64(1);
    assert_eq!(snap_color(&palette, GREEN, &mut rng), None);
}

#[test]
fn snap_color_with_one_nearest_color_is_deterministic() {
    let palette = four_colors();
    for seed in 0..200u64 {
        let mut rng = StdRng::seed_from_u64(seed);
        assert_eq!(snap_color(&palette, Color::new(240, 20, 3, 250), &mut rng), Some(RED));
    }
}

#[test]
fn snap_color_picks_each_of_two_tied_colors_about_half_the_time() {
    let low = Color::new(0, 0, 0, 255);
    let high = Color::new(2, 0, 0, 255);
    let palette = Palette::from_colors(&vec![low, high, WHITE]);
    let mut rng = StdRng::seed_from_u64(2021);
    let mut lows: u32 = 0;
    let mut highs: u32 = 0;
    for _ in 0..4000 {
        match snap_color(&palette, Color::new(1, 0, 0, 255), &mut rng) {
            Some(c) if c == low => lows += 1,
            Some(c) if c == high => highs += 1,
            other => panic!("not a nearest color: {:?}", other),
        }
    }
    assert_eq!(lows + highs, 4000);
    assert!(lows > 1800 && lows < 2200, "{} of 4000", lows);
    assert!(highs > 1800 && highs < 2200, "{} of 4000", highs);
}

#[test]
fn snap_color_picks_each_of_three_tied_colors_about_a_third_of_the_time() {
    let a = Color::new(11, 10, 10, 255);
    let b = Color::new(10, 11, 10, 255);
    let c = Color::new(10, 10, 11, 255);
    let palette = Palette::from_colors(&vec![a, b, c]);
    let mut rng = StdRng::seed_from_u64(7);
    let mut counts: [u32; 3] = [0; 3];
    for _ in 0..6000 {
        let out = snap_color(&palette, Color::new(10, 10, 10, 255), &mut rng).unwrap();
        let i: usize = [a, b, c].iter().position(|p| *p == out).unwrap();
        counts[i] += 1;
    }
    for n in counts.iter() {
        assert!(*n > 1800 && *n < 2200, "{:?} of 6000", counts);
    }
}

#[test]
fn snap_color_is_reproducible_from_a_seed() {
    let a = Color::new(11, 10, 10, 255);
    let b = Color::new(10, 11, 10, 255);
    let palette = Palette::from_colors(&vec![a, b]);
    let mut first = StdRng::seed_from_u64(99);
    let mut second = StdRng::seed_from_u64(99);
    for _ in 0..500 {
        let x = snap_color(&palette, Color::new(10, 10, 10, 255), &mut first);
        let y = snap_color(&palette, Color::new(10, 10, 10, 255), &mut second);
        assert_eq!(x, y);
    }
}

#[test]
fn snap_refuses_an_empty_palette_and_leaves_the_image() {
    let pixels = vec![RED, GREEN, Color::new(1, 2, 3, 4), WHITE];
    let mut img = Image::from_pixels(2, 2, pixels.clone()).unwrap();
    let palette = Palette::from_colors(&Vec::new());
    let mut rng = StdRng::seed_from_u64(1);
    assert_eq!(snap(&mut img, &palette, &mut rng), Err(ScaleError::EmptySourceImage));
    assert_eq!(img.pixels(), &pixels);
}

#[test]
fn snap_replaces_every_pixel_by_its_nearest_palette_color() {
    let pixels = vec![
        Color::new(250, 3, 0, 255),
        GREEN,
        Color::new(10, 10, 10, 200),
        Color::new(200, 220, 210, 255),
        Color::new(0, 200, 40, 255),
        BLACK,
    ];
    let mut img = Image::from_pixels(3, 2, pixels).unwrap();
    let mut rng = StdRng::seed_from_u64(5);
    assert_eq!(snap(&mut img, &four_colors(), &mut rng), Ok(()));
    assert_eq!(img.pixels(), &vec![RED, GREEN, BLACK, WHITE, GREEN, BLACK]);
    assert_eq!(img.width(), 3);
    assert_eq!(img.height(), 2);
}

#[test]
fn snap_leaves_an_image_of_palette_colors_unchanged() {
    let pixels = vec![RED, GREEN, BLACK, WHITE, WHITE, RED];
    let mut img = Image::from_pixels(2, 3, pixels.clone()).unwrap();
    let mut rng = StdRng::seed_from_u64(5);
    assert_eq!(snap(&mut img, &four_colors(), &mut rng), Ok(()));
    assert_eq!(img.pixels(), &pixels);
}

#[test]
fn snap_assigns_a_color_at_the_minimum_distance() {
    let palette_colors = vec![
        Color::new(10, 200, 30, 255),
        Color::new(200, 10, 30, 255),
        Color::new(30, 10, 200, 255),
        Color::new(90, 90, 90, 128),
        Color::new(105, 105, 105, 255),
    ];
    let palette = Palette::from_colors(&palette_colors);
    let mut pixels = Vec::new();
    for i in 0..64u32 {
        let v: u8 = (i * 4) as u8;
        pixels.push(Color::new(v, 255 - v, v / 2, 255 - (i as u8)));
    }
    let mut img = Image::from_pixels(8, 8, pixels.clone()).unwrap();
    let mut rng = StdRng::seed_from_u64(11);
    assert_eq!(snap(&mut img, &palette, &mut rng), Ok(()));
    for (before, after) in pixels.iter().zip(img.pixels().iter()) {
        assert!(palette.contains(after));
        let least: i32 = palette_colors.iter().map(|p| dist_squared(p, before)).min().unwrap();
        assert_eq!(dist_squared(after, before), least);
    }
}

#[test]
fn snap_twice_changes_nothing_more() {
    let pixels = vec![Color::new(128, 128, 0, 255); 12];
    let palette = four_colors();
    let mut img = Image::from_pixels(4, 3, pixels).unwrap();
    let mut rng = StdRng::seed_from_u64(3);
    assert_eq!(snap(&mut img, &palette, &mut rng), Ok(()));
    let once = img.pixels().clone();
    assert!(once.iter().all(|c| *c == RED || *c == GREEN));
    assert_eq!(snap(&mut img, &palette, &mut rng), Ok(()));
    assert_eq!(img.pixels(), &once);
}
