use palette_scale::color::Color;
use palette_scale::palette::Palette;
use palette_scale::raster::Image;

const BLACK: Color = Color { r: 0, g: 0, b: 0, a: 255 };
const WHITE: Color = Color { r: 255, g: 255, b: 255, a: 255 };
const RED: Color = Color { r: 255, g: 0, b: 0, a: 255 };
const GREEN: Color = Color { r: 0, g: 255, b: 0, a: 255 };

#[test]
fn palette_lists_each_color_once_in_order_of_first_appearance() {
    let img = Image::from_pixels(3, 2, vec![RED, BLACK, RED, WHITE, BLACK, RED]).unwrap();
    let palette = Palette::from_image(&img);
    assert_eq!(palette.colors(), &vec![RED, BLACK, WHITE]);
    assert_eq!(palette.len(), 3);
    assert!(!palette.is_empty());
}

#[test]
fn palette_of_an_empty_image_is_empty() {
    let img = Image::from_pixels(0, 0, Vec::new()).unwrap();
    let palette = Palette::from_image(&img);
    assert!(palette.is_empty());
    assert_eq!(palette.len(), 0);
    assert!(palette.colors().is_empty());
    assert!(!palette.contains(&BLACK));
}

#[test]
fn palette_of_a_uniform_image_has_one_color() {
    let img = Image::from_pixels(4, 4, vec![GREEN; 16]).unwrap();
    let palette = Palette::from_image(&img);
    assert_eq!(palette.colors(), &vec![GREEN]);
}

#[test]
fn palette_contains_exactly_the_colors_of_the_source() {
    let palette = Palette::from_colors(&vec![BLACK, WHITE, BLACK]);
    assert!(palette.contains(&BLACK));
    assert!(palette.contains(&WHITE));
    assert!(!palette.contains(&RED));
    assert!(!palette.contains(&Color::new(0, 0, 0, 254)));
    assert!(!palette.contains(&Color::new(255, 0, 0, 0)));
}

#[test]
fn palette_tells_colors_apart_that_differ_in_one_channel() {
    let palette = Palette::from_colors(&vec![
        Color::new(1, 0, 0, 0),
        Color::new(0, 1, 0, 0),
        Color::new(0, 0, 1, 0),
        Color::new(0, 0, 0, 1),
    ]);
    assert_eq!(palette.len(), 4);
    assert!(palette.contains(&Color::new(0, 0, 1, 0)));
    assert!(!palette.contains(&Color::new(0, 0, 0, 0)));
    assert!(!palette.contains(&Color::new(1, 1, 0, 0)));
}

#[test]
fn min_distance_of_an_empty_palette_is_none() {
    let palette = Palette::from_colors(&Vec::new());
    assert_eq!(palette.min_distance(&RED), None);
}

#[test]
fn min_distance_is_the_least_squared_distance() {
    let palette = Palette::from_colors(&vec![BLACK, WHITE, RED, GREEN]);
    assert_eq!(palette.min_distance(&Color::new(250, 10, 0, 255)), Some(25 + 100));
    assert_eq!(palette.min_distance(&WHITE), Some(0));
    assert_eq!(palette.min_distance(&Color::new(0, 0, 0, 0)), Some(65025));
}

#[test]
fn nearest_colors_of_an_empty_palette_are_none() {
    let palette = Palette::from_colors(&Vec::new());
    assert!(palette.nearest_colors(&RED).is_empty());
}

#[test]
fn nearest_colors_of_a_palette_color_is_that_color() {
    let palette = Palette::from_colors(&vec![BLACK, WHITE, RED, GREEN]);
    assert_eq!(palette.nearest_colors(&RED), vec![RED]);
}

#[test]
fn nearest_colors_with_one_nearest() {
    let palette = Palette::from_colors(&vec![BLACK, WHITE, RED, GREEN]);
    assert_eq!(palette.nearest_colors(&Color::new(200, 30, 30, 255)), vec![RED]);
    assert_eq!(palette.nearest_colors(&Color::new(20, 30, 30, 255)), vec![BLACK]);
}

#[test]
fn nearest_colors_lists_every_tied_color_in_palette_order() {
    let palette = Palette::from_colors(&vec![WHITE, GREEN, BLACK, RED]);
    // (128, 128, 0) is as far from green as from red, and farther from black and white.
    let c = Color::new(128, 128, 0, 255);
    assert_eq!(palette.nearest_colors(&c), vec![GREEN, RED]);
}

#[test]
fn nearest_colors_selects_the_whole_palette_when_all_are_tied() {
    let a = Color::new(11, 10, 10, 255);
    let b = Color::new(10, 11, 10, 255);
    let c = Color::new(10, 10, 11, 255);
    let d = Color::new(10, 10, 10, 254);
    let palette = Palette::from_colors(&vec![a, b, c, d]);
    assert_eq!(palette.nearest_colors(&Color::new(10, 10, 10, 255)), vec![a, b, c, d]);
}

#[test]
fn nearest_colors_with_two_colors_and_no_tie() {
    let palette = Palette::from_colors(&vec![BLACK, WHITE]);
    assert_eq!(palette.nearest_colors(&Color::new(127, 127, 127, 255)), vec![BLACK]);
    assert_eq!(palette.nearest_colors(&Color::new(128, 128, 128, 255)), vec![WHITE]);
}
