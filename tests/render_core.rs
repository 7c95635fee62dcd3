use raytracer::{
    pixel_position, Bounce, ConfigError, PathBudget, PathEnd, PixelGrid, RenderSettings, Rgb8,
};

#[test]
fn settings_accept_valid_configuration() {
    let s = RenderSettings::new(40, 20, 1, 1).unwrap();
    assert_eq!(s.image_width, 40);
    assert_eq!(s.image_height, 20);
    assert_eq!(s.sample_per_pixel, 1);
    assert_eq!(s.max_depth, 1);
    assert_eq!(s.pixel_count(), 800);
}

#[test]
fn settings_accept_zero_depth() {
    let s = RenderSettings::new(1, 1, 1, 0).unwrap();
    assert_eq!(s.max_depth, 0);
}

#[test]
fn settings_reject_zero_width() {
    assert_eq!(RenderSettings::new(0, 20, 1, 1), Err(ConfigError::ZeroWidth));
    assert_eq!(RenderSettings::new(0, 0, 0, 0), Err(ConfigError::ZeroWidth));
}

#[test]
fn settings_reject_zero_height() {
    assert_eq!(RenderSettings::new(40, 0, 1, 1), Err(ConfigError::ZeroHeight));
}

#[test]
fn settings_reject_zero_samples() {
    assert_eq!(RenderSettings::new(40, 20, 0, 1), Err(ConfigError::ZeroSamples));
}

#[test]
fn settings_reject_oversized_grid() {
    if usize::MAX as u128 <= u32::MAX as u128 * u32::MAX as u128 * 4 {
        assert_eq!(RenderSettings::new(u32::MAX, u32::MAX, 1, 1), Err(ConfigError::TooLarge));
    }
}

#[test]
fn settings_defaults() {
    let s = RenderSettings::with_defaults(960, 540).unwrap();
    assert_eq!(s.sample_per_pixel, 500);
    assert_eq!(s.max_depth, 400);
    assert_eq!(s.pixel_count(), 960 * 540);
    assert_eq!(RenderSettings::with_defaults(0, 540), Err(ConfigError::ZeroWidth));
}

#[test]
fn zero_depth_is_black_before_any_probe() {
    let budget = PathBudget::new(0);
    assert_eq!(budget.remaining(), 0);
    let end = budget.check();
    assert_eq!(end, Some(PathEnd::Exhausted));
    assert!(end.unwrap().is_black());
}

#[test]
fn miss_ends_path_with_background() {
    let mut budget = PathBudget::new(3);
    assert_eq!(budget.check(), None);
    let end = budget.record(Bounce::Missed);
    assert_eq!(end, Some(PathEnd::Escaped));
    assert!(!PathEnd::Escaped.is_black());
    assert_eq!(budget.remaining(), 3);
}

#[test]
fn absorption_ends_path_black() {
    let mut budget = PathBudget::new(2);
    assert_eq!(budget.record(Bounce::Absorbed), Some(PathEnd::Absorbed));
    assert!(PathEnd::Absorbed.is_black());
    assert_eq!(budget.remaining(), 2);
}

#[test]
fn scatters_spend_the_budget() {
    let mut budget = PathBudget::new(2);
    assert_eq!(budget.check(), None);
    assert_eq!(budget.record(Bounce::Scattered), None);
    assert_eq!(budget.remaining(), 1);
    assert_eq!(budget.check(), None);
    assert_eq!(budget.record(Bounce::Scattered), None);
    assert_eq!(budget.remaining(), 0);
    assert_eq!(budget.check(), Some(PathEnd::Exhausted));
}

#[test]
fn depth_one_allows_exactly_one_probe() {
    let mut budget = PathBudget::new(1);
    assert_eq!(budget.check(), None);
    assert_eq!(budget.record(Bounce::Scattered), None);
    assert_eq!(budget.check(), Some(PathEnd::Exhausted));
}

#[test]
fn pixel_positions_are_row_major() {
    assert_eq!(pixel_position(0, 40), (0, 0));
    assert_eq!(pixel_position(39, 40), (39, 0));
    assert_eq!(pixel_position(40, 40), (0, 1));
    assert_eq!(pixel_position(799, 40), (39, 19));
    assert_eq!(pixel_position(5, 1), (0, 5));
}

#[test]
fn new_grid_is_opaque_black() {
    let grid = PixelGrid::new(2, 3);
    assert_eq!(grid.width(), 2);
    assert_eq!(grid.height(), 3);
    assert_eq!(grid.pixel(1, 2), Rgb8 { r: 0, g: 0, b: 0 });
    let bytes = grid.into_bytes();
    assert_eq!(bytes.len(), 24);
    for (i, b) in bytes.iter().enumerate() {
        assert_eq!(*b, if i % 4 == 3 { 255 } else { 0 });
    }
}

#[test]
fn grid_from_pixels_lays_out_rgba_rows() {
    let pixels = vec![
        Rgb8 { r: 1, g: 2, b: 3 },
        Rgb8 { r: 4, g: 5, b: 6 },
        Rgb8 { r: 7, g: 8, b: 9 },
        Rgb8 { r: 10, g: 11, b: 12 },
        Rgb8 { r: 13, g: 14, b: 15 },
        Rgb8 { r: 16, g: 17, b: 18 },
    ];
    let grid = PixelGrid::from_pixels(3, 2, &pixels);
    assert_eq!(grid.pixel(0, 1), Rgb8 { r: 10, g: 11, b: 12 });
    assert_eq!(grid.pixel(2, 0), Rgb8 { r: 7, g: 8, b: 9 });
    assert_eq!(
        grid.into_bytes(),
        vec![
            1, 2, 3, 255, 4, 5, 6, 255, 7, 8, 9, 255, 10, 11, 12, 255, 13, 14, 15, 255, 16, 17,
            18, 255
        ]
    );
}

#[test]
fn set_pixel_changes_one_pixel_only() {
    let mut grid = PixelGrid::new(2, 2);
    grid.set_pixel(1, 0, Rgb8 { r: 200, g: 100, b: 50 });
    assert_eq!(grid.pixel(1, 0), Rgb8 { r: 200, g: 100, b: 50 });
    assert_eq!(grid.pixel(0, 0), Rgb8 { r: 0, g: 0, b: 0 });
    assert_eq!(grid.pixel(1, 1), Rgb8 { r: 0, g: 0, b: 0 });
    assert_eq!(
        grid.into_bytes(),
        vec![0, 0, 0, 255, 200, 100, 50, 255, 0, 0, 0, 255, 0, 0, 0, 255]
    );
}

#[test]
fn grid_converts_to_image_with_same_pixels() {
    let pixels = vec![Rgb8 { r: 9, g: 8, b: 7 }, Rgb8 { r: 1, g: 2, b: 3 }];
    let picture = PixelGrid::from_pixels(2, 1, &pixels).into_image();
    let image = picture.image;
    assert_eq!(image.width(), 2);
    assert_eq!(image.height(), 1);
    assert_eq!(image.get_pixel(0, 0).0, [9, 8, 7, 255]);
    assert_eq!(image.get_pixel(1, 0).0, [1, 2, 3, 255]);
    assert_eq!(image.into_raw(), vec![9, 8, 7, 255, 1, 2, 3, 255]);
}
