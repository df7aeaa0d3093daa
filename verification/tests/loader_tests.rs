use wallpaper::image::loader::{ImageLoader, Pixmap};
use wallpaper::image::transform::ScalingMode;
use wallpaper::WallpaperError;

fn ramp(width: u32, height: u32) -> Pixmap {
    let n = (width * height * 4) as usize;
    Pixmap { width, height, data: (0..n).map(|i| (i % 256) as u8).collect() }
}

#[test]
fn preload_takes_an_image_once() {
    let mut loader = ImageLoader::new();
    assert_eq!(loader.decode_count(), 0);
    assert!(!loader.is_cached("a.jpg"));
    assert!(loader.cached("a.jpg").is_none());
    let first = loader.preload("a.jpg", 2, 1, vec![1, 2, 3, 4, 5, 6, 7, 8]).unwrap();
    assert_eq!((first.width, first.height), (2, 1));
    assert_eq!(first.data, vec![1, 2, 3, 4, 5, 6, 7, 8]);
    assert_eq!(loader.decode_count(), 1);
    assert!(loader.is_cached("a.jpg"));
    let again = loader.preload("a.jpg", 1, 1, vec![9, 9, 9, 9]).unwrap();
    assert_eq!(again.data, vec![1, 2, 3, 4, 5, 6, 7, 8]);
    assert_eq!(loader.decode_count(), 1);
    let held = loader.cached("a.jpg").unwrap();
    assert_eq!((held.width, held.height, held.data), (2, 1, vec![1, 2, 3, 4, 5, 6, 7, 8]));
}

#[test]
fn preload_cuts_a_long_buffer_and_refuses_a_short_one() {
    let mut loader = ImageLoader::new();
    let cut = loader.preload("long.jpg", 1, 1, vec![1, 2, 3, 4, 5, 6]).unwrap();
    assert_eq!(cut.data, vec![1, 2, 3, 4]);
    assert!(matches!(
        loader.preload("short.jpg", 2, 2, vec![0; 15]),
        Err(WallpaperError::Memory(_))
    ));
    assert!(!loader.is_cached("short.jpg"));
    assert_eq!(loader.decode_count(), 1);
}

#[test]
fn scale_image_copies_an_image_of_the_right_size() {
    let source = ramp(3, 2);
    let scaled = ImageLoader::scale_image(&source, 3, 2).unwrap();
    assert_eq!((scaled.width, scaled.height), (3, 2));
    assert_eq!(scaled.data, source.data);
}

#[test]
fn scale_image_shrinks_by_nearest_pixel() {
    let source = ramp(4, 2);
    let scaled = ImageLoader::scale_image(&source, 2, 1).unwrap();
    assert_eq!((scaled.width, scaled.height), (2, 1));
    assert_eq!(scaled.data, vec![0, 1, 2, 3, 8, 9, 10, 11]);
    let column = ImageLoader::scale_image(&source, 1, 2).unwrap();
    assert_eq!(column.data, vec![0, 1, 2, 3, 16, 17, 18, 19]);
    let uneven = ImageLoader::scale_image(&ramp(3, 1), 2, 1).unwrap();
    assert_eq!(uneven.data, vec![0, 1, 2, 3, 4, 5, 6, 7]);
}

#[test]
fn scale_image_shrinks_one_side_and_grows_the_other() {
    let source = ramp(4, 1);
    let scaled = ImageLoader::scale_image(&source, 2, 2).unwrap();
    assert_eq!((scaled.width, scaled.height), (2, 2));
    assert_eq!(scaled.data, vec![0, 1, 2, 3, 8, 9, 10, 11, 0, 1, 2, 3, 8, 9, 10, 11]);
}

#[test]
fn scale_image_enlarges_to_the_size_asked_for() {
    let source = Pixmap { width: 1, height: 1, data: vec![10, 20, 30, 255] };
    let scaled = ImageLoader::scale_image(&source, 3, 2).unwrap();
    assert_eq!((scaled.width, scaled.height), (3, 2));
    assert_eq!(scaled.data.len(), 24);
    for pixel in scaled.data.chunks(4) {
        assert_eq!(pixel, &[10, 20, 30, 255]);
    }
}

#[test]
fn scale_image_refuses_to_sample_nothing() {
    assert!(matches!(
        ImageLoader::scale_image(&ramp(4, 4), 0, 2),
        Err(WallpaperError::Image(_))
    ));
    assert!(matches!(
        ImageLoader::scale_image(&ramp(4, 4), 2, 0),
        Err(WallpaperError::Image(_))
    ));
    assert!(matches!(
        ImageLoader::scale_image(&Pixmap { width: 4, height: 0, data: vec![] }, 2, 2),
        Err(WallpaperError::Image(_))
    ));
}

#[test]
fn scaling_mode_reads_its_three_names() {
    assert_eq!(ScalingMode::from_name("fill").unwrap(), ScalingMode::Fill);
    assert_eq!(ScalingMode::from_name("fit").unwrap(), ScalingMode::Fit);
    assert_eq!(ScalingMode::from_name("stretch").unwrap(), ScalingMode::Stretch);
    assert_eq!(ScalingMode::Fill.name(), "fill");
    assert_eq!(ScalingMode::Fit.name(), "fit");
    assert_eq!(ScalingMode::Stretch.name(), "stretch");
    match ScalingMode::from_name("Fill") {
        Err(WallpaperError::InvalidScaling(text)) => assert_eq!(text, "Fill"),
        _ => panic!("a name in capitals is no scaling mode"),
    }
    assert!(matches!(ScalingMode::from_name(""), Err(WallpaperError::InvalidScaling(_))));
}
