use image::imageops::FilterType;
use image::{DynamicImage, GrayImage, Luma, Rgb, RgbImage, Rgba, RgbaImage};
use walldeck::blur::{cached_copy, is_stale, needs_regen};
use walldeck::config::Config;
use walldeck::paths::Env;
use walldeck::pixels::{cover_crop, icon_pixels, Filter};
use walldeck::thumbnails::{
    announcement, failure_line, generate_one, needs_thumb, ownership_hint, pending, Times,
};

fn names(v: &[&str]) -> Vec<String> {
    v.iter().map(|s| s.to_string()).collect()
}

#[test]
fn prune_removes_copies_with_no_surviving_source() {
    assert!(
        is_stale(&names(&["still-here.png"]), "-b", "gone-b.png", false),
        "a copy for a wallpaper no longer in the list should be pruned"
    );
}

#[test]
fn prune_keeps_copies_still_needed() {
    assert!(
        !is_stale(&names(&["wall.png"]), "-b", "wall-b.png", false),
        "still-relevant generated copy must survive pruning"
    );
}

#[test]
fn prune_prefers_a_real_variant_over_a_generated_one() {
    assert!(
        is_stale(&names(&["wall.png"]), "-b", "wall-b.png", true),
        "a real variant should make the generated copy stale"
    );
}

#[test]
fn freshness_goes_by_the_times() {
    assert!(needs_thumb(Some(5), Some(4)));
    assert!(!needs_thumb(Some(5), Some(5)));
    assert!(!needs_thumb(Some(-1), Some(5)));
    assert!(needs_thumb(Some(5), None));
    assert!(needs_thumb(None, Some(5)));
    assert!(needs_regen(None, None));
    assert!(!needs_regen(Some(1), Some(2)));
}

#[test]
fn only_what_is_outdated_is_pending() {
    let images = names(&["a.png", "b.png", "c.png"]);
    let times = vec![
        Times { src: Some(1), thumb: Some(2) },
        Times { src: Some(3), thumb: Some(2) },
        Times { src: Some(1), thumb: None },
    ];
    assert_eq!(pending(&images, &times), names(&["b.png", "c.png"]));
}

#[test]
fn work_is_announced() {
    assert_eq!(announcement(0), None);
    assert_eq!(announcement(12).unwrap(), "Generating 12 thumbnail(s)…");
    assert_eq!(
        failure_line("a.png", "bad"),
        "walldeck: thumbnail generation failed for a.png: bad"
    );
}

#[test]
fn thumbnails_without_a_wallpaper_are_stale() {
    let images = names(&["a.png"]);
    assert!(!walldeck::thumbnails::is_stale(&images, "a.png"));
    assert!(walldeck::thumbnails::is_stale(&images, "b.png"));
}

#[test]
fn a_foreign_owner_is_pointed_out() {
    assert_eq!(ownership_hint("/c", 1000, 1000), "");
    assert_eq!(
        ownership_hint("/c", 0, 1000),
        " ('/c' is owned by uid 0, not you -- if an earlier run used sudo by mistake, \
         `sudo chown -R $USER: '/c'` or removing it and letting walldeck recreate it should fix this)"
    );
}

#[test]
fn copies_are_named_after_the_variant() {
    let mut env = Env::new();
    env.set("XDG_CACHE_HOME", "/c");
    let cfg = Config::defaults(&env);
    assert_eq!(cached_copy(&cfg, "wall-b.png"), "/c/walldeck/blurred/wall-b.png");
}

#[test]
fn crops_are_square_and_centered() {
    // Three columns, of which the middle one is what a square crop keeps.
    let mut img = RgbImage::from_pixel(30, 10, Rgb([0, 0, 0]));
    for y in 0..10 {
        for x in 10..20 {
            img.put_pixel(x, y, Rgb([200, 100, 50]));
        }
    }
    let img = DynamicImage::ImageRgb8(img);
    let p = icon_pixels(&img, 10).unwrap();
    assert_eq!((p.width, p.height, p.data.len()), (10, 10, 400));
    assert_eq!(&p.data[0..4], &[200, 100, 50, 255]);
    assert_eq!(&p.data[396..400], &[200, 100, 50, 255]);
}

#[test]
fn crops_have_the_size_that_was_asked_for() {
    for (w, h) in [(1, 1), (7, 3), (3, 7), (640, 480), (1, 500)] {
        let img = DynamicImage::ImageRgba8(RgbaImage::from_pixel(w, h, Rgba([9, 8, 7, 6])));
        for size in [1, 2, 33] {
            let thumb = generate_one(&img, size).unwrap();
            assert_eq!((thumb.width(), thumb.height()), (size, size));
            let crop = cover_crop(&img, size, Filter::Triangle).unwrap();
            assert_eq!((crop.width(), crop.height()), (size, size));
            let p = icon_pixels(&img, size).unwrap();
            assert_eq!(p.data, crop.to_rgba8().into_raw());
            assert_eq!(&p.data[0..4], &[9, 8, 7, 6]);
        }
    }
}

#[test]
fn thumbnails_are_made_with_the_lanczos_filter() {
    let mut img = RgbImage::new(40, 25);
    for (x, y, p) in img.enumerate_pixels_mut() {
        *p = Rgb([(x * 37 % 256) as u8, (y * 53 % 256) as u8, (x * y % 256) as u8]);
    }
    let img = DynamicImage::ImageRgb8(img);
    let thumb = generate_one(&img, 9).unwrap();
    assert_eq!(thumb, img.resize_to_fill(9, 9, FilterType::Lanczos3));
    let icon = cover_crop(&img, 9, Filter::Triangle).unwrap();
    assert_eq!(icon, img.resize_to_fill(9, 9, FilterType::Triangle));
    assert_ne!(thumb, icon);
}

#[test]
fn empty_pictures_are_refused() {
    let none = DynamicImage::ImageRgb8(RgbImage::new(0, 5));
    let some = DynamicImage::ImageRgb8(RgbImage::new(5, 5));
    assert!(icon_pixels(&none, 4).is_none());
    assert!(cover_crop(&some, u32::MAX, Filter::Lanczos3).is_none());
    let p = icon_pixels(&some, 0).unwrap();
    assert_eq!((p.width, p.height, p.data.len()), (0, 0, 0));
}

#[test]
fn very_wide_pictures_are_cropped() {
    let img = DynamicImage::ImageLuma8(GrayImage::from_pixel(2_000_000, 10, Luma([77])));
    let p = icon_pixels(&img, 2).unwrap();
    assert_eq!((p.width, p.height), (2, 2));
    assert_eq!(p.data, [77, 77, 77, 255].repeat(4));
    let thumb = generate_one(&img, 2).unwrap();
    assert_eq!((thumb.width(), thumb.height()), (2, 2));
}

#[test]
fn long_pictures_are_cropped() {
    // A row of a million pixels, of which one is kept as it is.
    let mut row = GrayImage::from_pixel(1_000_000, 1, Luma([3]));
    for x in 499_990..500_010 {
        row.put_pixel(x, 0, Luma([91]));
    }
    let row = DynamicImage::ImageLuma8(row);
    assert_eq!(icon_pixels(&row, 1).unwrap().data, [91, 91, 91, 255]);
    assert_eq!(generate_one(&row, 1).unwrap().to_rgba8().into_raw(), [91, 91, 91, 255]);
    // Enlarged, with room for both sides of the crop.
    let wide = DynamicImage::ImageLuma8(GrayImage::from_pixel(100_000, 2, Luma([50])));
    let p = icon_pixels(&wide, 3).unwrap();
    assert_eq!((p.width, p.height), (3, 3));
    assert_eq!(p.data, [50, 50, 50, 255].repeat(9));
    let tall = DynamicImage::ImageLuma8(GrayImage::from_pixel(2, 100_000, Luma([50])));
    assert_eq!(icon_pixels(&tall, 3).unwrap().data, p.data);
}

#[test]
fn a_long_picture_can_be_enlarged() {
    let img = DynamicImage::ImageLuma8(GrayImage::from_pixel(600_000, 1, Luma([120])));
    let p = icon_pixels(&img, 2).unwrap();
    assert_eq!((p.width, p.height), (2, 2));
    assert_eq!(p.data, [120, 120, 120, 255].repeat(4));
}
