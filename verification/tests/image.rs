use std::sync::Arc;

use ecolor::Color32;
use slider_core::image::ColorImage;
use slider_core::image::FontImage;
use slider_core::image::ImageData;
use slider_core::image::ImageDelta;

/// A 4 by 3 image whose pixel in column x of row y is (x, y, x + 4y, 255).
fn grid() -> ColorImage {
    let mut pixels = Vec::new();
    for y in 0..3u8 {
        for x in 0..4u8 {
            pixels.push([x, y, x + 4 * y, 255]);
        }
    }
    ColorImage::new([4, 3], pixels)
}

#[test]
fn a_new_image_keeps_its_pixels() {
    let image = grid();
    assert_eq!(image.size, [4, 3]);
    assert_eq!(image.width(), 4);
    assert_eq!(image.height(), 3);
    assert_eq!(image.source_size, None);
    assert_eq!(image.pixels.len(), 12);
    assert_eq!(image.pixel(0, 0), [0, 0, 0, 255]);
    assert_eq!(image.pixel(3, 0), [3, 0, 3, 255]);
    assert_eq!(image.pixel(1, 2), [1, 2, 9, 255]);
    assert_eq!(image.pixel(3, 2), [3, 2, 11, 255]);
}

#[test]
fn a_filled_image_has_one_color() {
    let color = Color32::from_rgb(10, 20, 30).to_array();
    let image = ColorImage::filled([3, 2], color);
    assert_eq!(image.size, [3, 2]);
    assert_eq!(image.pixels, vec![[10, 20, 30, 255]; 6]);
    assert_eq!(image.source_size, None);
    let empty = ColorImage::filled([0, 5], color);
    assert_eq!(empty.size, [0, 5]);
    assert!(empty.pixels.is_empty());
}

#[test]
fn setting_a_pixel_changes_that_pixel_only() {
    let mut image = grid();
    image.set_pixel(2, 1, [9, 9, 9, 9]);
    let before = grid();
    for y in 0..3 {
        for x in 0..4 {
            if (x, y) == (2, 1) {
                assert_eq!(image.pixel(x, y), [9, 9, 9, 9]);
            } else {
                assert_eq!(image.pixel(x, y), before.pixel(x, y));
            }
        }
    }
    assert_eq!(image.size, [4, 3]);
}

#[test]
fn separate_alpha_is_multiplied_in() {
    let rgba = [
        255, 0, 0, 255, // opaque red
        255, 0, 0, 128, // half transparent red
        200, 100, 50, 0, // fully transparent
        1, 2, 3, 4, //
        255, 255, 255, 1, //
        17, 99, 250, 254,
    ];
    let image = ColorImage::from_rgba_unmultiplied([3, 2], &rgba);
    assert_eq!(image.size, [3, 2]);
    assert_eq!(image.pixels[0], [255, 0, 0, 255]);
    assert_eq!(image.pixels[1], [128, 0, 0, 128]);
    assert_eq!(image.pixels[2], [0, 0, 0, 0]);
    for (i, p) in rgba.chunks_exact(4).enumerate() {
        assert_eq!(
            image.pixels[i],
            Color32::from_rgba_unmultiplied(p[0], p[1], p[2], p[3]).to_array()
        );
    }
}

#[test]
fn every_channel_is_scaled_as_stated() {
    for val in 0..=255u8 {
        for alpha in 0..=255u8 {
            let image = ColorImage::from_rgba_unmultiplied([1, 1], &[val, 255 - val, 7, alpha]);
            let scale = |v: u8| {
                let p = v as u32 * alpha as u32 + 128;
                ((p + p / 256) / 256) as u8
            };
            let expected = if alpha == 0 {
                [0, 0, 0, 0]
            } else if alpha == 255 {
                [val, 255 - val, 7, 255]
            } else {
                [scale(val), scale(255 - val), scale(7), alpha]
            };
            assert_eq!(image.pixels[0], expected, "{val} at alpha {alpha}");
        }
    }
}

#[test]
fn premultiplied_alpha_is_kept_as_it_is() {
    let rgba = [255, 0, 0, 255, 64, 32, 16, 128, 200, 100, 50, 0, 1, 2, 3, 4];
    let image = ColorImage::from_rgba_premultiplied([2, 2], &rgba);
    assert_eq!(image.size, [2, 2]);
    assert_eq!(
        image.pixels,
        vec![[255, 0, 0, 255], [64, 32, 16, 128], [200, 100, 50, 0], [1, 2, 3, 4]]
    );
}

#[test]
fn gray_and_rgb_are_opaque() {
    let gray = ColorImage::from_gray([2, 2], &[0, 1, 128, 255]);
    assert_eq!(
        gray.pixels,
        vec![[0, 0, 0, 255], [1, 1, 1, 255], [128, 128, 128, 255], [255, 255, 255, 255]]
    );
    let same = ColorImage::from_gray_iter([2, 2], vec![0, 1, 128, 255]);
    assert_eq!(same, gray);
    let rgb = ColorImage::from_rgb([1, 3], &[1, 2, 3, 4, 5, 6, 7, 8, 9]);
    assert_eq!(rgb.size, [1, 3]);
    assert_eq!(rgb.pixels, vec![[1, 2, 3, 255], [4, 5, 6, 255], [7, 8, 9, 255]]);
    assert_eq!(rgb.pixels[1], Color32::from_rgb(4, 5, 6).to_array());
    assert_eq!(gray.pixels[2], Color32::from_gray(128).to_array());
}

#[test]
fn the_raw_bytes_are_the_pixels_one_after_the_other() {
    let image = ColorImage::from_rgba_premultiplied([2, 1], &[1, 2, 3, 4, 5, 6, 7, 8]);
    assert_eq!(image.as_raw(), [1, 2, 3, 4, 5, 6, 7, 8]);
    assert_eq!(grid().as_raw().len(), 48);
    assert_eq!(grid().as_raw()[4 * 5..4 * 6], [1, 1, 5, 255]);
    let mut image = image;
    image.as_raw_mut()[5] = 60;
    image.as_raw_mut()[0] = 10;
    assert_eq!(image.pixels, vec![[10, 2, 3, 4], [5, 60, 7, 8]]);
    assert_eq!(image.size, [2, 1]);
}

#[test]
fn the_source_size_is_set_apart_from_the_texels() {
    let size = [12.5f32.to_bits(), 7.25f32.to_bits()];
    let image = grid().with_source_size(size);
    assert_eq!(image.source_size, Some(size));
    assert_eq!(image.size, [4, 3]);
    assert_eq!(image.pixels, grid().pixels);
}

#[test]
fn a_region_is_a_patch_of_the_image() {
    let image = grid();
    let patch = image.region(1, 3, 1, 3);
    assert_eq!(patch.size, [2, 2]);
    assert_eq!(
        patch.pixels,
        vec![[1, 1, 5, 255], [2, 1, 6, 255], [1, 2, 9, 255], [2, 2, 10, 255]]
    );
    for y in 0..2 {
        for x in 0..2 {
            assert_eq!(patch.pixel(x, y), image.pixel(1 + x, 1 + y));
        }
    }
    assert_eq!(image.region(0, 4, 0, 3), grid());
    let nothing = image.region(2, 2, 0, 3);
    assert_eq!(nothing.size, [0, 3]);
    assert!(nothing.pixels.is_empty());
    let row = image.region(0, 4, 2, 3);
    assert_eq!(row.size, [4, 1]);
    assert_eq!(row.pixels, image.pixels[8..12]);
}

#[test]
fn a_new_font_image_is_covered_by_nothing() {
    let image = FontImage::new([3, 2]);
    assert_eq!(image.size, [3, 2]);
    assert_eq!(image.width(), 3);
    assert_eq!(image.height(), 2);
    assert_eq!(image.pixels, vec![0.0f32.to_bits(); 6]);
}

#[test]
fn a_region_of_a_font_image_is_a_copy_of_that_part() {
    let mut image = FontImage::new([4, 3]);
    for y in 0..3 {
        for x in 0..4 {
            image.set_pixel(x, y, ((x + 4 * y) as f32 / 16.0).to_bits());
        }
    }
    assert_eq!(image.pixel(2, 1), (6.0f32 / 16.0).to_bits());
    let part = image.region([1, 1], [3, 2]);
    assert_eq!(part.size, [3, 2]);
    for y in 0..2 {
        for x in 0..3 {
            assert_eq!(part.pixel(x, y), image.pixel(1 + x, 1 + y));
        }
    }
    assert_eq!(image.region([0, 0], [4, 3]), image);
    assert_eq!(image.region([4, 3], [0, 0]).pixels, vec![]);
}

#[test]
fn image_data_has_the_size_of_its_image() {
    let color = ImageData::from(grid());
    assert_eq!(color, ImageData::Color(Arc::new(grid())));
    assert_eq!(ImageData::from(Arc::new(grid())), color);
    assert_eq!(color.size(), [4, 3]);
    assert_eq!(color.width(), 4);
    assert_eq!(color.height(), 3);
    assert_eq!(color.bytes_per_pixel(), 4);
    let font = ImageData::from(FontImage::new([7, 5]));
    assert_eq!(font, ImageData::Font(FontImage::new([7, 5])));
    assert_eq!(font.size(), [7, 5]);
    assert_eq!(font.width(), 7);
    assert_eq!(font.height(), 5);
    assert_eq!(font.bytes_per_pixel(), 4);
}

#[test]
fn a_delta_is_whole_unless_it_has_a_position() {
    let full = ImageDelta::full(grid(), "nearest");
    assert_eq!(full.image, ImageData::Color(Arc::new(grid())));
    assert!(full.is_whole());
    assert_eq!(full.pos, None);
    assert_eq!(full.options, "nearest");
    assert_eq!(full.image.size(), [4, 3]);
    let partial = ImageDelta::partial([2, 1], FontImage::new([1, 1]), 7u8);
    assert_eq!(partial.image, ImageData::Font(FontImage::new([1, 1])));
    assert!(!partial.is_whole());
    assert_eq!(partial.pos, Some([2, 1]));
    assert_eq!(partial.options, 7);
    assert_eq!(partial.image.size(), [1, 1]);
}

#[test]
fn the_default_images_are_empty() {
    let color = ColorImage::default();
    assert_eq!(color.size, [0, 0]);
    assert!(color.pixels.is_empty());
    assert_eq!(color.source_size, None);
    let font = FontImage::default();
    assert_eq!(font.size, [0, 0]);
    assert!(font.pixels.is_empty());
}

#[test]
fn the_summary_of_an_image_leaves_the_pixels_out() {
    assert_eq!(grid().summary(), "ColorImage { size: [4, 3], pixel-count: 12, .. }");
    assert_eq!(
        ColorImage::default().summary(),
        "ColorImage { size: [0, 0], pixel-count: 0, .. }"
    );
    assert_eq!(
        ColorImage::filled([128, 64], [0, 0, 0, 0]).summary(),
        "ColorImage { size: [128, 64], pixel-count: 8192, .. }"
    );
}
