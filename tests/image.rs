use piet::ImageFormat;
use piet_d2d::draw::Rect;
use piet_d2d::image::{bitmap_layout, BitmapLayout, Image, ImageError};

#[test]
fn layout_of_a_small_image() {
    assert_eq!(
        bitmap_layout(2, 3, 24, ImageFormat::RgbaPremul),
        Ok(BitmapLayout { width: 2, height: 3, stride: 8 })
    );
    assert_eq!(
        bitmap_layout(2, 3, 30, ImageFormat::RgbaSeparate),
        Ok(BitmapLayout { width: 2, height: 3, stride: 8 })
    );
}

#[test]
fn short_buffer_is_refused() {
    assert_eq!(bitmap_layout(2, 3, 23, ImageFormat::RgbaPremul), Err(ImageError::BufferTooSmall));
}

#[test]
fn three_byte_pixels_are_refused() {
    assert_eq!(bitmap_layout(2, 3, 24, ImageFormat::Rgb), Err(ImageError::UnsupportedFormat));
}

#[test]
fn oversized_image_is_refused() {
    assert_eq!(
        bitmap_layout(1 << 30, 1, usize::MAX, ImageFormat::RgbaPremul),
        Err(ImageError::TooLarge)
    );
}

#[test]
fn empty_image_needs_no_bytes() {
    assert_eq!(
        bitmap_layout(0, 0, 0, ImageFormat::RgbaPremul),
        Ok(BitmapLayout { width: 0, height: 0, stride: 0 })
    );
}

#[test]
fn image_source_is_the_whole_bitmap() {
    let layout = bitmap_layout(640, 480, 640 * 480 * 4, ImageFormat::RgbaPremul).unwrap();
    let image = Image::new("bitmap", layout);
    assert_eq!(*image.bitmap(), "bitmap");
    assert_eq!(image.source_rect(), Rect { x: 0, y: 0, width: 640, height: 480 });
}
