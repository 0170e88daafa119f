use framed_form::{ImageCache, DEFAULT_HEIGHT, DEFAULT_WIDTH};

fn png_bytes(w: u32, h: u32) -> Vec<u8> {
    let img = image::RgbaImage::from_pixel(w, h, image::Rgba([10, 20, 30, 255]));
    let mut out = std::io::Cursor::new(Vec::new());
    img.write_to(&mut out, image::ImageFormat::Png).unwrap();
    out.into_inner()
}

#[test]
fn starts_empty_with_default_size() {
    let c = ImageCache::new();
    assert!(!c.is_loaded());
    assert_eq!(c.size(), (DEFAULT_WIDTH, DEFAULT_HEIGHT));
    assert_eq!(c.decode_count(), 0);
    assert!(c.texture().is_none());
}

#[test]
fn loading_is_idempotent() {
    let ctx = egui::Context::default();
    let bytes = png_bytes(3, 5);
    let mut c = ImageCache::new();
    c.ensure_loaded(&ctx, &bytes);
    assert!(c.is_loaded());
    assert_eq!(c.size(), (3, 5));
    assert_eq!(c.decode_count(), 1);
    let id = c.texture().unwrap().id();
    for _ in 0..5 {
        c.ensure_loaded(&ctx, &bytes);
    }
    assert_eq!(c.decode_count(), 1);
    assert_eq!(c.size(), (3, 5));
    assert_eq!(c.texture().unwrap().id(), id);
}

#[test]
fn undecodable_bytes_leave_cache_empty() {
    let ctx = egui::Context::default();
    let mut c = ImageCache::new();
    c.ensure_loaded(&ctx, b"not an image");
    c.ensure_loaded(&ctx, b"not an image");
    assert!(!c.is_loaded());
    assert_eq!(c.decode_count(), 2);
    assert_eq!(c.size(), (DEFAULT_WIDTH, DEFAULT_HEIGHT));
}
