use ttri::teximg::{LumaImage, Raster, RgbaImage, Teximg};

#[test]
fn luma_filled_cycles_the_four_values() {
    let t = Teximg::luma_filled([3, 2], [1, 2, 3, 4]);
    assert!(!t.color);
    assert_eq!(t.dim, [3, 2]);
    assert_eq!(t.data, vec![1, 2, 3, 4, 1, 2]);
}

#[test]
fn luma_filled_of_no_pixels_is_empty() {
    let t = Teximg::luma_filled([0, 7], [9, 9, 9, 9]);
    assert_eq!(t.dim, [0, 7]);
    assert!(t.data.is_empty());
    let one = Teximg::luma_filled([1, 1], [0; 4]);
    assert_eq!(one.data, vec![0]);
}

#[test]
fn preset_rgb565_has_the_documented_pixels() {
    let t = Teximg::preset_rgb565();
    assert!(t.color);
    assert_eq!(t.dim, [1024, 64]);
    assert_eq!(t.data.len(), 1024 * 64 * 4);
    let at = |x: usize, y: usize| -> [u8; 4] {
        let i = 4 * (y * 1024 + x);
        [t.data[i], t.data[i + 1], t.data[i + 2], t.data[i + 3]]
    };
    assert_eq!(at(0, 0), [0, 0, 0, 255]);
    assert_eq!(at(31, 0), [0, 0, 248, 255]);
    assert_eq!(at(32, 0), [8, 0, 0, 255]);
    assert_eq!(at(1023, 63), [248, 252, 248, 255]);
    assert_eq!(at(100, 7), [24, 28, 32, 255]);
}

#[test]
fn preset_rgb565_matches_the_image_crate() {
    let want = image::RgbaImage::from_fn(1024, 64, |x, y| {
        image::Rgba([(x / 32) as u8 * 8, y as u8 * 4, (x % 32) as u8 * 8, 255])
    });
    assert_eq!(Teximg::preset_rgb565().data, want.into_vec());
}

#[test]
fn rasters_reject_short_buffers() {
    assert!(RgbaImage::from_vec(2, 2, vec![0; 15]).is_none());
    assert!(RgbaImage::from_vec(2, 2, vec![0; 16]).is_some());
    assert!(RgbaImage::from_vec(2, 2, vec![0; 17]).is_some());
    assert!(LumaImage::from_vec(2, 2, vec![0; 3]).is_none());
    assert!(LumaImage::from_vec(2, 2, vec![0; 4]).is_some());
    assert!(RgbaImage::from_vec(0, 9, vec![]).is_some());
    assert!(RgbaImage::from_vec(u32::MAX, u32::MAX, vec![0; 64]).is_none());
    // the image crate decides the same way
    assert!(image::RgbaImage::from_vec(2, 2, vec![0; 15]).is_none());
    assert!(image::RgbaImage::from_vec(2, 2, vec![0; 17]).is_some());
    assert!(image::GrayImage::from_vec(2, 2, vec![0; 3]).is_none());
}

#[test]
fn from_rgba_and_from_luma_take_the_raster_apart() {
    let t = Teximg::from_rgba(RgbaImage::from_vec(1, 2, vec![1, 2, 3, 4, 5, 6, 7, 8]).unwrap());
    assert!(t.color);
    assert_eq!(t.dim, [1, 2]);
    assert_eq!(t.data, vec![1, 2, 3, 4, 5, 6, 7, 8]);
    let g = Teximg::from_luma(LumaImage::from_vec(3, 1, vec![9, 8, 7]).unwrap());
    assert!(!g.color);
    assert_eq!(g.dim, [3, 1]);
    assert_eq!(g.data, vec![9, 8, 7]);
}

#[test]
fn load_converts_to_the_asked_form() {
    let rgb = image::RgbImage::from_vec(2, 1, vec![255, 255, 255, 0, 0, 0]).unwrap();
    let t = Teximg::load(image::DynamicImage::ImageRgb8(rgb.clone()), true).unwrap();
    assert!(t.color);
    assert_eq!(t.dim, [2, 1]);
    assert_eq!(t.data, vec![255, 255, 255, 255, 0, 0, 0, 255]);
    let g = Teximg::load(image::DynamicImage::ImageRgb8(rgb), false).unwrap();
    assert!(!g.color);
    assert_eq!(g.dim, [2, 1]);
    assert_eq!(g.data, vec![255, 0]);
    // an image that already has the form is taken as it is
    let grey = image::GrayImage::from_vec(1, 3, vec![10, 20, 30]).unwrap();
    let same = Teximg::load(image::DynamicImage::ImageLuma8(grey), false).unwrap();
    assert_eq!(same.dim, [1, 3]);
    assert_eq!(same.data, vec![10, 20, 30]);
}

#[test]
fn save_hands_out_the_raster_or_nothing() {
    let t = Teximg { color: true, dim: [1, 1], data: vec![1, 2, 3, 4] };
    assert!(t.is_complete());
    match t.save() {
        Raster::Rgba(img) => {
            assert_eq!(img.dimensions(), (1, 1));
            assert_eq!(img.into_vec(), vec![1, 2, 3, 4]);
        }
        Raster::Luma(_) => panic!("an RGBA raster was owed"),
    }
    let g = Teximg { color: false, dim: [2, 2], data: vec![5, 6, 7, 8] };
    match g.save() {
        Raster::Luma(img) => {
            assert_eq!(img.dimensions(), (2, 2));
            assert_eq!(img.into_vec(), vec![5, 6, 7, 8]);
        }
        Raster::Rgba(_) => panic!("a grey raster was owed"),
    }
    // a filled image is grey and always complete
    assert!(matches!(Teximg::luma_filled([4, 4], [1, 2, 3, 4]).save(), Raster::Luma(_)));
}

#[test]
fn is_complete_compares_data_and_dimensions() {
    assert!(!Teximg { color: true, dim: [2, 2], data: vec![0; 15] }.is_complete());
    assert!(Teximg { color: true, dim: [2, 2], data: vec![0; 16] }.is_complete());
    assert!(Teximg { color: false, dim: [2, 2], data: vec![0; 15] }.is_complete());
    assert!(!Teximg { color: false, dim: [4, 4], data: vec![0; 15] }.is_complete());
    assert!(!Teximg { color: true, dim: [u32::MAX, u32::MAX], data: vec![0; 8] }.is_complete());
    assert!(Teximg { color: true, dim: [0, 5], data: vec![] }.is_complete());
}

#[test]
fn load_takes_sixteen_bit_samples() {
    let deep = image::ImageBuffer::<image::Luma<u16>, Vec<u16>>::from_vec(2, 1, vec![0, 65535]).unwrap();
    let t = Teximg::load(image::DynamicImage::ImageLuma16(deep), false).unwrap();
    assert_eq!(t.dim, [2, 1]);
    assert_eq!(t.data, vec![0, 255]);
}

#[test]
fn load_refuses_floating_point_samples() {
    let nan = image::Rgb32FImage::from_vec(1, 1, vec![f32::NAN, 0.0, 1.0]).unwrap();
    assert!(Teximg::load(image::DynamicImage::ImageRgb32F(nan), true).is_none());
    let fine = image::Rgba32FImage::from_vec(1, 1, vec![0.0, 0.5, 1.0, 1.0]).unwrap();
    assert!(Teximg::load(image::DynamicImage::ImageRgba32F(fine.clone()), true).is_none());
    assert!(Teximg::load(image::DynamicImage::ImageRgba32F(fine), false).is_none());
}
