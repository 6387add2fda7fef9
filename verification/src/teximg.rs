use image::DynamicImage;
use vstd::prelude::*;

verus! {

#[verifier::external_type_specification]
#[verifier::external_body]
pub struct ExDynamicImage(DynamicImage);

/// Whether `len` samples are enough for `width` by `height` pixels of
/// `channels` samples each.
pub open spec fn samples_fit(channels: nat, width: u32, height: u32, len: nat) -> bool {
    channels * width * height <= len
}

/// What a raster is to the contracts of this crate.
pub struct RasterView {
    pub width: u32,
    pub height: u32,
    pub samples: Seq<u8>,
}

/// Whether `len` bytes are enough for `width` by `height` pixels of
/// `channels` bytes each.
fn fits(channels: u8, width: u32, height: u32, len: usize) -> (ok: bool)
    ensures
        ok == samples_fit(channels as nat, width, height, len as nat),
{
    assert((width as u128) * (height as u128) <= 0xffff_ffff * 0xffff_ffff) by (nonlinear_arith)
        requires
            width <= 0xffff_ffff,
            height <= 0xffff_ffff,
    ;
    let pixels: u128 = (width as u128) * (height as u128);
    assert(pixels * (channels as u128) <= 0xffff_ffff * 0xffff_ffff * 255) by (nonlinear_arith)
        requires
            pixels <= 0xffff_ffff * 0xffff_ffff,
            channels <= 255,
    ;
    let need: u128 = pixels * (channels as u128);
    assert(need == channels * width * height) by (nonlinear_arith)
        requires
            need == (width as u128) * (height as u128) * (channels as u128),
    ;
    need <= len as u128
}

/// A row-major RGBA raster, four bytes per pixel, of at least the bytes its
/// dimensions call for.
pub struct RgbaImage {
    width: u32,
    height: u32,
    data: Vec<u8>,
}

impl View for RgbaImage {
    type V = RasterView;

    closed spec fn view(&self) -> RasterView {
        RasterView { width: self.width, height: self.height, samples: self.data@ }
    }
}

impl RgbaImage {
    #[verifier::type_invariant]
    spec fn complete(self) -> bool {
        samples_fit(4, self.width, self.height, self.data@.len())
    }

    /// A raster over `buf`, unless `buf` is too short for the dimensions.
    pub fn from_vec(width: u32, height: u32, buf: Vec<u8>) -> (img: Option<Self>)
        ensures
            img is Some <==> samples_fit(4, width, height, buf@.len()),
            img is Some ==> (img->0)@ == (RasterView { width, height, samples: buf@ }),
    {
        if fits(4, width, height, buf.len()) {
            Some(RgbaImage { width, height, data: buf })
        } else {
            None
        }
    }

    /// Width and height.
    pub fn dimensions(&self) -> (d: (u32, u32))
        ensures
            d == (self@.width, self@.height),
    {
        (self.width, self.height)
    }

    /// The bytes of the raster; never fewer than its dimensions call for.
    pub fn into_vec(self) -> (v: Vec<u8>)
        ensures
            v@ == self@.samples,
            samples_fit(4, self@.width, self@.height, v@.len()),
    {
        proof {
            use_type_invariant(&self);
        }
        self.data
    }
}

/// A row-major grey raster, one byte per pixel, of at least the bytes its
/// dimensions call for.
pub struct LumaImage {
    width: u32,
    height: u32,
    data: Vec<u8>,
}

impl View for LumaImage {
    type V = RasterView;

    closed spec fn view(&self) -> RasterView {
        RasterView { width: self.width, height: self.height, samples: self.data@ }
    }
}

impl LumaImage {
    #[verifier::type_invariant]
    spec fn complete(self) -> bool {
        samples_fit(1, self.width, self.height, self.data@.len())
    }

    /// A raster over `buf`, unless `buf` is too short for the dimensions.
    pub fn from_vec(width: u32, height: u32, buf: Vec<u8>) -> (img: Option<Self>)
        ensures
            img is Some <==> samples_fit(1, width, height, buf@.len()),
            img is Some ==> (img->0)@ == (RasterView { width, height, samples: buf@ }),
    {
        if fits(1, width, height, buf.len()) {
            Some(LumaImage { width, height, data: buf })
        } else {
            None
        }
    }

    /// Width and height.
    pub fn dimensions(&self) -> (d: (u32, u32))
        ensures
            d == (self@.width, self@.height),
    {
        (self.width, self.height)
    }

    /// The bytes of the raster; never fewer than its dimensions call for.
    pub fn into_vec(self) -> (v: Vec<u8>)
        ensures
            v@ == self@.samples,
            samples_fit(1, self@.width, self@.height, v@.len()),
    {
        proof {
            use_type_invariant(&self);
        }
        self.data
    }
}

/// The raster a texture image is written out as.
pub enum Raster {
    Rgba(RgbaImage),
    Luma(LumaImage),
}

/// How a decoded image keeps its samples.
#[derive(Clone, Copy, Debug, PartialEq, Eq)]
pub enum Layout {
    Luma8,
    LumaA8,
    Rgb8,
    Rgba8,
    Luma16,
    LumaA16,
    Rgb16,
    Rgba16,
    Rgb32F,
    Rgba32F,
    /// A layout this crate does not know.
    Unknown,
}

impl Layout {
    /// Whether the samples are 8-bit or 16-bit integers. Only such images
    /// are converted: a floating-point sample that is not a number has no
    /// 8-bit form.
    pub open spec fn integral(self) -> bool {
        match self {
            Layout::Rgb32F | Layout::Rgba32F | Layout::Unknown => false,
            _ => true,
        }
    }

    /// Whether the samples are 8-bit or 16-bit integers.
    pub fn is_integral(&self) -> (b: bool)
        ensures
            b == self.integral(),
    {
        match self {
            Layout::Rgb32F | Layout::Rgba32F | Layout::Unknown => false,
            _ => true,
        }
    }
}

/// The layout of a decoded image.
pub uninterp spec fn image_layout(img: DynamicImage) -> Layout;

/// The 8-bit RGBA form of a decoded image.
pub uninterp spec fn rgba8_raster(img: DynamicImage) -> RasterView;

/// The 8-bit grey form of a decoded image.
pub uninterp spec fn luma8_raster(img: DynamicImage) -> RasterView;

/// Tells the variants of `DynamicImage` apart, one arm each. A variant that
/// a later version of the enum may add counts as `Unknown`.
#[verifier::external_body]
fn dynamic_layout(img: &DynamicImage) -> (l: Layout)
    ensures
        l == image_layout(*img),
{
    match img {
        DynamicImage::ImageLuma8(_) => Layout::Luma8,
        DynamicImage::ImageLumaA8(_) => Layout::LumaA8,
        DynamicImage::ImageRgb8(_) => Layout::Rgb8,
        DynamicImage::ImageRgba8(_) => Layout::Rgba8,
        DynamicImage::ImageLuma16(_) => Layout::Luma16,
        DynamicImage::ImageLumaA16(_) => Layout::LumaA16,
        DynamicImage::ImageRgb16(_) => Layout::Rgb16,
        DynamicImage::ImageRgba16(_) => Layout::Rgba16,
        DynamicImage::ImageRgb32F(_) => Layout::Rgb32F,
        DynamicImage::ImageRgba32F(_) => Layout::Rgba32F,
        _ => Layout::Unknown,
    }
}

/// `DynamicImage::into_rgba8`, taken apart with `ImageBuffer::dimensions`
/// and `ImageBuffer::into_vec`: width, height and bytes of the image's 8-bit
/// RGBA form. Only images of integer samples are admitted: the conversion
/// of a floating-point sample that is not a number does not return. What
/// the conversion computes is only named; that the buffer is never shorter
/// than its dimensions call for is a guarantee of every `ImageBuffer`.
#[verifier::external_body]
fn dynamic_into_rgba8(img: DynamicImage) -> (out: (u32, u32, Vec<u8>))
    requires
        image_layout(img).integral(),
    ensures
        out.0 == rgba8_raster(img).width,
        out.1 == rgba8_raster(img).height,
        out.2@ == rgba8_raster(img).samples,
        samples_fit(4, out.0, out.1, out.2@.len()),
{
    let converted = img.into_rgba8();
    let (width, height) = converted.dimensions();
    (width, height, converted.into_vec())
}

/// `DynamicImage::into_luma8`, taken apart with `ImageBuffer::dimensions`
/// and `ImageBuffer::into_vec`: width, height and bytes of the image's 8-bit
/// grey form. Only images of integer samples are admitted: the conversion
/// of a floating-point sample that is not a number does not return. What
/// the conversion computes is only named; that the buffer is never shorter
/// than its dimensions call for is a guarantee of every `ImageBuffer`.
#[verifier::external_body]
fn dynamic_into_luma8(img: DynamicImage) -> (out: (u32, u32, Vec<u8>))
    requires
        image_layout(img).integral(),
    ensures
        out.0 == luma8_raster(img).width,
        out.1 == luma8_raster(img).height,
        out.2@ == luma8_raster(img).samples,
        samples_fit(1, out.0, out.1, out.2@.len()),
{
    let converted = img.into_luma8();
    let (width, height) = converted.dimensions();
    (width, height, converted.into_vec())
}

/// A raw texture image: `dim[0]` by `dim[1]` pixels, four bytes per pixel
/// where `color` is set and one byte per pixel where it is not.
#[derive(Clone, Debug, PartialEq, Eq)]
pub struct Teximg {
    pub color: bool,
    pub dim: [u32; 2],
    pub data: Vec<u8>,
}

/// The bytes of the 1024 by 64 lookup image at pixel (`x`, `y`): red grows
/// with every 32 columns, green with the row, blue within the 32 columns.
pub open spec fn rgb565_pixel(x: int, y: int) -> Seq<u8> {
    seq![((x / 32) * 8) as u8, (y * 4) as u8, ((x % 32) * 8) as u8, 255u8]
}

impl Teximg {
    /// Bytes per pixel.
    pub open spec fn channels(&self) -> nat {
        if self.color {
            4
        } else {
            1
        }
    }

    /// Whether `data` holds at least the bytes the dimensions call for.
    pub open spec fn complete(&self) -> bool {
        samples_fit(self.channels(), self.dim[0], self.dim[1], self.data@.len())
    }

    /// The colour image that `image_buffer` holds.
    pub fn from_rgba(image_buffer: RgbaImage) -> (t: Self)
        ensures
            t.color,
            t.dim[0] == image_buffer@.width,
            t.dim[1] == image_buffer@.height,
            t.data@ == image_buffer@.samples,
            t.complete(),
    {
        let dim = image_buffer.dimensions();
        Teximg { color: true, dim: [dim.0, dim.1], data: image_buffer.into_vec() }
    }

    /// The grey image that `image_buffer` holds.
    pub fn from_luma(image_buffer: LumaImage) -> (t: Self)
        ensures
            !t.color,
            t.dim[0] == image_buffer@.width,
            t.dim[1] == image_buffer@.height,
            t.data@ == image_buffer@.samples,
            t.complete(),
    {
        let dim = image_buffer.dimensions();
        Teximg { color: false, dim: [dim.0, dim.1], data: image_buffer.into_vec() }
    }

    /// A grey image of `dim[0] * dim[1]` bytes that repeat the four bytes of
    /// `value` in turn.
    pub fn luma_filled(dim: [u32; 2], value: [u8; 4]) -> (t: Self)
        requires
            dim[0] * dim[1] <= u32::MAX,
        ensures
            !t.color,
            t.dim == dim,
            t.data@.len() == dim[0] * dim[1],
            forall|i: int| 0 <= i < t.data@.len() ==> #[trigger] t.data@[i] == value[i % 4],
            t.complete(),
    {
        let count: u32 = dim[0] * dim[1];
        let mut data: Vec<u8> = Vec::new();
        let mut i: u32 = 0;
        while i < count
            invariant
                i <= count,
                data@.len() == i,
                forall|j: int| 0 <= j < i ==> #[trigger] data@[j] == value[j % 4],
            decreases count - i,
        {
            data.push(value[(i % 4) as usize]);
            i = i + 1;
        }
        Teximg { color: false, dim, data }
    }

    /// The 1024 by 64 colour lookup image; see `rgb565_pixel`.
    pub fn preset_rgb565() -> (t: Self)
        ensures
            t.color,
            t.dim[0] == 1024,
            t.dim[1] == 64,
            t.data@.len() == 4 * 1024 * 64,
            forall|x: int, y: int|
                0 <= x < 1024 && 0 <= y < 64 ==> #[trigger] t.data@.subrange(
                    4 * (y * 1024 + x),
                    4 * (y * 1024 + x) + 4,
                ) == rgb565_pixel(x, y),
            t.complete(),
    {
        let mut data: Vec<u8> = Vec::new();
        let mut y: u32 = 0;
        while y < 64
            invariant
                y <= 64,
                data@.len() == 4096 * y,
                forall|a: int, b: int|
                    0 <= a < 1024 && 0 <= b < y ==> #[trigger] data@.subrange(
                        4 * (b * 1024 + a),
                        4 * (b * 1024 + a) + 4,
                    ) == rgb565_pixel(a, b),
            decreases 64 - y,
        {
            let mut x: u32 = 0;
            while x < 1024
                invariant
                    y < 64,
                    x <= 1024,
                    data@.len() == 4096 * y + 4 * x,
                    forall|a: int, b: int|
                        0 <= a < 1024 && 0 <= b < 64 && b * 1024 + a < y * 1024 + x
                            ==> #[trigger] data@.subrange(
                            4 * (b * 1024 + a),
                            4 * (b * 1024 + a) + 4,
                        ) == rgb565_pixel(a, b),
                decreases 1024 - x,
            {
                let ghost before = data@;
                data.push(((x / 32) * 8) as u8);
                data.push((y * 4) as u8);
                data.push(((x % 32) * 8) as u8);
                data.push(255);
                proof {
                    let at = 4 * (y * 1024 + x);
                    assert(data@.subrange(at, at + 4) =~= rgb565_pixel(x as int, y as int));
                    assert forall|a: int, b: int|
                        0 <= a < 1024 && 0 <= b < 64 && b * 1024 + a < y * 1024 + x + 1 implies (
                    #[trigger] data@.subrange(4 * (b * 1024 + a), 4 * (b * 1024 + a) + 4))
                        == rgb565_pixel(a, b) by {
                        if b * 1024 + a < y * 1024 + x {
                            assert(data@.subrange(4 * (b * 1024 + a), 4 * (b * 1024 + a) + 4)
                                =~= before.subrange(4 * (b * 1024 + a), 4 * (b * 1024 + a) + 4));
                        } else {
                            assert(a == x && b == y);
                        }
                    }
                }
                x = x + 1;
            }
            y = y + 1;
        }
        Teximg { color: true, dim: [1024, 64], data }
    }

    /// The texture image of a decoded image of integer samples: its 8-bit
    /// RGBA form where `color` is set, its 8-bit grey form where it is not.
    /// An image of floating-point samples, or of a layout this crate does
    /// not know, yields nothing.
    pub fn load(img: DynamicImage, color: bool) -> (t: Option<Self>)
        ensures
            t is Some <==> image_layout(img).integral(),
            t is Some ==> (t->0).color == color && (t->0).complete(),
            t is Some && color ==> (t->0).dim[0] == rgba8_raster(img).width && (t->0).dim[1]
                == rgba8_raster(img).height && (t->0).data@ == rgba8_raster(img).samples,
            t is Some && !color ==> (t->0).dim[0] == luma8_raster(img).width && (t->0).dim[1]
                == luma8_raster(img).height && (t->0).data@ == luma8_raster(img).samples,
    {
        if !dynamic_layout(&img).is_integral() {
            return None;
        }
        if color {
            let (width, height, data) = dynamic_into_rgba8(img);
            Some(Teximg { color: true, dim: [width, height], data })
        } else {
            let (width, height, data) = dynamic_into_luma8(img);
            Some(Teximg { color: false, dim: [width, height], data })
        }
    }

    /// Whether `data` holds at least the bytes the dimensions call for,
    /// which is what `save` asks for.
    pub fn is_complete(&self) -> (ok: bool)
        ensures
            ok == self.complete(),
    {
        let channels: u8 = if self.color {
            4
        } else {
            1
        };
        fits(channels, self.dim[0], self.dim[1], self.data.len())
    }

    /// The raster to write out for this image: RGBA where `color` is set,
    /// grey where it is not, of the image's dimensions and bytes.
    pub fn save(&self) -> (r: Raster)
        requires
            self.complete(),
        ensures
            match r {
                Raster::Rgba(img) => self.color && img@ == (RasterView {
                    width: self.dim[0],
                    height: self.dim[1],
                    samples: self.data@,
                }),
                Raster::Luma(img) => !self.color && img@ == (RasterView {
                    width: self.dim[0],
                    height: self.dim[1],
                    samples: self.data@,
                }),
            },
    {
        let data = copy_bytes(&self.data);
        if self.color {
            Raster::Rgba(RgbaImage { width: self.dim[0], height: self.dim[1], data })
        } else {
            Raster::Luma(LumaImage { width: self.dim[0], height: self.dim[1], data })
        }
    }
}

/// A copy of `bytes`.
fn copy_bytes(bytes: &Vec<u8>) -> (out: Vec<u8>)
    ensures
        out@ == bytes@,
{
    let mut out: Vec<u8> = Vec::new();
    let mut i: usize = 0;
    while i < bytes.len()
        invariant
            i <= bytes@.len(),
            out@ == bytes@.take(i as int),
        decreases bytes@.len() - i,
    {
        out.push(bytes[i]);
        assert(bytes@.take(i + 1) =~= bytes@.take(i as int).push(bytes@[i as int]));
        i = i + 1;
    }
    assert(bytes@.take(i as int) =~= bytes@);
    out
}

} // verus!
