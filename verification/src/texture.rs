//! Texture assets: pixel data, formats, sampling settings and the built-in
//! fallback textures.

use crate::store::{HandleName, Store, StoreDefaults, StoreType, StoreTypeFallback, H};
use vstd::prelude::*;
use vstd::arithmetic::div_mod::lemma_fundamental_div_mod_converse;

verus! {

/// Pixel formats used by the engine's textures.
#[derive(Clone, Copy, PartialEq, Eq, Structural, Debug)]
pub enum TextureFormat {
    R8Unorm,
    Rg8Unorm,
    Rgba8Unorm,
    Rgba8UnormSrgb,
    Rgba8Snorm,
    Rgba8Uint,
    Rgba8Sint,
    Bgra8Unorm,
    Bgra8UnormSrgb,
    R16Unorm,
    Rg16Snorm,
    Rgba16Unorm,
    Rgba32Float,
    Depth32Float,
}

/// How texture coordinates outside `[0, 1]` are resolved.
#[derive(Clone, Copy, PartialEq, Eq, Structural, Debug)]
pub enum AddressMode {
    ClampToEdge,
    Repeat,
    MirrorRepeat,
    ClampToBorder,
}

/// Texel filtering.
#[derive(Clone, Copy, PartialEq, Eq, Structural, Debug)]
pub enum FilterMode {
    Nearest,
    Linear,
}

/// Filtering between mip levels.
#[derive(Clone, Copy, PartialEq, Eq, Structural, Debug)]
pub enum MipmapFilterMode {
    Nearest,
    Linear,
}

/// The shape a texture is viewed as.
#[derive(Clone, Copy, PartialEq, Eq, Structural, Debug)]
pub enum TextureViewDimension {
    D2,
    D2Array,
    Cube,
}

/// A texture asset.
pub struct Texture {
    pub width: u32,
    pub height: u32,
    pub format: TextureFormat,
    pub data: Option<Vec<u8>>,
    pub view_formats: [TextureFormat; 1],
    pub array_layers: u32,
    pub repeat_mode: AddressMode,
    pub filter_mode: FilterMode,
    pub mip_filter_mode: MipmapFilterMode,
    pub has_transparency: bool,
}

/// What the GPU texture for a [`Texture`] is created with.
pub struct TextureDescriptor {
    pub width: u32,
    pub height: u32,
    pub depth_or_array_layers: u32,
    pub mip_level_count: u32,
    pub sample_count: u32,
    pub format: TextureFormat,
    pub view_formats: [TextureFormat; 1],
}

/// How a texture is viewed.
pub struct TextureViewDescriptor {
    pub format: TextureFormat,
    pub dimension: TextureViewDimension,
    pub base_mip_level: u32,
    pub base_array_layer: u32,
}

/// How a texture is sampled.
pub struct SamplerDescriptor {
    pub address_mode_u: AddressMode,
    pub address_mode_v: AddressMode,
    pub address_mode_w: AddressMode,
    pub mag_filter: FilterMode,
    pub min_filter: FilterMode,
    pub mipmap_filter: MipmapFilterMode,
}

/// Why an image could not be turned into a texture.
#[derive(Clone, Copy, PartialEq, Eq, Structural, Debug)]
pub enum TextureError {
    /// The bytes are not an image in a supported format.
    Decode,
}

/// Byte `c` of the fallback checkerboard pixel at column `x`, row `y`:
/// black where the parities agree, magenta elsewhere, both opaque.
pub open spec fn checker_byte(x: int, y: int, c: int) -> u8 {
    if x % 2 == y % 2 {
        if c == 3 { 255u8 } else { 0u8 }
    } else {
        if c == 1 { 0u8 } else { 255u8 }
    }
}

/// A side length as the checkerboard loop sees it: lengths beyond
/// `i32::MAX` wrap to negative values and give no iterations.
pub open spec fn checker_extent(v: u32) -> int {
    if v <= i32::MAX { v as int } else { 0 }
}

/// The bytes of the fallback checkerboard, column-major: byte `i` belongs to
/// pixel `i / 4`, which sits in column `(i / 4) / height` and row
/// `(i / 4) % height`.
pub open spec fn checker_bytes(width: u32, height: u32) -> Seq<u8> {
    let w = checker_extent(width);
    let h = checker_extent(height);
    Seq::new((4 * w * h) as nat, |i: int| checker_byte((i / 4) / h, (i / 4) % h, i % 4))
}

/// The RGBA bytes `px` with red and blue swapped in every pixel.
pub open spec fn bgra_of(px: Seq<u8>) -> Seq<u8> {
    Seq::new(px.len(), |i: int| {
        let b = i - i % 4;
        if i % 4 == 0 {
            px[b + 2]
        } else if i % 4 == 2 {
            px[b]
        } else {
            px[i]
        }
    })
}

/// The step between alpha bytes for formats with an alpha channel.
pub open spec fn alpha_stride(format: TextureFormat) -> int {
    match format {
        TextureFormat::Rg8Unorm => 2,
        TextureFormat::Rgba8Unorm | TextureFormat::Rgba8UnormSrgb | TextureFormat::Rgba8Snorm
        | TextureFormat::Rgba8Uint | TextureFormat::Rgba8Sint | TextureFormat::Bgra8Unorm
        | TextureFormat::Bgra8UnormSrgb => 4,
        _ => 0,
    }
}

/// Some alpha byte of `data` in `format` is below 255.
pub open spec fn has_translucent_alpha(format: TextureFormat, data: Seq<u8>) -> bool {
    let s = alpha_stride(format);
    s > 0 && exists|i: int| 0 <= i < data.len() && i % s == s - 1 && #[trigger] data[i] < 255
}

/// The texture `t` holds `pixels` as `format`, with the default sampling
/// settings and the given transparency flag.
pub open spec fn is_pixel_texture(
    t: Texture,
    pixels: Seq<u8>,
    width: u32,
    height: u32,
    format: TextureFormat,
    has_transparency: bool,
) -> bool {
    &&& t.width == width
    &&& t.height == height
    &&& t.format == format
    &&& t.data is Some
    &&& t.data->Some_0@ == pixels
    &&& t.view_formats[0] == format
    &&& t.array_layers == 1
    &&& t.repeat_mode == AddressMode::Repeat
    &&& t.filter_mode == FilterMode::Linear
    &&& t.mip_filter_mode == MipmapFilterMode::Linear
    &&& t.has_transparency == has_transparency
}

/// A shadow map array: depth texture with no pixel data.
pub open spec fn is_shadow_array(t: Texture, layers: u32, width: u32, height: u32) -> bool {
    &&& t.width == width
    &&& t.height == height
    &&& t.format == TextureFormat::Depth32Float
    &&& t.data is None
    &&& t.view_formats[0] == TextureFormat::Depth32Float
    &&& t.array_layers == layers
    &&& t.repeat_mode == AddressMode::Repeat
    &&& t.filter_mode == FilterMode::Linear
    &&& t.mip_filter_mode == MipmapFilterMode::Linear
    &&& !t.has_transparency
}

/// Calls `image::load_from_memory`, `DynamicImage::into_rgba8` and
/// `ImageBuffer::into_raw`, giving width, height and raw RGBA bytes, or
/// `None` when decoding fails. The image crate documents that an image
/// buffer's container holds at least width * height * 4 bytes for RGBA.
/// Which bytes a decoder produces is left unsaid: some decoders pick code
/// paths by the processor's features. Malformed bytes are reported by the
/// decoders as errors; that no decoder (PNG, JPEG, HDR) panics on some
/// malformed input is assumed here, not shown by the crate's source.
#[verifier::external_body]
fn decode_rgba8(bytes: &[u8]) -> (r: Option<(u32, u32, Vec<u8>)>)
    ensures
        match r {
            Some((w, h, px)) => px@.len() >= 4 * w * h,
            None => true,
        },
{
    match image::load_from_memory(bytes) {
        Ok(image) => {
            let rgba = image.into_rgba8();
            Some((rgba.width(), rgba.height(), rgba.into_raw()))
        },
        Err(_) => None,
    }
}

impl Texture {
    /// The fallback diffuse pattern: a black and magenta checkerboard of
    /// `width` by `height` pixels, four bytes each.
    pub fn gen_fallback_diffuse(width: u32, height: u32) -> (r: Vec<u8>)
        requires
            4 * checker_extent(width) * checker_extent(height) <= usize::MAX,
        ensures
            r@ == checker_bytes(width, height),
    {
        let w: u32 = if width <= 0x7fff_ffffu32 { width } else { 0 };
        let h: u32 = if height <= 0x7fff_ffffu32 { height } else { 0 };
        let ghost hh = h as int;
        let mut diffuse: Vec<u8> = Vec::new();
        let mut x: u32 = 0;
        while x < w
            invariant
                0 <= x <= w,
                w == checker_extent(width),
                h == checker_extent(height),
                hh == h as int,
                4 * w * h <= usize::MAX,
                diffuse@.len() == 4 * x * h,
                forall|i: int| 0 <= i < diffuse@.len() ==> #[trigger] diffuse@[i] == checker_byte((i / 4) / hh, (i / 4) % hh, i % 4),
            decreases w - x,
        {
            let mut y: u32 = 0;
            assert(4 * (x * h + y) == 4 * x * h) by (nonlinear_arith)
                requires y == 0;
            while y < h
                invariant
                    0 <= x < w,
                    0 <= y <= h,
                    w == checker_extent(width),
                    h == checker_extent(height),
                    hh == h as int,
                    4 * w * h <= usize::MAX,
                    diffuse@.len() == 4 * (x * h + y),
                    forall|i: int| 0 <= i < diffuse@.len() ==> #[trigger] diffuse@[i] == checker_byte((i / 4) / hh, (i / 4) % hh, i % 4),
                decreases h - y,
            {
                proof {
                    assert(x * h + y < w * h) by (nonlinear_arith)
                        requires x < w, y < h;
                }
                let ghost base = diffuse@.len() as int;
                let ghost p = (x * h + y) as int;
                if x % 2 == y % 2 {
                    diffuse.push(0u8);
                    diffuse.push(0u8);
                    diffuse.push(0u8);
                    diffuse.push(255u8);
                } else {
                    diffuse.push(255u8);
                    diffuse.push(0u8);
                    diffuse.push(255u8);
                    diffuse.push(255u8);
                }
                proof {
                    assert forall|i: int| 0 <= i < diffuse@.len() implies #[trigger] diffuse@[i] == checker_byte((i / 4) / hh, (i / 4) % hh, i % 4) by {
                        if i >= base {
                            let c = i - base;
                            lemma_fundamental_div_mod_converse(i, 4, p, c);
                            lemma_fundamental_div_mod_converse(p, hh, x as int, y as int);
                        }
                    }
                }
                y += 1;
            }
            proof {
                assert(4 * (x * h + h) == 4 * (x + 1) * h) by (nonlinear_arith);
            }
            x += 1;
        }
        assert(diffuse@ =~= checker_bytes(width, height));
        diffuse
    }

    /// An array of 2D depth textures for shadow maps, with `capacity` layers.
    pub fn new_2d_shadow_map_array(capacity: u32, width: u32, height: u32) -> (r: Texture)
        ensures
            is_shadow_array(r, capacity, width, height),
    {
        Texture {
            width,
            height,
            format: TextureFormat::Depth32Float,
            data: None,
            view_formats: [TextureFormat::Depth32Float],
            array_layers: capacity,
            repeat_mode: AddressMode::Repeat,
            filter_mode: FilterMode::Linear,
            mip_filter_mode: MipmapFilterMode::Linear,
            has_transparency: false,
        }
    }

    /// An array of 2D depth textures for shadow maps with at least one layer.
    pub fn new_2d_shadow_array(capacity: u32, width: u32, height: u32) -> (r: Texture)
        ensures
            is_shadow_array(r, if capacity >= 1 { capacity } else { 1 }, width, height),
    {
        let layers = if capacity >= 1 { capacity } else { 1 };
        Texture {
            width,
            height,
            format: TextureFormat::Depth32Float,
            data: None,
            view_formats: [TextureFormat::Depth32Float],
            array_layers: layers,
            repeat_mode: AddressMode::Repeat,
            filter_mode: FilterMode::Linear,
            mip_filter_mode: MipmapFilterMode::Linear,
            has_transparency: false,
        }
    }

    /// The GPU texture this texture is created as: at least one layer, one
    /// mip level, one sample.
    pub fn desc(&self) -> (r: TextureDescriptor)
        ensures
            r.width == self.width,
            r.height == self.height,
            r.depth_or_array_layers == if self.array_layers >= 1 { self.array_layers } else { 1 },
            r.mip_level_count == 1,
            r.sample_count == 1,
            r.format == self.format,
            r.view_formats == self.view_formats,
    {
        let layers = if self.array_layers >= 1 { self.array_layers } else { 1 };
        TextureDescriptor {
            width: self.width,
            height: self.height,
            depth_or_array_layers: layers,
            mip_level_count: 1,
            sample_count: 1,
            format: self.format,
            view_formats: self.view_formats,
        }
    }

    /// How this texture is viewed: as an array when it has several layers.
    pub fn view_desc(&self) -> (r: TextureViewDescriptor)
        ensures
            r.format == self.format,
            r.dimension == if self.array_layers > 1 {
                TextureViewDimension::D2Array
            } else {
                TextureViewDimension::D2
            },
            r.base_mip_level == 0,
            r.base_array_layer == 0,
    {
        let dimension = if self.array_layers > 1 {
            TextureViewDimension::D2Array
        } else {
            TextureViewDimension::D2
        };
        TextureViewDescriptor { format: self.format, dimension, base_mip_level: 0, base_array_layer: 0 }
    }

    /// How this texture is sampled: its repeat mode on all axes, its filter
    /// for magnification and minification.
    pub fn sampler_desc(&self) -> (r: SamplerDescriptor)
        ensures
            r.address_mode_u == self.repeat_mode,
            r.address_mode_v == self.repeat_mode,
            r.address_mode_w == self.repeat_mode,
            r.mag_filter == self.filter_mode,
            r.min_filter == self.filter_mode,
            r.mipmap_filter == self.mip_filter_mode,
    {
        SamplerDescriptor {
            address_mode_u: self.repeat_mode,
            address_mode_v: self.repeat_mode,
            address_mode_w: self.repeat_mode,
            mag_filter: self.filter_mode,
            min_filter: self.filter_mode,
            mipmap_filter: self.mip_filter_mode,
        }
    }

    /// Whether some alpha byte of `data` in `format` is below 255. Formats
    /// without an 8-bit alpha channel are never transparent.
    pub fn calculate_transparency(format: TextureFormat, data: &[u8]) -> (r: bool)
        ensures
            r == has_translucent_alpha(format, data@),
    {
        let chunk_size: usize = match format {
            TextureFormat::Rg8Unorm => 2,
            TextureFormat::Rgba8Unorm | TextureFormat::Rgba8UnormSrgb | TextureFormat::Rgba8Snorm
            | TextureFormat::Rgba8Uint | TextureFormat::Rgba8Sint | TextureFormat::Bgra8Unorm
            | TextureFormat::Bgra8UnormSrgb => 4,
            _ => {
                return false;
            },
        };
        let ghost s = chunk_size as int;
        let mut i: usize = chunk_size - 1;
        while i < data.len()
            invariant
                s == alpha_stride(format),
                s == chunk_size,
                s > 0,
                (i as int) % s == s - 1,
                i >= s - 1,
                forall|j: int| 0 <= j < data@.len() && j < i && j % s == s - 1 ==> data@[j] == 255,
            decreases data@.len() - i,
        {
            if data[i] < 255 {
                assert(data@[i as int] < 255);
                return true;
            }
            if data.len() - i <= chunk_size {
                proof {
                    assert forall|j: int| 0 <= j < data@.len() && j % s == s - 1 implies data@[j] == 255 by {
                        if j > i {
                            lemma_stride_gap(i as int, j, s);
                        }
                    }
                }
                return false;
            }
            proof {
                assert forall|j: int| 0 <= j < data@.len() && j < i + s && j % s == s - 1 implies data@[j] == 255 by {
                    if j > i {
                        lemma_stride_gap(i as int, j, s);
                    }
                }
                assert((i + s) % s == s - 1) by {
                    lemma_fundamental_div_mod_converse(i + s, s, (i as int) / s + 1, s - 1);
                    vstd::arithmetic::div_mod::lemma_fundamental_div_mod(i as int, s);
                }
            }
            i += chunk_size;
        }
        false
    }

    /// A texture holding `pixels` as `format`; transparency is computed from
    /// the alpha bytes.
    pub fn load_pixels(pixels: Vec<u8>, width: u32, height: u32, format: TextureFormat) -> (r: Texture)
        ensures
            is_pixel_texture(r, pixels@, width, height, format, has_translucent_alpha(format, pixels@)),
    {
        let has_transparency = Self::calculate_transparency(format, pixels.as_slice());
        Texture {
            width,
            height,
            format,
            data: Some(pixels),
            view_formats: [format],
            array_layers: 1,
            repeat_mode: AddressMode::Repeat,
            filter_mode: FilterMode::Linear,
            mip_filter_mode: MipmapFilterMode::Linear,
            has_transparency,
        }
    }

    /// A texture holding `pixels` as `format`, with the given transparency.
    pub fn load_pixels_with_transparency(
        pixels: Vec<u8>,
        width: u32,
        height: u32,
        format: TextureFormat,
        has_transparency: bool,
    ) -> (r: Texture)
        ensures
            is_pixel_texture(r, pixels@, width, height, format, has_transparency),
    {
        Texture {
            width,
            height,
            format,
            data: Some(pixels),
            view_formats: [format],
            array_layers: 1,
            repeat_mode: AddressMode::Repeat,
            filter_mode: FilterMode::Linear,
            mip_filter_mode: MipmapFilterMode::Linear,
            has_transparency,
        }
    }

    /// Recomputes the transparency flag from the pixel data, if any.
    pub fn refresh_transparency(&mut self)
        ensures
            final(self).has_transparency == match old(self).data {
                Some(d) => has_translucent_alpha(old(self).view_formats[0], d@),
                None => old(self).has_transparency,
            },
            final(self).width == old(self).width,
            final(self).height == old(self).height,
            final(self).format == old(self).format,
            final(self).data == old(self).data,
            final(self).view_formats == old(self).view_formats,
            final(self).array_layers == old(self).array_layers,
            final(self).repeat_mode == old(self).repeat_mode,
            final(self).filter_mode == old(self).filter_mode,
            final(self).mip_filter_mode == old(self).mip_filter_mode,
    {
        if let Some(data) = &self.data {
            self.has_transparency = Self::calculate_transparency(self.view_formats[0], data.as_slice());
        }
    }

    /// A BGRA texture from the first `width * height` RGBA pixels of `rgba`.
    pub fn from_rgba8(width: u32, height: u32, rgba: &[u8]) -> (r: Texture)
        requires
            rgba@.len() >= 4 * width * height,
        ensures
            is_pixel_texture(
                r,
                bgra_of(rgba@.take(4 * width * height)),
                width,
                height,
                TextureFormat::Bgra8UnormSrgb,
                has_translucent_alpha(TextureFormat::Bgra8UnormSrgb, bgra_of(rgba@.take(4 * width * height))),
            ),
    {
        let len: usize = rgba.len();
        proof {
            assert(4 * ((width as int) * (height as int)) <= len) by (nonlinear_arith)
                requires len >= 4 * width * height;
        }
        let wh: usize = (width as usize) * (height as usize);
        let n: usize = 4 * wh;
        proof {
            assert(n == 4 * width * height) by (nonlinear_arith)
                requires n == 4 * wh, wh == (width as int) * (height as int);
            assert(n % 4 == 0) by (nonlinear_arith)
                requires n == 4 * wh;
        }
        let ghost src = rgba@.take(n as int);
        let mut data: Vec<u8> = Vec::new();
        let mut i: usize = 0;
        while i < n
            invariant
                n <= rgba@.len(),
                n % 4 == 0,
                n == 4 * width * height,
                src == rgba@.take(n as int),
                0 <= i <= n,
                i % 4 == 0,
                data@.len() == i,
                forall|j: int| 0 <= j < i ==> #[trigger] data@[j] == bgra_of(src)[j],
            decreases n - i,
        {
            proof {
                assert(i + 4 <= n) by {
                    vstd::arithmetic::div_mod::lemma_fundamental_div_mod(i as int, 4);
                    vstd::arithmetic::div_mod::lemma_fundamental_div_mod(n as int, 4);
                }
            }
            data.push(rgba[i + 2]);
            data.push(rgba[i + 1]);
            data.push(rgba[i]);
            data.push(rgba[i + 3]);
            proof {
                assert forall|j: int| 0 <= j < i + 4 implies #[trigger] data@[j] == bgra_of(src)[j] by {
                    if j >= i {
                        lemma_fundamental_div_mod_converse(j, 4, (i / 4) as int, j - i);
                        vstd::arithmetic::div_mod::lemma_fundamental_div_mod(i as int, 4);
                    }
                }
                assert((i + 4) % 4 == 0) by {
                    vstd::arithmetic::div_mod::lemma_fundamental_div_mod(i as int, 4);
                    lemma_fundamental_div_mod_converse(i + 4, 4, (i / 4) as int + 1, 0);
                }
            }
            i += 4;
        }
        assert(data@ =~= bgra_of(src));
        Self::load_pixels(data, width, height, TextureFormat::Bgra8UnormSrgb)
    }

    /// Decodes an encoded image (PNG, JPEG, HDR, ...) into a BGRA texture:
    /// the one [`Texture::from_rgba8`] makes of the decoded width, height and
    /// RGBA bytes, or `TextureError::Decode` when the bytes do not decode.
    pub fn load_image_from_memory(bytes: &[u8]) -> (r: Result<Texture, TextureError>)
        ensures
            r matches Ok(t) ==> exists|w: u32, h: u32, px: Seq<u8>| {
                &&& px.len() >= 4 * w * h
                &&& #[trigger] is_pixel_texture(
                    t,
                    bgra_of(px.take(4 * w * h)),
                    w,
                    h,
                    TextureFormat::Bgra8UnormSrgb,
                    has_translucent_alpha(TextureFormat::Bgra8UnormSrgb, bgra_of(px.take(4 * w * h))),
                )
            },
    {
        match decode_rgba8(bytes) {
            Some((width, height, rgba)) => Ok(Self::from_rgba8(width, height, rgba.as_slice())),
            None => Err(TextureError::Decode),
        }
    }
}

/// Consecutive alpha positions are a full stride apart.
proof fn lemma_stride_gap(i: int, j: int, s: int)
    requires
        s > 0,
        i >= 0,
        i % s == s - 1,
        j > i,
        j % s == s - 1,
    ensures
        j >= i + s,
{
    vstd::arithmetic::div_mod::lemma_fundamental_div_mod(i, s);
    vstd::arithmetic::div_mod::lemma_fundamental_div_mod(j, s);
    let qi = i / s;
    let qj = j / s;
    assert(qj > qi) by (nonlinear_arith)
        requires j == s * qj + (s - 1), i == s * qi + (s - 1), j > i, s > 0;
    assert(j >= i + s) by (nonlinear_arith)
        requires j == s * qj + (s - 1), i == s * qi + (s - 1), qj >= qi + 1, s > 0;
}

/// The side length of the fallback diffuse checkerboard.
pub const FALLBACK_SIZE: u32 = 35;

impl H<Texture> {
    /// The checkerboard used where a diffuse texture is missing.
    pub fn fallback_diffuse() -> (r: H<Texture>)
        ensures
            r@ == 0,
    {
        H::new(0)
    }

    /// The flat texture used where a normal map is missing.
    pub fn fallback_normal() -> (r: H<Texture>)
        ensures
            r@ == 1,
    {
        H::new(1)
    }

    /// The flat texture used where a roughness map is missing.
    pub fn fallback_roughness() -> (r: H<Texture>)
        ensures
            r@ == 2,
    {
        H::new(2)
    }
}

impl StoreType for Texture {
    open spec fn builtin_spec(id: u32) -> bool {
        id <= 2
    }

    open spec fn ident_spec(id: u32) -> Option<Seq<char>> {
        if id == 0 {
            Some("Diffuse Fallback"@)
        } else if id == 1 {
            Some("Normal Fallback"@)
        } else if id == 2 {
            Some("Diffuse Fallback"@)
        } else {
            None
        }
    }

    open spec fn type_name_spec() -> Seq<char> {
        "Texture"@
    }

    fn name() -> (r: &'static str) {
        "Texture"
    }

    fn ident_fmt(handle: H<Self>) -> (r: HandleName<Self>) {
        let id = handle.id();
        if id == 0 {
            HandleName::Static("Diffuse Fallback")
        } else if id == 1 {
            HandleName::Static("Normal Fallback")
        } else if id == 2 {
            HandleName::Static("Diffuse Fallback")
        } else {
            HandleName::Id(handle)
        }
    }

    fn is_builtin(handle: H<Self>) -> (r: bool) {
        handle.id() <= 2
    }
}

impl StoreTypeFallback for Texture {
    open spec fn fallback_spec() -> u32 {
        0
    }

    fn fallback() -> (r: H<Self>) {
        H::fallback_diffuse()
    }
}

impl StoreDefaults for Texture {
    open spec fn default_count() -> nat {
        3
    }

    /// The checkerboard diffuse fallback (0) and the two flat 1x1
    /// fallbacks (1, 2), all opaque BGRA.
    open spec fn is_builtin_asset(id: u32, v: Self) -> bool {
        if id == 0 {
            is_pixel_texture(
                v,
                checker_bytes(FALLBACK_SIZE, FALLBACK_SIZE),
                FALLBACK_SIZE,
                FALLBACK_SIZE,
                TextureFormat::Bgra8UnormSrgb,
                false,
            )
        } else {
            is_pixel_texture(v, seq![0u8, 0u8, 0u8, 0u8], 1, 1, TextureFormat::Bgra8UnormSrgb, false)
        }
    }

    /// Adds the checkerboard diffuse fallback and the two flat 1x1 fallbacks,
    /// all opaque BGRA.
    fn populate(store: &mut Store<Self>)
        ensures
            final(store).contents().len() == 3,
            is_pixel_texture(
                final(store).value(0),
                checker_bytes(FALLBACK_SIZE, FALLBACK_SIZE),
                FALLBACK_SIZE,
                FALLBACK_SIZE,
                TextureFormat::Bgra8UnormSrgb,
                false,
            ),
            is_pixel_texture(final(store).value(1), seq![0u8, 0u8, 0u8, 0u8], 1, 1, TextureFormat::Bgra8UnormSrgb, false),
            is_pixel_texture(final(store).value(2), seq![0u8, 0u8, 0u8, 0u8], 1, 1, TextureFormat::Bgra8UnormSrgb, false),
    {
        assert(checker_extent(FALLBACK_SIZE) == 35);
        assert(4 * checker_extent(FALLBACK_SIZE) * checker_extent(FALLBACK_SIZE) == 4900) by (nonlinear_arith)
            requires checker_extent(FALLBACK_SIZE) == 35;
        let diffuse = Texture::load_pixels_with_transparency(
            Self::gen_fallback_diffuse(FALLBACK_SIZE, FALLBACK_SIZE),
            FALLBACK_SIZE,
            FALLBACK_SIZE,
            TextureFormat::Bgra8UnormSrgb,
            false,
        );
        store.add(diffuse);
        let normal = Texture::load_pixels_with_transparency(
            vec![0u8, 0u8, 0u8, 0u8],
            1,
            1,
            TextureFormat::Bgra8UnormSrgb,
            false,
        );
        store.add(normal);
        let roughness = Texture::load_pixels_with_transparency(
            vec![0u8, 0u8, 0u8, 0u8],
            1,
            1,
            TextureFormat::Bgra8UnormSrgb,
            false,
        );
        store.add(roughness);
    }
}

} // verus!
