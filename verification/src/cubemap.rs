//! Cubemap assets: six square faces of RGBA pixels, the colored fallback
//! cubemap, and assembling a cubemap from six decoded face images.

use crate::store::{HandleName, Store, StoreDefaults, StoreType, StoreTypeFallback, H};
use crate::texture::TextureFormat;
use vstd::prelude::*;

verus! {

/// The pixel data of the six faces of a cubemap, in the order +X, -X, +Y,
/// -Y, +Z, -Z.
#[derive(Clone, Debug)]
pub struct CubemapFaces {
    pub positive_x: Vec<u8>,
    pub negative_x: Vec<u8>,
    pub positive_y: Vec<u8>,
    pub negative_y: Vec<u8>,
    pub positive_z: Vec<u8>,
    pub negative_z: Vec<u8>,
}

/// A solid RGBA color of a fallback face.
#[derive(Clone, Copy, PartialEq, Eq, Structural, Debug)]
pub struct FaceColor {
    pub r: u8,
    pub g: u8,
    pub b: u8,
    pub a: u8,
}

impl FaceColor {
    /// The color with the given channels.
    pub fn new(r: u8, g: u8, b: u8, a: u8) -> (c: FaceColor)
        ensures
            c == (FaceColor { r, g, b, a }),
    {
        FaceColor { r, g, b, a }
    }

    /// The channels in RGBA order.
    pub open spec fn bytes(self) -> Seq<u8> {
        seq![self.r, self.g, self.b, self.a]
    }

    /// The channels in RGBA order.
    pub fn to_array(self) -> (r: [u8; 4])
        ensures
            r@ == self.bytes(),
    {
        let r = [self.r, self.g, self.b, self.a];
        assert(r@ =~= self.bytes());
        r
    }
}

/// The bytes of `pattern` repeated `n` times.
pub open spec fn repeat_bytes(pattern: Seq<u8>, n: nat) -> Seq<u8> {
    Seq::new(n * pattern.len(), |i: int| pattern[i % pattern.len() as int])
}

/// The colors of the fallback faces: red, green, blue, yellow, magenta and
/// cyan, all opaque.
pub open spec fn face_color_spec(i: int) -> FaceColor {
    if i == 0 {
        FaceColor { r: 255, g: 0, b: 0, a: 255 }
    } else if i == 1 {
        FaceColor { r: 0, g: 255, b: 0, a: 255 }
    } else if i == 2 {
        FaceColor { r: 0, g: 0, b: 255, a: 255 }
    } else if i == 3 {
        FaceColor { r: 255, g: 255, b: 0, a: 255 }
    } else if i == 4 {
        FaceColor { r: 255, g: 0, b: 255, a: 255 }
    } else {
        FaceColor { r: 0, g: 255, b: 255, a: 255 }
    }
}

/// A face of `n` pixels of color `c`.
pub fn solid_face(c: FaceColor, n: usize) -> (r: Vec<u8>)
    requires
        4 * n <= usize::MAX,
    ensures
        r@ == repeat_bytes(c.bytes(), n as nat),
{
    let px = c.to_array();
    let mut out: Vec<u8> = Vec::new();
    let mut k: usize = 0;
    while k < n
        invariant
            0 <= k <= n,
            4 * n <= usize::MAX,
            px@ == c.bytes(),
            out@.len() == 4 * k,
            forall|i: int| 0 <= i < out@.len() ==> #[trigger] out@[i] == c.bytes()[i % 4],
        decreases n - k,
    {
        let ghost before = out@;
        out.push(px[0]);
        out.push(px[1]);
        out.push(px[2]);
        out.push(px[3]);
        proof {
            assert forall|i: int| 0 <= i < out@.len() implies #[trigger] out@[i] == c.bytes()[i % 4] by {
                if i >= before.len() {
                    vstd::arithmetic::div_mod::lemma_fundamental_div_mod_converse(i, 4, k as int, i - 4 * k);
                }
            }
        }
        k += 1;
    }
    assert(c.bytes().len() == 4);
    assert(out@ =~= repeat_bytes(c.bytes(), n as nat));
    out
}

impl CubemapFaces {
    /// The faces in the order +X, -X, +Y, -Y, +Z, -Z.
    pub open spec fn faces_view(self) -> Seq<Seq<u8>> {
        seq![
            self.positive_x@,
            self.negative_x@,
            self.positive_y@,
            self.negative_y@,
            self.positive_z@,
            self.negative_z@,
        ]
    }

    /// Faces from their pixel data.
    pub fn new(
        positive_x: Vec<u8>,
        negative_x: Vec<u8>,
        positive_y: Vec<u8>,
        negative_y: Vec<u8>,
        positive_z: Vec<u8>,
        negative_z: Vec<u8>,
    ) -> (r: CubemapFaces)
        ensures
            r.faces_view() == seq![positive_x@, negative_x@, positive_y@, negative_y@, positive_z@, negative_z@],
    {
        CubemapFaces { positive_x, negative_x, positive_y, negative_y, positive_z, negative_z }
    }

    /// Six solid faces of `size * size` pixels, face `i` in `colors[i]`.
    pub fn from_colors(colors: [FaceColor; 6], size: u32) -> (r: CubemapFaces)
        requires
            4 * size * size <= usize::MAX,
        ensures
            forall|i: int| 0 <= i < 6 ==> #[trigger] r.faces_view()[i] == repeat_bytes(
                colors@[i].bytes(),
                (size * size) as nat,
            ),
    {
        proof {
            assert((size as int) * (size as int) <= usize::MAX) by (nonlinear_arith)
                requires 4 * size * size <= usize::MAX;
        }
        let pixel_count: usize = (size as usize) * (size as usize);
        assert(4 * pixel_count <= usize::MAX) by (nonlinear_arith)
            requires 4 * size * size <= usize::MAX, pixel_count == (size as int) * (size as int);
        let r = Self::new(
            solid_face(colors[0], pixel_count),
            solid_face(colors[1], pixel_count),
            solid_face(colors[2], pixel_count),
            solid_face(colors[3], pixel_count),
            solid_face(colors[4], pixel_count),
            solid_face(colors[5], pixel_count),
        );
        r
    }

    /// The faces in the order +X, -X, +Y, -Y, +Z, -Z.
    pub fn iter(&self) -> (r: Vec<&Vec<u8>>)
        ensures
            r@.len() == 6,
            forall|i: int| 0 <= i < 6 ==> #[trigger] r@[i]@ == self.faces_view()[i],
    {
        let mut v: Vec<&Vec<u8>> = Vec::new();
        v.push(&self.positive_x);
        v.push(&self.negative_x);
        v.push(&self.positive_y);
        v.push(&self.negative_y);
        v.push(&self.positive_z);
        v.push(&self.negative_z);
        v
    }

    /// The number of faces, always six.
    pub fn len(&self) -> (r: usize)
        ensures
            r == 6,
    {
        6
    }

    /// A cubemap always has faces.
    pub fn is_empty(&self) -> (r: bool)
        ensures
            !r,
    {
        false
    }
}

/// A cubemap asset: six faces of `width` by `height` pixels.
#[derive(Clone, Debug)]
pub struct Cubemap {
    pub faces: CubemapFaces,
    pub width: u32,
    pub height: u32,
    pub format: TextureFormat,
}

/// A decoded image in RGBA, four bytes per pixel, row by row.
#[derive(Clone, Debug)]
pub struct RgbaImage {
    pub width: u32,
    pub height: u32,
    pub pixels: Vec<u8>,
}

/// Calls `image::RgbaImage::from_raw`, `image::imageops::resize` with
/// `FilterType::Lanczos3` and `ImageBuffer::into_raw`. `from_raw` accepts
/// a buffer of at least `4 * width * height` bytes; `resize` allocates an
/// intermediate image of `width` by `new_height` pixels of four 4-byte
/// floats and a result of `new_width` by `new_height` RGBA pixels, and
/// returns an image of the requested dimensions. What the resampled bytes
/// are is left unsaid: the filter weights come from `f32::sin`, whose
/// precision the platform decides.
#[verifier::external_body]
fn resize_rgba(width: u32, height: u32, pixels: &[u8], new_width: u32, new_height: u32) -> (r: Vec<u8>)
    requires
        pixels@.len() >= 4 * width * height,
        4 * width * height <= usize::MAX,
        4 * new_width * new_height <= isize::MAX,
        16 * width * new_height <= isize::MAX,
    ensures
        r@.len() == 4 * new_width * new_height,
{
    let img = image::RgbaImage::from_raw(width, height, pixels.to_vec()).unwrap();
    image::imageops::resize(&img, new_width, new_height, image::imageops::FilterType::Lanczos3).into_raw()
}

/// The side of a face made for an image that could not be read.
pub const FALLBACK_FACE_SIZE: u32 = 64;

/// The side of the built-in fallback cubemap.
pub const FALLBACK_CUBEMAP_SIZE: u32 = 32;

/// The size a cubemap assembled from `images` gets: that of the first
/// image, or the fallback face size when it could not be read.
pub open spec fn cube_size(images: Seq<Option<RgbaImage>>) -> (u32, u32) {
    match images[0] {
        Some(img) => (img.width, img.height),
        None => (FALLBACK_FACE_SIZE, FALLBACK_FACE_SIZE),
    }
}

/// What is handed to the resampler for face `i` of `images`: the image's
/// width, height and pixels, and the cubemap's width and height; `None`
/// for a face that is not resampled.
pub open spec fn resize_request(images: Seq<Option<RgbaImage>>, i: int) -> Option<(u32, u32, Seq<u8>, u32, u32)> {
    let (w, h) = cube_size(images);
    match images[i] {
        Some(img) => if img.width != w || img.height != h {
            Some((img.width, img.height, img.pixels@, w, h))
        } else {
            None
        },
        None => None,
    }
}

/// Face `i` of a cubemap of `w` by `h` pixels assembled from `images`, with
/// `resampled[i]` the buffer resampled from image `i` where its size
/// differs: the solid 64 by 64 fallback color where the image could not be
/// read, the resampled buffer where it was resized, else the image itself.
pub open spec fn face_from(
    images: Seq<Option<RgbaImage>>,
    resampled: Seq<Option<Vec<u8>>>,
    i: int,
    w: u32,
    h: u32,
) -> Seq<u8> {
    match images[i] {
        None => repeat_bytes(face_color_spec(i).bytes(), (FALLBACK_FACE_SIZE * FALLBACK_FACE_SIZE) as nat),
        Some(img) => if img.width != w || img.height != h {
            resampled[i]->Some_0@
        } else {
            img.pixels@
        },
    }
}

/// The images can be assembled: each image that has to be resized holds
/// its pixels, and the buffers the resize allocates fit in memory.
pub open spec fn assemblable(images: Seq<Option<RgbaImage>>) -> bool {
    let (w, h) = cube_size(images);
    &&& images.len() == 6
    &&& forall|i: int| 0 <= i < 6 ==> match #[trigger] images[i] {
        Some(img) => (img.width != w || img.height != h) ==> {
            &&& img.pixels@.len() >= 4 * img.width * img.height
            &&& 4 * img.width * img.height <= usize::MAX
            &&& 4 * w * h <= isize::MAX
            &&& 16 * img.width * h <= isize::MAX
        },
        None => true,
    }
}

impl Cubemap {
    /// The colors of the fallback faces: red, green, blue, yellow, magenta
    /// and cyan.
    pub fn face_colors() -> (r: [FaceColor; 6])
        ensures
            forall|i: int| 0 <= i < 6 ==> #[trigger] r@[i] == face_color_spec(i),
    {
        [
            FaceColor::new(255, 0, 0, 255),
            FaceColor::new(0, 255, 0, 255),
            FaceColor::new(0, 0, 255, 255),
            FaceColor::new(255, 255, 0, 255),
            FaceColor::new(255, 0, 255, 255),
            FaceColor::new(0, 255, 255, 255),
        ]
    }

    /// Six solid faces of `size * size` pixels in the fallback colors.
    pub fn gen_fallback_cubemap(size: u32) -> (r: CubemapFaces)
        requires
            4 * size * size <= usize::MAX,
        ensures
            forall|i: int| 0 <= i < 6 ==> #[trigger] r.faces_view()[i] == repeat_bytes(
                face_color_spec(i).bytes(),
                (size * size) as nat,
            ),
    {
        CubemapFaces::from_colors(Self::face_colors(), size)
    }

    /// The cubemap used when an image cannot be read: fallback faces of
    /// 64 by 64 pixels.
    pub fn fallback_image_cubemap() -> (r: Cubemap)
        ensures
            r.width == FALLBACK_FACE_SIZE,
            r.height == FALLBACK_FACE_SIZE,
            r.format == TextureFormat::Rgba8UnormSrgb,
            forall|i: int| 0 <= i < 6 ==> #[trigger] r.faces.faces_view()[i] == repeat_bytes(
                face_color_spec(i).bytes(),
                (FALLBACK_FACE_SIZE * FALLBACK_FACE_SIZE) as nat,
            ),
    {
        Cubemap {
            faces: Self::gen_fallback_cubemap(FALLBACK_FACE_SIZE),
            width: FALLBACK_FACE_SIZE,
            height: FALLBACK_FACE_SIZE,
            format: TextureFormat::Rgba8UnormSrgb,
        }
    }

    /// The face size for an equirectangular image `image_width` pixels wide:
    /// a quarter of the width, at least 64.
    pub fn equirect_face_size(image_width: u32) -> (r: u32)
        ensures
            r == if image_width / 4 >= FALLBACK_FACE_SIZE { image_width / 4 } else { FALLBACK_FACE_SIZE },
    {
        let q = image_width / 4;
        if q >= FALLBACK_FACE_SIZE {
            q
        } else {
            FALLBACK_FACE_SIZE
        }
    }

    /// Resamples each face image whose size differs from the first face's
    /// (64 by 64 where the first face is missing) to that size, with the
    /// Lanczos3 filter; `None` for every other face. The request handed to
    /// the resampler for each face is `resize_request`; of the resampled
    /// bytes only their length is known.
    pub fn resample_faces(images: &Vec<Option<RgbaImage>>) -> (r: Vec<Option<Vec<u8>>>)
        requires
            assemblable(images@),
        ensures
            r@.len() == 6,
            forall|i: int| 0 <= i < 6 ==> (#[trigger] r@[i] is Some <==> resize_request(images@, i) is Some),
            forall|i: int| 0 <= i < 6 ==> (#[trigger] r@[i] matches Some(b) ==> b@.len() == 4
                * cube_size(images@).0 * cube_size(images@).1),
    {
        let (w, h) = match &images[0] {
            Some(img) => (img.width, img.height),
            None => (FALLBACK_FACE_SIZE, FALLBACK_FACE_SIZE),
        };
        let mut out: Vec<Option<Vec<u8>>> = Vec::new();
        let mut i: usize = 0;
        while i < 6
            invariant
                assemblable(images@),
                cube_size(images@) == (w, h),
                i <= 6,
                out@.len() == i,
                forall|j: int| 0 <= j < i ==> (#[trigger] out@[j] is Some <==> resize_request(images@, j) is Some),
                forall|j: int| 0 <= j < i ==> (#[trigger] out@[j] matches Some(b) ==> b@.len() == 4 * w * h),
            decreases 6 - i,
        {
            let face: Option<Vec<u8>> = match &images[i] {
                Some(img) => {
                    if img.width != w || img.height != h {
                        Some(resize_rgba(img.width, img.height, img.pixels.as_slice(), w, h))
                    } else {
                        None
                    }
                },
                None => None,
            };
            out.push(face);
            i += 1;
        }
        out
    }

    /// Assembles a cubemap from the six decoded face images (`None` where a
    /// face could not be read) and the faces [`Cubemap::resample_faces`]
    /// made of them. The first face sets the size, 64 by 64 when it is
    /// missing; a face of another size is its resampled buffer; a missing
    /// face is a solid 64 by 64 face in its fallback color.
    pub fn from_face_images(images: Vec<Option<RgbaImage>>, resampled: Vec<Option<Vec<u8>>>) -> (r: Cubemap)
        requires
            images@.len() == 6,
            resampled@.len() == 6,
            forall|i: int| 0 <= i < 6 ==> (#[trigger] resize_request(images@, i) is Some ==> resampled@[i] is Some),
        ensures
            (r.width, r.height) == cube_size(images@),
            r.format == TextureFormat::Rgba8UnormSrgb,
            forall|i: int| 0 <= i < 6 ==> #[trigger] r.faces.faces_view()[i] == face_from(
                images@,
                resampled@,
                i,
                r.width,
                r.height,
            ),
    {
        let mut images = images;
        let mut resampled = resampled;
        let ghost orig = images@;
        let ghost orig_r = resampled@;
        let (width, height) = match &images[0] {
            Some(img) => (img.width, img.height),
            None => (FALLBACK_FACE_SIZE, FALLBACK_FACE_SIZE),
        };
        let f0 = Self::take_face(&mut images, &mut resampled, 0, width, height, Ghost(orig), Ghost(orig_r));
        let f1 = Self::take_face(&mut images, &mut resampled, 1, width, height, Ghost(orig), Ghost(orig_r));
        let f2 = Self::take_face(&mut images, &mut resampled, 2, width, height, Ghost(orig), Ghost(orig_r));
        let f3 = Self::take_face(&mut images, &mut resampled, 3, width, height, Ghost(orig), Ghost(orig_r));
        let f4 = Self::take_face(&mut images, &mut resampled, 4, width, height, Ghost(orig), Ghost(orig_r));
        let f5 = Self::take_face(&mut images, &mut resampled, 5, width, height, Ghost(orig), Ghost(orig_r));
        Cubemap {
            faces: CubemapFaces::new(f0, f1, f2, f3, f4, f5),
            width,
            height,
            format: TextureFormat::Rgba8UnormSrgb,
        }
    }

    fn take_face(
        images: &mut Vec<Option<RgbaImage>>,
        resampled: &mut Vec<Option<Vec<u8>>>,
        i: usize,
        w: u32,
        h: u32,
        Ghost(orig): Ghost<Seq<Option<RgbaImage>>>,
        Ghost(orig_r): Ghost<Seq<Option<Vec<u8>>>>,
    ) -> (r: Vec<u8>)
        requires
            0 <= i < 6,
            orig.len() == 6,
            orig_r.len() == 6,
            cube_size(orig) == (w, h),
            forall|j: int| 0 <= j < 6 ==> (#[trigger] resize_request(orig, j) is Some ==> orig_r[j] is Some),
            old(images)@.len() == 6,
            old(resampled)@.len() == 6,
            forall|j: int| i <= j < 6 ==> old(images)@[j] == orig[j],
            forall|j: int| i <= j < 6 ==> old(resampled)@[j] == orig_r[j],
        ensures
            r@ == face_from(orig, orig_r, i as int, w, h),
            final(images)@.len() == 6,
            final(resampled)@.len() == 6,
            forall|j: int| i < j < 6 ==> final(images)@[j] == orig[j],
            forall|j: int| i < j < 6 ==> final(resampled)@[j] == orig_r[j],
    {
        let mut slot: Option<RgbaImage> = None;
        std::mem::swap(&mut images[i], &mut slot);
        let mut rslot: Option<Vec<u8>> = None;
        std::mem::swap(&mut resampled[i], &mut rslot);
        assert(slot == orig[i as int]);
        assert(rslot == orig_r[i as int]);
        match slot {
            None => {
                let colors = Self::face_colors();
                solid_face(colors[i], 4096)
            },
            Some(img) => {
                if img.width != w || img.height != h {
                    assert(resize_request(orig, i as int) is Some);
                    rslot.unwrap()
                } else {
                    img.pixels
                }
            },
        }
    }

    /// The bytes in one row of a face, if that fits in a `u32`.
    pub fn bytes_per_row(&self) -> (r: Option<u32>)
        ensures
            match r {
                Some(n) => n == 4 * self.width,
                None => 4 * self.width > u32::MAX,
            },
    {
        self.width.checked_mul(4)
    }
}

impl H<Cubemap> {
    /// The built-in fallback cubemap.
    pub fn fallback_cubemap() -> (r: H<Cubemap>)
        ensures
            r@ == 0,
    {
        H::new(0)
    }
}

impl StoreType for Cubemap {
    open spec fn builtin_spec(id: u32) -> bool {
        id == 0
    }

    open spec fn ident_spec(id: u32) -> Option<Seq<char>> {
        if id == 0 {
            Some("Cubemap Fallback"@)
        } else {
            None
        }
    }

    open spec fn type_name_spec() -> Seq<char> {
        "Cubemap"@
    }

    fn name() -> (r: &'static str) {
        "Cubemap"
    }

    fn ident_fmt(handle: H<Self>) -> (r: HandleName<Self>) {
        if handle.id() == 0 {
            HandleName::Static("Cubemap Fallback")
        } else {
            HandleName::Id(handle)
        }
    }

    fn is_builtin(handle: H<Self>) -> (r: bool) {
        handle.id() == 0
    }
}

impl StoreTypeFallback for Cubemap {
    open spec fn fallback_spec() -> u32 {
        0
    }

    fn fallback() -> (r: H<Self>) {
        H::fallback_cubemap()
    }
}

impl StoreDefaults for Cubemap {
    open spec fn default_count() -> nat {
        1
    }

    /// The fallback cubemap: BGRA faces of 32 by 32 pixels in the fallback
    /// colors.
    open spec fn is_builtin_asset(id: u32, v: Self) -> bool {
        &&& v.width == FALLBACK_CUBEMAP_SIZE
        &&& v.height == FALLBACK_CUBEMAP_SIZE
        &&& v.format == TextureFormat::Bgra8UnormSrgb
        &&& forall|i: int| 0 <= i < 6 ==> #[trigger] v.faces.faces_view()[i] == repeat_bytes(
            face_color_spec(i).bytes(),
            (FALLBACK_CUBEMAP_SIZE * FALLBACK_CUBEMAP_SIZE) as nat,
        )
    }

    /// Adds the fallback cubemap: BGRA faces of 32 by 32 pixels in the
    /// fallback colors.
    fn populate(store: &mut Store<Self>)
        ensures
            final(store).value(0).width == FALLBACK_CUBEMAP_SIZE,
            final(store).value(0).height == FALLBACK_CUBEMAP_SIZE,
            final(store).value(0).format == TextureFormat::Bgra8UnormSrgb,
            forall|i: int| 0 <= i < 6 ==> #[trigger] final(store).value(0).faces.faces_view()[i] == repeat_bytes(
                face_color_spec(i).bytes(),
                (FALLBACK_CUBEMAP_SIZE * FALLBACK_CUBEMAP_SIZE) as nat,
            ),
    {
        let fallback = Cubemap {
            faces: Self::gen_fallback_cubemap(FALLBACK_CUBEMAP_SIZE),
            width: FALLBACK_CUBEMAP_SIZE,
            height: FALLBACK_CUBEMAP_SIZE,
            format: TextureFormat::Bgra8UnormSrgb,
        };
        store.add(fallback);
    }
}

} // verus!
