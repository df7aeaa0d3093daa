use crate::utils::error::{WallpaperError, WallpaperResult};
use dashmap::DashMap;
use vstd::prelude::*;
use vstd::string::*;

verus! {

/// An image of `width` by `height` pixels, four bytes each: red, green,
/// blue, alpha; rows from the top, pixels from the left.
#[derive(Debug)]
pub struct Pixmap {
    pub width: u32,
    pub height: u32,
    pub data: Vec<u8>,
}

impl View for Pixmap {
    type V = (u32, u32, Seq<u8>);

    open spec fn view(&self) -> (u32, u32, Seq<u8>) {
        (self.width, self.height, self.data@)
    }
}

/// Number of bytes of an image of this size.
pub open spec fn image_len(width: u32, height: u32) -> int {
    width as int * height as int * 4
}

impl Pixmap {
    /// The image holds exactly the bytes of its pixels.
    pub open spec fn wf(&self) -> bool {
        self.data@.len() == image_len(self.width, self.height)
    }

    /// A copy of the image.
    pub fn duplicate(&self) -> (copy: Pixmap)
        ensures
            copy@ == self@,
    {
        Pixmap { width: self.width, height: self.height, data: self.data.clone() }
    }
}

/// `dashmap::DashMap`, a concurrent hash map. Nothing is known of a map
/// but what the items below say.
#[verifier::external_type_specification]
#[verifier::external_body]
#[verifier::reject_recursive_types(K)]
#[verifier::reject_recursive_types(V)]
#[verifier::reject_recursive_types(S)]
pub struct ExDashMap<K, V, S>(dashmap::DashMap<K, V, S>);

/// The images that a map of decoded images holds, by path.
pub uninterp spec fn decoded_images(images: DashMap<String, Pixmap>) -> Map<
    Seq<char>,
    (u32, u32, Seq<u8>),
>;

/// `DashMap::new`: a map that holds nothing.
#[verifier::external_body]
fn images_new() -> (created: DashMap<String, Pixmap>)
    ensures
        decoded_images(created) =~= Map::empty(),
{
    DashMap::new()
}

/// `DashMap::get`, with the value copied out of the guard: the image filed
/// under `path`, if the map holds one. The map is not changed.
#[verifier::external_body]
fn images_get(images: &DashMap<String, Pixmap>, path: &str) -> (image: Option<Pixmap>)
    ensures
        match image {
            Some(image) => decoded_images(*images).contains_key(path@) && image@ == decoded_images(
                *images,
            )[path@],
            None => !decoded_images(*images).contains_key(path@),
        },
{
    images.get(path).map(|entry| entry.value().duplicate())
}

/// `DashMap::insert`: afterwards the map holds `image` under `path`, in
/// place of what it held there, and everything else as before.
#[verifier::external_body]
fn images_insert(images: &mut DashMap<String, Pixmap>, path: &str, image: Pixmap)
    ensures
        decoded_images(*final(images)) == decoded_images(*old(images)).insert(path@, image@),
{
    images.insert(path.to_string(), image);
}

/// The bytes that `image::imageops::resize` with the Catmull-Rom filter
/// makes of the image `source`, given as width, height and bytes, for a
/// target of `width` by `height` pixels.
pub uninterp spec fn resampled(source: (u32, u32, Seq<u8>), width: u32, height: u32) -> Seq<u8>;

/// `image::imageops::resize` with the Catmull-Rom filter, on an image in
/// the form of `image::ImageBuffer`: the result has exactly the size asked
/// for and holds the bytes that the crate computes from the source and the
/// size, which `resampled` names. The sizes are bounded so that neither the
/// result nor the rows of floats that the crate samples through outgrow an
/// allocation, which would panic.
#[verifier::external_body]
fn resample(source: &Pixmap, width: u32, height: u32) -> (scaled: Pixmap)
    requires
        source.wf(),
        source.width <= width,
        source.height <= height,
        image_len(width, height) * 4 <= isize::MAX,
    ensures
        scaled.wf(),
        scaled@ == (width, height, resampled(source@, width, height)),
{
    let view = ::image::ImageBuffer::<::image::Rgba<u8>, &[u8]>::from_raw(
        source.width,
        source.height,
        source.data.as_slice(),
    ).unwrap();
    let scaled = ::image::imageops::resize(
        &view,
        width,
        height,
        ::image::imageops::FilterType::CatmullRom,
    );
    Pixmap { width, height, data: scaled.into_raw() }
}

/// The coordinate in a source of `from` pixels that the coordinate
/// `position` of a target of `to` pixels takes its pixel from: the position
/// times the ratio of the two sizes, the ratio held with sixteen binary
/// places.
pub open spec fn nearest_source(position: int, from: int, to: int) -> int {
    (position * ((from * 65536) / to)) / 65536
}

/// The bytes of `source` brought down to `width` by `height` pixels by
/// taking, for every pixel of the target, the pixel of the source at
/// `nearest_source` of its column and row.
pub open spec fn nearest_bytes(source: (u32, u32, Seq<u8>), width: u32, height: u32) -> Seq<u8> {
    Seq::new(
        image_len(width, height) as nat,
        |k: int|
            {
                let pixel = k / 4;
                let x = nearest_source(pixel % (width as int), source.0 as int, width as int);
                let y = nearest_source(pixel / (width as int), source.1 as int, height as int);
                source.2[(y * source.0 + x) * 4 + k % 4]
            },
    )
}

proof fn lemma_nearest_in_range(position: int, from: int, to: int)
    requires
        0 <= position < to,
        0 < from,
    ensures
        0 <= nearest_source(position, from, to) < from,
{
    let ratio = (from * 65536) / to;
    assert(0 <= ratio && ratio * to <= from * 65536) by (nonlinear_arith)
        requires
            ratio == (from * 65536) / to,
            0 < to,
            0 < from,
    ;
    assert(0 <= position * ratio && position * ratio <= ratio * to - ratio) by (nonlinear_arith)
        requires
            0 <= position,
            position <= to - 1,
            0 <= ratio,
    ;
    if ratio == 0 {
        assert(position * ratio == 0) by (nonlinear_arith)
            requires
                ratio == 0,
        ;
        assert(nearest_source(position, from, to) == 0);
    } else {
        assert(position * ratio < from * 65536);
        assert(0 <= (position * ratio) / 65536 < from) by (nonlinear_arith)
            requires
                0 <= position * ratio < from * 65536,
        ;
    }
}

/// Brings `source` down to `width` by `height` pixels, pixel by pixel.
fn shrink(source: &Pixmap, width: u32, height: u32) -> (scaled: Pixmap)
    requires
        source.wf(),
        source.width > 0,
        source.height > 0,
        width > 0,
        height > 0,
        image_len(width, height) <= usize::MAX,
    ensures
        scaled.wf(),
        scaled@ == (width, height, nearest_bytes(source@, width, height)),
{
    let from_w: u64 = source.width as u64;
    let from_h: u64 = source.height as u64;
    let x_ratio: u64 = (from_w * 65536) / (width as u64);
    let y_ratio: u64 = (from_h * 65536) / (height as u64);
    assert(0 < width as int * height as int <= 0xffff_ffff * 0xffff_ffff) by (nonlinear_arith)
        requires
            0 < width as int <= 0xffff_ffff,
            0 < height as int <= 0xffff_ffff,
    ;
    let pixels: u64 = (width as u64) * (height as u64);
    let total: usize = source.data.len();
    let mut data: Vec<u8> = Vec::new();
    let mut i: u64 = 0;
    while i < pixels
        invariant
            0 <= i <= pixels,
            total == source.data@.len(),
            pixels == width as int * height as int,
            pixels * 4 <= usize::MAX,
            source.wf(),
            source.width > 0,
            source.height > 0,
            width > 0,
            height > 0,
            from_w == source.width,
            from_h == source.height,
            x_ratio == (from_w * 65536) / (width as int),
            y_ratio == (from_h * 65536) / (height as int),
            data@.len() == 4 * i,
            forall|k: int|
                0 <= k < 4 * i ==> #[trigger] data@[k] == nearest_bytes(source@, width, height)[k],
        decreases pixels - i,
    {
        let column: u64 = i % (width as u64);
        let row: u64 = i / (width as u64);
        proof {
            assert(0 <= row < height as int) by (nonlinear_arith)
                requires
                    row == i as int / (width as int),
                    0 <= i as int,
                    (i as int) < width as int * height as int,
                    0 < width as int,
            ;
            lemma_nearest_in_range(column as int, from_w as int, width as int);
            lemma_nearest_in_range(row as int, from_h as int, height as int);
            assert(column * x_ratio <= 0xffff_ffff * (0xffff_ffff * 65536)) by (nonlinear_arith)
                requires
                    0 <= column <= 0xffff_ffff,
                    0 <= x_ratio <= 0xffff_ffff * 65536,
            ;
            assert(row * y_ratio <= 0xffff_ffff * (0xffff_ffff * 65536)) by (nonlinear_arith)
                requires
                    0 <= row <= 0xffff_ffff,
                    0 <= y_ratio <= 0xffff_ffff * 65536,
            ;
        }
        let x: u64 = (column * x_ratio) / 65536;
        let y: u64 = (row * y_ratio) / 65536;
        proof {
            assert(x == nearest_source(column as int, from_w as int, width as int));
            assert(y == nearest_source(row as int, from_h as int, height as int));
            assert(0 <= y * from_w && y * from_w + x < from_w * from_h && (y * from_w + x) * 4
                + 3 < from_w * from_h * 4) by (nonlinear_arith)
                requires
                    0 <= x < from_w,
                    0 <= y < from_h,
            ;
            assert(from_w * from_h * 4 == source.data@.len());
            assert(source.data@.len() <= usize::MAX);
        }
        let at: usize = ((y * from_w + x) * 4) as usize;
        let ghost before = data@;
        data.push(source.data[at]);
        data.push(source.data[at + 1]);
        data.push(source.data[at + 2]);
        data.push(source.data[at + 3]);
        proof {
            let want = nearest_bytes(source@, width, height);
            assert((i + 1) * 4 <= pixels * 4) by (nonlinear_arith)
                requires
                    i < pixels,
            ;
            assert forall|k: int| 0 <= k < 4 * (i + 1) implies #[trigger] data@[k] == want[k] by {
                if k < 4 * i {
                    assert(data@[k] == before[k]);
                } else {
                    let c = k - 4 * i;
                    assert(k / 4 == i as int && k % 4 == c) by (nonlinear_arith)
                        requires
                            k == 4 * i + c,
                            0 <= c < 4,
                            0 <= i,
                    ;
                }
            }
        }
        i += 1;
    }
    assert(data@ =~= nearest_bytes(source@, width, height));
    Pixmap { width, height, data }
}

/// What a loader knows, as plain values.
pub struct LoaderView {
    /// The decoded images, by path.
    pub images: Map<Seq<char>, (u32, u32, Seq<u8>)>,
    /// How many decoded images were taken in.
    pub decodes: u64,
}

impl LoaderView {
    /// Every image that is held has exactly the bytes of its pixels.
    pub open spec fn valid(self) -> bool {
        forall|path: Seq<char>| #[trigger]
            self.images.contains_key(path) ==> self.images[path].2.len() == image_len(
                self.images[path].0,
                self.images[path].1,
            )
    }
}

/// A count after one more was counted. The count stops at `u64::MAX`.
pub open spec fn counted(n: u64) -> u64 {
    if n < u64::MAX {
        (n + 1) as u64
    } else {
        n
    }
}

/// Counts one more.
pub(crate) fn count(n: u64) -> (r: u64)
    ensures
        r == counted(n),
{
    if n < u64::MAX {
        n + 1
    } else {
        n
    }
}

/// Keeps every decoded image under its path, so that no file is decoded
/// twice, and counts the images it took in.
pub struct ImageLoader {
    images: DashMap<String, Pixmap>,
    decodes: u64,
}

impl View for ImageLoader {
    type V = LoaderView;

    closed spec fn view(&self) -> LoaderView {
        LoaderView { images: decoded_images(self.images), decodes: self.decodes }
    }
}

/// Whether the output of a decoder can be taken as an image: the sizes fit
/// 32 bits and the buffer holds every pixel.
pub open spec fn decoded_ok(width: usize, height: usize, len: nat) -> bool {
    width <= u32::MAX && height <= u32::MAX && width as int * height as int * 4 <= len
}

impl ImageLoader {
    /// What holds of every loader between calls.
    pub open spec fn wf(&self) -> bool {
        self@.valid()
    }

    /// A loader that holds no image.
    pub fn new() -> (loader: ImageLoader)
        ensures
            loader.wf(),
            loader@ == (LoaderView { images: Map::empty(), decodes: 0 }),
    {
        ImageLoader { images: images_new(), decodes: 0 }
    }

    /// The decoded image of `path`, if the loader holds it.
    pub fn cached(&self, path: &str) -> (image: Option<Pixmap>)
        ensures
            match image {
                Some(image) => self@.images.contains_key(path@) && image@ == self@.images[path@],
                None => !self@.images.contains_key(path@),
            },
            self.wf() ==> (image matches Some(image) ==> image.wf()),
    {
        let image = images_get(&self.images, path);
        proof {
            if self.wf() && image is Some {
                assert(self@.images.contains_key(path@));
            }
        }
        image
    }

    /// Whether the loader holds the decoded image of `path`.
    pub fn is_cached(&self, path: &str) -> (r: bool)
        ensures
            r == self@.images.contains_key(path@),
    {
        images_get(&self.images, path).is_some()
    }

    /// How many decoded images the loader took in.
    pub fn decode_count(&self) -> (n: u64)
        ensures
            n == self@.decodes,
    {
        self.decodes
    }

    /// Takes in the image that a decoder made of the file at `path`:
    /// `pixels` holds `width` by `height` pixels of four bytes.
    ///
    /// If the loader holds an image for `path` already, that image is
    /// returned and nothing changes. Otherwise the decoder's output is
    /// checked; what is not an image is refused with `Memory`; an image is
    /// kept under `path`, counted and returned, cut to the bytes of its
    /// pixels.
    pub fn preload(&mut self, path: &str, width: usize, height: usize, pixels: Vec<u8>) -> (r:
        WallpaperResult<Pixmap>)
        ensures
            match r {
                Ok(image) => if old(self)@.images.contains_key(path@) {
                    &&& image@ == old(self)@.images[path@]
                    &&& final(self)@ == old(self)@
                } else {
                    &&& decoded_ok(width, height, pixels@.len())
                    &&& image.wf()
                    &&& image@ == (
                        width as u32,
                        height as u32,
                        pixels@.take(width as int * height as int * 4),
                    )
                    &&& final(self)@ == (LoaderView {
                        images: old(self)@.images.insert(path@, image@),
                        decodes: counted(old(self)@.decodes),
                    })
                },
                Err(e) => {
                    &&& e is Memory
                    &&& !old(self)@.images.contains_key(path@)
                    &&& !decoded_ok(width, height, pixels@.len())
                    &&& final(self)@ == old(self)@
                },
            },
            old(self).wf() ==> final(self).wf(),
    {
        if let Some(image) = images_get(&self.images, path) {
            return Ok(image);
        }
        if width > u32::MAX as usize || height > u32::MAX as usize {
            return Err(WallpaperError::Memory(String::from_str("Failed to create image buffer")));
        }
        assert(0 <= width as int * height as int <= 0xffff_ffff * 0xffff_ffff) by (nonlinear_arith)
            requires
                0 <= width as int <= 0xffff_ffff,
                0 <= height as int <= 0xffff_ffff,
        ;
        let needed: u128 = (width as u128) * (height as u128) * 4;
        if needed > pixels.len() as u128 {
            return Err(WallpaperError::Memory(String::from_str("Failed to create image buffer")));
        }
        let mut data = pixels;
        data.truncate(needed as usize);
        let image = Pixmap { width: width as u32, height: height as u32, data };
        let copy = image.duplicate();
        images_insert(&mut self.images, path, copy);
        self.decodes = count(self.decodes);
        proof {
            if old(self).wf() {
                assert forall|p: Seq<char>| #[trigger]
                    self@.images.contains_key(p) implies self@.images[p].2.len() == image_len(
                    self@.images[p].0,
                    self@.images[p].1,
                ) by {
                    if p != path@ {
                        assert(old(self)@.images.contains_key(p));
                    }
                }
            }
        }
        Ok(image)
    }

    /// Brings `img` to exactly `width` by `height` pixels.
    ///
    /// An image of that size is copied. An image that is wider or higher
    /// than asked is brought down by `nearest_bytes`; where the target or
    /// the image has no pixels the call fails with `Image`. Any other image
    /// is enlarged by resampling with a smooth filter, which gives the
    /// bytes that `resampled` names. A target too large to allocate fails
    /// with `Memory`.
    pub fn scale_image(img: &Pixmap, width: u32, height: u32) -> (r: WallpaperResult<Pixmap>)
        requires
            img.wf(),
        ensures
            match scale_plan(img@, width, height) {
                ScalePlan::Copy => r matches Ok(scaled) && scaled@ == img@,
                ScalePlan::Shrink => r matches Ok(scaled) && scaled@ == (
                    width,
                    height,
                    nearest_bytes(img@, width, height),
                ),
                ScalePlan::Enlarge => r matches Ok(scaled) && scaled@ == (
                    width,
                    height,
                    resampled(img@, width, height),
                ),
                ScalePlan::Empty => r matches Err(e) && e is Image,
                ScalePlan::TooLarge => r matches Err(e) && e is Memory,
            },
            r matches Ok(scaled) ==> scaled.wf() && scaled.width == width && scaled.height
                == height,
    {
        if img.width == width && img.height == height {
            return Ok(img.duplicate());
        }
        assert(0 <= width as int * height as int <= 0xffff_ffff * 0xffff_ffff) by (nonlinear_arith)
            requires
                0 <= width as int <= 0xffff_ffff,
                0 <= height as int <= 0xffff_ffff,
        ;
        let bytes: u128 = (width as u128) * (height as u128) * 4;
        if img.width > width || img.height > height {
            if width == 0 || height == 0 || img.width == 0 || img.height == 0 {
                return Err(WallpaperError::Image(String::from_str("nothing to sample")));
            }
            if bytes > usize::MAX as u128 {
                return Err(WallpaperError::Memory(String::from_str("image too large")));
            }
            Ok(shrink(img, width, height))
        } else {
            if bytes * 4 > isize::MAX as u128 {
                return Err(WallpaperError::Memory(String::from_str("image too large")));
            }
            Ok(resample(img, width, height))
        }
    }
}

/// The ways in which an image is brought to a size.
pub enum ScalePlan {
    /// The image has the size already.
    Copy,
    /// The image is wider or higher than the target.
    Shrink,
    /// The image is at most as wide and as high as the target.
    Enlarge,
    /// The image is to be brought down, but it or the target has no pixels.
    Empty,
    /// The target cannot be allocated.
    TooLarge,
}

/// How `scale_image` brings `img` to `width` by `height` pixels.
pub open spec fn scale_plan(img: (u32, u32, Seq<u8>), width: u32, height: u32) -> ScalePlan {
    if img.0 == width && img.1 == height {
        ScalePlan::Copy
    } else if img.0 > width || img.1 > height {
        if width == 0 || height == 0 || img.0 == 0 || img.1 == 0 {
            ScalePlan::Empty
        } else if image_len(width, height) > usize::MAX {
            ScalePlan::TooLarge
        } else {
            ScalePlan::Shrink
        }
    } else if image_len(width, height) * 4 > isize::MAX {
        ScalePlan::TooLarge
    } else {
        ScalePlan::Enlarge
    }
}

} // verus!
