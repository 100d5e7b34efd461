use vstd::prelude::*;
use image::ImageEncoder;
use crate::raster::{Raster, RasterView, rows_of_flat, placement_ok, assembled, reassemble_images, lemma_rows_of_flat_flatten, fragment_band, fragment_image, FRAGMENT_COUNT};

verus! {

/// The resampling filter used when an image is scaled.
#[derive(Clone, Copy, PartialEq, Eq, Debug)]
pub enum ResizeFilter {
    Triangle,
    Lanczos3,
}

/// What `image::load_from_memory` followed by `to_rgba8` makes of `bytes`:
/// width, height and the RGBA pixels row by row, or `None` where the bytes are
/// not an image in a format the crate reads.
pub uninterp spec fn decoded_rgba(bytes: Seq<u8>) -> Option<(u32, u32, Seq<u8>)>;

/// What `image::load_from_memory`, then `DynamicImage::resize_exact` to
/// `new_width` by `new_height` with `filter`, then `to_rgba8` make of
/// `bytes`: the RGBA pixels of the scaled picture, row by row. The picture is
/// scaled at the file's own sample depth and converted to 8 bits afterwards.
pub uninterp spec fn resized_image(bytes: Seq<u8>, new_width: u32, new_height: u32, filter: ResizeFilter) -> Seq<u8>;

/// The bytes `image::codecs::png::PngEncoder` writes for an RGBA image, or
/// `None` where it refuses the image.
pub uninterp spec fn png_encoded(width: u32, height: u32, data: Seq<u8>) -> Option<Seq<u8>>;

/// Calls `image::load_from_memory` and converts the result with `to_rgba8`.
/// Trusted: the result is `decoded_rgba` of the bytes, and a decoded buffer
/// holds four bytes for each of its `width * height` pixels.
#[verifier::external_body]
fn decode_rgba(bytes: &[u8]) -> (r: Option<(u32, u32, Vec<u8>)>)
    ensures
        r is Some <==> decoded_rgba(bytes@) is Some,
        r matches Some(t) ==> decoded_rgba(bytes@) == Some((t.0, t.1, t.2@)) && t.2@.len() == t.0 * t.1 * 4,
{
    match image::load_from_memory(bytes) {
        Ok(img) => {
            let rgba = img.to_rgba8();
            let (w, h) = rgba.dimensions();
            Some((w, h, rgba.into_raw()))
        },
        Err(_) => None,
    }
}

/// Whether the image crate can scale a picture of `width` by `height` to
/// `new_width` by `new_height`: keeping the size copies the picture;
/// otherwise it builds an intermediate float picture of `width` by
/// `new_height` pixels and a result of `new_width` by `new_height` pixels (at
/// most 16 bytes each), whose sizes must fit in memory. A source without
/// pixels is scaled too: no source pixel is ever read.
pub open spec fn scalable(width: u32, height: u32, new_width: u32, new_height: u32) -> bool {
    ||| new_width == width && new_height == height
    ||| width * new_height * 16 <= isize::MAX && new_width * new_height * 16 <= isize::MAX
}

/// Channel `k` of an RGBA buffer of a picture drawn from no pixels at all:
/// colour channels are zero, alpha is zero or full, as the source's pixel
/// type has an alpha channel or not.
pub open spec fn dark_channel(k: int, value: u8) -> bool {
    if k % 4 == 3 { value == 0 || value == 255 } else { value == 0 }
}

/// The file decodes to a picture without pixels.
pub open spec fn decodes_empty(bytes: Seq<u8>) -> bool {
    decoded_rgba(bytes) matches Some(t) && (t.0 == 0 || t.1 == 0)
}

/// The file decodes to a picture of exactly the given size.
pub open spec fn decodes_with_size(bytes: Seq<u8>, width: u32, height: u32) -> bool {
    decoded_rgba(bytes) matches Some(t) && t.0 == width && t.1 == height
}

/// Calls `image::load_from_memory`, scales the picture with
/// `DynamicImage::resize_exact` and converts it with `to_rgba8`. Trusted: a
/// result comes exactly when the file decodes; it is `resized_image` of the
/// arguments and holds four bytes for each of the `new_width * new_height`
/// pixels; scaling to the decoded size copies the picture, so the result is
/// then the decoded RGBA buffer; a picture without pixels scaled to another
/// size reads no source pixel, so every colour channel of the result is zero
/// and every alpha zero or full (the pixel type's default alpha).
#[verifier::external_body]
fn resize_file_rgba(bytes: &[u8], new_width: u32, new_height: u32, filter: ResizeFilter) -> (r: Option<Vec<u8>>)
    requires
        decoded_rgba(bytes@) matches Some(t) ==> scalable(t.0, t.1, new_width, new_height),
    ensures
        r is Some <==> decoded_rgba(bytes@) is Some,
        r matches Some(d) ==> d@ == resized_image(bytes@, new_width, new_height, filter),
        r matches Some(d) ==> d@.len() == new_width * new_height * 4,
        r matches Some(d) ==> decodes_with_size(bytes@, new_width, new_height) ==> d@ == decoded_rgba(bytes@)->Some_0.2,
        r matches Some(d) ==> decodes_empty(bytes@) ==> forall|k: int| 0 <= k < d@.len() ==> dark_channel(k, #[trigger] d@[k]),
{
    let f = match filter {
        ResizeFilter::Triangle => image::imageops::FilterType::Triangle,
        ResizeFilter::Lanczos3 => image::imageops::FilterType::Lanczos3,
    };
    match image::load_from_memory(bytes) {
        Ok(img) => Some(img.resize_exact(new_width, new_height, f).to_rgba8().into_raw()),
        Err(_) => None,
    }
}

/// Pixel buffers up to this size decode well inside the codec's default
/// memory limit (512 MiB).
pub const ROUND_TRIP_LIMIT: usize = 0x400_0000;

/// Calls `ImageEncoder::write_image` of `image::codecs::png::PngEncoder` on an
/// RGBA buffer. Trusted: the encoder refuses exactly the images without
/// pixels (zero width or height); the bytes written are `png_encoded` of the
/// arguments, and `None` comes exactly where that is `None`; PNG is lossless, so
/// `image::load_from_memory` reads the written file back as the same RGBA
/// image (claimed for buffers within `ROUND_TRIP_LIMIT`, where the decoder's
/// default memory limit cannot interfere).
#[verifier::external_body]
fn encode_png(width: u32, height: u32, data: &[u8]) -> (r: Option<Vec<u8>>)
    requires
        data@.len() == width * height * 4,
    ensures
        r is Some <==> (width > 0 && height > 0),
        r is Some <==> png_encoded(width, height, data@) is Some,
        r matches Some(b) ==> png_encoded(width, height, data@) == Some(b@),
        r matches Some(b) ==> data@.len() <= ROUND_TRIP_LIMIT ==> decoded_rgba(b@) == Some((width, height, data@)),
{
    let mut out: Vec<u8> = Vec::new();
    match image::codecs::png::PngEncoder::new(&mut out).write_image(data, width, height, image::ColorType::Rgba8) {
        Ok(()) => Some(out),
        Err(_) => None,
    }
}

/// The number in the first eight bytes, least significant byte first.
pub open spec fn le_u64(b: Seq<u8>) -> int {
    b[0] + 0x100 * b[1] + 0x1_0000 * b[2] + 0x100_0000 * b[3] + 0x1_0000_0000 * b[4]
        + 0x100_0000_0000 * b[5] + 0x1_0000_0000_0000 * b[6] + 0x100_0000_0000_0000 * b[7]
}

/// Calls `bincode::deserialize::<usize>` and keeps the value. Trusted: with
/// bincode's default options a `usize` is read as eight little-endian bytes,
/// so a value comes exactly when eight bytes are there and the number they
/// hold fits a `usize`; further bytes are ignored.
#[verifier::external_body]
fn decode_usize(data: &[u8]) -> (r: Option<usize>)
    ensures
        r is Some <==> (data@.len() >= 8 && le_u64(data@) <= usize::MAX),
        r matches Some(v) ==> v == le_u64(data@),
{
    bincode::deserialize::<usize>(data).ok()
}

/// The view allowance carried by a datagram; `None` where the datagram
/// does not hold one.
pub fn receive_views(data: &[u8]) -> (r: Option<usize>)
    ensures
        r is Some <==> (data@.len() >= 8 && le_u64(data@) <= usize::MAX),
        r matches Some(v) ==> v == le_u64(data@),
{
    decode_usize(data)
}

/// The eight bytes of `n`, least significant byte first.
pub open spec fn le_bytes(n: u64) -> Seq<u8> {
    seq![
        (n & 0xff) as u8,
        ((n >> 8u64) & 0xff) as u8,
        ((n >> 16u64) & 0xff) as u8,
        ((n >> 24u64) & 0xff) as u8,
        ((n >> 32u64) & 0xff) as u8,
        ((n >> 40u64) & 0xff) as u8,
        ((n >> 48u64) & 0xff) as u8,
        ((n >> 56u64) & 0xff) as u8,
    ]
}

/// Calls `bincode::serialize::<usize>`. Trusted: with bincode's default
/// options a `usize` is written as a `u64` in eight little-endian bytes, and
/// writing into memory without a size limit does not fail.
#[verifier::external_body]
fn encode_usize(v: usize) -> (r: Vec<u8>)
    ensures
        r@ == le_bytes(v as u64),
{
    bincode::serialize(&v).unwrap()
}

/// The datagram that grants `views` views of an image.
pub fn views_payload(views: usize) -> (r: Vec<u8>)
    ensures
        r@ == le_bytes(views as u64),
{
    encode_usize(views)
}

/// Receiving the datagram that grants `views` views gives back `views`:
/// `receive_views` of `views_payload(views)` is `Some(views)`.
pub proof fn lemma_views_round_trip(views: usize)
    ensures
        le_bytes(views as u64).len() == 8,
        le_u64(le_bytes(views as u64)) == views,
{
    let n = views as u64;
    let b = le_bytes(n);
    assert(n == (n & 0xff) + 0x100 * ((n >> 8u64) & 0xff) + 0x1_0000 * ((n >> 16u64) & 0xff)
        + 0x100_0000 * ((n >> 24u64) & 0xff) + 0x1_0000_0000 * ((n >> 32u64) & 0xff)
        + 0x100_0000_0000 * ((n >> 40u64) & 0xff) + 0x1_0000_0000_0000 * ((n >> 48u64) & 0xff)
        + 0x100_0000_0000_0000 * ((n >> 56u64) & 0xff)) by (bit_vector);
    assert forall|k: u64| k < 64 implies #[trigger] (((n >> k) & 0xff) as u8) as int == (n >> k) & 0xff by {
        assert((((n >> k) & 0xff) as u8) as u64 == (n >> k) & 0xff) by (bit_vector);
    }
    assert(((n & 0xff) as u8) as int == n & 0xff) by {
        assert(((n & 0xff) as u8) as u64 == n & 0xff) by (bit_vector);
    }
    assert(b[1] as int == (n >> 8u64) & 0xff);
    assert(b[2] as int == (n >> 16u64) & 0xff);
    assert(b[3] as int == (n >> 24u64) & 0xff);
    assert(b[4] as int == (n >> 32u64) & 0xff);
    assert(b[5] as int == (n >> 40u64) & 0xff);
    assert(b[6] as int == (n >> 48u64) & 0xff);
    assert(b[7] as int == (n >> 56u64) & 0xff);
}

/// The raster described by a decoded (width, height, pixels) triple.
pub open spec fn raster_of(t: (u32, u32, Seq<u8>)) -> RasterView {
    RasterView { width: t.0 as nat, height: t.1 as nat, rows: rows_of_flat(t.0 as nat, t.1 as nat, t.2) }
}

/// The picture held in an encoded image file, if the codec reads it.
pub open spec fn decoded_raster(bytes: Seq<u8>) -> Option<RasterView> {
    match decoded_rgba(bytes) {
        Some(t) => Some(raster_of(t)),
        None => None,
    }
}

/// Decodes an image file (PNG, JPEG, GIF or BMP) into an RGBA raster.
pub fn decode_raster(bytes: &[u8]) -> (r: Option<Raster>)
    ensures
        r is Some <==> decoded_raster(bytes@) is Some,
        r matches Some(img) ==> img@.wf() && decoded_raster(bytes@) == Some(img@),
{
    match decode_rgba(bytes) {
        Some(t) => {
            let img = Raster::from_flat(t.0, t.1, &t.2);
            assert(img@ == raster_of((t.0, t.1, t.2@)));
            Some(img)
        },
        None => None,
    }
}

/// Encodes a raster as a PNG file.
pub fn encode_raster(img: &Raster) -> (r: Option<Vec<u8>>)
    requires
        img@.wf(),
    ensures
        r is Some <==> (img.width > 0 && img.height > 0),
        r is Some <==> png_encoded(img.width, img.height, img@.flat()) is Some,
        r matches Some(b) ==> png_encoded(img.width, img.height, img@.flat()) == Some(b@),
        r matches Some(b) ==> img.width * img.height * 4 <= ROUND_TRIP_LIMIT ==> decoded_raster(b@) == Some(img@),
{
    let data = img.to_flat();
    proof {
        lemma_rows_of_flat_flatten(img@.rows, img.width as nat);
    }
    encode_png(img.width, img.height, data.as_slice())
}

/// The PNG files of an image's bands, top band first, when the codec takes
/// every band.
pub open spec fn encoded_bands(img: RasterView) -> Option<Seq<Seq<u8>>> {
    let fh = img.height / (FRAGMENT_COUNT as nat);
    if forall|i: int| 0 <= i < FRAGMENT_COUNT ==> #[trigger] png_encoded(img.width as u32, fh as u32, fragment_band(img, i).flatten()) is Some {
        Some(Seq::new(FRAGMENT_COUNT as nat, |i: int| png_encoded(img.width as u32, fh as u32, fragment_band(img, i).flatten())->Some_0))
    } else {
        None
    }
}

/// Cuts an image into `FRAGMENT_COUNT` bands and encodes each as a PNG file,
/// top band first; `None` where the bands have no pixels (an image of zero
/// width, or less than `FRAGMENT_COUNT` rows high), which the codec refuses.
pub fn encode_fragments(img: &Raster) -> (r: Option<Vec<Vec<u8>>>)
    requires
        img@.wf(),
    ensures
        r is Some <==> (img.width > 0 && img.height / FRAGMENT_COUNT > 0),
        r is Some ==> encoded_bands(img@) == Some(r->Some_0@.map_values(|f: Vec<u8>| f@)),
        r is None ==> encoded_bands(img@) is None,
        r matches Some(frags) ==> {
            &&& frags@.len() == FRAGMENT_COUNT
            &&& forall|i: int| 0 <= i < FRAGMENT_COUNT ==> png_encoded(
                img.width,
                img.height / FRAGMENT_COUNT,
                fragment_band(img@, i).flatten(),
            ) == Some((#[trigger] frags@[i])@)
            &&& img.width * (img.height / FRAGMENT_COUNT) * 4 <= ROUND_TRIP_LIMIT ==> forall|i: int|
                0 <= i < FRAGMENT_COUNT ==> decoded_raster((#[trigger] frags@[i])@) == Some(RasterView {
                    width: img.width as nat,
                    height: (img.height / FRAGMENT_COUNT) as nat,
                    rows: fragment_band(img@, i),
                })
        },
{
    let (bands, _w, _h) = fragment_image(img);
    let fh: u32 = img.height / FRAGMENT_COUNT;
    let mut out: Vec<Vec<u8>> = Vec::new();
    let mut i: usize = 0;
    while i < bands.len()
        invariant
            img@.wf(),
            fh == img.height / FRAGMENT_COUNT,
            bands@.len() == FRAGMENT_COUNT,
            forall|k: int| 0 <= k < FRAGMENT_COUNT ==> {
                &&& (#[trigger] bands@[k])@.wf()
                &&& bands@[k].width == img.width
                &&& bands@[k].height == fh
                &&& bands@[k]@.rows == fragment_band(img@, k)
            },
            i <= FRAGMENT_COUNT,
            i > 0 ==> (img.width > 0 && fh > 0),
            out@.len() == i,
            forall|k: int| 0 <= k < i ==> png_encoded(img.width, fh, fragment_band(img@, k).flatten()) == Some((#[trigger] out@[k])@),
            img.width * fh * 4 <= ROUND_TRIP_LIMIT ==> forall|k: int|
                0 <= k < i ==> decoded_raster((#[trigger] out@[k])@) == Some(RasterView {
                    width: img.width as nat,
                    height: fh as nat,
                    rows: fragment_band(img@, k),
                }),
        decreases FRAGMENT_COUNT - i,
    {
        let band = &bands[i];
        match encode_raster(band) {
            Some(b) => {
                out.push(b);
            },
            None => {
                assert(png_encoded(img.width, fh, fragment_band(img@, i as int).flatten()) is None);
                return None;
            },
        }
        i = i + 1;
    }
    assert forall|k: int| 0 <= k < FRAGMENT_COUNT implies #[trigger] png_encoded(
        img.width,
        img.height / FRAGMENT_COUNT,
        fragment_band(img@, k).flatten(),
    ) is Some by {
        assert(png_encoded(img.width, fh, fragment_band(img@, k).flatten()) == Some(out@[k]@));
    }
    assert(Seq::new(FRAGMENT_COUNT as nat, |k: int| png_encoded(img.width, fh, fragment_band(img@, k).flatten())->Some_0)
        =~= out@.map_values(|f: Vec<u8>| f@));
    Some(out)
}

/// The picture in an encoded image file scaled to `new_width` by
/// `new_height` with `filter`; `None` where the file does not decode or the
/// image crate cannot scale its picture to that size.
pub open spec fn scaled_image(bytes: Seq<u8>, new_width: u32, new_height: u32, filter: ResizeFilter) -> Option<RasterView> {
    match decoded_rgba(bytes) {
        Some(t) => if scalable(t.0, t.1, new_width, new_height) {
            Some(RasterView {
                width: new_width as nat,
                height: new_height as nat,
                rows: rows_of_flat(new_width as nat, new_height as nat, resized_image(bytes, new_width, new_height, filter)),
            })
        } else {
            None
        },
        None => None,
    }
}

/// Whether `width * height` pixels of 16 bytes each fit in memory.
fn pixels_fit(width: u32, height: u32) -> (r: bool)
    ensures
        r == (width * height * 16 <= isize::MAX),
{
    proof {
        assert(width * height <= 0xffff_ffff * 0xffff_ffff) by (nonlinear_arith)
            requires width <= 0xffff_ffff, height <= 0xffff_ffff, width >= 0, height >= 0;
    }
    let n: u128 = (width as u128) * (height as u128);
    n * 16 <= isize::MAX as u128
}

/// Decodes an image file and scales its picture to `new_width` by
/// `new_height` with `filter`, at the file's own sample depth, before
/// converting it to 8-bit RGBA.
pub fn scale_image_file(bytes: &[u8], new_width: u32, new_height: u32, filter: ResizeFilter) -> (r: Option<Raster>)
    ensures
        r is Some <==> scaled_image(bytes@, new_width, new_height, filter) is Some,
        r matches Some(img) ==> img@.wf() && scaled_image(bytes@, new_width, new_height, filter) == Some(img@),
        r matches Some(img) ==> decodes_with_size(bytes@, new_width, new_height) ==> decoded_raster(bytes@) == Some(img@),
        r matches Some(img) ==> decodes_empty(bytes@) ==> forall|y: int, k: int|
            0 <= y < new_height && 0 <= k < 4 * new_width ==> dark_channel(k, #[trigger] img@.rows[y][k]),
{
    let (width, height) = match decode_rgba(bytes) {
        Some(t) => (t.0, t.1),
        None => {
            return None;
        },
    };
    let same = width == new_width && height == new_height;
    let fits = pixels_fit(width, new_height) && pixels_fit(new_width, new_height);
    if !same && !fits {
        return None;
    }
    match resize_file_rgba(bytes, new_width, new_height, filter) {
        Some(data) => {
            let img = Raster::from_flat(new_width, new_height, &data);
            assert forall|y: int, k: int|
                decodes_empty(bytes@) && 0 <= y < new_height && 0 <= k < 4 * new_width implies dark_channel(
                k,
                #[trigger] img@.rows[y][k],
            ) by {
                let m = y * new_width;
                assert(y * (4 * new_width) == 4 * m) by (nonlinear_arith)
                    requires m == y * new_width;
                assert(m + new_width <= new_width * new_height) by (nonlinear_arith)
                    requires m == y * new_width, 0 <= y < new_height;
                assert((y + 1) * (4 * new_width) == 4 * m + 4 * new_width) by (nonlinear_arith)
                    requires m == y * new_width;
                assert(new_width * new_height * 4 == 4 * (new_width * new_height));
                let row = data@.subrange(4 * m, 4 * m + 4 * new_width);
                assert(img@.rows[y] == row);
                assert(row[k] == data@[4 * m + k]);
                assert((4 * m + k) % 4 == k % 4);
            }
            Some(img)
        },
        None => None,
    }
}

/// Width and height of the previews offered in a catalogue.
pub const PREVIEW_SIZE: u32 = 50;

/// The preview of the picture in an image file: scaled to `PREVIEW_SIZE` by
/// `PREVIEW_SIZE` with the triangle filter.
pub open spec fn preview_of(bytes: Seq<u8>) -> Option<RasterView> {
    scaled_image(bytes, PREVIEW_SIZE, PREVIEW_SIZE, ResizeFilter::Triangle)
}

/// The bands of the preview of the picture in an image file, encoded for
/// sending; `None` where the file yields no preview.
pub fn low_quality_fragments(file: &[u8]) -> (r: Option<Vec<Vec<u8>>>)
    ensures
        r is Some <==> preview_of(file@) is Some,
        r matches Some(frags) ==> {
            &&& encoded_bands(preview_of(file@)->Some_0) == Some(frags@.map_values(|f: Vec<u8>| f@))
            &&& frags@.len() == FRAGMENT_COUNT
            &&& forall|i: int| 0 <= i < FRAGMENT_COUNT ==> decoded_raster((#[trigger] frags@[i])@) == Some(RasterView {
                width: PREVIEW_SIZE as nat,
                height: (PREVIEW_SIZE / FRAGMENT_COUNT) as nat,
                rows: fragment_band(preview_of(file@)->Some_0, i),
            })
        },
{
    match scale_image_file(file, PREVIEW_SIZE, PREVIEW_SIZE, ResizeFilter::Triangle) {
        Some(small) => {
            assert(PREVIEW_SIZE * (PREVIEW_SIZE / FRAGMENT_COUNT) * 4 <= ROUND_TRIP_LIMIT);
            encode_fragments(&small)
        },
        None => None,
    }
}

/// Width and height of the picture that received fragments are laid onto.
pub const CANVAS_SIZE: u32 = 500;

/// The pictures held in a list of encoded fragments (meaningful where all decode).
pub open spec fn decoded_fragments(frags: Seq<Seq<u8>>) -> Seq<RasterView> {
    Seq::new(frags.len(), |i: int| decoded_raster(frags[i])->Some_0)
}

/// Every fragment decodes, and each one, laid at row `i * its height`, stays
/// inside the canvas.
pub open spec fn fragments_fit(frags: Seq<Seq<u8>>) -> bool {
    &&& forall|i: int| 0 <= i < frags.len() ==> (#[trigger] decoded_raster(frags[i])) is Some
    &&& forall|i: int|
        0 <= i < frags.len() ==> placement_ok(
            #[trigger] decoded_fragments(frags)[i],
            i,
            CANVAS_SIZE as nat,
            CANVAS_SIZE as nat,
        )
}

/// Decodes received image fragments and lays them onto a blank
/// `CANVAS_SIZE` by `CANVAS_SIZE` picture, fragment `i` at row `i * its height`.
/// `None` where a fragment does not decode or would be drawn outside the canvas.
pub fn reassemble_fragments(frags: &Vec<Vec<u8>>) -> (r: Option<Raster>)
    ensures
        r is Some <==> fragments_fit(frags@.map_values(|f: Vec<u8>| f@)),
        r matches Some(img) ==> {
            &&& img@.wf()
            &&& img.width == CANVAS_SIZE
            &&& img.height == CANVAS_SIZE
            &&& img@.rows == assembled(
                decoded_fragments(frags@.map_values(|f: Vec<u8>| f@)),
                frags@.len(),
                CANVAS_SIZE as nat,
                CANVAS_SIZE as nat,
            )
        },
{
    let ghost fv = frags@.map_values(|f: Vec<u8>| f@);
    let mut images: Vec<Raster> = Vec::new();
    let mut i: usize = 0;
    while i < frags.len()
        invariant
            fv == frags@.map_values(|f: Vec<u8>| f@),
            i <= frags@.len(),
            images@.len() == i,
            forall|k: int| 0 <= k < i ==> (#[trigger] decoded_raster(fv[k])) is Some,
            forall|k: int| 0 <= k < i ==> (#[trigger] images@[k])@.wf() && images@[k]@ == decoded_fragments(fv)[k],
            forall|k: int| 0 <= k < i ==> placement_ok((#[trigger] images@[k])@, k, CANVAS_SIZE as nat, CANVAS_SIZE as nat),
        decreases frags@.len() - i,
    {
        assert(frags@[i as int]@ == fv[i as int]);
        match decode_raster(frags[i].as_slice()) {
            Some(img) => {
                let fits = if img.width == 0 || img.height == 0 {
                    true
                } else if i >= CANVAS_SIZE as usize {
                    proof {
                        assert(i * img.height >= i) by (nonlinear_arith)
                            requires img.height >= 1, i >= 0;
                    }
                    false
                } else {
                    proof {
                        assert((i as u64) * (img.height as u64) <= 500 * 0xffff_ffff) by (nonlinear_arith)
                            requires i < 500, img.height <= 0xffff_ffff;
                    }
                    img.width <= CANVAS_SIZE && (i as u64) * (img.height as u64) + (img.height as u64) <= CANVAS_SIZE as u64
                };
                if !fits {
                    assert(!placement_ok(decoded_fragments(fv)[i as int], i as int, CANVAS_SIZE as nat, CANVAS_SIZE as nat));
                    return None;
                }
                images.push(img);
            },
            None => {
                assert(decoded_raster(fv[i as int]) is None);
                return None;
            },
        }
        i = i + 1;
    }
    proof {
        assert(crate::raster::views(images@) =~= decoded_fragments(fv));
        assert(500 * 500 * 4 <= usize::MAX);
    }
    let canvas = reassemble_images(&images, CANVAS_SIZE, CANVAS_SIZE);
    Some(canvas)
}

} // verus!
