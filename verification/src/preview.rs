use vstd::prelude::*;
use base64::Engine;

verus! {

/// The widest preview image, in pixels.
pub const PREVIEW_MAX_WIDTH: u32 = 480;

/// The JPEG quality of preview images.
pub const PREVIEW_JPEG_QUALITY: u8 = 72;

/// The red, green, blue bytes of every whole four-byte blue, green, red,
/// alpha pixel: output byte `i` is input byte `4 * (i / 3) + 2 - i % 3`.
pub open spec fn bgra_to_rgb_spec(bgra: Seq<u8>) -> Seq<u8> {
    Seq::new(((bgra.len() / 4) * 3) as nat, |i: int| bgra[4 * (i / 3) + 2 - i % 3])
}

/// Drops the alpha byte of each pixel and reverses blue, green, red into
/// red, green, blue; trailing bytes that do not make a whole pixel are
/// ignored.
pub fn bgra_to_rgb(bgra: &[u8]) -> (r: Vec<u8>)
    ensures
        r@ == bgra_to_rgb_spec(bgra@),
{
    let n = bgra.len() / 4;
    let mut rgb: Vec<u8> = Vec::with_capacity(n * 3);
    let mut k: usize = 0;
    while k < n
        invariant
            k <= n,
            n == bgra@.len() / 4,
            4 * n <= bgra@.len() <= usize::MAX,
            rgb@.len() == 3 * k,
            forall|i: int| 0 <= i < rgb@.len() ==> #[trigger] rgb@[i] == bgra@[4 * (i / 3) + 2 - i % 3],
        decreases n - k,
    {
        let ghost before = rgb@;
        rgb.push(bgra[4 * k + 2]);
        rgb.push(bgra[4 * k + 1]);
        rgb.push(bgra[4 * k]);
        proof {
            assert forall|i: int| 0 <= i < rgb@.len() implies #[trigger] rgb@[i] == bgra@[4 * (i / 3) + 2 - i % 3] by {
                if i >= 3 * k {
                    assert(i / 3 == k);
                } else {
                    assert(rgb@[i] == before[i]);
                }
            }
        }
        k = k + 1;
    }
    assert(rgb@ =~= bgra_to_rgb_spec(bgra@));
    rgb
}

/// Colour conversion works pixel by pixel: every whole input pixel gives
/// exactly three output bytes, its red, green and blue, which are its
/// third, second and first bytes; nothing else is output.
pub proof fn law_rgb_pixels(bgra: Seq<u8>, p: int)
    requires
        0 <= p < bgra.len() / 4,
    ensures
        bgra_to_rgb_spec(bgra).len() == 3 * (bgra.len() / 4),
        bgra_to_rgb_spec(bgra)[3 * p] == bgra[4 * p + 2],
        bgra_to_rgb_spec(bgra)[3 * p + 1] == bgra[4 * p + 1],
        bgra_to_rgb_spec(bgra)[3 * p + 2] == bgra[4 * p],
{
    let out = bgra_to_rgb_spec(bgra);
    assert((3 * p) / 3 == p && (3 * p) % 3 == 0);
    assert((3 * p + 1) / 3 == p && (3 * p + 1) % 3 == 1);
    assert((3 * p + 2) / 3 == p && (3 * p + 2) % 3 == 2);
    assert(3 * p + 2 < 3 * (bgra.len() / 4));
}

/// Whether `image::ImageBuffer::from_raw` accepts a buffer of `len` bytes
/// for a `width` x `height` RGB image: three bytes per pixel, counted in
/// `usize` without overflow, must fit in it.
pub open spec fn rgb_buffer_fits(width: int, height: int, len: int) -> bool {
    &&& 3 * width <= usize::MAX
    &&& 3 * width * height <= usize::MAX
    &&& 3 * width * height <= len
}

/// Calls `image::ImageBuffer::<Rgb<u8>, Vec<u8>>::from_raw`, which checks
/// that the pixel bytes are enough for the image, and hands the same bytes
/// back when they are.
#[verifier::external_body]
fn rgb_image_from_raw(width: u32, height: u32, pixels: Vec<u8>) -> (r: Option<Vec<u8>>)
    ensures
        r is Some <==> rgb_buffer_fits(width as int, height as int, pixels@.len() as int),
        r matches Some(v) ==> v@ == pixels@,
{
    image::ImageBuffer::<image::Rgb<u8>, Vec<u8>>::from_raw(width, height, pixels).map(|img| img.into_raw())
}

/// The JPEG file that `image`'s `JpegEncoder::new_with_quality(_, quality)`
/// writes for a `width` x `height` RGB8 image, or `None` where it reports an
/// error.
pub uninterp spec fn jpeg_rgb8(pixels: Seq<u8>, width: u32, height: u32, quality: u8) -> Option<Seq<u8>>;

/// The standard base64 text (with padding) of a byte string, as
/// `base64::engine::general_purpose::STANDARD.encode` writes it.
pub uninterp spec fn base64_standard(bytes: Seq<u8>) -> Seq<char>;

/// Encodes an RGB8 image as JPEG into memory with
/// `image::codecs::jpeg::JpegEncoder::new_with_quality` and `encode`. The
/// contract names the result; the encoder refuses a side of 0 or over
/// 65535 pixels.
#[verifier::external_body]
fn encode_jpeg_rgb8(pixels: &[u8], width: u32, height: u32, quality: u8) -> (r: Option<Vec<u8>>)
    requires
        pixels@.len() == 3 * width * height,
    ensures
        r is Some == jpeg_rgb8(pixels@, width, height, quality) is Some,
        r matches Some(v) ==> jpeg_rgb8(pixels@, width, height, quality) == Some(v@),
        (width == 0 || height == 0 || width > 65535 || height > 65535) ==> r is None,
{
    let mut bytes: Vec<u8> = Vec::new();
    let mut cursor = std::io::Cursor::new(&mut bytes);
    let mut encoder = image::codecs::jpeg::JpegEncoder::new_with_quality(&mut cursor, quality);
    match encoder.encode(pixels, width, height, image::ExtendedColorType::Rgb8) {
        Ok(()) => Some(bytes),
        Err(_) => None,
    }
}

/// Encodes bytes as standard base64 with
/// `base64::engine::general_purpose::STANDARD.encode`; the contract names
/// the result.
#[verifier::external_body]
fn base64_encode(bytes: &[u8]) -> (r: String)
    ensures
        r@ == base64_standard(bytes@),
{
    base64::engine::general_purpose::STANDARD.encode(bytes)
}

/// The preview text for an encoded JPEG: its base64, or nothing when
/// encoding failed.
pub fn base64_preview(jpeg: Option<Vec<u8>>) -> (r: Option<String>)
    ensures
        jpeg is None ==> r is None,
        jpeg matches Some(b) ==> (r matches Some(s) && s@ == base64_standard(b@)),
{
    match jpeg {
        Some(b) => Some(base64_encode(b.as_slice())),
        None => None,
    }
}

/// Turning `bgra` into an RGB image of `width` x `height` does not leave
/// more bytes than the image holds (the encoder would stop on that).
pub open spec fn preview_input_ok(width: int, height: int, bgra_len: int) -> bool {
    (width > 0 && height > 0 && rgb_buffer_fits(width, height, (bgra_len / 4) * 3))
        ==> (bgra_len / 4) * 3 == 3 * width * height
}

/// The live-preview payload for an already scaled `width` x `height` image:
/// the base64 of its JPEG at quality 72. There is none for an empty image,
/// for pixels too few for its size, or where the encoder fails.
pub fn jpeg_base64_from_bgra(width: u32, height: u32, bgra: &[u8]) -> (r: Option<String>)
    requires
        preview_input_ok(width as int, height as int, bgra@.len() as int),
    ensures
        (width == 0 || height == 0) ==> r is None,
        (width > 0 && height > 0 && !rgb_buffer_fits(width as int, height as int, bgra_to_rgb_spec(bgra@).len() as int)) ==> r is None,
        (width > 0 && height > 0 && rgb_buffer_fits(width as int, height as int, bgra_to_rgb_spec(bgra@).len() as int)) ==> {
            match jpeg_rgb8(bgra_to_rgb_spec(bgra@), width, height, 72) {
                None => r is None,
                Some(j) => r matches Some(s) && s@ == base64_standard(j),
            }
        },
{
    if width == 0 || height == 0 {
        return None;
    }
    let rgb = bgra_to_rgb(bgra);
    let pixels = match rgb_image_from_raw(width, height, rgb) {
        Some(p) => p,
        None => {
            return None;
        },
    };
    let jpeg = encode_jpeg_rgb8(pixels.as_slice(), width, height, PREVIEW_JPEG_QUALITY);
    base64_preview(jpeg)
}

} // verus!
