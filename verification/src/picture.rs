//! Decoded pictures, as the `image` crate holds them.
//!
//! A [`Picture`] is known to verified code by the bytes it was decoded from:
//! only [`decode_picture`] makes one, so whatever is said of a picture's
//! pixels is said of those bytes.

use vstd::prelude::*;

verus! {

#[verifier::external_type_specification]
#[verifier::external_body]
pub struct ExDynamicImage(image::DynamicImage);

#[verifier::external_type_specification]
#[verifier::external_body]
pub struct ExImageError(image::ImageError);

/// The largest buffer, in bytes, that the decoder allocates for one picture
/// under its default limits.
pub const DECODE_LIMIT: u64 = 536870912;

/// Width and height of the picture `image::load_from_memory` decodes from
/// these bytes; `None` when it refuses them.
pub uninterp spec fn decoded_dims(bytes: Seq<u8>) -> Option<(u32, u32)>;

/// The RGBA8 bytes of the `side` square at `(x, y)` of the picture decoded
/// from `source`, resized to an `edge` square with the triangle filter.
pub uninterp spec fn tile_pixels(source: Seq<u8>, x: u32, y: u32, side: u32, edge: u32) -> Seq<u8>;

/// The samples `DynamicImage::to_rgba16` gives of the picture decoded from
/// `source`: four 16-bit channels per pixel, row by row.
pub uninterp spec fn rgba16_samples(source: Seq<u8>) -> Seq<u16>;

/// `image::load_from_memory`, with the picture's dimensions read off it.
///
/// Claims: it succeeds exactly when the named decode gives dimensions, those
/// are the dimensions returned, and the picture fits the decoder's default
/// allocation limit of 512 MiB (so `width * height` does too, at one byte or
/// more per pixel). Nothing is claimed of the pixels here.
#[verifier::external_body]
fn decode_image(bytes: &[u8]) -> (r: Result<(image::DynamicImage, u32, u32), image::ImageError>)
    ensures
        r is Ok <==> decoded_dims(bytes@) is Some,
        r matches Ok((_, w, h)) ==> decoded_dims(bytes@) == Some((w, h)) && (w as nat) * (h as nat)
            <= DECODE_LIMIT,
{
    match image::load_from_memory(bytes) {
        Ok(img) => {
            let w = img.width();
            let h = img.height();
            Ok((img, w, h))
        },
        Err(e) => Err(e),
    }
}

/// A decoded picture, with the bytes it was decoded from as its view.
pub struct Picture {
    img: image::DynamicImage,
    width: u32,
    height: u32,
    source: Ghost<Seq<u8>>,
}

impl View for Picture {
    type V = Seq<u8>;

    closed spec fn view(&self) -> Seq<u8> {
        self.source@
    }
}

impl Picture {
    /// Width and height.
    pub closed spec fn dims(&self) -> (u32, u32) {
        (self.width, self.height)
    }

    pub fn width(&self) -> (r: u32)
        ensures
            r == self.dims().0,
    {
        self.width
    }

    pub fn height(&self) -> (r: u32)
        ensures
            r == self.dims().1,
    {
        self.height
    }
}

/// Decode a picture from its bytes. It succeeds exactly when the decoder
/// accepts them, and the picture it gives is known by those bytes.
pub fn decode_picture(bytes: &[u8]) -> (r: Result<Picture, image::ImageError>)
    ensures
        r is Ok <==> decoded_dims(bytes@) is Some,
        r matches Ok(p) ==> p@ == bytes@ && decoded_dims(bytes@) == Some(p.dims()) && (p.dims().0 as nat)
            * (p.dims().1 as nat) <= DECODE_LIMIT,
{
    match decode_image(bytes) {
        Ok((img, width, height)) => Ok(Picture { img, width, height, source: Ghost(bytes@) }),
        Err(e) => Err(e),
    }
}

/// `image::imageops::crop_imm` of the `side` square at `(x, y)`, copied
/// out as RGBA8, then `image::imageops::resize` of that square to an `edge`
/// square with the triangle filter, as raw bytes. The two calls share one
/// wrapper because the RGBA8 buffer between them cannot be named in
/// verified code: its pixel type is bound by a trait private to `image`.
///
/// Claims: the bytes are the named tile of the picture's source bytes at
/// these arguments, and hold exactly `edge * edge` pixels of four bytes each
/// (every path of `resize` builds its output at the requested dimensions).
#[verifier::external_body]
pub(crate) fn crop_and_resize(pic: &Picture, x: u32, y: u32, side: u32, edge: u32) -> (r: Vec<u8>)
    requires
        4 * (side as nat) * (side as nat) <= usize::MAX,
        4 * (edge as nat) * (edge as nat) <= usize::MAX,
    ensures
        r@ == tile_pixels(pic@, x, y, side, edge),
        r@.len() == 4 * (edge as nat) * (edge as nat),
{
    let square = image::imageops::crop_imm(&pic.img, x, y, side, side).to_image();
    image::imageops::resize(&square, edge, edge, image::imageops::FilterType::Triangle).into_raw()
}

/// `DynamicImage::to_rgba16`, as raw samples. Claims the samples are the
/// named conversion of the picture's source bytes.
#[verifier::external_body]
fn rgba16_of(pic: &Picture) -> (r: Vec<u16>)
    ensures
        r@ == rgba16_samples(pic@),
{
    pic.img.to_rgba16().into_raw()
}

/// Whether two files decode to the same picture: both decode, to the same
/// dimensions and the same samples at sixteen bits a channel, which every
/// PNG colour type widens into without loss.
pub open spec fn same_picture(a: Seq<u8>, b: Seq<u8>) -> bool {
    &&& decoded_dims(a) is Some
    &&& decoded_dims(a) == decoded_dims(b)
    &&& rgba16_samples(a) == rgba16_samples(b)
}

fn same_samples(a: &Vec<u16>, b: &Vec<u16>) -> (r: bool)
    ensures
        r == (a@ == b@),
{
    if a.len() != b.len() {
        return false;
    }
    let mut i: usize = 0;
    while i < a.len()
        invariant
            i <= a.len(),
            a.len() == b.len(),
            forall|j: int| 0 <= j < i ==> a@[j] == b@[j],
        decreases a.len() - i,
    {
        if a[i] != b[i] {
            return false;
        }
        i += 1;
    }
    assert(a@ =~= b@);
    true
}

/// Decode both files and compare their pixels.
pub fn same_pixels(a: &[u8], b: &[u8]) -> (r: bool)
    ensures
        r == same_picture(a@, b@),
{
    let pa = match decode_picture(a) {
        Ok(p) => p,
        Err(_) => return false,
    };
    let pb = match decode_picture(b) {
        Ok(p) => p,
        Err(_) => return false,
    };
    if pa.width() != pb.width() || pa.height() != pb.height() {
        return false;
    }
    let sa = rgba16_of(&pa);
    let sb = rgba16_of(&pb);
    same_samples(&sa, &sb)
}

} // verus!
