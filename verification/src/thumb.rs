//! Decode a picture down to a tile.
//!
//! Both hosts need the same thing, RGBA8 at a known edge, small enough that
//! a grid of them is not a hundred megabytes of decoded camera JPEG, so it is
//! written once here rather than twice in the hosts.

use vstd::prelude::*;

use crate::picture::{crop_and_resize, decode_picture, decoded_dims, tile_pixels};
use crate::text::push_str;

verus! {

/// Decoded edge, in pixels: large enough for a phone tile at three device
/// pixels per point, small enough that a selection of hundreds stays cheap.
pub const THUMB_EDGE: u32 = 224;

/// The square cut from a `w` by `h` picture: centred, as wide as the
/// shorter side.
pub open spec fn centre_square(w: u32, h: u32) -> (u32, u32, u32) {
    let side = if w < h {
        w
    } else {
        h
    };
    (((w - side) / 2) as u32, ((h - side) / 2) as u32, side)
}

/// The edge of the tile: the requested edge, but never larger than the
/// square it is cut from and never zero.
pub open spec fn tile_edge(edge: u32, side: u32) -> u32 {
    let e = if edge < side {
        edge
    } else {
        side
    };
    if e < 1 {
        1
    } else {
        e
    }
}

/// A tile is cut as the largest square centred in the picture, and comes
/// out at the requested edge, except that a picture smaller than that is
/// not upscaled and an empty request or picture still gives one pixel.
pub proof fn law_tile_is_centred_and_never_upscaled(w: u32, h: u32, edge: u32)
    ensures
        ({
            let (x, y, side) = centre_square(w, h);
            let e = tile_edge(edge, side);
            &&& side == (if w < h {
                w
            } else {
                h
            })
            &&& x + side <= w && y + side <= h
            &&& w - (x + side) - x <= 1 && h - (y + side) - y <= 1
            &&& e >= 1
            &&& (1 <= edge <= side ==> e == edge)
            &&& (1 <= side < edge ==> e == side)
        }),
{
}

/// What a failed decode is reported as: what was being done, and no more.
pub open spec fn decode_failure() -> Seq<char> {
    "decoding for a thumbnail"@
}

/// Where the square is cut and how large the tile comes out, for a `w` by
/// `h` picture and a requested edge.
pub fn tile_geometry(w: u32, h: u32, edge: u32) -> (r: (u32, u32, u32, u32))
    ensures
        (r.0, r.1, r.2) == centre_square(w, h),
        r.3 == tile_edge(edge, r.2),
        r.2 <= w && r.2 <= h,
        1 <= r.3,
        r.3 <= edge || edge == 0,
        r.3 <= r.2 || r.2 == 0,
{
    let side = if w < h {
        w
    } else {
        h
    };
    let e = if edge < side {
        edge
    } else {
        side
    };
    let e = if e < 1 {
        1
    } else {
        e
    };
    ((w - side) / 2, (h - side) / 2, side, e)
}

/// A square RGBA8 thumbnail, centre-cropped.
///
/// Cropped to a square rather than letterboxed because the grid's tiles are
/// square. Returns `(pixels, edge)`: the edge comes back because a very small
/// picture is not upscaled, and the caller needs the real dimensions. Bytes
/// that are not a picture are an error, not a panic.
pub fn thumbnail(bytes: &[u8], edge: u32) -> (r: Result<(Vec<u8>, u32), String>)
    ensures
        r is Ok <==> decoded_dims(bytes@) is Some,
        r matches Ok((pixels, e)) ==> ({
            let (w, h) = decoded_dims(bytes@)->Some_0;
            let (x, y, side) = centre_square(w, h);
            &&& e == tile_edge(edge, side)
            &&& pixels@ == tile_pixels(bytes@, x, y, side, e)
            &&& pixels@.len() == 4 * (e as nat) * (e as nat)
        }),
        r matches Err(msg) ==> msg@ == decode_failure(),
{
    match decode_picture(bytes) {
        Err(_) => {
            let mut msg = String::new();
            push_str(&mut msg, "decoding for a thumbnail");
            Err(msg)
        },
        Ok(pic) => {
            let w = pic.width();
            let h = pic.height();
            let (x, y, side, e) = tile_geometry(w, h, edge);
            assert(4 * (side as nat) * (side as nat) <= 2147483648) by (nonlinear_arith)
                requires
                    side <= w,
                    side <= h,
                    (w as nat) * (h as nat) <= 536870912,
            ;
            assert(4 * (e as nat) * (e as nat) <= 2147483648) by (nonlinear_arith)
                requires
                    side <= w,
                    side <= h,
                    (w as nat) * (h as nat) <= 536870912,
                    e <= side || (side == 0 && e == 1),
            ;
            let pixels = crop_and_resize(&pic, x, y, side, e);
            Ok((pixels, e))
        },
    }
}

} // verus!
