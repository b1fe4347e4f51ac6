//! The color model: channel counts per color type, and the canonical
//! four-byte pixel (blue, green, red, alpha) that decoded images use.
use vstd::prelude::*;

use crate::decode_error::{DecodeError, ErrorKind};

verus! {

/// Color type: grayscale.
pub const GRAYSCALE: u8 = 0;

/// Color type: red, green, blue.
pub const TRUECOLOR: u8 = 2;

/// Color type: palette indices.
pub const INDEXED: u8 = 3;

/// Color type: grayscale with alpha.
pub const GRAYSCALE_ALPHA: u8 = 4;

/// Color type: red, green, blue, alpha.
pub const TRUECOLOR_ALPHA: u8 = 6;

/// The number of channels of a color type at a bit depth, or why there is none.
pub open spec fn channels_of(color_type: u8, bit_depth: u8) -> Result<u32, ErrorKind> {
    let wide_ok = bit_depth == 8 || bit_depth == 16;
    if color_type == GRAYSCALE {
        Ok(1)
    } else if color_type == TRUECOLOR {
        if wide_ok { Ok(3) } else { Err(ErrorKind::InvalidStructure) }
    } else if color_type == INDEXED {
        Err(ErrorKind::UnsupportedFeature)
    } else if color_type == GRAYSCALE_ALPHA {
        if wide_ok { Ok(2) } else { Err(ErrorKind::InvalidStructure) }
    } else if color_type == TRUECOLOR_ALPHA {
        if wide_ok { Ok(4) } else { Err(ErrorKind::InvalidStructure) }
    } else {
        Err(ErrorKind::InvalidStructure)
    }
}

/// Maps a color type and bit depth to its channel count: the bytes per
/// pixel of an 8-bit image.
pub fn channel_count(color_type: u8, bit_depth: u8) -> (r: Result<u32, DecodeError>)
    ensures
        r is Ok <==> channels_of(color_type, bit_depth) is Ok,
        r is Ok ==> channels_of(color_type, bit_depth) == Ok::<u32, ErrorKind>(r->Ok_0),
        r is Err ==> channels_of(color_type, bit_depth) == Err::<u32, ErrorKind>(
            r->Err_0.spec_kind(),
        ),
{
    let wide_ok = bit_depth == 8 || bit_depth == 16;
    if color_type == GRAYSCALE {
        Ok(1)
    } else if color_type == TRUECOLOR {
        if wide_ok { Ok(3) } else { Err(DecodeError::InvalidStructure()) }
    } else if color_type == INDEXED {
        Err(DecodeError::UnsupportedFeature("PLTE chunks are not yet supported".to_owned()))
    } else if color_type == GRAYSCALE_ALPHA {
        if wide_ok { Ok(2) } else { Err(DecodeError::InvalidStructure()) }
    } else if color_type == TRUECOLOR_ALPHA {
        if wide_ok { Ok(4) } else { Err(DecodeError::InvalidStructure()) }
    } else {
        Err(DecodeError::InvalidStructure())
    }
}

/// One source pixel `px` in canonical order: blue, green, red, alpha, with
/// gray copied to all three colors and alpha 255 where the source has none.
pub open spec fn canonical_pixel(px: Seq<u8>, color_type: u8) -> Seq<u8> {
    if color_type == GRAYSCALE {
        seq![px[0], px[0], px[0], 255u8]
    } else if color_type == GRAYSCALE_ALPHA {
        seq![px[0], px[0], px[0], px[1]]
    } else if color_type == TRUECOLOR {
        seq![px[2], px[1], px[0], 255u8]
    } else {
        seq![px[2], px[1], px[0], px[3]]
    }
}

/// The first `n` pixels of the source bytes `raw`, `bpp` bytes each, in
/// canonical order.
pub open spec fn canonical_pixels(raw: Seq<u8>, color_type: u8, bpp: nat, n: nat) -> Seq<u8>
    decreases n,
{
    if n == 0 {
        seq![]
    } else {
        canonical_pixels(raw, color_type, bpp, (n - 1) as nat) + canonical_pixel(
            raw.subrange((n - 1) * bpp, (n * bpp) as int),
            color_type,
        )
    }
}

/// The canonical form holds four bytes per pixel.
pub proof fn lemma_canonical_pixels_len(raw: Seq<u8>, color_type: u8, bpp: nat, n: nat)
    ensures
        canonical_pixels(raw, color_type, bpp, n).len() == 4 * n,
    decreases n,
{
    if n > 0 {
        lemma_canonical_pixels_len(raw, color_type, bpp, (n - 1) as nat);
    }
}

/// Rewrites the first `count` pixels of `raw`, `bpp` source bytes each, into
/// the canonical four-byte order.
pub fn to_canonical(raw: &[u8], color_type: u8, bpp: usize, count: usize) -> (r: Vec<u8>)
    requires
        channels_of(color_type, 8) is Ok,
        bpp == channels_of(color_type, 8)->Ok_0,
        count * bpp <= raw@.len(),
    ensures
        r@ == canonical_pixels(raw@, color_type, bpp as nat, count as nat),
        r@.len() == 4 * count,
{
    let raw_len = raw.len();
    let mut out: Vec<u8> = Vec::new();
    let mut p: usize = 0;
    let mut s: usize = 0;
    while p < count
        invariant
            p <= count,
            channels_of(color_type, 8) is Ok,
            bpp == channels_of(color_type, 8)->Ok_0,
            count * bpp <= raw@.len(),
            raw_len == raw@.len(),
            s == p * bpp,
            out@ == canonical_pixels(raw@, color_type, bpp as nat, p as nat),
        decreases count - p,
    {
        proof {
            assert((p + 1) * bpp <= count * bpp) by (nonlinear_arith)
                requires p + 1 <= count;
            assert((p + 1) * bpp == p * bpp + bpp) by (nonlinear_arith);
        }
        let ghost px = raw@.subrange(s as int, s + bpp);
        if color_type == GRAYSCALE {
            out.push(raw[s]);
            out.push(raw[s]);
            out.push(raw[s]);
            out.push(255u8);
        } else if color_type == GRAYSCALE_ALPHA {
            out.push(raw[s]);
            out.push(raw[s]);
            out.push(raw[s]);
            out.push(raw[s + 1]);
        } else if color_type == TRUECOLOR {
            out.push(raw[s + 2]);
            out.push(raw[s + 1]);
            out.push(raw[s]);
            out.push(255u8);
        } else {
            out.push(raw[s + 2]);
            out.push(raw[s + 1]);
            out.push(raw[s]);
            out.push(raw[s + 3]);
        }
        proof {
            assert(out@ =~= canonical_pixels(raw@, color_type, bpp as nat, p as nat)
                + canonical_pixel(px, color_type));
        }
        p += 1;
        s += bpp;
    }
    proof {
        lemma_canonical_pixels_len(raw@, color_type, bpp as nat, count as nat);
    }
    out
}

} // verus!
