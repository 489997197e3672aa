//! The trusted boundary around the outside decoders and the encoder, and the
//! verified pixel-level helpers built on top of it.
//!
//! Each `#[verifier::external_body]` function below wraps one outside
//! operation: a single call, or the construction and single use of one
//! outside decoder or encoder. What such an operation returns is given a
//! name by an uninterpreted spec function, since its value is a pure
//! function of the input bytes but far too large to state.
//!
//! The mobile decoders pack each pixel into a `u32` whose channel layout
//! follows the decoder crate's little-endian build, blue in the low byte
//! through alpha in the high byte; the named block results and `px_byte`
//! assume that layout, which the crate changes on a big-endian target.

use vstd::prelude::*;

use image::codecs::dxt::{DXTVariant, DxtDecoder};
use image::ImageDecoder;
use vstd::utf8::{decode_utf8, valid_utf8};

verus! {

/// The mobile block-compression sub-variants the texture format table names.
#[derive(Clone, Copy, PartialEq, Eq, Structural, Debug)]
pub enum EtcKind {
    Etc1,
    Etc2Rgb,
    Etc2Rgba1,
    Etc2Rgba8,
}

/// The desktop block-compression sub-variants.
#[derive(Clone, Copy, PartialEq, Eq, Structural, Debug)]
pub enum DxtKind {
    Dxt1,
    Dxt5,
}

/// Bytes of compressed input one mobile block consumes.
pub open spec fn etc_block_size(kind: EtcKind) -> int {
    match kind {
        EtcKind::Etc1 => 8,
        EtcKind::Etc2Rgb => 8,
        EtcKind::Etc2Rgba1 => 8,
        EtcKind::Etc2Rgba8 => 16,
    }
}

pub uninterp spec fn etc1_block_of(block: Seq<u8>) -> Seq<u32>;

pub uninterp spec fn etc2_rgb_block_of(block: Seq<u8>) -> Seq<u32>;

pub uninterp spec fn etc2_rgba1_block_of(block: Seq<u8>) -> Seq<u32>;

pub uninterp spec fn etc2_rgba8_block_of(block: Seq<u8>) -> Seq<u32>;

/// The 16 pixels of one decoded 4x4 block, row by row, whichever sub-variant
/// decoded it.
pub open spec fn etc_block_model(kind: EtcKind, block: Seq<u8>) -> Seq<u32> {
    match kind {
        EtcKind::Etc1 => etc1_block_of(block),
        EtcKind::Etc2Rgb => etc2_rgb_block_of(block),
        EtcKind::Etc2Rgba1 => etc2_rgba1_block_of(block),
        EtcKind::Etc2Rgba8 => etc2_rgba8_block_of(block),
    }
}

/// Relies on texture2ddecoder::decode_etc1_block: one 8-byte block becomes
/// 16 packed pixels; the result depends on those 8 bytes alone.
#[verifier::external_body]
fn etc1_block(data: &Vec<u8>, pos: usize) -> (r: [u32; 16])
    requires
        pos + 8 <= data.len(),
    ensures
        r@ == etc1_block_of(data@.subrange(pos as int, pos as int + 8)),
{
    let mut buf = [0u32; 16];
    texture2ddecoder::decode_etc1_block(&data[pos..pos + 8], &mut buf);
    buf
}

/// Relies on texture2ddecoder::decode_etc2_rgb_block: one 8-byte block
/// becomes 16 packed pixels; the result depends on those 8 bytes alone.
#[verifier::external_body]
fn etc2_rgb_block(data: &Vec<u8>, pos: usize) -> (r: [u32; 16])
    requires
        pos + 8 <= data.len(),
    ensures
        r@ == etc2_rgb_block_of(data@.subrange(pos as int, pos as int + 8)),
{
    let mut buf = [0u32; 16];
    texture2ddecoder::decode_etc2_rgb_block(&data[pos..pos + 8], &mut buf);
    buf
}

/// Relies on texture2ddecoder::decode_etc2_rgba1_block: one 8-byte block
/// becomes 16 packed pixels; the result depends on those 8 bytes alone.
#[verifier::external_body]
fn etc2_rgba1_block(data: &Vec<u8>, pos: usize) -> (r: [u32; 16])
    requires
        pos + 8 <= data.len(),
    ensures
        r@ == etc2_rgba1_block_of(data@.subrange(pos as int, pos as int + 8)),
{
    let mut buf = [0u32; 16];
    texture2ddecoder::decode_etc2_rgba1_block(&data[pos..pos + 8], &mut buf);
    buf
}

/// Relies on texture2ddecoder::decode_etc2_rgba8_block: one 16-byte block
/// becomes 16 packed pixels; the result depends on those 16 bytes alone.
#[verifier::external_body]
fn etc2_rgba8_block(data: &Vec<u8>, pos: usize) -> (r: [u32; 16])
    requires
        pos + 16 <= data.len(),
    ensures
        r@ == etc2_rgba8_block_of(data@.subrange(pos as int, pos as int + 16)),
{
    let mut buf = [0u32; 16];
    texture2ddecoder::decode_etc2_rgba8_block(&data[pos..pos + 16], &mut buf);
    buf
}

/// One decoded 4x4 block read at `pos`, dispatched to the sub-variant's
/// decoder.
pub fn etc_block(data: &Vec<u8>, pos: usize, kind: EtcKind) -> (r: [u32; 16])
    requires
        pos + etc_block_size(kind) <= data.len(),
    ensures
        r@ == etc_block_model(
            kind,
            data@.subrange(pos as int, pos as int + etc_block_size(kind)),
        ),
{
    match kind {
        EtcKind::Etc1 => etc1_block(data, pos),
        EtcKind::Etc2Rgb => etc2_rgb_block(data, pos),
        EtcKind::Etc2Rgba1 => etc2_rgba1_block(data, pos),
        EtcKind::Etc2Rgba8 => etc2_rgba8_block(data, pos),
    }
}

/// Bytes per decoded pixel the desktop decoder emits: packed RGB for the
/// opaque variant, RGBA for the alpha one.
pub open spec fn dxt_pixel_bytes(kind: DxtKind) -> int {
    match kind {
        DxtKind::Dxt1 => 3,
        DxtKind::Dxt5 => 4,
    }
}

/// Compressed bytes the desktop decoder consumes for a whole image.
pub open spec fn dxt_encoded_len(width: u32, height: u32, kind: DxtKind) -> int {
    (width as int / 4) * (height as int / 4) * (match kind {
        DxtKind::Dxt1 => 8int,
        DxtKind::Dxt5 => 16int,
    })
}

pub uninterp spec fn dxt1_raster_of(data: Seq<u8>, width: u32, height: u32) -> Seq<u8>;

pub uninterp spec fn dxt5_raster_of(data: Seq<u8>, width: u32, height: u32) -> Seq<u8>;

/// The top-down raster the desktop decoder produces for the consumed prefix.
pub open spec fn dxt_raster_of(data: Seq<u8>, width: u32, height: u32, kind: DxtKind) -> Seq<
    u8,
> {
    match kind {
        DxtKind::Dxt1 => dxt1_raster_of(data, width, height),
        DxtKind::Dxt5 => dxt5_raster_of(data, width, height),
    }
}

/// Relies on image's DxtDecoder (new, then its own read_image): the build
/// step rejects exactly the dimensions not divisible by four, and the read
/// step fails exactly when the stream holds fewer than one full block per
/// 4x4 tile; on success the raster is a pure function of the consumed
/// prefix, width, height and variant, top row first. A zero width is left
/// out: the read loop walks the buffer in scanline-sized chunks and cannot
/// take a zero-byte scanline.
#[verifier::external_body]
pub fn dxt_decode(data: &Vec<u8>, width: u32, height: u32, kind: DxtKind) -> (r: Option<
    Vec<u8>,
>)
    requires
        width > 0,
        4 * (width as int) * (height as int) <= usize::MAX,
    ensures
        r is Some <==> (width as int % 4 == 0 && height as int % 4 == 0 && data@.len()
            >= dxt_encoded_len(width, height, kind)),
        (match r {
            Some(v) => v@.len() == (width as int) * (height as int) * dxt_pixel_bytes(kind)
                && v@ == (match kind {
                DxtKind::Dxt1 => dxt1_raster_of(
                    data@.take(dxt_encoded_len(width, height, kind)),
                    width,
                    height,
                ),
                DxtKind::Dxt5 => dxt5_raster_of(
                    data@.take(dxt_encoded_len(width, height, kind)),
                    width,
                    height,
                ),
            }),
            None => true,
        }),
{
    let variant = match kind {
        DxtKind::Dxt1 => DXTVariant::DXT1,
        DxtKind::Dxt5 => DXTVariant::DXT5,
    };
    let cursor = std::io::Cursor::new(&data[..]);
    let dec = match DxtDecoder::new(cursor, width, height, variant) {
        Ok(dec) => dec,
        Err(_) => return None,
    };
    let total = dec.total_bytes() as usize;
    let mut buf = vec![0u8; total];
    match dec.read_image(&mut buf) {
        Ok(()) => Some(buf),
        Err(_) => None,
    }
}

pub uninterp spec fn png_of(raster: Seq<u8>, width: u32, height: u32) -> Seq<u8>;

/// Relies on png's Encoder (RGBA, eight bits per channel, fast compression):
/// writing to a byte buffer fails exactly on a zero dimension or a raster of
/// the wrong byte length, and the encoded stream is a pure function of the
/// raster and the dimensions.
#[verifier::external_body]
pub fn encode_png(raster: &Vec<u8>, width: u32, height: u32) -> (r: Option<Vec<u8>>)
    requires
        (4 * (width as int) + 1) * (height as int) <= usize::MAX,
    ensures
        r is Some <==> (width != 0 && height != 0 && raster@.len() == 4 * (width as int) * (
        height as int)),
        (match r {
            Some(v) => v@ == png_of(raster@, width, height),
            None => true,
        }),
{
    let mut out: Vec<u8> = Vec::new();
    let ok = {
        let writer = std::io::BufWriter::new(&mut out);
        let mut enc = png::Encoder::new(writer, width, height);
        enc.set_compression(png::Compression::Fast);
        enc.set_color(png::ColorType::RGBA);
        enc.set_depth(png::BitDepth::Eight);
        enc.write_header().and_then(|mut h| h.write_image_data(&raster[..])).is_ok()
    };
    if ok { Some(out) } else { None }
}

/// Relies on str::from_utf8 followed by str::to_owned: it accepts exactly
/// the valid UTF-8 byte strings and returns their decoding.
#[verifier::external_body]
pub fn try_utf8(bytes: &Vec<u8>) -> (r: Option<String>)
    ensures
        r is Some <==> valid_utf8(bytes@),
        (match r {
            Some(s) => s@ == decode_utf8(bytes@),
            None => true,
        }),
{
    match std::str::from_utf8(&bytes[..]) {
        Ok(s) => Some(s.to_owned()),
        Err(_) => None,
    }
}

pub uninterp spec fn lossy_utf8_of(bytes: Seq<u8>) -> Seq<char>;

/// Relies on String::from_utf8_lossy: the result depends on the bytes alone,
/// and on valid UTF-8 it is exactly the decoding.
#[verifier::external_body]
pub fn lossy_utf8(bytes: &Vec<u8>) -> (r: String)
    ensures
        r@ == lossy_utf8_of(bytes@),
        valid_utf8(bytes@) ==> r@ == decode_utf8(bytes@),
{
    String::from_utf8_lossy(&bytes[..]).into_owned()
}

/// Channel `ch` (red, green, blue, alpha in that order) of one packed pixel.
pub open spec fn px_byte(p: u32, ch: int) -> u8 {
    if ch == 0 {
        ((p / 0x10000) % 0x100) as u8
    } else if ch == 1 {
        ((p / 0x100) % 0x100) as u8
    } else if ch == 2 {
        (p % 0x100) as u8
    } else {
        (p / 0x1000000) as u8
    }
}

/// The four RGBA bytes of one packed pixel.
pub fn px_bytes(p: u32) -> (r: [u8; 4])
    ensures
        forall|ch: int| 0 <= ch < 4 ==> r@[ch] == px_byte(p, ch),
{
    let r0: u32 = (p / 0x10000) % 0x100;
    let r1: u32 = (p / 0x100) % 0x100;
    let r2: u32 = p % 0x100;
    let r3: u32 = p / 0x1000000;
    let out = [r0 as u8, r1 as u8, r2 as u8, r3 as u8];
    proof {
        assert(forall|ch: int| 0 <= ch < 4 ==> out@[ch] == px_byte(p, ch));
    }
    out
}

/// The same pixels with an opaque alpha channel added after each RGB triple.
pub open spec fn rgba_from_rgb(s: Seq<u8>) -> Seq<u8> {
    Seq::new(
        s.len() / 3 * 4,
        |i: int|
            if i % 4 == 3 {
                255u8
            } else {
                s[i / 4 * 3 + i % 4]
            },
    )
}

/// Packs an opaque alpha byte after every RGB triple.
pub fn rgb_to_rgba(src: &Vec<u8>) -> (r: Vec<u8>)
    requires
        src@.len() % 3 == 0,
    ensures
        r@ == rgba_from_rgb(src@),
{
    let srclen: usize = src.len();
    let n: usize = srclen / 3;
    let mut out: Vec<u8> = Vec::new();
    let mut p: usize = 0;
    let mut base: usize = 0;
    proof {
        assert(src@.len() == 3 * (n as int));
    }
    while p < n
        invariant
            p <= n,
            base == 3 * p,
            srclen == src@.len(),
            n == src@.len() / 3,
            src@.len() % 3 == 0,
            src@.len() == 3 * n,
            out@.len() == 4 * p,
            forall|i: int| 0 <= i < 4 * p ==> out@[i] == rgba_from_rgb(src@)[i],
        decreases n - p,
    {
        out.push(src[base]);
        out.push(src[base + 1]);
        out.push(src[base + 2]);
        out.push(255u8);
        p = p + 1;
        base = base + 3;
        proof {
            assert forall|i: int| 0 <= i < 4 * p implies out@[i] == rgba_from_rgb(src@)[i] by {
                if i >= 4 * (p - 1) {
                    assert(i / 4 == p - 1);
                }
            }
        }
    }
    proof {
        assert(out@.len() == src@.len() / 3 * 4);
        assert(out@ =~= rgba_from_rgb(src@));
    }
    out
}

/// Byte `off` of output row `row` comes from the same offset of the source
/// row mirrored about the horizontal midline.
pub open spec fn flipped_raster(s: Seq<u8>, width: u32, height: u32) -> Seq<u8> {
    Seq::new(
        s.len(),
        |i: int|
            {
                let stride = 4 * (width as int);
                let row = i / stride;
                let off = i % stride;
                s[(height - 1 - row) * stride + off]
            },
    )
}

/// Reverses the row order of a packed RGBA raster.
pub fn flip_vertical(src: &Vec<u8>, width: u32, height: u32) -> (r: Vec<u8>)
    requires
        src@.len() == 4 * (width as int) * (height as int),
        width > 0,
    ensures
        r@ == flipped_raster(src@, width, height),
{
    if height == 0 {
        let out: Vec<u8> = Vec::new();
        proof {
            assert(src@.len() == 0) by (nonlinear_arith)
                requires
                    src@.len() == 4 * (width as int) * (height as int),
                    height as int == 0,
            ;
            assert(out@ =~= flipped_raster(src@, width, height));
        }
        return out;
    }
    let srclen: usize = src.len();
    proof {
        assert(4 * (width as int) <= src@.len()) by (nonlinear_arith)
            requires
                src@.len() == 4 * (width as int) * (height as int),
                height as int >= 1,
                width as int >= 0,
        ;
    }
    let stride: usize = 4 * (width as usize);
    let ghost strided = stride as int;
    let mut out: Vec<u8> = Vec::new();
    let mut row: usize = 0;
    proof {
        assert(strided * (height as int) == src@.len()) by (nonlinear_arith)
            requires
                strided == 4 * (width as int),
                src@.len() == 4 * (width as int) * (height as int),
        ;
    }
    while row < height as usize
        invariant
            row <= height,
            srclen == src@.len(),
            stride == 4 * (width as int),
            width > 0,
            src@.len() == strided * (height as int),
            strided == stride,
            out@.len() == strided * (row as int),
            forall|i: int| 0 <= i < out@.len() ==> out@[i] == flipped_index(src@, strided,
            height as int, i),
        decreases height - row,
    {
        let srow: usize = height as usize - 1 - row;
        let mut off: usize = 0;
        proof {
            assert((srow as int) * strided + strided <= src@.len()) by (nonlinear_arith)
                requires
                    0 <= srow as int,
                    (srow as int) < (height as int),
                    strided > 0,
                    src@.len() == strided * (height as int),
            ;
        }
        while off < stride
            invariant
                off <= stride,
                srclen == src@.len(),
                stride == 4 * (width as int),
                width > 0,
                row < height,
                srow == height - 1 - row,
                src@.len() == strided * (height as int),
                strided == stride,
                (srow as int) * strided + strided <= src@.len(),
                out@.len() == strided * (row as int) + off,
                forall|i: int| 0 <= i < out@.len() ==> out@[i] == flipped_index(src@, strided,
                height as int, i),
            decreases stride - off,
        {
            let idx: usize = srow * stride + off;
            out.push(src[idx]);
            proof {
                let k = out@.len() - 1;
                assert(k == strided * (row as int) + off);
                assert(k / strided == row as int && k % strided == off) by (nonlinear_arith)
                    requires
                        strided > 0,
                        0 <= off < strided,
                        k == strided * (row as int) + off,
                ;
                assert(out@[k] == flipped_index(src@, strided, height as int, k));
            }
            off = off + 1;
        }
        row = row + 1;
        proof {
            assert(strided * (row as int) == strided * (row as int - 1) + strided)
                by (nonlinear_arith)
                requires
                    row as int >= 1,
            ;
        }
    }
    proof {
        assert(out@.len() == src@.len()) by (nonlinear_arith)
            requires
                out@.len() == strided * (height as int),
                src@.len() == strided * (height as int),
        ;
        assert forall|i: int| 0 <= i < out@.len() implies out@[i] == flipped_raster(
            src@,
            width,
            height,
        )[i] by {
            assert(out@[i] == flipped_index(src@, strided, height as int, i));
        }
        assert(out@ =~= flipped_raster(src@, width, height));
    }
    out
}

/// Value the flipped raster holds at flat index `i`.
pub open spec fn flipped_index(s: Seq<u8>, stride: int, height: int, i: int) -> u8 {
    s[(height - 1 - i / stride) * stride + i % stride]
}

} // verus!
