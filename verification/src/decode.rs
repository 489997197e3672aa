//! Texture decode orchestration: block streams in, one packed RGBA raster
//! and its PNG encoding out.
//!
//! The mobile family is assembled here block by block, writing block rows
//! bottom-to-top so the vertical flip happens during assembly; the desktop
//! family is decoded whole by the outside decoder and flipped afterwards.
//! Both families converge on the same row order.

use vstd::prelude::*;

use crate::codec::{
    dxt1_raster_of, dxt5_raster_of, dxt_decode, dxt_encoded_len, encode_png, etc_block,
    etc_block_model, etc_block_size, flip_vertical, flipped_raster, png_of, px_byte, px_bytes,
    rgb_to_rgba, rgba_from_rgb, DxtKind, EtcKind,
};

verus! {

/// Why a texture could not be reconstructed.
#[derive(Clone, Copy, PartialEq, Eq, Structural, Debug)]
pub enum TexError {
    /// The block stream ran out before the last block was read.
    Read,
    /// The block decoder rejected the input, or the dimensions are beyond
    /// what a raster can hold.
    Decode,
    /// The image encoder rejected the raster.
    Encode,
    /// A streaming slice reached outside its resource.
    Range,
}

/// The compression family and sub-variant a texture format code names.
#[derive(Clone, Copy, PartialEq, Eq, Structural, Debug)]
pub enum DecodeFormat {
    Etc(EtcKind),
    Dxt(DxtKind),
}

/// The raster and one spare row fit in memory; checked before any decoding.
pub open spec fn dims_fit(width: u32, height: u32) -> bool {
    4 * (width as int) * (height as int) + (height as int) <= usize::MAX
}

/// Blocks per row or column: each block covers four pixels.
pub open spec fn ceil4(x: int) -> int {
    (x + 3) / 4
}

/// Compressed bytes a whole mobile-family image consumes.
pub open spec fn etc_needed(width: u32, height: u32, kind: EtcKind) -> int {
    ceil4(width as int) * ceil4(height as int) * etc_block_size(kind)
}

/// Output row of flat index `i`.
pub open spec fn row_of(w: int, i: int) -> int {
    i / (4 * w)
}

/// Output column of flat index `i`.
pub open spec fn col_of(w: int, i: int) -> int {
    (i % (4 * w)) / 4
}

/// Channel of flat index `i`.
pub open spec fn ch_of(w: int, i: int) -> int {
    (i % (4 * w)) % 4
}

/// Row counted in the decoder's top-down order: assembly mirrors rows, so
/// output row `r` holds decoded row `h - 1 - r`.
pub open spec fn orow_of(w: int, h: int, i: int) -> int {
    h - 1 - row_of(w, i)
}

/// Index in the block stream of the block that covers flat index `i`.
pub open spec fn bidx_of(w: int, h: int, i: int) -> int {
    (orow_of(w, h, i) / 4) * ceil4(w) + col_of(w, i) / 4
}

/// Pixel position inside its 4x4 block, row by row.
pub open spec fn pix_of(w: int, h: int, i: int) -> int {
    (orow_of(w, h, i) % 4) * 4 + col_of(w, i) % 4
}

/// Write position inside its block: pixel position, then channel.
pub open spec fn rank_of(w: int, h: int, i: int) -> int {
    pix_of(w, h, i) * 4 + ch_of(w, i)
}

/// Byte `i` of the assembled mobile raster: the right channel of the right
/// pixel of the block the stream position maps to.
pub open spec fn etc_byte(w: int, h: int, kind: EtcKind, data: Seq<u8>, i: int) -> u8 {
    let bs = etc_block_size(kind);
    let base = bidx_of(w, h, i) * bs;
    px_byte(etc_block_model(kind, data.subrange(base, base + bs))[pix_of(w, h, i)], ch_of(w, i))
}

/// The whole assembled mobile raster.
pub open spec fn etc_raster(width: u32, height: u32, kind: EtcKind, data: Seq<u8>) -> Seq<u8> {
    Seq::new(
        (4 * (width as int) * (height as int)) as nat,
        |i: int| etc_byte(width as int, height as int, kind, data, i),
    )
}

/// How the flat index of one written byte decomposes back into its
/// coordinates.
proof fn lemma_flat_index(w: int, h: int, by: int, bx: int, lr: int, lc: int, ch: int)
    requires
        w >= 1,
        h >= 1,
        0 <= by,
        0 <= bx,
        0 <= lr < 4,
        0 <= lc < 4,
        0 <= ch < 4,
        by * 4 + lr < h,
        bx * 4 + lc < w,
    ensures
        ({
            let orow = by * 4 + lr;
            let col = bx * 4 + lc;
            let i = (h - 1 - orow) * (4 * w) + col * 4 + ch;
            0 <= i && i < 4 * w * h && row_of(w, i) == h - 1 - orow && col_of(w, i) == col
                && ch_of(w, i) == ch
        }),
{
    let orow = by * 4 + lr;
    let col = bx * 4 + lc;
    let row = h - 1 - orow;
    let stride = 4 * w;
    let i = row * stride + col * 4 + ch;
    assert(col * 4 + ch < stride);
    assert(0 <= i && i < stride * h && i / stride == row && i % stride == col * 4 + ch)
        by (nonlinear_arith)
        requires
            stride == 4 * w,
            0 <= row < h,
            0 <= col * 4 + ch < stride,
            i == row * stride + col * 4 + ch,
    ;
    assert(4 * w * h == stride * h) by (nonlinear_arith)
        requires
            stride == 4 * w,
    ;
    assert((col * 4 + ch) / 4 == col && (col * 4 + ch) % 4 == ch);
}

/// Writes the sixteen pixels of one decoded block into the raster, mirroring
/// the block row about the horizontal midline and clipping at the right and
/// top edges.
fn write_block(
    out: &mut Vec<u8>,
    width: u32,
    height: u32,
    by: usize,
    bx: usize,
    block: &[u32; 16],
)
    requires
        width >= 1,
        height >= 1,
        old(out)@.len() == 4 * (width as int) * (height as int),
        (by as int) * 4 < height as int,
        (bx as int) * 4 < width as int,
    ensures
        final(out)@.len() == old(out)@.len(),
        forall|i: int|
            0 <= i < final(out)@.len() && bidx_of(width as int, height as int, i) == (by as int)
                * ceil4(width as int) + (bx as int) ==> final(out)@[i] == px_byte(
                block@[pix_of(width as int, height as int, i)],
                ch_of(width as int, i),
            ),
        forall|i: int|
            0 <= i < final(out)@.len() && bidx_of(width as int, height as int, i) != (by as int)
                * ceil4(width as int) + (bx as int) ==> final(out)@[i] == old(out)@[i],
{
    let ghost w = width as int;
    let ghost h = height as int;
    let ghost bi = (by as int) * ceil4(w) + (bx as int);
    let ghost init = out@;
    let outlen: usize = out.len();
    proof {
        assert(4 * w <= outlen as int) by (nonlinear_arith)
            requires
                outlen as int == 4 * w * h,
                w >= 0,
                h >= 1,
        ;
    }
    let stride: usize = 4 * (width as usize);
    let mut r: usize = 0;
    while r < 64
        invariant
            r <= 64,
            outlen == out@.len(),
            width >= 1,
            height >= 1,
            w == width as int,
            h == height as int,
            stride == 4 * w,
            bi == (by as int) * ceil4(w) + (bx as int),
            (by as int) * 4 < h,
            (bx as int) * 4 < w,
            out@.len() == init.len(),
            init.len() == 4 * w * h,
            forall|i: int|
                0 <= i < out@.len() && bidx_of(w, h, i) == bi && rank_of(w, h, i) < r
                    ==> out@[i] == px_byte(block@[pix_of(w, h, i)], ch_of(w, i)),
            forall|i: int|
                0 <= i < out@.len() && !(bidx_of(w, h, i) == bi && rank_of(w, h, i) < r)
                    ==> out@[i] == init[i],
        decreases 64 - r,
    {
        let lr: usize = r / 16;
        let lc: usize = (r / 4) % 4;
        let ch: usize = r % 4;
        proof {
            assert(lr < 4 && lc < 4 && ch < 4);
            assert((r as int) == (lr as int) * 16 + (lc as int) * 4 + (ch as int));
        }
        let orow: usize = by * 4 + lr;
        let col: usize = bx * 4 + lc;
        if orow < height as usize && col < width as usize {
            let row: usize = height as usize - 1 - orow;
            proof {
                lemma_flat_index(w, h, by as int, bx as int, lr as int, lc as int, ch as int);
                assert((row as int) * (stride as int) + (col as int) * 4 + (ch as int) < 4 * w
                    * h) by (nonlinear_arith)
                    requires
                        stride as int == 4 * w,
                        w >= 1,
                        h >= 1,
                        0 <= row as int,
                        row as int == h - 1 - (orow as int),
                        0 <= orow as int,
                        (orow as int) < h,
                        0 <= col as int,
                        (col as int) < w,
                        0 <= ch as int,
                        (ch as int) < 4,
                ;
                assert(4 * w * h == outlen as int);
            }
            let idx: usize = row * stride + col * 4 + ch;
            let bytes = px_bytes(block[r / 4]);
            let b: u8 = bytes[ch];
            out[idx] = b;
            proof {
                let ii = idx as int;
                assert(row_of(w, ii) == h - 1 - (orow as int) && col_of(w, ii) == col as int
                    && ch_of(w, ii) == ch as int);
                assert(orow_of(w, h, ii) == orow as int);
                assert((orow as int) / 4 == by as int && (orow as int) % 4 == lr as int);
                assert((col as int) / 4 == bx as int && (col as int) % 4 == lc as int);
                assert(bidx_of(w, h, ii) == bi);
                assert(pix_of(w, h, ii) == (lr as int) * 4 + (lc as int));
                assert(rank_of(w, h, ii) == r as int);
                assert(pix_of(w, h, ii) == r as int / 4);
                assert(out@[ii] == px_byte(block@[pix_of(w, h, ii)], ch_of(w, ii)));
                assert forall|i: int|
                    0 <= i < out@.len() && bidx_of(w, h, i) == bi && rank_of(w, h, i) < r + 1
                        implies out@[i] == px_byte(block@[pix_of(w, h, i)], ch_of(w, i)) by {
                    if i != ii && rank_of(w, h, i) == r as int {
                        assert(false) by {
                            lemma_rank_unique(w, h, i, ii);
                        }
                    }
                }
            }
        } else {
            proof {
                assert forall|i: int|
                    0 <= i < out@.len() && bidx_of(w, h, i) == bi implies rank_of(w, h, i)
                    != r as int by {
                    lemma_rank_coords(w, h, i);
                    lemma_bidx_unique(w, h, i, by as int, bx as int);
                    if rank_of(w, h, i) == r as int {
                        assert((r as int) / 4 == (lr as int) * 4 + (lc as int));
                        assert(pix_of(w, h, i) == (lr as int) * 4 + (lc as int));
                        assert(orow_of(w, h, i) % 4 == lr as int);
                        assert(col_of(w, i) % 4 == lc as int);
                        assert(orow_of(w, h, i) == (by as int) * 4 + lr as int);
                        assert(col_of(w, i) == (bx as int) * 4 + lc as int);
                    }
                }
            }
        }
        r = r + 1;
    }
}

/// Each in-range flat index names valid coordinates: its decoder row and
/// column lie inside the image, and its block coordinates recompose.
proof fn lemma_rank_coords(w: int, h: int, i: int)
    requires
        w >= 1,
        h >= 1,
        0 <= i < 4 * w * h,
    ensures
        0 <= row_of(w, i) < h,
        0 <= col_of(w, i) < w,
        0 <= ch_of(w, i) < 4,
        0 <= orow_of(w, h, i) < h,
        orow_of(w, h, i) == (orow_of(w, h, i) / 4) * 4 + orow_of(w, h, i) % 4,
        col_of(w, i) == (col_of(w, i) / 4) * 4 + col_of(w, i) % 4,
        bidx_of(w, h, i) == (orow_of(w, h, i) / 4) * ceil4(w) + col_of(w, i) / 4,
        0 <= col_of(w, i) / 4 < ceil4(w),
        0 <= orow_of(w, h, i) / 4 < ceil4(h),
        0 <= rank_of(w, h, i) < 64,
        pix_of(w, h, i) == rank_of(w, h, i) / 4,
        ch_of(w, i) == rank_of(w, h, i) % 4,
        orow_of(w, h, i) % 4 == pix_of(w, h, i) / 4,
        col_of(w, i) % 4 == pix_of(w, h, i) % 4,
        i == row_of(w, i) * (4 * w) + col_of(w, i) * 4 + ch_of(w, i),
{
    let stride = 4 * w;
    assert(0 <= i / stride < h && 0 <= i % stride < stride) by (nonlinear_arith)
        requires
            stride == 4 * w,
            w >= 1,
            h >= 1,
            0 <= i < 4 * w * h,
    ;
    assert(0 <= (i % stride) / 4 < w && 0 <= (i % stride) % 4 < 4) by (nonlinear_arith)
        requires
            stride == 4 * w,
            w >= 1,
            0 <= i % stride < stride,
    ;
    let col = col_of(w, i);
    assert(0 <= col / 4 && col / 4 * 4 + col % 4 == col && 0 <= col % 4 < 4);
    assert(col / 4 < ceil4(w)) by (nonlinear_arith)
        requires
            0 <= col < w,
    ;
    let orow = orow_of(w, h, i);
    assert(0 <= orow / 4 && orow / 4 * 4 + orow % 4 == orow && 0 <= orow % 4 < 4);
    assert(orow / 4 < ceil4(h)) by (nonlinear_arith)
        requires
            0 <= orow < h,
    ;
    let pix = pix_of(w, h, i);
    assert(0 <= pix < 16);
    assert(rank_of(w, h, i) / 4 == pix && rank_of(w, h, i) % 4 == ch_of(w, i));
    assert(orow % 4 == pix / 4 && col % 4 == pix % 4);
    assert(i == (i / stride) * stride + i % stride) by (nonlinear_arith)
        requires
            stride >= 1,
    ;
    assert(i % stride == ((i % stride) / 4) * 4 + (i % stride) % 4);
    assert(i == row_of(w, i) * (4 * w) + col_of(w, i) * 4 + ch_of(w, i));
}

/// Two distinct in-range flat indices in the same block differ in rank.
proof fn lemma_rank_unique(w: int, h: int, i: int, j: int)
    requires
        w >= 1,
        h >= 1,
        0 <= i < 4 * w * h,
        0 <= j < 4 * w * h,
        i != j,
        bidx_of(w, h, i) == bidx_of(w, h, j),
    ensures
        rank_of(w, h, i) != rank_of(w, h, j),
{
    lemma_rank_coords(w, h, i);
    lemma_rank_coords(w, h, j);
    if rank_of(w, h, i) == rank_of(w, h, j) {
        let c = ceil4(w);
        let a = bidx_of(w, h, i);
        assert(orow_of(w, h, i) / 4 == a / c && col_of(w, i) / 4 == a % c) by (nonlinear_arith)
            requires
                c >= 1,
                0 <= col_of(w, i) / 4 < c,
                0 <= orow_of(w, h, i) / 4,
                a == (orow_of(w, h, i) / 4) * c + col_of(w, i) / 4,
        ;
        assert(orow_of(w, h, j) / 4 == a / c && col_of(w, j) / 4 == a % c) by (nonlinear_arith)
            requires
                c >= 1,
                0 <= col_of(w, j) / 4 < c,
                0 <= orow_of(w, h, j) / 4,
                a == (orow_of(w, h, j) / 4) * c + col_of(w, j) / 4,
        ;
        assert(pix_of(w, h, i) == pix_of(w, h, j) && ch_of(w, i) == ch_of(w, j));
        assert(orow_of(w, h, i) == orow_of(w, h, j));
        assert(col_of(w, i) == col_of(w, j));
        assert(row_of(w, i) == row_of(w, j));
        assert(i == j);
    }
}

/// A block index decomposes into its block row and block column in only one
/// way.
proof fn lemma_bidx_unique(w: int, h: int, i: int, by: int, bx: int)
    requires
        w >= 1,
        h >= 1,
        0 <= i < 4 * w * h,
        0 <= by,
        0 <= bx,
        bx * 4 < w,
        bidx_of(w, h, i) == by * ceil4(w) + bx,
    ensures
        orow_of(w, h, i) / 4 == by,
        col_of(w, i) / 4 == bx,
{
    lemma_rank_coords(w, h, i);
    let c = ceil4(w);
    assert(bx < c) by (nonlinear_arith)
        requires
            bx * 4 < w,
            c == (w + 3) / 4,
            0 <= bx,
    ;
    let a = bidx_of(w, h, i);
    assert(orow_of(w, h, i) / 4 == a / c && col_of(w, i) / 4 == a % c) by (nonlinear_arith)
        requires
            c >= 1,
            0 <= col_of(w, i) / 4 < c,
            0 <= orow_of(w, h, i) / 4,
            a == (orow_of(w, h, i) / 4) * c + col_of(w, i) / 4,
    ;
    assert(by == a / c && bx == a % c) by (nonlinear_arith)
        requires
            c >= 1,
            0 <= bx < c,
            0 <= by,
            a == by * c + bx,
    ;
}

/// A raster of zeroes to assemble into.
fn zero_bytes(n: usize) -> (r: Vec<u8>)
    ensures
        r@.len() == n,
{
    let mut out: Vec<u8> = Vec::new();
    let mut i: usize = 0;
    while i < n
        invariant
            i <= n,
            out@.len() == i,
        decreases n - i,
    {
        out.push(0u8);
        i = i + 1;
    }
    out
}

/// Decodes a mobile-family block stream into a packed RGBA raster, blocks
/// left to right, block rows bottom to top. The stream is consumed in
/// row-major block order regardless of output placement; running out of
/// blocks is the read error.
pub fn read_etc(width: u32, height: u32, kind: EtcKind, data: &Vec<u8>) -> (r: Result<
    Vec<u8>,
    TexError,
>)
    requires
        dims_fit(width, height),
    ensures
        match r {
            Ok(raster) => data@.len() >= etc_needed(width, height, kind) && raster@ == etc_raster(
                width,
                height,
                kind,
                data@,
            ),
            Err(e) => e == TexError::Read && data@.len() < etc_needed(width, height, kind),
        },
{
    let ghost w = width as int;
    let ghost h = height as int;
    if width == 0 || height == 0 {
        proof {
            assert(etc_needed(width, height, kind) == 0) by (nonlinear_arith)
                requires
                    width as int == 0 || height as int == 0,
                    etc_needed(width, height, kind) == ceil4(width as int) * ceil4(
                        height as int,
                    ) * etc_block_size(kind),
                    etc_block_size(kind) >= 0,
            ;
            assert(etc_raster(width, height, kind, data@) =~= Seq::<u8>::empty());
        }
        return Ok(Vec::new());
    }
    proof {
        assert(4 * w <= 4 * w * h && 4 * h <= 4 * w * h) by (nonlinear_arith)
            requires
                w >= 1,
                h >= 1,
        ;
    }
    let bw: usize = (width as usize + 3) / 4;
    let bh: usize = (height as usize + 3) / 4;
    let bs: usize = match kind {
        EtcKind::Etc2Rgba8 => 16,
        _ => 8,
    };
    let mut out = zero_bytes(4 * (width as usize) * (height as usize));
    let mut pos: usize = 0;
    let mut by: usize = 0;
    proof {
        assert(bw as int == ceil4(w) && bh as int == ceil4(h));
        assert(bw as int <= w && bh as int <= h) by (nonlinear_arith)
            requires
                w >= 1,
                h >= 1,
                bw as int == (w + 3) / 4,
                bh as int == (h + 3) / 4,
        ;
    }
    while by < bh
        invariant
            by <= bh,
            width >= 1,
            height >= 1,
            w == width as int,
            h == height as int,
            dims_fit(width, height),
            bw as int == ceil4(w),
            bh as int == ceil4(h),
            bw as int <= w,
            bh as int <= h,
            bs as int == etc_block_size(kind),
            out@.len() == 4 * w * h,
            pos == (by as int) * (bw as int) * (bs as int),
            pos <= data@.len(),
            forall|i: int|
                0 <= i < out@.len() && 0 <= bidx_of(w, h, i) && bidx_of(w, h, i) < (by as int)
                    * (bw as int) ==> out@[i] == etc_byte(w, h, kind, data@, i),
        decreases bh - by,
    {
        let mut bx: usize = 0;
        while bx < bw
            invariant
                bx <= bw,
                by < bh,
                width >= 1,
                height >= 1,
                w == width as int,
                h == height as int,
                dims_fit(width, height),
                bw as int == ceil4(w),
                bh as int == ceil4(h),
                bw as int <= w,
                bh as int <= h,
                bs as int == etc_block_size(kind),
                out@.len() == 4 * w * h,
                pos == ((by as int) * (bw as int) + (bx as int)) * (bs as int),
                pos <= data@.len(),
                forall|i: int|
                    0 <= i < out@.len() && 0 <= bidx_of(w, h, i) && bidx_of(w, h, i) < (
                    by as int) * (bw as int) + (bx as int) ==> out@[i] == etc_byte(
                        w,
                        h,
                        kind,
                        data@,
                        i,
                    ),
            decreases bw - bx,
        {
            let ghost bi = (by as int) * (bw as int) + (bx as int);
            proof {
                assert(bi < (bh as int) * (bw as int)) by (nonlinear_arith)
                    requires
                        0 <= by as int,
                        (by as int) < bh as int,
                        0 <= bx as int,
                        (bx as int) < bw as int,
                        bi == (by as int) * (bw as int) + (bx as int),
                ;
            }
            if bs > data.len() - pos {
                proof {
                    assert(data@.len() < etc_needed(width, height, kind)) by (nonlinear_arith)
                        requires
                            data@.len() < (pos as int) + (bs as int),
                            pos as int == bi * (bs as int),
                            0 <= bi,
                            bi < (bh as int) * (bw as int),
                            bs as int >= 1,
                            bw as int == ceil4(w),
                            bh as int == ceil4(h),
                            bs as int == etc_block_size(kind),
                            etc_needed(width, height, kind) == ceil4(w) * ceil4(h)
                                * etc_block_size(kind),
                    ;
                }
                return Err(TexError::Read);
            }
            let block = etc_block(data, pos, kind);
            proof {
                assert((by as int) * 4 < h && (bx as int) * 4 < w) by (nonlinear_arith)
                    requires
                        0 <= by as int,
                        0 <= bx as int,
                        (by as int) < bh as int,
                        (bx as int) < bw as int,
                        bw as int == (w + 3) / 4,
                        bh as int == (h + 3) / 4,
                        w >= 1,
                        h >= 1,
                ;
            }
            write_block(&mut out, width, height, by, bx, &block);
            proof {
                assert forall|i: int|
                    0 <= i < out@.len() && 0 <= bidx_of(w, h, i) && bidx_of(w, h, i) < bi + 1
                    implies out@[i] == etc_byte(w, h, kind, data@, i) by {
                    if bidx_of(w, h, i) == bi {
                        assert(block@ == etc_block_model(
                            kind,
                            data@.subrange(pos as int, pos as int + bs as int),
                        ));
                        assert(out@[i] == px_byte(block@[pix_of(w, h, i)], ch_of(w, i)));
                        assert(bi * (bs as int) == pos as int);
                    }
                }
            }
            bx = bx + 1;
            pos = pos + bs;
            proof {
                assert(((by as int) * (bw as int) + (bx as int)) * (bs as int) == ((by as int) * (
                bw as int) + (bx as int) - 1) * (bs as int) + (bs as int)) by (nonlinear_arith);
            }
        }
        by = by + 1;
        proof {
            assert((by as int) * (bw as int) * (bs as int) == (((by as int) - 1) * (bw as int) + (
            bw as int)) * (bs as int)) by (nonlinear_arith);
        }
    }
    proof {
        assert(data@.len() >= etc_needed(width, height, kind)) by (nonlinear_arith)
            requires
                pos as int == (bh as int) * (bw as int) * (bs as int),
                pos as int <= data@.len(),
                bw as int == ceil4(w),
                bh as int == ceil4(h),
                bs as int == etc_block_size(kind),
                etc_needed(width, height, kind) == ceil4(w) * ceil4(h) * etc_block_size(kind),
        ;
        assert forall|i: int| 0 <= i < out@.len() implies out@[i] == etc_byte(
            w,
            h,
            kind,
            data@,
            i,
        ) by {
            lemma_rank_coords(w, h, i);
            assert(bidx_of(w, h, i) < (bh as int) * (bw as int)) by (nonlinear_arith)
                requires
                    bidx_of(w, h, i) == (orow_of(w, h, i) / 4) * ceil4(w) + col_of(w, i) / 4,
                    0 <= col_of(w, i) / 4 < ceil4(w),
                    0 <= orow_of(w, h, i) / 4 < ceil4(h),
                    bw as int == ceil4(w),
                    bh as int == ceil4(h),
            ;
            assert((bh as int) * (bw as int) == (by as int) * (bw as int)) by (nonlinear_arith)
                requires
                    by as int == bh as int,
            ;
        }
        assert(out@ =~= etc_raster(width, height, kind, data@));
    }
    Ok(out)
}

/// The desktop raster with alpha made explicit, before the flip.
pub open spec fn dxt_rgba(width: u32, height: u32, kind: DxtKind, data: Seq<u8>) -> Seq<u8> {
    let raw = data.take(dxt_encoded_len(width, height, kind));
    match kind {
        DxtKind::Dxt1 => rgba_from_rgb(dxt1_raster_of(raw, width, height)),
        DxtKind::Dxt5 => dxt5_raster_of(raw, width, height),
    }
}

/// Decodes a desktop-family stream to packed RGBA in the decoder's own
/// top-down row order: the family's own rejections first, then the zero
/// dimensions nothing can encode, then the decoder.
pub fn read_dxt(width: u32, height: u32, kind: DxtKind, data: &Vec<u8>) -> (r: Result<
    Vec<u8>,
    TexError,
>)
    requires
        dims_fit(width, height),
    ensures
        match r {
            Ok(raster) => (width as int) % 4 == 0 && (height as int) % 4 == 0 && width > 0
                && height > 0 && data@.len() >= dxt_encoded_len(width, height, kind) && raster@
                == dxt_rgba(width, height, kind, data@) && raster@.len() == 4 * (width as int)
                * (height as int),
            Err(e) => if (width as int) % 4 != 0 || (height as int) % 4 != 0 || data@.len()
                < dxt_encoded_len(width, height, kind) {
                e == TexError::Decode
            } else {
                e == TexError::Encode && (width == 0 || height == 0)
            },
        },
{
    let ghost w = width as int;
    let ghost h = height as int;
    let wb: u64 = (width / 4) as u64;
    let hb: u64 = (height / 4) as u64;
    let ebs: u64 = match kind {
        DxtKind::Dxt1 => 8,
        DxtKind::Dxt5 => 16,
    };
    proof {
        assert(wb as int <= 0x3fffffff && hb as int <= 0x3fffffff);
        assert((wb as int) * (hb as int) * (ebs as int) <= u64::MAX) by (nonlinear_arith)
            requires
                0 <= wb as int <= 0x3fffffff,
                0 <= hb as int <= 0x3fffffff,
                0 <= ebs as int <= 16,
        ;
    }
    let enc: u64 = wb * hb * ebs;
    proof {
        assert(enc as int == dxt_encoded_len(width, height, kind)) by (nonlinear_arith)
            requires
                enc as int == (wb as int) * (hb as int) * (ebs as int),
                wb as int == w / 4,
                hb as int == h / 4,
                dxt_encoded_len(width, height, kind) == (w / 4) * (h / 4) * (ebs as int),
        ;
    }
    if width % 4 != 0 || height % 4 != 0 || (data.len() as u64) < enc {
        return Err(TexError::Decode);
    }
    if width == 0 || height == 0 {
        return Err(TexError::Encode);
    }
    proof {
        assert(4 * w * h <= usize::MAX);
    }
    match dxt_decode(data, width, height, kind) {
        None => {
            proof {
                assert(false);
            }
            Err(TexError::Decode)
        },
        Some(raw) => match kind {
            DxtKind::Dxt1 => {
                proof {
                    assert(raw@.len() == w * h * 3);
                    assert((w * h * 3) % 3 == 0 && (w * h * 3) / 3 == w * h)
                        by (nonlinear_arith);
                }
                let rgba = rgb_to_rgba(&raw);
                proof {
                    assert(rgba@.len() == w * h * 4);
                    assert(w * h * 4 == 4 * w * h) by (nonlinear_arith);
                }
                Ok(rgba)
            },
            DxtKind::Dxt5 => {
                proof {
                    assert(raw@.len() == w * h * 4);
                    assert(w * h * 4 == 4 * w * h) by (nonlinear_arith);
                }
                Ok(raw)
            },
        },
    }
}

/// What reconstruction returns for any dimensions, format and block stream:
/// the PNG encoding of the assembled raster, or the first error the
/// pipeline hits.
pub open spec fn read_spec(width: u32, height: u32, format: DecodeFormat, data: Seq<u8>) -> Result<
    Seq<u8>,
    TexError,
> {
    if !dims_fit(width, height) {
        Err(TexError::Decode)
    } else {
        match format {
            DecodeFormat::Etc(kind) => if data.len() < etc_needed(width, height, kind) {
                Err(TexError::Read)
            } else if width == 0 || height == 0 {
                Err(TexError::Encode)
            } else {
                Ok(png_of(etc_raster(width, height, kind, data), width, height))
            },
            DecodeFormat::Dxt(kind) => if (width as int) % 4 != 0 || (height as int) % 4 != 0
                || data.len() < dxt_encoded_len(width, height, kind) {
                Err(TexError::Decode)
            } else if width == 0 || height == 0 {
                Err(TexError::Encode)
            } else {
                Ok(
                    png_of(
                        flipped_raster(dxt_rgba(width, height, kind, data), width, height),
                        width,
                        height,
                    ),
                )
            },
        }
    }
}

/// Reconstructs one texture: decode the block stream, converge both families
/// on the same bottom-up row order, and encode the raster losslessly.
pub fn read(width: u32, height: u32, format: DecodeFormat, data: &Vec<u8>) -> (r: Result<
    Vec<u8>,
    TexError,
>)
    ensures
        match r {
            Ok(png) => read_spec(width, height, format, data@) == Ok::<Seq<u8>, TexError>(png@),
            Err(e) => read_spec(width, height, format, data@) == Err::<Seq<u8>, TexError>(e),
        },
{
    proof {
        assert(4 * (width as int) * (height as int) + (height as int) <= u128::MAX)
            by (nonlinear_arith)
            requires
                width as int <= 0xffff_ffff,
                height as int <= 0xffff_ffff,
        ;
    }
    let wide: u128 = 4 * (width as u128) * (height as u128) + (height as u128);
    if wide > usize::MAX as u128 {
        return Err(TexError::Decode);
    }
    let raster = match format {
        DecodeFormat::Etc(kind) => match read_etc(width, height, kind, data) {
            Ok(raster) => raster,
            Err(e) => return Err(e),
        },
        DecodeFormat::Dxt(kind) => match read_dxt(width, height, kind, data) {
            Ok(raw) => flip_vertical(&raw, width, height),
            Err(e) => return Err(e),
        },
    };
    if width == 0 || height == 0 {
        return Err(TexError::Encode);
    }
    proof {
        assert(raster@.len() == 4 * (width as int) * (height as int));
        assert((4 * (width as int) + 1) * (height as int) == 4 * (width as int) * (height as int)
            + (height as int)) by (nonlinear_arith);
    }
    match encode_png(&raster, width, height) {
        Some(png) => Ok(png),
        None => Err(TexError::Encode),
    }
}

} // verus!
