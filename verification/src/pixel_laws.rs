use vstd::prelude::*;
use crate::layout::{
    block_start, byte_col, frame_nibble, frame_of, gamma, holds_pixel, in_bounds,
    lemma_index_parts, lemma_stream_word_bytes, nibble_shift, stream_with_pixel, stream_word,
    well_laid_out, write_nibble,
};
use crate::light::pixel_bits;

verus! {

proof fn lemma_nibble_ops(byte: u8, sh: u8, sh2: u8, n1: u16, n2: u16)
    by (bit_vector)
    requires
        sh == 0 || sh == 4,
        sh2 == 0 || sh2 == 4,
        sh != sh2,
        n1 < 16,
        n2 < 16,
    ensures
        ((((byte & !(15u8 << sh)) | ((n1 << (sh as u16)) as u8)) >> sh) & 15) as u16 == n1,
        ((((byte & !(15u8 << sh)) | ((n1 << (sh as u16)) as u8)) >> sh2) & 15) == (byte >> sh2) & 15,
        ((((byte & !(15u8 << sh)) | ((n1 << (sh as u16)) as u8)) & !(15u8 << sh)) | ((n2 << (
        sh as u16)) as u8)) == (byte & !(15u8 << sh)) | ((n2 << (sh as u16)) as u8),
        ((((byte & !(15u8 << sh)) | ((n1 << (sh as u16)) as u8)) & !(15u8 << sh2)) | ((n2 << (
        sh2 as u16)) as u8)) == ((((byte & !(15u8 << sh2)) | ((n2 << (sh2 as u16)) as u8)) & !(
        15u8 << sh)) | ((n1 << (sh as u16)) as u8)),
{
}

proof fn lemma_frame_nibble_small(ir: u16, ig: u16, ib: u16, f: u16)
    by (bit_vector)
    ensures
        (((ir >> f) & 1) << 1u16) | (((ig >> f) & 1) << 3u16) | (((ib >> f) & 1) << 2u16) < 16,
{
}

proof fn lemma_nibble_facts(byte: u8, sh: u8, sh2: u8, n1: u16, n2: u16)
    requires
        sh == 0 || sh == 4,
        sh2 == 0 || sh2 == 4,
        n1 < 16,
        n2 < 16,
    ensures
        ((write_nibble(byte, sh, n1) >> sh) & 15) as u16 == n1,
        sh != sh2 ==> (write_nibble(byte, sh, n1) >> sh2) & 15 == (byte >> sh2) & 15,
        write_nibble(write_nibble(byte, sh, n1), sh, n2) == write_nibble(byte, sh, n2),
        sh != sh2 ==> write_nibble(write_nibble(byte, sh, n1), sh2, n2) == write_nibble(
            write_nibble(byte, sh2, n2),
            sh,
            n1,
        ),
{
    let other: u8 = if sh == 0 { 4 } else { 0 };
    lemma_nibble_ops(byte, sh, other, n1, n2);
}

/// Writing a pixel leaves the padding, row-select and tick bytes as they
/// were: the stream keeps the layout the display program expects.
pub proof fn lemma_write_keeps_layout(s: Seq<u8>, x: u8, y: u8, r: u8, g: u8, b: u8)
    requires
        well_laid_out(s),
    ensures
        well_laid_out(stream_with_pixel(s, x, y, r, g, b)),
{
}

/// After a write, pixel `(x, y)` holds in every bcd frame that frame's bits
/// of the colour, and every other pixel holds what it held before.
pub proof fn lemma_write_reads_back(
    s: Seq<u8>,
    x: u8,
    y: u8,
    r: u8,
    g: u8,
    b: u8,
    x2: u8,
    y2: u8,
    f: int,
)
    requires
        s.len() == 1260,
        in_bounds(x, y),
        in_bounds(x2, y2),
        0 <= f < 15,
    ensures
        pixel_bits(stream_with_pixel(s, x, y, r, g, b), x, y, f) as u16 == frame_nibble(
            gamma(r),
            gamma(g),
            gamma(b),
            f,
        ),
        (x2, y2) != (x, y) ==> pixel_bits(stream_with_pixel(s, x, y, r, g, b), x2, y2, f)
            == pixel_bits(s, x2, y2, f),
{
    let t = stream_with_pixel(s, x, y, r, g, b);
    let i = block_start(y as int, f) + byte_col(x as int);
    let i2 = block_start(y2 as int, f) + byte_col(x2 as int);
    lemma_index_parts(y as int, f, byte_col(x as int));
    lemma_index_parts(y2 as int, f, byte_col(x2 as int));
    let n = frame_nibble(gamma(r), gamma(g), gamma(b), f);
    lemma_frame_nibble_small(gamma(r), gamma(g), gamma(b), f as u16);
    lemma_nibble_facts(s[i], nibble_shift(x as int), nibble_shift(x2 as int), n, n);
}

/// Writing the same pixel twice is the same as writing only the second
/// colour.
pub proof fn lemma_write_overwrites(
    s: Seq<u8>,
    x: u8,
    y: u8,
    r1: u8,
    g1: u8,
    b1: u8,
    r2: u8,
    g2: u8,
    b2: u8,
)
    ensures
        stream_with_pixel(stream_with_pixel(s, x, y, r1, g1, b1), x, y, r2, g2, b2)
            == stream_with_pixel(s, x, y, r2, g2, b2),
{
    let t1 = stream_with_pixel(s, x, y, r1, g1, b1);
    let lhs = stream_with_pixel(t1, x, y, r2, g2, b2);
    let rhs = stream_with_pixel(s, x, y, r2, g2, b2);
    if in_bounds(x, y) {
        assert forall|i: int| 0 <= i < s.len() implies lhs[i] == rhs[i] by {
            if holds_pixel(i, x, y) {
                let f = frame_of(i);
                lemma_frame_nibble_small(gamma(r1), gamma(g1), gamma(b1), f as u16);
                lemma_frame_nibble_small(gamma(r2), gamma(g2), gamma(b2), f as u16);
                lemma_nibble_facts(
                    s[i],
                    nibble_shift(x as int),
                    nibble_shift(x as int),
                    frame_nibble(gamma(r1), gamma(g1), gamma(b1), f),
                    frame_nibble(gamma(r2), gamma(g2), gamma(b2), f),
                );
            }
        }
    }
    assert(lhs =~= rhs);
}

/// Writes to two different pixels can be made in either order.
pub proof fn lemma_writes_commute(
    s: Seq<u8>,
    x1: u8,
    y1: u8,
    r1: u8,
    g1: u8,
    b1: u8,
    x2: u8,
    y2: u8,
    r2: u8,
    g2: u8,
    b2: u8,
)
    requires
        (x1, y1) != (x2, y2),
    ensures
        stream_with_pixel(stream_with_pixel(s, x1, y1, r1, g1, b1), x2, y2, r2, g2, b2)
            == stream_with_pixel(stream_with_pixel(s, x2, y2, r2, g2, b2), x1, y1, r1, g1, b1),
{
    let lhs = stream_with_pixel(stream_with_pixel(s, x1, y1, r1, g1, b1), x2, y2, r2, g2, b2);
    let rhs = stream_with_pixel(stream_with_pixel(s, x2, y2, r2, g2, b2), x1, y1, r1, g1, b1);
    assert forall|i: int| 0 <= i < s.len() implies lhs[i] == rhs[i] by {
        if in_bounds(x1, y1) && in_bounds(x2, y2) && holds_pixel(i, x1, y1) && holds_pixel(
            i,
            x2,
            y2,
        ) {
            let f = frame_of(i);
            assert(x1 != x2);
            assert(nibble_shift(x1 as int) != nibble_shift(x2 as int));
            lemma_frame_nibble_small(gamma(r1), gamma(g1), gamma(b1), f as u16);
            lemma_frame_nibble_small(gamma(r2), gamma(g2), gamma(b2), f as u16);
            lemma_nibble_facts(
                s[i],
                nibble_shift(x1 as int),
                nibble_shift(x2 as int),
                frame_nibble(gamma(r1), gamma(g1), gamma(b1), f),
                frame_nibble(gamma(r2), gamma(g2), gamma(b2), f),
            );
        }
    }
    assert(lhs =~= rhs);
}

proof fn lemma_word_nibbles(b0: u8, b1: u8, b2: u8, b3: u8, w: u32)
    by (bit_vector)
    requires
        w == (b0 as u32) + (b1 as u32) * 256u32 + (b2 as u32) * 65536u32 + (b3 as u32) * 16777216u32,
    ensures
        (w >> 0u32) & 15u32 == ((b0 >> 0u8) & 15u8) as u32,
        (w >> 4u32) & 15u32 == ((b0 >> 4u8) & 15u8) as u32,
        (w >> 8u32) & 15u32 == ((b1 >> 0u8) & 15u8) as u32,
        (w >> 12u32) & 15u32 == ((b1 >> 4u8) & 15u8) as u32,
        (w >> 16u32) & 15u32 == ((b2 >> 0u8) & 15u8) as u32,
        (w >> 20u32) & 15u32 == ((b2 >> 4u8) & 15u8) as u32,
        (w >> 24u32) & 15u32 == ((b3 >> 0u8) & 15u8) as u32,
        (w >> 28u32) & 15u32 == ((b3 >> 4u8) & 15u8) as u32,
{
}

/// The words that a refresh sends carry each pixel where the display
/// program reads it: in bcd frame `f`, the nibble of pixel `(x, y)` is
/// nibble `(15 - x) % 8` of word `45 * y + 3 * f + (15 - x) / 8`, and right
/// after a write it holds that frame's bits of the colour (red in bit 1,
/// blue in bit 2, green in bit 3, bit 0 clear).
pub proof fn lemma_word_carries_pixel(s: Seq<u8>, x: u8, y: u8, r: u8, g: u8, b: u8, f: int)
    requires
        s.len() == 1260,
        in_bounds(x, y),
        0 <= f < 15,
    ensures
        ({
            let t = stream_with_pixel(s, x, y, r, g, b);
            let xs = 15 - x;
            let w = stream_word(t, 45 * y + 3 * f + xs / 8) as u32;
            (w >> ((4 * (xs % 8)) as u32)) & 15u32 == frame_nibble(gamma(r), gamma(g), gamma(b), f)
                as u32
        }),
        ({
            let xs = 15 - x;
            let w = stream_word(s, 45 * y + 3 * f + xs / 8) as u32;
            (w >> ((4 * (xs % 8)) as u32)) & 15u32 == pixel_bits(s, x, y, f) as u32
        }),
{
    let xs = 15 - x;
    let k = 45 * y + 3 * f + xs / 8;
    let m = xs % 8;
    lemma_index_parts(y as int, f, byte_col(x as int));
    assert(block_start(y as int, f) + byte_col(x as int) == 4 * k + m / 2);
    assert(nibble_shift(x as int) == 4 * (m % 2));
    lemma_write_reads_back(s, x, y, r, g, b, x, y, f);
    let t = stream_with_pixel(s, x, y, r, g, b);
    assert(t.len() == 1260);
    lemma_stream_word_bytes(t, k);
    lemma_stream_word_bytes(s, k);
    lemma_word_nibbles(t[4 * k], t[4 * k + 1], t[4 * k + 2], t[4 * k + 3], stream_word(t, k) as u32);
    lemma_word_nibbles(s[4 * k], s[4 * k + 1], s[4 * k + 2], s[4 * k + 3], stream_word(s, k) as u32);
    assert(0 <= m < 8);
}

} // verus!
