use vstd::prelude::*;
use crate::layout::{
    bcd_ticks, bit_of, block_start, byte_col, frame_nibble, gamma, holds_pixel, in_bounds,
    initial_byte, lemma_gamma_fits_14_bits, lemma_gamma_monotone, lemma_index_parts, nibble_shift, stream_with_pixel,
    well_laid_out,
};

verus! {

// ---------------------------------------------------------------------------
// Reading a pixel back from the stream
// ---------------------------------------------------------------------------

/// The nibble of pixel `(x, y)` in bcd frame `f` of stream `s`.
pub open spec fn pixel_bits(s: Seq<u8>, x: u8, y: u8, f: int) -> u8 {
    (s[block_start(y as int, f) + byte_col(x as int)] >> nibble_shift(x as int)) & 15
}

/// Bit `pos` of the nibble of pixel `(x, y)` in bcd frame `f`; the red
/// channel is bit 1, blue bit 2 and green bit 3.
pub open spec fn shown_bit(s: Seq<u8>, x: u8, y: u8, f: int, pos: u8) -> u8 {
    (pixel_bits(s, x, y, f) >> pos) & 1
}

/// The tick count that stream `s` gives bcd frame `f` of row `y`.
pub open spec fn stream_ticks(s: Seq<u8>, y: u8, f: int) -> int {
    s[block_start(y as int, f) + 10] + 256 * s[block_start(y as int, f) + 11]
}

/// How long one channel (bit `pos` of the nibble) of pixel `(x, y)` is lit
/// over the first `n` bcd frames of a refresh, in ticks.
pub open spec fn channel_light(s: Seq<u8>, x: u8, y: u8, pos: u8, n: int) -> int
    decreases n,
{
    if n <= 0 {
        0
    } else {
        channel_light(s, x, y, pos, n - 1) + shown_bit(s, x, y, n - 1, pos) * stream_ticks(s, y, n - 1)
    }
}

/// The ticks that intensity `v` asks for over the first `n` bcd frames:
/// frame `f` is lit for its tick count when bit `f` of `v` is set.
pub open spec fn intensity_ticks(v: u16, n: int) -> int
    decreases n,
{
    if n <= 0 {
        0
    } else {
        intensity_ticks(v, n - 1) + bit_of(v, n - 1) * bcd_ticks(n - 1)
    }
}

/// Over the fifteen bcd frames a 14-bit intensity is lit for exactly that
/// many ticks.
pub proof fn lemma_intensity_ticks(v: u16)
    requires
        v < 0x4000,
    ensures
        intensity_ticks(v, 15) == v,
{
    reveal_with_fuel(intensity_ticks, 16);
    assert(bcd_ticks(0) == 1u16) by (bit_vector);
    assert(bcd_ticks(1) == 2u16) by (bit_vector);
    assert(bcd_ticks(2) == 4u16) by (bit_vector);
    assert(bcd_ticks(3) == 8u16) by (bit_vector);
    assert(bcd_ticks(4) == 16u16) by (bit_vector);
    assert(bcd_ticks(5) == 32u16) by (bit_vector);
    assert(bcd_ticks(6) == 64u16) by (bit_vector);
    assert(bcd_ticks(7) == 128u16) by (bit_vector);
    assert(bcd_ticks(8) == 256u16) by (bit_vector);
    assert(bcd_ticks(9) == 512u16) by (bit_vector);
    assert(bcd_ticks(10) == 1024u16) by (bit_vector);
    assert(bcd_ticks(11) == 2048u16) by (bit_vector);
    assert(bcd_ticks(12) == 4096u16) by (bit_vector);
    assert(bcd_ticks(13) == 8192u16) by (bit_vector);
    assert(bit_of(v, 14) == 0) by (bit_vector)
        requires
            v < 0x4000u16,
    ;
    assert(v == bit_of(v, 0) * 1 + bit_of(v, 1) * 2 + bit_of(v, 2) * 4 + bit_of(v, 3) * 8 + bit_of(v, 4) * 16 + bit_of(v, 5) * 32 + bit_of(v, 6) * 64 + bit_of(v, 7) * 128 + bit_of(v, 8) * 256 + bit_of(v, 9) * 512 + bit_of(v, 10) * 1024 + bit_of(v, 11) * 2048 + bit_of(v, 12) * 4096 + bit_of(v, 13) * 8192) by (bit_vector)
        requires
            v < 0x4000u16,
    ;
}

proof fn lemma_nibble_read_back(byte: u8, sh: u8, ir: u16, ig: u16, ib: u16, f: u16, n: u16, w: u8)
    by (bit_vector)
    requires
        sh == 0 || sh == 4,
        n == (((ir >> f) & 1) << 1u16) | (((ig >> f) & 1) << 3u16) | (((ib >> f) & 1) << 2u16),
        w == (byte & !(15u8 << sh)) | ((n << (sh as u16)) as u8),
    ensures
        (((w >> sh) & 15) >> 1u8) & 1 == ((ir >> f) & 1) as u8,
        (((w >> sh) & 15) >> 3u8) & 1 == ((ig >> f) & 1) as u8,
        (((w >> sh) & 15) >> 2u8) & 1 == ((ib >> f) & 1) as u8,
        (ir >> f) & 1 <= 1,
        (ig >> f) & 1 <= 1,
        (ib >> f) & 1 <= 1,
{
}

proof fn lemma_tick_bytes(v: u16)
    by (bit_vector)
    ensures
        ((v & 0xff) as u8) as u32 + 256u32 * (((v >> 8u16) as u8) as u32) == v as u32,
{
}

/// In one bcd frame, a pixel just written shows that frame's bit of each
/// gamma-corrected intensity, for the frame's tick count.
proof fn lemma_frame_after_write(s: Seq<u8>, x: u8, y: u8, r: u8, g: u8, b: u8, f: int)
    requires
        well_laid_out(s),
        in_bounds(x, y),
        0 <= f < 15,
    ensures
        shown_bit(stream_with_pixel(s, x, y, r, g, b), x, y, f, 1) == bit_of(gamma(r), f),
        shown_bit(stream_with_pixel(s, x, y, r, g, b), x, y, f, 3) == bit_of(gamma(g), f),
        shown_bit(stream_with_pixel(s, x, y, r, g, b), x, y, f, 2) == bit_of(gamma(b), f),
        stream_ticks(stream_with_pixel(s, x, y, r, g, b), y, f) == bcd_ticks(f),
{
    let t = stream_with_pixel(s, x, y, r, g, b);
    let start = block_start(y as int, f);
    let i = start + byte_col(x as int);
    lemma_index_parts(y as int, f, byte_col(x as int));
    lemma_index_parts(y as int, f, 10);
    lemma_index_parts(y as int, f, 11);
    assert(holds_pixel(i, x, y));
    lemma_nibble_read_back(
        s[i],
        nibble_shift(x as int),
        gamma(r),
        gamma(g),
        gamma(b),
        f as u16,
        frame_nibble(gamma(r), gamma(g), gamma(b), f),
        t[i],
    );
    assert(t[start + 10] == initial_byte(start + 10));
    assert(t[start + 11] == initial_byte(start + 11));
    lemma_tick_bytes(bcd_ticks(f));
}

/// Summing over the frames: a pixel just written is lit, per channel, for
/// as many ticks as the intensity asks for, frame by frame.
proof fn lemma_light_after_write(s: Seq<u8>, x: u8, y: u8, r: u8, g: u8, b: u8, n: int)
    requires
        well_laid_out(s),
        in_bounds(x, y),
        0 <= n <= 15,
    ensures
        channel_light(stream_with_pixel(s, x, y, r, g, b), x, y, 1, n) == intensity_ticks(gamma(r), n),
        channel_light(stream_with_pixel(s, x, y, r, g, b), x, y, 3, n) == intensity_ticks(gamma(g), n),
        channel_light(stream_with_pixel(s, x, y, r, g, b), x, y, 2, n) == intensity_ticks(gamma(b), n),
    decreases n,
{
    if n > 0 {
        lemma_light_after_write(s, x, y, r, g, b, n - 1);
        lemma_frame_after_write(s, x, y, r, g, b, n - 1);
    }
}

/// What the panel shows of a pixel is what was written to it: over one
/// refresh, each channel of pixel `(x, y)` is lit for exactly as many
/// ticks as the gamma-corrected intensity of the colour written there.
pub proof fn lemma_pixel_light(s: Seq<u8>, x: u8, y: u8, r: u8, g: u8, b: u8)
    requires
        well_laid_out(s),
        in_bounds(x, y),
    ensures
        channel_light(stream_with_pixel(s, x, y, r, g, b), x, y, 1, 15) == gamma(r),
        channel_light(stream_with_pixel(s, x, y, r, g, b), x, y, 3, 15) == gamma(g),
        channel_light(stream_with_pixel(s, x, y, r, g, b), x, y, 2, 15) == gamma(b),
{
    lemma_light_after_write(s, x, y, r, g, b, 15);
    lemma_gamma_fits_14_bits(r);
    lemma_gamma_fits_14_bits(g);
    lemma_gamma_fits_14_bits(b);
    lemma_intensity_ticks(gamma(r));
    lemma_intensity_ticks(gamma(g));
    lemma_intensity_ticks(gamma(b));
}

/// A brighter channel value is never shown dimmer: for the same pixel,
/// raising any channel of the colour written there does not lower how long
/// that channel is lit.
pub proof fn lemma_light_monotone(
    s: Seq<u8>,
    x: u8,
    y: u8,
    r1: u8,
    g1: u8,
    b1: u8,
    r2: u8,
    g2: u8,
    b2: u8,
)
    requires
        well_laid_out(s),
        in_bounds(x, y),
        r1 <= r2,
        g1 <= g2,
        b1 <= b2,
    ensures
        channel_light(stream_with_pixel(s, x, y, r1, g1, b1), x, y, 1, 15) <= channel_light(
            stream_with_pixel(s, x, y, r2, g2, b2),
            x,
            y,
            1,
            15,
        ),
        channel_light(stream_with_pixel(s, x, y, r1, g1, b1), x, y, 3, 15) <= channel_light(
            stream_with_pixel(s, x, y, r2, g2, b2),
            x,
            y,
            3,
            15,
        ),
        channel_light(stream_with_pixel(s, x, y, r1, g1, b1), x, y, 2, 15) <= channel_light(
            stream_with_pixel(s, x, y, r2, g2, b2),
            x,
            y,
            2,
            15,
        ),
{
    lemma_pixel_light(s, x, y, r1, g1, b1);
    lemma_pixel_light(s, x, y, r2, g2, b2);
    lemma_gamma_monotone(r1, r2);
    lemma_gamma_monotone(g1, g2);
    lemma_gamma_monotone(b1, b2);
}

} // verus!
