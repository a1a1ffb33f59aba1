use vstd::prelude::*;

verus! {

/// Number of row-select lines driven by the panel.
pub const ROW_COUNT2: usize = 7;
/// Bytes sent per row and bcd frame: 8 bytes of pixel nibbles, one padding
/// byte, the row-select mask and two bytes of bcd tick count.
pub const ROW_BYTES: usize = 12;
/// Binary-coded-modulation frames per row, including the final frame that
/// lets the row drivers discharge.
pub const BCD_FRAMES: usize = 15;
/// Length of the whole bit stream clocked out for one refresh.
pub const BIT_STREAM_LENGTH: usize = ROW_COUNT2 * ROW_BYTES * BCD_FRAMES;
/// Pixel columns of the panel.
pub const WIDTH: usize = 16;
/// Pixel rows of the panel.
pub const HEIGHT: usize = 7;

/// Gamma correction from an 8-bit channel value to a 14-bit intensity.
pub const GAMMA_14BIT: [u16; 256] = [
    0, 0, 0, 1, 2, 3, 4, 6, 8, 10, 13, 16, 20, 23, 28, 32,
    37, 42, 48, 54, 61, 67, 75, 82, 90, 99, 108, 117, 127, 137, 148, 159,
    170, 182, 195, 207, 221, 234, 249, 263, 278, 294, 310, 326, 343, 361, 379, 397,
    416, 435, 455, 475, 496, 517, 539, 561, 583, 607, 630, 654, 679, 704, 730, 756,
    783, 810, 838, 866, 894, 924, 953, 983, 1014, 1045, 1077, 1110, 1142, 1176, 1210, 1244,
    1279, 1314, 1350, 1387, 1424, 1461, 1499, 1538, 1577, 1617, 1657, 1698, 1739, 1781, 1823, 1866,
    1910, 1954, 1998, 2044, 2089, 2136, 2182, 2230, 2278, 2326, 2375, 2425, 2475, 2525, 2577, 2629,
    2681, 2734, 2787, 2841, 2896, 2951, 3007, 3063, 3120, 3178, 3236, 3295, 3354, 3414, 3474, 3535,
    3596, 3658, 3721, 3784, 3848, 3913, 3978, 4043, 4110, 4176, 4244, 4312, 4380, 4449, 4519, 4589,
    4660, 4732, 4804, 4876, 4950, 5024, 5098, 5173, 5249, 5325, 5402, 5479, 5557, 5636, 5715, 5795,
    5876, 5957, 6039, 6121, 6204, 6287, 6372, 6456, 6542, 6628, 6714, 6801, 6889, 6978, 7067, 7156,
    7247, 7337, 7429, 7521, 7614, 7707, 7801, 7896, 7991, 8087, 8183, 8281, 8378, 8477, 8576, 8675,
    8775, 8876, 8978, 9080, 9183, 9286, 9390, 9495, 9600, 9706, 9812, 9920, 10027, 10136, 10245, 10355,
    10465, 10576, 10688, 10800, 10913, 11027, 11141, 11256, 11371, 11487, 11604, 11721, 11840, 11958, 12078, 12198,
    12318, 12440, 12562, 12684, 12807, 12931, 13056, 13181, 13307, 13433, 13561, 13688, 13817, 13946, 14076, 14206,
    14337, 14469, 14602, 14735, 14868, 15003, 15138, 15273, 15410, 15547, 15685, 15823, 15962, 16102, 16242, 16383,
];

/// The gamma-corrected intensity of an 8-bit channel value.
pub open spec fn gamma(c: u8) -> u16 {
    GAMMA_14BIT@[c as int]
}

/// Every entry of the gamma table fits in 14 bits.
pub proof fn lemma_gamma_fits_14_bits(c: u8)
    ensures
        gamma(c) < 0x4000,
{
}

/// Each entry of the gamma table is at least the one before it.
proof fn lemma_gamma_step(c: u8)
    requires
        c < 255,
    ensures
        gamma(c) <= gamma((c + 1) as u8),
{
}

/// The gamma table never decreases: a larger channel value gets at least
/// as much intensity.
pub proof fn lemma_gamma_monotone(c1: u8, c2: u8)
    requires
        c1 <= c2,
    ensures
        gamma(c1) <= gamma(c2),
    decreases c2 - c1,
{
    if c1 < c2 {
        lemma_gamma_step(c1);
        lemma_gamma_monotone((c1 + 1) as u8, c2);
    }
}

// ---------------------------------------------------------------------------
// Where things are in the bit stream
// ---------------------------------------------------------------------------

/// Index of the first byte of the block for `row` and bcd `frame`.
pub open spec fn block_start(row: int, frame: int) -> int {
    row * 180 + 12 * frame
}

/// The row whose blocks hold byte `i`.
pub open spec fn row_of(i: int) -> int {
    i / 180
}

/// The bcd frame whose block holds byte `i`.
pub open spec fn frame_of(i: int) -> int {
    (i % 180) / 12
}

/// The position of byte `i` inside its 12-byte block.
pub open spec fn col_of(i: int) -> int {
    i % 12
}

/// The row-select byte of `row`: every bit set but bit `7 - row`.
pub open spec fn row_select_mask(row: int) -> u8 {
    !(1u8 << ((7 - row) as u8))
}

/// How long bcd `frame` is shown: `2^frame` ticks, and the longest count
/// for the final discharge frame.
pub open spec fn bcd_ticks(frame: int) -> u16 {
    if frame == 14 {
        0xffff
    } else {
        1u16 << (frame as u16)
    }
}

/// Byte `i` of a freshly initialised bit stream: blank pixels, the row
/// select and tick count of every block, and in each row's discharge frame
/// all rows deselected and the first six pixel bytes set.
pub open spec fn initial_byte(i: int) -> u8 {
    let row = row_of(i);
    let frame = frame_of(i);
    let col = col_of(i);
    if col == 9 {
        if frame == 14 {
            0xff
        } else {
            row_select_mask(row)
        }
    } else if col == 10 {
        (bcd_ticks(frame) & 0xff) as u8
    } else if col == 11 {
        (bcd_ticks(frame) >> 8u16) as u8
    } else if frame == 14 && col < 6 {
        0xff
    } else {
        0
    }
}

/// The whole bit stream as initialised.
pub open spec fn initial_stream() -> Seq<u8> {
    Seq::new(1260, |i: int| initial_byte(i))
}

/// A bit stream of the right length whose padding, row-select and tick
/// bytes are those of the initial stream.
pub open spec fn well_laid_out(s: Seq<u8>) -> bool {
    &&& s.len() == 1260
    &&& forall|i: int| 0 <= i < 1260 && col_of(i) >= 8 ==> #[trigger] s[i] == initial_byte(i)
}

/// The byte and its position split into row, frame and column.
pub proof fn lemma_index_parts(row: int, frame: int, col: int)
    requires
        0 <= row < 7,
        0 <= frame < 15,
        0 <= col < 12,
    ensures
        0 <= block_start(row, frame) + col < 1260,
        row_of(block_start(row, frame) + col) == row,
        frame_of(block_start(row, frame) + col) == frame,
        col_of(block_start(row, frame) + col) == col,
{
}

/// Every index of the stream is a block start plus a column.
pub proof fn lemma_index_decompose(i: int)
    requires
        0 <= i < 1260,
    ensures
        0 <= row_of(i) < 7,
        0 <= frame_of(i) < 15,
        0 <= col_of(i) < 12,
        i == block_start(row_of(i), frame_of(i)) + col_of(i),
{
}

// ---------------------------------------------------------------------------
// Pixels
// ---------------------------------------------------------------------------

/// The pixel lies on the panel.
pub open spec fn in_bounds(x: u8, y: u8) -> bool {
    x < 16 && y < 7
}

/// The byte of each block that holds pixel column `x`; the shift registers
/// take the columns in reverse order, two pixels per byte.
pub open spec fn byte_col(x: int) -> int {
    (15 - x) / 2
}

/// Where in its byte the nibble of pixel column `x` starts.
pub open spec fn nibble_shift(x: int) -> u8 {
    if (15 - x) % 2 == 0 {
        0
    } else {
        4
    }
}

/// Byte `i` of the stream carries pixel `(x, y)` in one of its bcd frames.
pub open spec fn holds_pixel(i: int, x: u8, y: u8) -> bool {
    row_of(i) == y && col_of(i) == byte_col(x as int)
}

/// Bit `f` of a 16-bit intensity.
pub open spec fn bit_of(v: u16, f: int) -> u16 {
    (v >> (f as u16)) & 1
}

/// The nibble a pixel shows in bcd frame `f`: bit `f` of the red intensity
/// in bit 1, of the blue in bit 2, of the green in bit 3; bit 0 is a spacer.
pub open spec fn frame_nibble(ir: u16, ig: u16, ib: u16, f: int) -> u16 {
    (bit_of(ir, f) << 1u16) | (bit_of(ig, f) << 3u16) | (bit_of(ib, f) << 2u16)
}

/// `byte` with the nibble at `shift` replaced by `nibble`.
pub open spec fn write_nibble(byte: u8, shift: u8, nibble: u16) -> u8 {
    (byte & !(15u8 << shift)) | ((nibble << (shift as u16)) as u8)
}

/// The stream after pixel `(x, y)` is given colour `(r, g, b)`: in every bcd
/// frame of row `y` the pixel's nibble holds that frame's bit of the
/// gamma-corrected intensities; nothing else changes, and nothing at all
/// for a pixel off the panel.
pub open spec fn stream_with_pixel(s: Seq<u8>, x: u8, y: u8, r: u8, g: u8, b: u8) -> Seq<u8> {
    if !in_bounds(x, y) {
        s
    } else {
        Seq::new(
            s.len(),
            |i: int|
                if holds_pixel(i, x, y) {
                    write_nibble(
                        s[i],
                        nibble_shift(x as int),
                        frame_nibble(gamma(r), gamma(g), gamma(b), frame_of(i)),
                    )
                } else {
                    s[i]
                },
        )
    }
}

// ---------------------------------------------------------------------------
// Sending the stream
// ---------------------------------------------------------------------------

/// Word `k` of the stream as the display program pulls it: bytes `4k` to
/// `4k + 3`, least significant first.
pub open spec fn stream_word(s: Seq<u8>, k: int) -> int {
    s[4 * k] + s[4 * k + 1] * 256 + s[4 * k + 2] * 65536 + s[4 * k + 3] * 16777216
}

/// Each word gives back the four bytes it was made of: byte `j` of word
/// `k` is byte `4k + j` of the stream.
pub proof fn lemma_stream_word_bytes(s: Seq<u8>, k: int)
    requires
        0 <= 4 * k,
        4 * k + 3 < s.len(),
    ensures
        stream_word(s, k) % 256 == s[4 * k],
        (stream_word(s, k) / 256) % 256 == s[4 * k + 1],
        (stream_word(s, k) / 65536) % 256 == s[4 * k + 2],
        stream_word(s, k) / 16777216 == s[4 * k + 3],
        0 <= stream_word(s, k) <= u32::MAX,
{
    let b0 = s[4 * k] as int;
    let b1 = s[4 * k + 1] as int;
    let b2 = s[4 * k + 2] as int;
    let b3 = s[4 * k + 3] as int;
    assert(0 <= b0 < 256 && 0 <= b1 < 256 && 0 <= b2 < 256 && 0 <= b3 < 256);
    let w = b0 + b1 * 256 + b2 * 65536 + b3 * 16777216;
    assert(w % 256 == b0 && (w / 256) % 256 == b1 && (w / 65536) % 256 == b2 && w / 16777216 == b3)
        by (nonlinear_arith)
        requires
            0 <= b0 < 256,
            0 <= b1 < 256,
            0 <= b2 < 256,
            0 <= b3 < 256,
            w == b0 + b1 * 256 + b2 * 65536 + b3 * 16777216,
    ;
}

} // verus!
