use vstd::prelude::*;
use crate::layout::{
    block_start, byte_col, col_of, frame_nibble, frame_of, gamma, holds_pixel, initial_byte,
    initial_stream, lemma_index_decompose, lemma_index_parts, nibble_shift, stream_with_pixel,
    stream_word, well_laid_out, BCD_FRAMES, BIT_STREAM_LENGTH, GAMMA_14BIT, HEIGHT, ROW_BYTES,
    WIDTH,
};

verus! {

/// The frame buffer of the panel: the bit stream that the display state
/// machine clocks out, row by row and bcd frame by bcd frame.
pub struct Unicorn {
    bit_stream: Vec<u8>,
}

impl View for Unicorn {
    type V = Seq<u8>;

    open spec fn view(&self) -> Seq<u8> {
        self.bit_stream_view()
    }
}

impl Unicorn {
    /// The bytes of the bit stream.
    pub closed spec fn bit_stream_view(&self) -> Seq<u8> {
        self.bit_stream@
    }

    /// The buffer has the layout that the display program expects.
    pub open spec fn wf(&self) -> bool {
        well_laid_out(self@)
    }

    /// A frame buffer with every pixel dark.
    pub fn new() -> (u: Unicorn)
        ensures
            u.wf(),
            u@ == initial_stream(),
    {
        Unicorn { bit_stream: Self::init_bit_stream() }
    }

    /// Sets pixel `(x, y)` to colour `(r, g, b)`; see `set_pixel_rgb`.
    #[inline(always)]
    pub fn set_pixel(&mut self, xy: (u8, u8), rgb: (u8, u8, u8))
        requires
            old(self).wf(),
        ensures
            final(self).wf(),
            final(self)@ == stream_with_pixel(old(self)@, xy.0, xy.1, rgb.0, rgb.1, rgb.2),
    {
        let (x, y) = xy;
        let (r, g, b) = rgb;
        self.set_pixel_rgb(x, y, r, g, b)
    }

    /// Sets pixel `(x, y)` to colour `(r, g, b)`: writes, in each bcd frame
    /// of row `y`, that frame's bit of the gamma-corrected intensities into
    /// the pixel's nibble. A pixel off the panel is ignored.
    pub fn set_pixel_rgb(&mut self, x: u8, y: u8, r: u8, g: u8, b: u8)
        requires
            old(self).wf(),
        ensures
            final(self).wf(),
            final(self)@ == stream_with_pixel(old(self)@, x, y, r, g, b),
    {
        let ghost px = x;
        let ghost py = y;
        let ghost s0 = self@;
        let x = x as usize;
        let y = y as usize;
        if x >= WIDTH || y >= HEIGHT {
            return;
        }
        // the shift registers take the columns in reverse order
        let x = (WIDTH - 1) - x;
        let byte_offset = x / 2;
        let shift: u8 = if x % 2 == 0 { 0 } else { 4 };
        let nibble_mask: u8 = 0b00001111u8 << shift;

        let mut gr = GAMMA_14BIT[r as usize];
        let mut gg = GAMMA_14BIT[g as usize];
        let mut gb = GAMMA_14BIT[b as usize];
        let ghost target = stream_with_pixel(s0, px, py, r, g, b);
        assert(gr == gr >> 0u16 && gg == gg >> 0u16 && gb == gb >> 0u16) by (bit_vector);
        assert(byte_offset == byte_col(px as int));
        assert(shift == nibble_shift(px as int));

        for frame in 0..BCD_FRAMES
            invariant
                s0.len() == 1260,
                px < 16,
                py < 7,
                y == py,
                byte_offset == byte_col(px as int),
                shift == nibble_shift(px as int),
                nibble_mask == 15u8 << shift,
                target == stream_with_pixel(s0, px, py, r, g, b),
                gr == gamma(r) >> (frame as u16),
                gg == gamma(g) >> (frame as u16),
                gb == gamma(b) >> (frame as u16),
                self.bit_stream@.len() == 1260,
                forall|i: int|
                    0 <= i < 1260 ==> #[trigger] self.bit_stream@[i] == if holds_pixel(i, px, py)
                        && frame_of(i) < frame {
                        target[i]
                    } else {
                        s0[i]
                    },
        {
            let offset = (y * ROW_BYTES * BCD_FRAMES) + (ROW_BYTES * frame);
            let idx = offset + byte_offset;
            proof {
                lemma_index_parts(py as int, frame as int, byte_offset as int);
            }
            let ghost ir = gamma(r);
            let ghost ig = gamma(g);
            let ghost ib = gamma(b);
            let mut rgbd: u16 = ((gr & 0b1) << 1) | ((gg & 0b1) << 3) | ((gb & 0b1) << 2);
            assert(rgbd == frame_nibble(ir, ig, ib, frame as int)) by (bit_vector)
                requires
                    gr == ir >> (frame as u16),
                    gg == ig >> (frame as u16),
                    gb == ib >> (frame as u16),
                    rgbd == ((gr & 1) << 1) | ((gg & 1) << 3) | ((gb & 1) << 2),
            ;
            // shift to the pixel's nibble
            rgbd = rgbd << shift;
            let old_byte = self.bit_stream[idx];
            // clear the old nibble, then set the new one
            let cleared = old_byte & !nibble_mask;
            self.bit_stream.set(idx, cleared | (rgbd as u8));
            assert(self.bit_stream@[idx as int] == target[idx as int]);
            assert forall|i: int|
                0 <= i < 1260 implies #[trigger] self.bit_stream@[i] == if holds_pixel(i, px, py)
                    && frame_of(i) < frame + 1 {
                target[i]
            } else {
                s0[i]
            } by {
                lemma_index_decompose(i);
            }
            proof {
                let f = frame as u16;
                assert((ir >> f) >> 1u16 == ir >> ((f + 1) as u16)) by (bit_vector)
                    requires f < 15;
                assert((ig >> f) >> 1u16 == ig >> ((f + 1) as u16)) by (bit_vector)
                    requires f < 15;
                assert((ib >> f) >> 1u16 == ib >> ((f + 1) as u16)) by (bit_vector)
                    requires f < 15;
            }
            gr = gr >> 1;
            gg = gg >> 1;
            gb = gb >> 1;
        }
        assert(self.bit_stream@ =~= target);
        assert forall|i: int| 0 <= i < 1260 && col_of(i) >= 8 implies #[trigger] self@[i]
            == initial_byte(i) by {
            lemma_index_decompose(i);
        }
    }

    /// The words that one refresh of the panel pushes to the display state
    /// machine, in order: the bit stream taken four bytes at a time, least
    /// significant byte first.
    pub fn draw(&self) -> (words: Vec<u32>)
        requires
            self.wf(),
        ensures
            words@.len() == 315,
            forall|k: int| 0 <= k < 315 ==> #[trigger] words@[k] as int == stream_word(self@, k),
    {
        let mut words: Vec<u32> = Vec::new();
        let mut k: usize = 0;
        while k < 315
            invariant
                self.bit_stream@.len() == 1260,
                k <= 315,
                words@.len() == k,
                forall|j: int| 0 <= j < k ==> #[trigger] words@[j] as int == stream_word(self@, j),
            decreases 315 - k,
        {
            let b0 = self.bit_stream[4 * k] as u32;
            let b1 = self.bit_stream[4 * k + 1] as u32;
            let b2 = self.bit_stream[4 * k + 2] as u32;
            let b3 = self.bit_stream[4 * k + 3] as u32;
            let word = b0 + b1 * 256 + b2 * 65536 + b3 * 16777216;
            words.push(word);
            k = k + 1;
        }
        words
    }

    fn init_bit_stream() -> (bit_stream: Vec<u8>)
        ensures
            bit_stream@ == initial_stream(),
    {
        let mut bit_stream: Vec<u8> = vec![0u8; BIT_STREAM_LENGTH];
        for row in 0..HEIGHT
            invariant
                bit_stream@.len() == 1260,
                forall|i: int| 0 <= i < block_start(row as int, 0) ==> bit_stream@[i] == initial_byte(i),
                forall|i: int| block_start(row as int, 0) <= i < 1260 ==> bit_stream@[i] == 0,
        {
            for frame in 0..BCD_FRAMES
                invariant
                    row < 7,
                    bit_stream@.len() == 1260,
                    forall|i: int| 0 <= i < block_start(row as int, frame as int) ==> bit_stream@[i] == initial_byte(i),
                    forall|i: int| block_start(row as int, frame as int) <= i < 1260 ==> bit_stream@[i] == 0,
            {
                let offset = (row * ROW_BYTES * BCD_FRAMES) + (ROW_BYTES * frame);
                let row_select_offset = offset + 9;
                let bcd_offset = offset + 10;
                let ghost start = block_start(row as int, frame as int);
                assert(offset == start);
                if frame == BCD_FRAMES - 1usize {
                    let bcd_ticks: u16 = 65535;
                    assert(((bcd_ticks & 0xff00) >> 8) as u8 == 0xff && (bcd_ticks & 0xff) as u8 == 0xff)
                        by (bit_vector) requires bcd_ticks == 65535u16;
                    bit_stream.set(row_select_offset, 0b11111111);
                    bit_stream.set(bcd_offset + 1, ((bcd_ticks & 0xff00) >> 8) as u8);
                    bit_stream.set(bcd_offset, (bcd_ticks & 0xff) as u8);
                    for col in 0..6
                        invariant
                            offset == start,
                            start == block_start(row as int, 14),
                            row < 7,
                            bit_stream@.len() == 1260,
                            forall|i: int| 0 <= i < start ==> bit_stream@[i] == initial_byte(i),
                            forall|i: int| start + 12 <= i < 1260 ==> bit_stream@[i] == 0,
                            forall|i: int| start <= i < start + col ==> bit_stream@[i] == 0xff,
                            forall|i: int| start + col <= i < start + 9 ==> bit_stream@[i] == 0,
                            bit_stream@[start + 9] == 0xff,
                            bit_stream@[start + 10] == 0xff,
                            bit_stream@[start + 11] == 0xff,
                    {
                        bit_stream.set(offset + col, 0xff);
                    }
                    assert((0xffffu16 & 0xff) as u8 == 0xff && (0xffffu16 >> 8u16) as u8 == 0xff) by (bit_vector);
                    assert forall|i: int| 0 <= i < start + 12 implies bit_stream@[i] == initial_byte(i) by {
                        if i >= start {
                            lemma_index_parts(row as int, 14, i - start);
                        }
                    }
                } else {
                    let shift: u8 = (7 - row) as u8;
                    let row_select_mask: u8 = !(1u8 << shift);
                    let bcd_ticks: u16 = 1 << frame;
                    bit_stream.set(row_select_offset, row_select_mask);
                    bit_stream.set(bcd_offset + 1, ((bcd_ticks & 0xff00) >> 8) as u8);
                    bit_stream.set(bcd_offset, (bcd_ticks & 0xff) as u8);
                    assert(((bcd_ticks & 0xff00) >> 8) as u8 == (bcd_ticks >> 8u16) as u8) by (bit_vector);
                    assert forall|i: int| 0 <= i < start + 12 implies bit_stream@[i] == initial_byte(i) by {
                        if i >= start {
                            lemma_index_parts(row as int, frame as int, i - start);
                        }
                    }
                }
            }
        }
        assert(bit_stream@ =~= initial_stream());
        bit_stream
    }
}

} // verus!
