use rs_unicorn::layout::GAMMA_14BIT;
use rs_unicorn::Unicorn;

/// The bit stream, recovered from the words that a refresh sends.
fn stream(u: &Unicorn) -> Vec<u8> {
    let mut bytes = Vec::new();
    for w in u.draw() {
        bytes.extend_from_slice(&w.to_le_bytes());
    }
    bytes
}

/// Ticks for which one channel (nibble bit `pos`) of pixel (x, y) is lit.
fn channel_light(s: &[u8], x: usize, y: usize, pos: u32) -> u64 {
    let col = 15 - x;
    let shift = if col % 2 == 0 { 0 } else { 4 };
    let mut total = 0u64;
    for f in 0..15 {
        let start = y * 180 + 12 * f;
        let nibble = (s[start + col / 2] >> shift) & 15;
        let ticks = s[start + 10] as u64 + 256 * s[start + 11] as u64;
        total += ((nibble >> pos) & 1) as u64 * ticks;
    }
    total
}

#[test]
fn draw_sends_the_whole_stream() {
    let u = Unicorn::new();
    assert_eq!(u.draw().len(), 315);
    assert_eq!(stream(&u).len(), 1260);
}

#[test]
fn new_stream_layout() {
    let words = Unicorn::new().draw();
    // row 0, frame 0: dark pixels, row 0 selected (bit 7 clear), one tick
    assert_eq!(words[0], 0);
    assert_eq!(words[1], 0);
    assert_eq!(words[2], 0x0001_7f00);
    // row 0, discharge frame: first six pixel bytes set, no row, longest count
    assert_eq!(words[42], 0xffff_ffff);
    assert_eq!(words[43], 0x0000_ffff);
    assert_eq!(words[44], 0xffff_ff00);
    // row 1, frame 3: row 1 selected (bit 6 clear), eight ticks
    assert_eq!(words[54], 0);
    assert_eq!(words[56], 0x0008_bf00);
    // row 6, frame 13: row select 0xfd, 8192 ticks
    let start = (6 * 180 + 12 * 13) / 4;
    assert_eq!(words[start + 2], 0x2000_fd00);
}

#[test]
fn white_top_left_pixel() {
    let mut u = Unicorn::new();
    u.set_pixel((0, 0), (255, 255, 255));
    let words = u.draw();
    // pixel 0 is the high nibble of byte 7: red, blue and green bits set
    assert_eq!(words[1], 0xe000_0000);
    // bit 14 of the intensity is clear: the discharge frame's nibble is emptied
    assert_eq!(words[43], 0x0000_ffff);
    let s = stream(&u);
    assert_eq!(s[12 * 13 + 7], 0xe0);
}

#[test]
fn low_nibble_pixel() {
    let mut u = Unicorn::new();
    // x = 15 is the low nibble of byte 0; only red, gamma(255) = 16383
    u.set_pixel_rgb(15, 0, 255, 0, 0);
    let s = stream(&u);
    assert_eq!(s[0], 0x02);
    assert_eq!(s[12 * 5], 0x02);
}

#[test]
fn off_panel_pixel_is_ignored() {
    let fresh = stream(&Unicorn::new());
    let mut u = Unicorn::new();
    u.set_pixel_rgb(16, 0, 255, 255, 255);
    u.set_pixel_rgb(0, 7, 255, 255, 255);
    u.set_pixel((200, 200), (1, 2, 3));
    assert_eq!(stream(&u), fresh);
}

#[test]
fn shown_light_equals_gamma() {
    let colours = [(10u8, 128u8, 200u8), (255, 0, 1), (3, 77, 254), (0, 0, 0)];
    let mut u = Unicorn::new();
    for (k, &(r, g, b)) in colours.iter().enumerate() {
        let x = 3 * k + 1;
        let y = (2 * k) % 7;
        u.set_pixel((x as u8, y as u8), (r, g, b));
    }
    let s = stream(&u);
    for (k, &(r, g, b)) in colours.iter().enumerate() {
        let x = 3 * k + 1;
        let y = (2 * k) % 7;
        assert_eq!(channel_light(&s, x, y, 1), GAMMA_14BIT[r as usize] as u64);
        assert_eq!(channel_light(&s, x, y, 3), GAMMA_14BIT[g as usize] as u64);
        assert_eq!(channel_light(&s, x, y, 2), GAMMA_14BIT[b as usize] as u64);
    }
    assert_eq!(GAMMA_14BIT[10], 13);
    assert_eq!(GAMMA_14BIT[128], 3596);
}

#[test]
fn neighbour_in_same_byte_is_kept() {
    let mut u = Unicorn::new();
    u.set_pixel((0, 4), (255, 0, 0));
    u.set_pixel((1, 4), (0, 255, 0));
    let s = stream(&u);
    assert_eq!(channel_light(&s, 0, 4, 1), 16383);
    assert_eq!(channel_light(&s, 0, 4, 3), 0);
    assert_eq!(channel_light(&s, 1, 4, 1), 0);
    assert_eq!(channel_light(&s, 1, 4, 3), 16383);
    // byte 7 of row 4, frame 0: pixel 0 red (0x2) high, pixel 1 green (0x8) low
    assert_eq!(s[4 * 180 + 7], 0x28);
}

#[test]
fn second_write_wins() {
    let mut a = Unicorn::new();
    a.set_pixel((3, 2), (200, 10, 10));
    a.set_pixel((3, 2), (0, 0, 90));
    let mut b = Unicorn::new();
    b.set_pixel((3, 2), (0, 0, 90));
    assert_eq!(stream(&a), stream(&b));
}

#[test]
fn writes_to_different_pixels_commute() {
    let mut a = Unicorn::new();
    a.set_pixel((6, 5), (40, 50, 60));
    a.set_pixel((7, 5), (70, 80, 90));
    let mut b = Unicorn::new();
    b.set_pixel((7, 5), (70, 80, 90));
    b.set_pixel((6, 5), (40, 50, 60));
    assert_eq!(stream(&a), stream(&b));
}

#[test]
fn writes_keep_row_select_and_ticks() {
    let fresh = stream(&Unicorn::new());
    let mut u = Unicorn::new();
    for x in 0..16u8 {
        for y in 0..7u8 {
            u.set_pixel((x, y), (x.wrapping_mul(17), y.wrapping_mul(37), 255 - x));
        }
    }
    let s = stream(&u);
    for i in 0..1260 {
        if i % 12 >= 8 {
            assert_eq!(s[i], fresh[i], "byte {}", i);
        }
    }
}

/// The stream as the display program expects it, built independently.
fn reference_initial() -> Vec<u8> {
    let mut s = vec![0u8; 1260];
    for row in 0..7 {
        for frame in 0..15 {
            let offset = row * 180 + 12 * frame;
            let ticks: u16 = if frame == 14 { 0xffff } else { 1 << frame };
            s[offset + 9] = if frame == 14 { 0xff } else { !(1u8 << (7 - row)) };
            s[offset + 10] = (ticks & 0xff) as u8;
            s[offset + 11] = (ticks >> 8) as u8;
            if frame == 14 {
                for col in 0..6 {
                    s[offset + col] = 0xff;
                }
            }
        }
    }
    s
}

/// Writing one pixel into a stream, built independently.
fn reference_set(s: &mut [u8], x: usize, y: usize, r: u8, g: u8, b: u8) {
    if x >= 16 || y >= 7 {
        return;
    }
    let col = 15 - x;
    let shift = if col % 2 == 0 { 0 } else { 4 };
    let (ir, ig, ib) = (GAMMA_14BIT[r as usize], GAMMA_14BIT[g as usize], GAMMA_14BIT[b as usize]);
    for f in 0..15 {
        let bit = |v: u16| ((v >> f) & 1) as u8;
        let nibble = (bit(ir) << 1) | (bit(ig) << 3) | (bit(ib) << 2);
        let i = y * 180 + 12 * f + col / 2;
        s[i] = (s[i] & !(0x0f << shift)) | (nibble << shift);
    }
}

#[test]
fn new_stream_matches_reference() {
    assert_eq!(stream(&Unicorn::new()), reference_initial());
}

#[test]
fn pixel_writes_match_reference() {
    let mut u = Unicorn::new();
    let mut reference = reference_initial();
    let mut seed: u32 = 12345;
    for _ in 0..200 {
        seed = seed.wrapping_mul(1103515245).wrapping_add(12345);
        let x = ((seed >> 8) % 18) as u8;
        let y = ((seed >> 13) % 9) as u8;
        let r = (seed >> 3) as u8;
        let g = (seed >> 11) as u8;
        let b = (seed >> 19) as u8;
        u.set_pixel_rgb(x, y, r, g, b);
        reference_set(&mut reference, x as usize, y as usize, r, g, b);
    }
    assert_eq!(stream(&u), reference);
}

#[test]
fn gamma_never_decreases() {
    for c in 0..255usize {
        assert!(GAMMA_14BIT[c] <= GAMMA_14BIT[c + 1]);
    }
    assert_eq!(GAMMA_14BIT[255], 16383);
}

#[test]
fn brighter_colour_is_lit_longer() {
    let mut dim = Unicorn::new();
    dim.set_pixel((9, 3), (40, 100, 7));
    let mut bright = Unicorn::new();
    bright.set_pixel((9, 3), (41, 230, 7));
    let (d, b) = (stream(&dim), stream(&bright));
    assert!(channel_light(&d, 9, 3, 1) < channel_light(&b, 9, 3, 1));
    assert!(channel_light(&d, 9, 3, 3) < channel_light(&b, 9, 3, 3));
    assert_eq!(channel_light(&d, 9, 3, 2), channel_light(&b, 9, 3, 2));
}

#[test]
fn word_carries_pixel_nibble() {
    let (x, y, r, g, b) = (5usize, 6usize, 200u8, 30u8, 90u8);
    let mut u = Unicorn::new();
    u.set_pixel_rgb(x as u8, y as u8, r, g, b);
    let words = u.draw();
    let xs = 15 - x;
    let (ir, ig, ib) = (GAMMA_14BIT[r as usize], GAMMA_14BIT[g as usize], GAMMA_14BIT[b as usize]);
    for f in 0..15 {
        let w = words[45 * y + 3 * f + xs / 8];
        let nibble = (w >> (4 * (xs % 8))) & 15;
        let bit = |v: u16| ((v >> f) & 1) as u32;
        assert_eq!(nibble, (bit(ir) << 1) | (bit(ib) << 2) | (bit(ig) << 3), "frame {}", f);
    }
}
