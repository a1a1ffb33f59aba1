use vstd::prelude::*;
use rand::rngs::SmallRng;
use crate::graphics::{black, blue, green, pixel_op, red, yellow, DrawOp, Point, Rgb};
use crate::layout::{HEIGHT, WIDTH};
use crate::rng::{gen_range_i32, gen_range_u8, shuffle_colors, small_rng_from_seed};

verus! {

// ---------------------------------------------------------------------------
// Colour wheel
// ---------------------------------------------------------------------------

/// A rainbow that scrolls across the panel.
pub struct ColorWheel {
    offset: u8,
}

/// The colour at position `pos` of the wheel: red fading to blue, blue to
/// green, green back to red, each over a third of the wheel.
pub open spec fn wheel_color(pos: u8) -> Rgb {
    let w = 255 - pos;
    if w < 85 {
        Rgb { r: (255 - w * 3) as u8, g: 0, b: (w * 3) as u8 }
    } else if w < 170 {
        Rgb { r: 0, g: ((w - 85) * 3) as u8, b: (255 - (w - 85) * 3) as u8 }
    } else {
        Rgb { r: ((w - 170) * 3) as u8, g: (255 - (w - 170) * 3) as u8, b: 0 }
    }
}

/// The wheel position shown in column `x` when the wheel is turned by
/// `offset`: sixteen steps per column.
pub open spec fn wheel_position(x: int, offset: u8) -> u8 {
    ((16 * x + offset) % 256) as u8
}

/// Every colour of the wheel has channels adding up to 255, at least one
/// of them off.
pub proof fn lemma_wheel_balanced(pos: u8)
    ensures
        wheel_color(pos).r + wheel_color(pos).g + wheel_color(pos).b == 255,
        wheel_color(pos).r == 0 || wheel_color(pos).g == 0 || wheel_color(pos).b == 0,
{
}

/// Column 0 shows the wheel at its offset, each column further along is
/// sixteen positions on, and turning the wheel one step moves every column
/// one position on, all modulo a full turn of 256 positions.
pub proof fn lemma_wheel_position_scrolls(x: int, offset: u8)
    requires
        0 <= x < 15,
    ensures
        wheel_position(0, offset) == offset,
        wheel_position(x + 1, offset) == (wheel_position(x, offset) + 16) % 256,
        wheel_position(x, ((offset + 1) % 256) as u8) == (wheel_position(x, offset) + 1) % 256,
{
    let p = 16 * x + offset;
    vstd::arithmetic::div_mod::lemma_add_mod_noop(p, 16, 256);
    vstd::arithmetic::div_mod::lemma_add_mod_noop(p, 1, 256);
    assert((16 * x + ((offset + 1) % 256)) % 256 == (16 * x + offset + 1) % 256) by {
        vstd::arithmetic::div_mod::lemma_add_mod_noop_right(16 * x, offset + 1, 256);
    }
}

impl Default for ColorWheel {
    /// A wheel that has not turned.
    fn default() -> (w: Self)
        ensures
            w.offset() == 0,
    {
        ColorWheel { offset: 0 }
    }
}

impl ColorWheel {
    /// How far the wheel has turned.
    pub closed spec fn offset(&self) -> u8 {
        self.offset
    }

    /// The colour at position `wheel_pos` of the wheel.
    pub fn wheel(wheel_pos: u8) -> (c: Rgb)
        ensures
            c == wheel_color(wheel_pos),
    {
        let wheel_pos = 255 - wheel_pos;
        if wheel_pos < 85 {
            return Rgb::new(255 - wheel_pos * 3, 0, wheel_pos * 3);
        }
        if wheel_pos < 170 {
            let wheel_pos = wheel_pos - 85;
            return Rgb::new(0, wheel_pos * 3, 255 - wheel_pos * 3);
        }
        let wheel_pos = wheel_pos - 170;
        Rgb::new(wheel_pos * 3, 255 - wheel_pos * 3, 0)
    }

    /// Advances time by `count_us` microseconds: the wheel turns one step
    /// per 8192 microseconds, modulo a full turn.
    pub fn tick(&mut self, count_us: u64)
        ensures
            final(self).offset() == (old(self).offset() + (count_us / 8192) % 256) % 256,
    {
        let steps: u64 = (count_us / (1024 * 8)) & 0xff;
        assert(steps == (count_us / 8192) % 256) by (bit_vector)
            requires
                steps == (count_us / 8192) & 0xff,
        ;
        self.offset = self.offset.wrapping_add(steps as u8);
    }

    /// The drawing of the wheel: column by column, each of the seven pixels
    /// of column `x` in the wheel colour at `wheel_position(x, offset)`.
    pub fn draw(&self) -> (ops: Vec<DrawOp>)
        ensures
            ops@.len() == 112,
            forall|x: int, y: int|
                0 <= x < 16 && 0 <= y < 7 ==> #[trigger] ops@[7 * x + y] == pixel_op(
                    x,
                    y,
                    wheel_color(wheel_position(x, self.offset())),
                ),
            forall|x: int, y: int|
                0 <= x < 16 && 0 <= y < 7 ==> #[trigger] ops@[7 * x + y] == pixel_op(
                    x,
                    y,
                    wheel_color(((16 * x + self.offset()) % 256) as u8),
                ),
    {
        let mut ops: Vec<DrawOp> = Vec::new();
        for x in 0..WIDTH
            invariant
                ops@.len() == 7 * x,
                forall|i: int, j: int|
                    0 <= i < x && 0 <= j < 7 ==> #[trigger] ops@[7 * i + j] == pixel_op(
                        i,
                        j,
                        wheel_color(wheel_position(i, self.offset())),
                    ),
        {
            let column_step: u16 = (x * 256) as u16 / WIDTH as u16;
            let turned: u16 = column_step + self.offset as u16;
            let pos16: u16 = turned & 255;
            assert(pos16 == turned % 256) by (bit_vector)
                requires
                    pos16 == turned & 255u16,
            ;
            assert(column_step == 16 * x);
            let color = Self::wheel(pos16 as u8);
            for y in 0..HEIGHT
                invariant
                    x < 16,
                    ops@.len() == 7 * x + y,
                    color == wheel_color(wheel_position(x as int, self.offset())),
                    forall|i: int, j: int|
                        0 <= i < x && 0 <= j < 7 ==> #[trigger] ops@[7 * i + j] == pixel_op(
                            i,
                            j,
                            wheel_color(wheel_position(i, self.offset())),
                        ),
                    forall|j: int|
                        0 <= j < y ==> #[trigger] ops@[7 * x + j] == pixel_op(x as int, j, color),
            {
                ops.push(DrawOp::Pixel(Point { x: x as i32, y: y as i32 }, color));
            }
        }
        ops
    }
}

// ---------------------------------------------------------------------------
// Disco floor
// ---------------------------------------------------------------------------

/// A floor of 2x2 tiles in four colours that change places once a second.
pub struct DiscoFloor {
    last_update: u64,
    pallet: [Rgb; 4],
    rng: SmallRng,
    shuffles: Ghost<Seq<Shuffle>>,
}

/// One shuffle of the colours: the generator before and after, and the
/// colours before and after.
pub type Shuffle = (SmallRng, SmallRng, Seq<Rgb>, Seq<Rgb>);

/// Every shuffle in log `log` put the same colours back, in some order.
pub open spec fn shuffles_permute(log: Seq<Shuffle>) -> bool {
    forall|j: int| 0 <= j < log.len() ==> (#[trigger] log[j]).3.to_multiset() == log[j].2.to_multiset()
}

/// The four colours of the floor, in their first order.
pub open spec fn base_pallet() -> Seq<Rgb> {
    seq![red(), green(), blue(), yellow()]
}

/// Which of the four colours tile `(x, y)` shows: 2x2 tiles, alternating
/// along both axes.
pub open spec fn tile_index(x: int, y: int) -> int {
    (x / 2) % 2 + ((y / 2) % 2) * 2
}

/// The tiles are 2x2 pixels; the colour index lies in `0..4`; side by side
/// (horizontally or vertically) neighbouring tiles differ, and the pattern
/// repeats every four pixels along each axis.
pub proof fn lemma_tiles_alternate(x: int, y: int)
    requires
        0 <= x,
        0 <= y,
    ensures
        0 <= tile_index(x, y) < 4,
        tile_index(0, 0) == 0,
        x % 2 == 0 ==> tile_index(x + 1, y) == tile_index(x, y),
        y % 2 == 0 ==> tile_index(x, y + 1) == tile_index(x, y),
        tile_index(x + 2, y) != tile_index(x, y),
        tile_index(x, y + 2) != tile_index(x, y),
        tile_index(x + 2, y) + tile_index(x, y) == 2 * tile_index(0, y) + 1,
        tile_index(x, y + 2) + tile_index(x, y) == 2 * tile_index(x, 0) + 2,
        tile_index(x + 4, y) == tile_index(x, y),
        tile_index(x, y + 4) == tile_index(x, y),
{
}

impl Default for DiscoFloor {
    /// A floor in red, green, blue and yellow, with no time elapsed.
    fn default() -> (d: Self)
        ensures
            d.elapsed() == 0,
            d.pallet() == base_pallet(),
            d.wf(),
            d.shuffles().len() == 0,
    {
        let d = DiscoFloor {
            last_update: 0,
            pallet: [Rgb::new(255, 0, 0), Rgb::new(0, 255, 0), Rgb::new(0, 0, 255), Rgb::new(255, 255, 0)],
            rng: small_rng_from_seed(0),
            shuffles: Ghost(Seq::empty()),
        };
        assert(d.pallet@ =~= base_pallet());
        d
    }
}

impl DiscoFloor {
    /// Microseconds since the colours last changed places.
    pub closed spec fn elapsed(&self) -> u64 {
        self.last_update
    }

    /// The four colours, in the order the tiles take them.
    pub closed spec fn pallet(&self) -> Seq<Rgb> {
        self.pallet@
    }

    /// The random generator that shuffles the colours.
    pub closed spec fn generator(&self) -> SmallRng {
        self.rng
    }

    /// Every shuffle of the colours so far, oldest first.
    pub closed spec fn shuffles(&self) -> Seq<Shuffle> {
        self.shuffles@
    }

    /// Microseconds since the colours last changed places.
    pub fn elapsed_us(&self) -> (e: u64)
        ensures
            e == self.elapsed(),
    {
        self.last_update
    }

    /// The floor shows the four base colours, each once, in some order.
    pub open spec fn wf(&self) -> bool {
        &&& self.pallet().len() == 4
        &&& self.pallet().to_multiset() == base_pallet().to_multiset()
    }

    /// Advances time by `count_us` microseconds; once more than a second
    /// has gone by, the colours are shuffled and the count starts again.
    pub fn tick(&mut self, count_us: u64)
        requires
            old(self).elapsed() + count_us <= u64::MAX,
        ensures
            old(self).elapsed() + count_us > 1_000_000 ==> final(self).elapsed() == 0
                && final(self).pallet().to_multiset() == old(self).pallet().to_multiset(),
            old(self).elapsed() + count_us <= 1_000_000 ==> final(self).elapsed() == old(
                self,
            ).elapsed() + count_us && final(self).pallet() == old(self).pallet()
                && final(self).generator() == old(self).generator(),
            old(self).elapsed() + count_us > 1_000_000 ==> final(self).shuffles() == old(
                self,
            ).shuffles().push(
                (old(self).generator(), final(self).generator(), old(self).pallet(), final(self).pallet()),
            ),
            old(self).elapsed() + count_us <= 1_000_000 ==> final(self).shuffles() == old(
                self,
            ).shuffles(),
            shuffles_permute(old(self).shuffles()) ==> shuffles_permute(final(self).shuffles()),
            final(self).elapsed() <= 1_000_000,
            final(self).pallet().len() == 4,
            old(self).wf() ==> final(self).wf(),
    {
        self.last_update = self.last_update + count_us;
        if self.last_update > 1_000_000 {
            let ghost rng_before = self.rng;
            let ghost pallet_before = self.pallet@;
            shuffle_colors(&mut self.pallet, &mut self.rng);
            self.shuffles = Ghost(
                self.shuffles@.push((rng_before, self.rng, pallet_before, self.pallet@)),
            );
            self.last_update = 0;
        }
    }

    /// The drawing of the floor: column by column, pixel `(x, y)` in the
    /// colour of its tile.
    pub fn draw(&self) -> (ops: Vec<DrawOp>)
        ensures
            ops@.len() == 112,
            forall|x: int, y: int|
                0 <= x < 16 && 0 <= y < 7 ==> #[trigger] ops@[7 * x + y] == pixel_op(
                    x,
                    y,
                    self.pallet()[tile_index(x, y)],
                ),
            forall|x: int, y: int|
                0 <= x < 16 && 0 <= y < 7 ==> #[trigger] ops@[7 * x + y] == pixel_op(
                    x,
                    y,
                    self.pallet()[(x / 2) % 2 + ((y / 2) % 2) * 2],
                ),
    {
        let mut ops: Vec<DrawOp> = Vec::new();
        for x in 0..WIDTH
            invariant
                ops@.len() == 7 * x,
                forall|i: int, j: int|
                    0 <= i < x && 0 <= j < 7 ==> #[trigger] ops@[7 * i + j] == pixel_op(
                        i,
                        j,
                        self.pallet()[tile_index(i, j)],
                    ),
        {
            for y in 0..HEIGHT
                invariant
                    x < 16,
                    ops@.len() == 7 * x + y,
                    forall|i: int, j: int|
                        0 <= i < x && 0 <= j < 7 ==> #[trigger] ops@[7 * i + j] == pixel_op(
                            i,
                            j,
                            self.pallet()[tile_index(i, j)],
                        ),
                    forall|j: int|
                        0 <= j < y ==> #[trigger] ops@[7 * x + j] == pixel_op(
                            x as int,
                            j,
                            self.pallet()[tile_index(x as int, j)],
                        ),
            {
                let color = self.pallet[((x / 2) % 2) + ((y / 2) % 2) * 2];
                ops.push(DrawOp::Pixel(Point { x: x as i32, y: y as i32 }, color));
            }
        }
        ops
    }
}

// ---------------------------------------------------------------------------
// Sparkle
// ---------------------------------------------------------------------------

/// Random pixels in random colours, a new set every frame.
pub struct Sparkle {
    rng: SmallRng,
    draws: Ghost<Seq<Draw>>,
}

/// One value taken from a generator: the generator before and after, the
/// lower and upper end of the half-open range asked for, and the value.
pub type Draw = (SmallRng, SmallRng, int, int, int);

/// Entries `start..end` of log `d` were taken one after another from a
/// generator in state `from`, which they left in state `to`, and each value
/// lies in the range that was asked for.
pub open spec fn drawn_in_turn(d: Seq<Draw>, start: int, end: int, from: SmallRng, to: SmallRng) -> bool {
    &&& 0 <= start <= end <= d.len()
    &&& start < end ==> d[start].0 == from && d[end - 1].1 == to
    &&& start == end ==> from == to
    &&& forall|j: int| start <= j < end - 1 ==> #[trigger] d[j].1 == d[j + 1].0
    &&& forall|j: int| start <= j < end ==> #[trigger] d[j].2 <= d[j].4 < d[j].3
}

/// Entry `i` of log `d` asked for the range `low..high`.
pub open spec fn asked_for(d: Seq<Draw>, i: int, low: int, high: int) -> bool {
    d[i].2 == low && d[i].3 == high
}

/// Entries `i..i + 5` of log `d` asked for a column in `0..16`, a row in
/// `0..7` and three channel values in `0..255`.
pub open spec fn sparkle_draws(d: Seq<Draw>, i: int) -> bool {
    &&& asked_for(d, i, 0, 16)
    &&& asked_for(d, i + 1, 0, 7)
    &&& asked_for(d, i + 2, 0, 255)
    &&& asked_for(d, i + 3, 0, 255)
    &&& asked_for(d, i + 4, 0, 255)
}

/// The sparkle made of entries `i..i + 5` of log `d`: the pixel at the
/// drawn column and row, in the drawn red, green and blue.
pub open spec fn sparkle_of(d: Seq<Draw>, i: int) -> DrawOp {
    DrawOp::Pixel(
        Point { x: d[i].4 as i32, y: d[i + 1].4 as i32 },
        Rgb { r: d[i + 2].4 as u8, g: d[i + 3].4 as u8, b: d[i + 4].4 as u8 },
    )
}

/// A pixel operation on the panel in a colour with no channel at full.
pub open spec fn is_sparkle(op: DrawOp) -> bool {
    match op {
        DrawOp::Pixel(p, c) => 0 <= p.x < 16 && 0 <= p.y < 7 && c.r < 255 && c.g < 255 && c.b < 255,
        DrawOp::Clear(_) => false,
    }
}

/// A sparkle made of five values drawn in their ranges lies on the panel,
/// at the drawn position, with each channel the value drawn for it.
pub proof fn lemma_sparkle_of_draws(d: Seq<Draw>, i: int)
    requires
        0 <= i,
        i + 5 <= d.len(),
        sparkle_draws(d, i),
        forall|j: int| i <= j < i + 5 ==> #[trigger] d[j].2 <= d[j].4 < d[j].3,
    ensures
        is_sparkle(sparkle_of(d, i)),
        sparkle_of(d, i) matches DrawOp::Pixel(p, c) && p.x == d[i].4 && p.y == d[i + 1].4
            && c.r == d[i + 2].4 && c.g == d[i + 3].4 && c.b == d[i + 4].4,
{
    assert(d[i].2 <= d[i].4 < d[i].3);
    assert(d[i + 1].2 <= d[i + 1].4 < d[i + 1].3);
    assert(d[i + 2].2 <= d[i + 2].4 < d[i + 2].3);
    assert(d[i + 3].2 <= d[i + 3].4 < d[i + 3].3);
    assert(d[i + 4].2 <= d[i + 4].4 < d[i + 4].3);
}

impl Default for Sparkle {
    /// Sparkles from a generator seeded with zero, nothing drawn yet.
    fn default() -> (sp: Self)
        ensures
            sp.draws().len() == 0,
    {
        Sparkle { rng: small_rng_from_seed(0), draws: Ghost(Seq::empty()) }
    }
}

impl Sparkle {
    /// The generator the sparkles are drawn from.
    pub closed spec fn generator(&self) -> SmallRng {
        self.rng
    }

    /// Every value taken from the generator so far, oldest first.
    pub closed spec fn draws(&self) -> Seq<Draw> {
        self.draws@
    }

    /// Takes the generator's next value in `low..high`, and logs it.
    fn take(&mut self, low: i32, high: i32) -> (v: i32)
        requires
            low < high,
        ensures
            low <= v < high,
            final(self).draws() == old(self).draws().push(
                (old(self).generator(), final(self).generator(), low as int, high as int, v as int),
            ),
    {
        let ghost before = self.rng;
        let v = gen_range_i32(&mut self.rng, low, high);
        self.draws = Ghost(self.draws@.push((before, self.rng, low as int, high as int, v as int)));
        v
    }

    /// Takes the generator's next channel value in `low..high`, and logs it.
    fn take_channel(&mut self, low: u8, high: u8) -> (v: u8)
        requires
            low < high,
        ensures
            low <= v < high,
            final(self).draws() == old(self).draws().push(
                (old(self).generator(), final(self).generator(), low as int, high as int, v as int),
            ),
    {
        let ghost before = self.rng;
        let v = gen_range_u8(&mut self.rng, low, high);
        self.draws = Ghost(self.draws@.push((before, self.rng, low as int, high as int, v as int)));
        v
    }

    /// Time does not change the sparkles.
    pub fn tick(&mut self, _count_us: u64)
        ensures
            *final(self) == *old(self),
    {
    }

    /// The drawing of one frame: the target cleared to black, then sixteen
    /// random pixels of the panel in random colours. Sparkle `k` is made of
    /// the next five values taken in turn from the generator: its column in
    /// `0..16`, its row in `0..7`, then its red, green and blue in `0..255`.
    pub fn draw(&mut self) -> (ops: Vec<DrawOp>)
        ensures
            ops@.len() == 17,
            ops@[0] == DrawOp::Clear(black()),
            forall|k: int| 1 <= k < 17 ==> is_sparkle(#[trigger] ops@[k]),
            final(self).draws().len() == old(self).draws().len() + 80,
            final(self).draws().subrange(0, old(self).draws().len() as int) == old(self).draws(),
            drawn_in_turn(
                final(self).draws(),
                old(self).draws().len() as int,
                old(self).draws().len() + 80int,
                old(self).generator(),
                final(self).generator(),
            ),
            forall|k: int|
                0 <= k < 16 ==> sparkle_draws(final(self).draws(), old(self).draws().len() + 5 * k)
                    && #[trigger] ops@[1 + k] == sparkle_of(
                    final(self).draws(),
                    old(self).draws().len() + 5 * k,
                ),
    {
        let ghost d0 = self.draws@;
        let ghost g0 = self.rng;
        let ghost n0 = d0.len() as int;
        let mut ops: Vec<DrawOp> = Vec::new();
        ops.push(DrawOp::Clear(Rgb::new(0, 0, 0)));
        for i in 0..WIDTH
            invariant
                ops@.len() == 1 + i,
                ops@[0] == DrawOp::Clear(black()),
                n0 == d0.len(),
                self.draws@.len() == n0 + 5 * i,
                self.draws@.subrange(0, n0) == d0,
                drawn_in_turn(self.draws@, n0, n0 + 5 * i, g0, self.rng),
                forall|k: int|
                    0 <= k < i ==> sparkle_draws(self.draws@, n0 + 5 * k) && #[trigger] ops@[1 + k]
                        == sparkle_of(self.draws@, n0 + 5 * k),
                forall|k: int| 1 <= k < ops@.len() ==> is_sparkle(#[trigger] ops@[k]),
        {
            let ghost before = self.draws@;
            let x = self.take(0, WIDTH as i32);
            let y = self.take(0, HEIGHT as i32);
            let r = self.take_channel(0, 255);
            let g = self.take_channel(0, 255);
            let b = self.take_channel(0, 255);
            let ghost d = self.draws@;
            assert(d.subrange(0, n0 + 5 * i) == before);
            assert(d.subrange(0, n0) =~= d0) by {
                assert(d.subrange(0, n0) =~= before.subrange(0, n0));
            }
            let op = DrawOp::Pixel(Point { x, y }, Rgb::new(r, g, b));
            assert(op == sparkle_of(d, n0 + 5 * i));
            assert forall|k: int| 0 <= k < i implies sparkle_draws(d, n0 + 5 * k) && #[trigger] ops@[
                1 + k] == sparkle_of(d, n0 + 5 * k) by {
                assert(d[n0 + 5 * k] == before[n0 + 5 * k]);
                assert(d[n0 + 5 * k + 1] == before[n0 + 5 * k + 1]);
                assert(d[n0 + 5 * k + 2] == before[n0 + 5 * k + 2]);
                assert(d[n0 + 5 * k + 3] == before[n0 + 5 * k + 3]);
                assert(d[n0 + 5 * k + 4] == before[n0 + 5 * k + 4]);
            }
            ops.push(op);
        }
        ops
    }
}

} // verus!
