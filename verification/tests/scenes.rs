use rs_unicorn::{ColorWheel, DiscoFloor, DrawOp, Point, Rgb, Sparkle};

fn px(x: i32, y: i32, r: u8, g: u8, b: u8) -> DrawOp {
    DrawOp::Pixel(Point { x, y }, Rgb { r, g, b })
}

fn colour_at(ops: &[DrawOp], x: usize, y: usize) -> Rgb {
    match ops[7 * x + y] {
        DrawOp::Pixel(p, c) => {
            assert_eq!((p.x, p.y), (x as i32, y as i32));
            c
        }
        DrawOp::Clear(_) => panic!("a clear where a pixel was expected"),
    }
}

#[test]
fn wheel_values() {
    assert_eq!(ColorWheel::wheel(0), Rgb { r: 255, g: 0, b: 0 });
    assert_eq!(ColorWheel::wheel(255), Rgb { r: 255, g: 0, b: 0 });
    assert_eq!(ColorWheel::wheel(85), Rgb { r: 0, g: 255, b: 0 });
    assert_eq!(ColorWheel::wheel(170), Rgb { r: 0, g: 0, b: 255 });
    assert_eq!(ColorWheel::wheel(128), Rgb { r: 0, g: 126, b: 129 });
    assert_eq!(ColorWheel::wheel(200), Rgb { r: 90, g: 0, b: 165 });
    assert_eq!(ColorWheel::wheel(50), Rgb { r: 105, g: 150, b: 0 });
}

#[test]
fn wheel_is_balanced() {
    for pos in 0..=255u8 {
        let c = ColorWheel::wheel(pos);
        assert_eq!(c.r as u32 + c.g as u32 + c.b as u32, 255);
        assert!(c.r == 0 || c.g == 0 || c.b == 0);
    }
}

#[test]
fn color_wheel_draw() {
    let w = ColorWheel::default();
    let ops = w.draw();
    assert_eq!(ops.len(), 112);
    assert_eq!(ops[0], px(0, 0, 255, 0, 0));
    for x in 0..16 {
        for y in 0..7 {
            assert_eq!(colour_at(&ops, x, y), ColorWheel::wheel((16 * x) as u8));
        }
    }
}

#[test]
fn color_wheel_tick_turns_wheel() {
    let mut w = ColorWheel::default();
    w.tick(8191);
    assert_eq!(colour_at(&w.draw(), 0, 0), ColorWheel::wheel(0));
    w.tick(8192 * 3);
    assert_eq!(colour_at(&w.draw(), 0, 0), ColorWheel::wheel(3));
    w.tick(8192 * 300);
    assert_eq!(colour_at(&w.draw(), 0, 0), ColorWheel::wheel(47));
    assert_eq!(colour_at(&w.draw(), 15, 6), ColorWheel::wheel(31));
}

#[test]
fn disco_floor_tiles() {
    let d = DiscoFloor::default();
    let ops = d.draw();
    assert_eq!(ops.len(), 112);
    let red = Rgb { r: 255, g: 0, b: 0 };
    let green = Rgb { r: 0, g: 255, b: 0 };
    let blue = Rgb { r: 0, g: 0, b: 255 };
    let yellow = Rgb { r: 255, g: 255, b: 0 };
    assert_eq!(colour_at(&ops, 0, 0), red);
    assert_eq!(colour_at(&ops, 1, 1), red);
    assert_eq!(colour_at(&ops, 2, 0), green);
    assert_eq!(colour_at(&ops, 0, 2), blue);
    assert_eq!(colour_at(&ops, 3, 3), yellow);
    assert_eq!(colour_at(&ops, 4, 4), red);
    assert_eq!(colour_at(&ops, 15, 6), yellow);
}

fn tile_colours(d: &DiscoFloor) -> Vec<Rgb> {
    let ops = d.draw();
    vec![colour_at(&ops, 0, 0), colour_at(&ops, 2, 0), colour_at(&ops, 0, 2), colour_at(&ops, 2, 2)]
}

fn sorted(mut v: Vec<Rgb>) -> Vec<(u8, u8, u8)> {
    let mut t: Vec<(u8, u8, u8)> = v.drain(..).map(|c| (c.r, c.g, c.b)).collect();
    t.sort();
    t
}

#[test]
fn disco_floor_waits_a_second() {
    let mut d = DiscoFloor::default();
    let before = tile_colours(&d);
    d.tick(400_000);
    d.tick(600_000);
    assert_eq!(d.elapsed_us(), 1_000_000);
    assert_eq!(tile_colours(&d), before);
}

#[test]
fn disco_floor_shuffles_after_a_second() {
    let mut d = DiscoFloor::default();
    let base = sorted(tile_colours(&d));
    let first = tile_colours(&d);
    let mut changed = false;
    for _ in 0..8 {
        d.tick(600_000);
        d.tick(600_000);
        assert_eq!(d.elapsed_us(), 0);
        let now = tile_colours(&d);
        assert_eq!(sorted(now.clone()), base);
        if now != first {
            changed = true;
        }
    }
    assert!(changed);
}

#[test]
fn sparkle_draw() {
    let mut s = Sparkle::default();
    let ops = s.draw();
    assert_eq!(ops.len(), 17);
    assert_eq!(ops[0], DrawOp::Clear(Rgb { r: 0, g: 0, b: 0 }));
    let mut positions = Vec::new();
    for op in &ops[1..] {
        match *op {
            DrawOp::Pixel(p, c) => {
                assert!(0 <= p.x && p.x < 16 && 0 <= p.y && p.y < 7);
                assert!(c.r < 255 && c.g < 255 && c.b < 255);
                positions.push((p.x, p.y));
            }
            DrawOp::Clear(_) => panic!("a second clear"),
        }
    }
    positions.sort();
    positions.dedup();
    assert!(positions.len() > 1);
    assert!(positions.iter().any(|&(x, y)| x > 0 || y > 0));
}

#[test]
fn sparkle_tick_changes_nothing() {
    let mut a = Sparkle::default();
    let mut b = Sparkle::default();
    b.tick(123_456);
    assert_eq!(a.draw(), b.draw());
}

#[test]
fn disco_floor_shuffles_just_past_a_second() {
    let mut d = DiscoFloor::default();
    d.tick(1_000_001);
    assert_eq!(d.elapsed_us(), 0);
    d.tick(5);
    assert_eq!(d.elapsed_us(), 5);
}

#[test]
fn disco_floor_generator_waits_for_shuffle() {
    let mut a = DiscoFloor::default();
    a.tick(300_000);
    a.tick(300_000);
    a.tick(500_000);
    let mut b = DiscoFloor::default();
    b.tick(1_100_000);
    assert_eq!(tile_colours(&a), tile_colours(&b));
    a.tick(2_000_000);
    b.tick(2_000_000);
    assert_eq!(tile_colours(&a), tile_colours(&b));
}
