//! Frame-buffer logic of a 16x7 RGB LED matrix driven by binary-coded
//! modulation, and the animated scenes that draw onto it.
//!
//! `layout` says where every byte of the bit stream lives and what writing a
//! pixel does to it, `unicorn` is the frame buffer itself, `light` and
//! `pixel_laws` prove what the panel shows of what was written, and `scene`
//! holds the animations, which describe their drawing as `graphics::DrawOp`s.

pub mod graphics;
pub mod layout;
pub mod light;
pub mod pixel_laws;
pub mod rng;
pub mod scene;
pub mod unicorn;

pub use graphics::{DrawOp, Point, Rgb};
pub use layout::{HEIGHT, WIDTH};
pub use scene::{ColorWheel, DiscoFloor, Sparkle};
pub use unicorn::Unicorn;
