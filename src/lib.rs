//! Rendering and lifecycle logic for a persistent decimal counter shown on an
//! 8x32 serpentine-wired LED matrix.
//!
//! - [`font`]: the pixel colour type, the digit glyphs and the per-position palette.
//! - [`render`]: a counter value to a row-major pixel buffer.
//! - [`wiring`]: a row-major buffer to the strip's serpentine wiring order.
//! - [`store`]: the counter's encoding in a non-volatile erase block.
//! - [`machine`]: the button / idle / sleep state machine.

pub mod font;
pub mod render;
pub mod wiring;
pub mod store;
pub mod machine;

pub use font::{glyph_pixel, palette_color, Rgb, GLYPHS, HEIGHT, NUM_DIGITS, NUM_PIXELS, WIDTH};
pub use render::{digit_cells, num_to_pixels};
pub use wiring::logical_array_to_zig_zag;
pub use store::{counter_block, counter_from_bytes, FLASH_BLOCK_SIZE};
pub use machine::{next_counter, counter_frame, Action, Controller, Mode, MAX_COUNTER};
