//! Display and input core of a small kernel: a double-buffered pixel
//! framebuffer with format-aware colour packing and alpha blending, a
//! glyph-rasterizing text console with an escape-sequence colour language,
//! and a bounded scancode pipeline with wake-on-data registration feeding a
//! keyboard decoder and a line-editing shell.

pub mod color;
pub mod console;
pub mod font;
pub mod grid;
pub mod keys;
pub mod palette;
pub mod pipeline;
pub mod shell;
pub mod size;
pub mod surface;
