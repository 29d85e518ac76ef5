//! Bitmap-font text rasterisation for a resizable pixel canvas.

pub mod cli;
pub mod font;
pub mod frame;
pub mod numeral;
pub mod scale;
pub mod text;
pub mod window;
