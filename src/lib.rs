//! Rasterization of plane shapes onto a pixel canvas: points, lines,
//! circles, and polygon outlines, each stated as the exact sequence of
//! pixels it writes.

pub mod canvas;
pub mod circle;
pub mod image;
pub mod line;
pub mod point;
pub mod polygon;
