//! Engine of a modal terminal editor for small ASCII-art and math diagrams:
//! the canvas, cursor geometry, line rasterization, the key-driven mode
//! machine and the text export.
//!
//! Cursor and origin positions are held in fixed point: one cell is
//! `UNIT` (a thousand) sub-cell steps, so every coordinate is an integer.

pub mod glyph;
pub mod canvas;
pub mod raster;
pub mod geometry;
pub mod editor;
pub mod modes;
pub mod hex;
pub mod decimal;
pub mod keyboard;
pub mod export;
