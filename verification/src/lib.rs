//! A small software-rendered 2D game engine: an RGBA8 framebuffer with drawing
//! primitives, alpha-composited sprite blits, tick-driven frame animation,
//! axis-aligned collision detection, edge-triggered input and the layout of
//! text in a fixed-width font.
//!
//! All geometry is in whole numbers. Every executable function carries a
//! contract over a mathematical model of the data it touches. The contracts
//! are proved, but for those of the few functions whose whole body is a call
//! into another crate: these say in their documentation what they take on
//! trust.

pub mod objects;
pub mod grid;
pub mod texture;
pub mod screen;
pub mod line;
pub mod blit;
pub mod animation;
mod shared;
pub mod sprite;
pub mod collision;
pub mod input;
pub mod generation;
pub mod text;

