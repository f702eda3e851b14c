//! Replay pipeline of a compact binary display list.
//!
//! A host hands the renderer a framed, little-endian opcode stream. This crate
//! holds everything about that stream that can be decided on integers and
//! bytes: the wire decoder, the drawing operations a stream stands for, the
//! text-shaping rules, the surface and cache bookkeeping, and the frame
//! driver. Single-precision numbers travel through it as their IEEE-754 bit
//! patterns; the arithmetic on them, the font metrics and the GPU stay with
//! the embedding program.

pub mod decoder;
pub mod display_list;
pub mod error;
pub mod font;
pub mod ieee;
pub mod lines;
pub mod renderer;
pub mod scene;
pub mod surface;
pub mod text;
pub mod wrap;
