//! An L-system renderer: a symbol-rewriting engine, a turtle-graphics
//! interpreter, bounding-box computation, and a line rasterizer writing into
//! an owned pixel canvas.
//!
//! Angles, distances and coordinates are carried through the library as
//! IEEE-754 bit patterns held in plain integers; the library never performs
//! real arithmetic on them. The caller owns every floating-point computation
//! and hands the results back to the verified state machines here.

pub mod canvas;
pub mod geometry;
pub mod ieee;
pub mod raster;
pub mod rule;
pub mod symbol;
pub mod system;
pub mod turtle;

use vstd::prelude::*;

verus! {

/// Bit pattern of the turtle's initial heading, the double-precision value
/// minus pi over two (the turtle initially points up).
pub const INITIAL_HEADING_BITS: u64 = 0xBFF9_21FB_5444_2D18;

} // verus!
