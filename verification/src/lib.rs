//! GPU resource bookkeeping and shader-driven descriptor layouts.
//!
//! The crate holds the decisions of a renderer's resource layer as verified
//! functions on plain values: the lifetime of buffers and images, bounds-checked
//! writes into host-visible memory, the resolution of reflected shader bindings
//! into descriptor-set layouts, and the sizing of descriptor pools. Talking to
//! the graphics device is left to the caller, which performs the steps that
//! these functions hand out.

pub mod buffer;
pub mod error;
pub mod render;
