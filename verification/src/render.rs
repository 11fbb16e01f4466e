//! Shader modules, binding resolution and descriptor pool sizing.

pub mod descriptor;
pub mod pool;
pub mod sampler;
pub mod shaders;
