//! Verified core of an explicit-API renderer: resource ownership, descriptor
//! layout synthesis from shader reflection, the bindless texture set, and the
//! per-frame draw partitioning.

pub mod global_descriptors;
pub mod layout;
pub mod memory;
pub mod mesh;
pub mod passes;
pub mod present;
pub mod reflect;
pub mod resource;
pub mod sampler;
pub mod shader;
pub mod texture;
