//! A post-link obfuscation engine for x86-64 images: it relocates a chosen
//! subroutine's body into a hidden region of the image ("cave"), disguises
//! each relocated instruction inside a fixed-width slot, computes the
//! cross-slot key relation used by a runtime reconstruction stub, and patches
//! the original entry point to redirect into the cave.

pub mod branch;
pub mod cave;
pub mod codec;
pub mod config;
pub mod endian;
pub mod extract;
pub mod layout;
pub mod model;
pub mod patch;
pub mod pipeline;
pub mod slots;
