//! Host side of a bare-metal WebAssembly firmware: a monotonic memory arena,
//! a frozen-after-boot table of host functions, and the single execution
//! context that moves one guest module from reset to `Halted` or `Trapped`.

pub mod arena;
pub mod registry;
pub mod bridge;
pub mod boot;
