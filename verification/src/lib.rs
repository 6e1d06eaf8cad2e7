//! Virtual-memory core of a freestanding kernel, verified against an explicit
//! model of physical memory.
//!
//! Physical memory is modelled as an addressable array of frames, some of
//! which hold page tables; the CPU's root-table register is a field of the
//! model. The four-level table walk, the recursive self-mapping slot, the
//! temporary-page bootstrap mechanism and the kernel-remapping algorithm all
//! operate on that model and are verified against it. The architecture
//! primitives themselves (control-register writes, translation-cache flushes,
//! volatile stores) are external collaborators and stay outside the model.

pub mod memory;
pub mod paging;
