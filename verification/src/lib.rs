//! Pre-kernel boot library: the logic of a firmware-to-kernel handoff.
//!
//! The library covers the four decision-making parts of a boot loader:
//! parsing and placing a flat ELF kernel image (`elf`, `region`),
//! normalizing the firmware memory map and registering reclaimable ranges
//! with a frame allocator (`memmap`), negotiating a display mode
//! (`graphics`), and the strict state machine that governs the only-once
//! exit from firmware services (`sequencer`). Firmware calls themselves
//! (pool allocation, file reads, the exit call) are performed by the
//! surrounding program, which feeds their results to these functions as
//! plain values.

use vstd::prelude::*;

pub mod elf;
pub mod graphics;
pub mod memmap;
pub mod region;
pub mod sequencer;

verus! {

/// Size in bytes of one physical page / frame.
pub const PAGE_SIZE: u64 = 4096;

} // verus!
