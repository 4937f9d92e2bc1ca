//! Physical-memory and virtual-memory management for a small 64-bit kernel.
//!
//! `memory` holds the frame allocators and, in `memory::paging`, the
//! four-level page tables: entries, tables that are reached through a
//! recursive mapping, the mapper that maps, unmaps and translates pages, and
//! the active and inactive address spaces. The page tables live in a
//! `Machine`, which is stated as a trait and comes with one implementation in
//! software.
//!
//! `vga` and `serial` hold what the console and the serial ports compute: the
//! characters of the screen, and the bytes that go to the registers of a port.

pub mod memory;
pub mod serial;
pub mod vga;
