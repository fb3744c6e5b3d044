//! Discovery of executable code regions inside a raw Nintendo 64 ROM image.
//!
//! Given only a byte buffer (already byte-order normalized, big-endian,
//! word-aligned), the library decides which byte ranges plausibly hold MIPS
//! CPU code, which hold embedded RSP microcode, and which are data or padding.
//! Per-word instruction decoding is delegated to the `rabbitizer` decoder
//! behind a small trusted query surface (see `decode`); every rule built on
//! top of those queries is verified.

use vstd::prelude::*;

pub mod analysis;
pub mod compiler;
pub mod compression;
pub mod decode;
pub mod findcode;
pub mod microcode;
pub mod utils;

verus! {

/// Fixed size of one MIPS instruction, in bytes.
pub const INSTRUCTION_SIZE: usize = 4;

/// Size of one 32-bit word, in bytes.
pub const WORD_SIZE: usize = 4;

/// End of the IPL3 bootloader region: the fixed 4 KiB prefix of the ROM that
/// is excluded from all code scanning.
pub const IPL3_END: usize = 0x1000;

/// Analysis configuration, as selected on the command line.
///
/// The library itself only consumes the ROM buffer; the switches select
/// which downstream analyses a driver runs and how it reports.
pub struct Args {
    /// ROM file to read.
    pub rom: String,
    /// Optional end of the search range, in bytes.
    pub end: Option<usize>,
    /// Attempt to determine the compiler.
    pub determine_compiler: bool,
    /// Find compressed segments.
    pub find_compressed: bool,
    /// Print the number of return instructions found.
    pub estimate_function_count: bool,
}

} // verus!
