//! Extraction of embedded game-data resources (music modules, bitmaps, and a
//! stage table) from a 32-bit Portable-Executable image held in memory.
//!
//! The crate is a library: it parses the PE headers, walks the resource
//! directory tree, scans the code section for the instruction signature that
//! references the stage table, and plans the output files. Reading the
//! executable from disk and writing the planned files out is left to the
//! caller.

pub mod bytes;
pub mod error;
pub mod exe_parser;
pub mod vanilla;
