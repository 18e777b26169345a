//! Reads the master file table of an NTFS volume: decodes its records and
//! their attributes, builds an index of where each record and the data of
//! its attributes lie, resolves the path of each record through the
//! directories above it, and tells of each record in one line of text.
pub mod attributes;
pub mod block;
pub mod bytes;
pub mod error;
pub mod exclusion;
pub mod index;
pub mod iter;
pub mod parser;
pub mod path;
pub mod raw;
pub mod readable_iterator;
pub mod settings;
pub mod text;
pub mod utf16;
pub mod walk;

pub use crate::error::Error;
pub use crate::iter::Iterator;
pub use crate::parser::Parser;
pub use crate::settings::ParserSettings;

use vstd::prelude::*;

verus! {

/// Size in bytes of one slot of the master file table.
pub const MFT_RECORD_SIZE: u64 = 1024;

} // verus!
