//! Records of the table as they are stored: header, attributes, references.
pub mod attribute;
pub mod entry;
pub mod file_reference;
pub mod header;

pub use crate::raw::attribute::{Attribute, AttributeData};
pub use crate::raw::entry::Entry;
pub use crate::raw::file_reference::FileReference;
pub use crate::raw::header::Header;
