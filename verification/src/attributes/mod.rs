//! The attributes that are decoded beyond their header, and the instants
//! that they carry.
pub mod attributes_list;
pub mod data;
pub mod file_name;
pub mod standard_info;
pub mod timestamp;

pub use crate::attributes::attributes_list::{AttributeList, AttributeListItem};
pub use crate::attributes::data::Data;
pub use crate::attributes::file_name::FileName;
pub use crate::attributes::standard_info::StandardInformation;
pub use crate::attributes::timestamp::{convert_u64_to_datetime, Timestamp};
