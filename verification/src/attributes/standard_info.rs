//! The attribute that carries the times and flags of a file.
use crate::attributes::timestamp::{convert_u64_to_datetime, Timestamp};
use crate::bytes::{field_u32, field_u64, u32_at, u64_at};
use crate::error::{plain, value_read_failure, Error, ErrorView};
use vstd::prelude::*;

verus! {

/// Number of bytes that the fields of the attribute occupy.
pub const STANDARD_INFORMATION_SIZE: u64 = 72;

/// The value of `file_attributes` that marks a directory.
pub const FILE_ATTRIBUTE_DIRECTORY: u32 = 0x10;

/// The standard information of a file.
#[derive(Debug, Clone, Copy)]
pub struct StandardInformation {
    pub creation_time: Timestamp,
    pub modification_time: Timestamp,
    pub mft_modification_time: Timestamp,
    pub access_time: Timestamp,
    pub file_attributes: u32,
    pub max_versions: u32,
    pub version_number: u32,
    pub class_id: u32,
    pub owner_id: u32,
    pub security_id: u32,
    pub quota_charged: u64,
    pub update_sequence_number: u64,
}

/// The standard information that the bytes `b` hold.
pub open spec fn standard_information_at(b: Seq<u8>) -> StandardInformation
    recommends
        b.len() >= STANDARD_INFORMATION_SIZE,
{
    StandardInformation {
        creation_time: Timestamp::of_filetime(u64_at(b, 0)),
        modification_time: Timestamp::of_filetime(u64_at(b, 8)),
        mft_modification_time: Timestamp::of_filetime(u64_at(b, 16)),
        access_time: Timestamp::of_filetime(u64_at(b, 24)),
        file_attributes: u32_at(b, 32),
        max_versions: u32_at(b, 36),
        version_number: u32_at(b, 40),
        class_id: u32_at(b, 44),
        owner_id: u32_at(b, 48),
        security_id: u32_at(b, 52),
        quota_charged: u64_at(b, 56),
        update_sequence_number: u64_at(b, 64),
    }
}

/// The failure that decoding standard information ends in when only `len`
/// bytes are there: it names the first field that the bytes do not reach.
pub open spec fn standard_information_failure(len: nat) -> ErrorView
    recommends
        len < STANDARD_INFORMATION_SIZE,
{
    if len < 8 {
        value_read_failure("creation_time"@, "read_u64"@)
    } else if len < 16 {
        value_read_failure("modification_time"@, "read_u64"@)
    } else if len < 24 {
        value_read_failure("mft_modification_time"@, "read_u64"@)
    } else if len < 32 {
        value_read_failure("access_time"@, "read_u64"@)
    } else if len < 36 {
        value_read_failure("file_attributes"@, "read_u32"@)
    } else if len < 40 {
        value_read_failure("max_versions"@, "read_u32"@)
    } else if len < 44 {
        value_read_failure("version_number"@, "read_u32"@)
    } else if len < 48 {
        value_read_failure("class_id"@, "read_u32"@)
    } else if len < 52 {
        value_read_failure("owner_id"@, "read_u32"@)
    } else if len < 56 {
        value_read_failure("security_id"@, "read_u32"@)
    } else if len < 64 {
        value_read_failure("quota_charged"@, "read_u64"@)
    } else {
        value_read_failure("update_sequence_number"@, "read_u64"@)
    }
}

/// What decoding the standard information that `b` begins with gives.
pub open spec fn standard_information_outcome(b: Seq<u8>) -> Result<
    StandardInformation,
    ErrorView,
> {
    if b.len() >= STANDARD_INFORMATION_SIZE {
        Ok(standard_information_at(b))
    } else {
        Err(standard_information_failure(b.len()))
    }
}

impl StandardInformation {
    /// True when the attribute does not mark its file as a directory.
    pub open spec fn marks_file(self) -> bool {
        self.file_attributes != FILE_ATTRIBUTE_DIRECTORY
    }

    /// Decodes the standard information that `reader` begins with. This
    /// succeeds when it holds the 72 bytes of the fields.
    pub fn from_reader(reader: &[u8]) -> (r: Result<StandardInformation, Error>)
        ensures
            plain(r) == standard_information_outcome(reader@),
    {
        let creation_time = field_u64(reader, 0, "creation_time")?;
        let modification_time = field_u64(reader, 8, "modification_time")?;
        let mft_modification_time = field_u64(reader, 16, "mft_modification_time")?;
        let access_time = field_u64(reader, 24, "access_time")?;
        let file_attributes = field_u32(reader, 32, "file_attributes")?;
        let max_versions = field_u32(reader, 36, "max_versions")?;
        let version_number = field_u32(reader, 40, "version_number")?;
        let class_id = field_u32(reader, 44, "class_id")?;
        let owner_id = field_u32(reader, 48, "owner_id")?;
        let security_id = field_u32(reader, 52, "security_id")?;
        let quota_charged = field_u64(reader, 56, "quota_charged")?;
        let update_sequence_number = field_u64(reader, 64, "update_sequence_number")?;
        Ok(
            StandardInformation {
                creation_time: convert_u64_to_datetime(creation_time),
                modification_time: convert_u64_to_datetime(modification_time),
                mft_modification_time: convert_u64_to_datetime(mft_modification_time),
                access_time: convert_u64_to_datetime(access_time),
                file_attributes,
                max_versions,
                version_number,
                class_id,
                owner_id,
                security_id,
                quota_charged,
                update_sequence_number,
            },
        )
    }
}

} // verus!
