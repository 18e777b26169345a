//! The attribute that carries one name of a file and the directory it is in.
use crate::attributes::timestamp::{convert_u64_to_datetime, Timestamp};
use crate::bytes::{field_u32, field_u64, field_u8, has_bytes, u32_at, u64_at, u8_at};
use crate::error::{value_read_failure, Error, ErrorView};
use crate::raw::file_reference::FileReference;
use crate::utf16::{name_at, read_name};
use vstd::prelude::*;

verus! {

/// Position of the name, counted from the start of the attribute's data.
pub const FILE_NAME_TEXT_OFFSET: u64 = 66;

/// The name space of the short names that DOS can read.
pub const NAME_SPACE_DOS: u8 = 2;

/// One name of a file.
#[derive(Debug)]
pub struct FileName {
    pub parent_file_reference: FileReference,
    pub creation_time: Timestamp,
    pub modification_time: Timestamp,
    pub mft_modification_time: Timestamp,
    pub access_time: Timestamp,
    pub allocated_size: u64,
    pub real_size: u64,
    pub flags: u32,
    pub reparse_value: u32,
    pub name_length: u8,
    pub name_space: u8,
    pub name: String,
}

/// What a [`FileName`] holds, with its name as a sequence of characters.
pub struct FileNameView {
    pub parent_file_reference: FileReference,
    pub creation_time: Timestamp,
    pub modification_time: Timestamp,
    pub mft_modification_time: Timestamp,
    pub access_time: Timestamp,
    pub allocated_size: u64,
    pub real_size: u64,
    pub flags: u32,
    pub reparse_value: u32,
    pub name_length: u8,
    pub name_space: u8,
    pub name: Seq<char>,
}

impl View for FileName {
    type V = FileNameView;

    open spec fn view(&self) -> FileNameView {
        FileNameView {
            parent_file_reference: self.parent_file_reference,
            creation_time: self.creation_time,
            modification_time: self.modification_time,
            mft_modification_time: self.mft_modification_time,
            access_time: self.access_time,
            allocated_size: self.allocated_size,
            real_size: self.real_size,
            flags: self.flags,
            reparse_value: self.reparse_value,
            name_length: self.name_length,
            name_space: self.name_space,
            name: self.name@,
        }
    }
}

impl FileNameView {
    /// True when the name is one that a path may be made of: any name but a
    /// short name for DOS alone.
    pub open spec fn usable(self) -> bool {
        self.name_space != NAME_SPACE_DOS
    }
}

/// The file name that the bytes `b` hold.
pub open spec fn file_name_at(b: Seq<u8>) -> FileNameView {
    FileNameView {
        parent_file_reference: FileReference::split(u64_at(b, 0)),
        creation_time: Timestamp::of_filetime(u64_at(b, 8)),
        modification_time: Timestamp::of_filetime(u64_at(b, 16)),
        mft_modification_time: Timestamp::of_filetime(u64_at(b, 24)),
        access_time: Timestamp::of_filetime(u64_at(b, 32)),
        allocated_size: u64_at(b, 40),
        real_size: u64_at(b, 48),
        flags: u32_at(b, 56),
        reparse_value: u32_at(b, 60),
        name_length: u8_at(b, 64),
        name_space: u8_at(b, 65),
        name: name_at(b, FILE_NAME_TEXT_OFFSET as int, u8_at(b, 64) as int),
    }
}

/// The failure that decoding a file name ends in, if any: it names the
/// first field that the bytes do not reach.
pub open spec fn file_name_failure(b: Seq<u8>) -> Option<ErrorView> {
    if b.len() < 8 {
        Some(value_read_failure("parent_file_reference"@, "read_u64"@))
    } else if b.len() < 16 {
        Some(value_read_failure("creation_time"@, "read_u64"@))
    } else if b.len() < 24 {
        Some(value_read_failure("modification_time"@, "read_u64"@))
    } else if b.len() < 32 {
        Some(value_read_failure("mft_modification_time"@, "read_u64"@))
    } else if b.len() < 40 {
        Some(value_read_failure("access_time"@, "read_u64"@))
    } else if b.len() < 48 {
        Some(value_read_failure("allocated_size"@, "read_u64"@))
    } else if b.len() < 56 {
        Some(value_read_failure("real_size"@, "read_u64"@))
    } else if b.len() < 60 {
        Some(value_read_failure("flags"@, "read_u32"@))
    } else if b.len() < 64 {
        Some(value_read_failure("reparse_value"@, "read_u32"@))
    } else if b.len() < 65 {
        Some(value_read_failure("name_length"@, "read_u8"@))
    } else if b.len() < 66 {
        Some(value_read_failure("name_space"@, "read_u8"@))
    } else if !has_bytes(b, FILE_NAME_TEXT_OFFSET as int, 2 * u8_at(b, 64)) {
        Some(value_read_failure("name_char"@, "read_u16"@))
    } else {
        None
    }
}

/// What decoding the file name that `b` begins with gives.
pub open spec fn file_name_outcome(b: Seq<u8>) -> Result<FileNameView, ErrorView> {
    match file_name_failure(b) {
        Some(failure) => Err(failure),
        None => Ok(file_name_at(b)),
    }
}

/// What reading the parent reference that `b` begins with gives.
pub open spec fn parent_reference_outcome(b: Seq<u8>) -> Result<FileReference, ErrorView> {
    if b.len() < 8 {
        Err(value_read_failure("parent_file_reference"@, "read_u64"@))
    } else {
        Ok(FileReference::split(u64_at(b, 0)))
    }
}

impl FileName {
    /// The reference to the parent directory that the data of a file name
    /// attribute begins with.
    pub fn parent_reference_from_buffer(buffer: &Vec<u8>) -> (r: Result<FileReference, Error>)
        ensures
            crate::error::plain(r) == parent_reference_outcome(buffer@),
    {
        let parent_file_reference = field_u64(
            buffer.as_slice(),
            0,
            "parent_file_reference",
        )?;
        Ok(FileReference::from(parent_file_reference))
    }

    /// Decodes the file name that `reader` begins with. This succeeds when
    /// it holds the 66 bytes of the fields and the whole name behind them.
    pub fn from_reader(reader: &[u8]) -> (r: Result<FileName, Error>)
        ensures
            crate::error::viewed(r) == file_name_outcome(reader@),
    {
        let parent_file_reference = field_u64(reader, 0, "parent_file_reference")?;
        let parent_file_reference = FileReference::from(parent_file_reference);
        let creation_time = field_u64(reader, 8, "creation_time")?;
        let modification_time = field_u64(reader, 16, "modification_time")?;
        let mft_modification_time = field_u64(reader, 24, "mft_modification_time")?;
        let access_time = field_u64(reader, 32, "access_time")?;
        let allocated_size = field_u64(reader, 40, "allocated_size")?;
        let real_size = field_u64(reader, 48, "real_size")?;
        let flags = field_u32(reader, 56, "flags")?;
        let reparse_value = field_u32(reader, 60, "reparse_value")?;
        let name_length = field_u8(reader, 64, "name_length")?;
        let name_space = field_u8(reader, 65, "name_space")?;
        let name = read_name(reader, FILE_NAME_TEXT_OFFSET, name_length)?;
        Ok(
            FileName {
                parent_file_reference,
                creation_time: convert_u64_to_datetime(creation_time),
                modification_time: convert_u64_to_datetime(modification_time),
                mft_modification_time: convert_u64_to_datetime(mft_modification_time),
                access_time: convert_u64_to_datetime(access_time),
                allocated_size,
                real_size,
                flags,
                reparse_value,
                name_length,
                name_space,
                name,
            },
        )
    }
}

} // verus!
