//! One attribute of a record: its header, its name, and where its data lies.
use crate::bytes::{
    advance, field_u16, field_u32, field_u64, field_u8, has_bytes, u16_at, u32_at, u64_at, u8_at,
};
use crate::error::{invalid_value_failure, value_read_failure, Error, ErrorView};
use crate::utf16::{name_at, read_name};
use vstd::prelude::*;

verus! {

/// Where the data of an attribute lies: in the record itself, or outside it.
#[derive(Clone, Copy, Debug)]
#[allow(inconsistent_fields)]
pub enum AttributeData {
    Resident { data_size: u32, data_offset: u16, indexed_flag: u8, _padding: u8 },
    NonResident {
        lowest_vcn: u64,
        highest_vcn: u64,
        data_run_offset: u16,
        compression_unit_size: u16,
        _padding: u32,
        allocated_size: u64,
        data_size: u64,
        initialized_size: u64,
        compressed_size: Option<u64>,
    },
}

/// An attribute of a record. `offset` is the position of the attribute in
/// the record.
#[derive(Debug)]
pub struct Attribute {
    pub offset: u64,
    pub type_code: u32,
    pub record_len: u32,
    pub form_code: u8,
    pub name_len: u8,
    pub name_offset: u16,
    pub name: Option<String>,
    pub flags: u16,
    pub instance: u16,
    pub data: AttributeData,
}

/// What an [`Attribute`] holds, with its name as a sequence of characters.
pub struct AttributeView {
    pub offset: u64,
    pub type_code: u32,
    pub record_len: u32,
    pub form_code: u8,
    pub name_len: u8,
    pub name_offset: u16,
    pub name: Option<Seq<char>>,
    pub flags: u16,
    pub instance: u16,
    pub data: AttributeData,
}

impl View for Attribute {
    type V = AttributeView;

    open spec fn view(&self) -> AttributeView {
        AttributeView {
            offset: self.offset,
            type_code: self.type_code,
            record_len: self.record_len,
            form_code: self.form_code,
            name_len: self.name_len,
            name_offset: self.name_offset,
            name: match self.name {
                Some(name) => Some(name@),
                None => None,
            },
            flags: self.flags,
            instance: self.instance,
            data: self.data,
        }
    }
}

/// Form code of an attribute whose data lies in the record.
pub const FORM_RESIDENT: u8 = 0;

/// Form code of an attribute whose data lies outside the record.
pub const FORM_NON_RESIDENT: u8 = 1;

/// Position of the data of a non-resident attribute, counted from the
/// attribute's start.
pub const NON_RESIDENT_DATA_OFFSET: u64 = 16;

/// True for the type codes that an attribute may carry: zero, the multiples
/// of 0x10 from 0x10 to 0x100, and 0x1000. Any other code ends the
/// attributes of a record.
pub open spec fn valid_type_code(type_code: u32) -> bool {
    ||| type_code == 0
    ||| type_code == 0x1000
    ||| (0x10 <= type_code <= 0x100 && type_code % 0x10 == 0)
}

impl AttributeData {
    /// The form code that stands for this kind of data.
    pub open spec fn form_code(self) -> u8 {
        match self {
            AttributeData::Resident { .. } => FORM_RESIDENT,
            AttributeData::NonResident { .. } => FORM_NON_RESIDENT,
        }
    }

    /// Number of bytes from the start of an attribute to the end of the
    /// fields that describe this data.
    pub open spec fn fields_end(self) -> int {
        match self {
            AttributeData::Resident { .. } => 24,
            AttributeData::NonResident { compressed_size, .. } => if compressed_size is Some {
                72
            } else {
                64
            },
        }
    }

    /// Position of the data, counted from the start of the attribute: where
    /// the attribute says for resident data, and a fixed 16 bytes for
    /// non-resident data.
    pub open spec fn start(self) -> int {
        match self {
            AttributeData::Resident { data_offset, .. } => data_offset as int,
            AttributeData::NonResident { .. } => NON_RESIDENT_DATA_OFFSET as int,
        }
    }

    /// Number of bytes of data.
    pub open spec fn size(self) -> u64 {
        match self {
            AttributeData::Resident { data_size, .. } => data_size as u64,
            AttributeData::NonResident { data_size, .. } => data_size,
        }
    }

    /// True when the data lies in the record.
    pub open spec fn resident(self) -> bool {
        self is Resident
    }
}

/// The data part of the attribute that `b` holds at position `at`, for the
/// form code `form`.
pub open spec fn attribute_data_at(b: Seq<u8>, at: int, form: u8) -> AttributeData {
    if form == FORM_RESIDENT {
        AttributeData::Resident {
            data_size: u32_at(b, at + 16),
            data_offset: u16_at(b, at + 20),
            indexed_flag: u8_at(b, at + 22),
            _padding: u8_at(b, at + 23),
        }
    } else {
        AttributeData::NonResident {
            lowest_vcn: u64_at(b, at + 16),
            highest_vcn: u64_at(b, at + 24),
            data_run_offset: u16_at(b, at + 32),
            compression_unit_size: u16_at(b, at + 34),
            _padding: u32_at(b, at + 36),
            allocated_size: u64_at(b, at + 40),
            data_size: u64_at(b, at + 48),
            initialized_size: u64_at(b, at + 56),
            compressed_size: if u16_at(b, at + 34) > 0 {
                Some(u64_at(b, at + 64))
            } else {
                None
            },
        }
    }
}

/// The attribute that `b` holds at position `at`.
pub open spec fn attribute_at(b: Seq<u8>, at: int) -> AttributeView {
    AttributeView {
        offset: at as u64,
        type_code: u32_at(b, at),
        record_len: u32_at(b, at + 4),
        form_code: u8_at(b, at + 8),
        name_len: u8_at(b, at + 9),
        name_offset: u16_at(b, at + 10),
        name: if u8_at(b, at + 9) > 0 {
            Some(name_at(b, at + u16_at(b, at + 10), u8_at(b, at + 9) as int))
        } else {
            None
        },
        flags: u16_at(b, at + 12),
        instance: u16_at(b, at + 14),
        data: attribute_data_at(b, at, u8_at(b, at + 8)),
    }
}

/// The failure that decoding the data part of a resident attribute ends in,
/// if any: it names the first field that the bytes do not reach.
pub open spec fn resident_failure(b: Seq<u8>, at: int) -> Option<ErrorView> {
    if !has_bytes(b, at + 16, 4) {
        Some(value_read_failure("data_size"@, "read_u32"@))
    } else if !has_bytes(b, at + 20, 2) {
        Some(value_read_failure("data_offset"@, "read_u16"@))
    } else if !has_bytes(b, at + 22, 1) {
        Some(value_read_failure("indexed_flag"@, "read_u8"@))
    } else if !has_bytes(b, at + 23, 1) {
        Some(value_read_failure("_padding"@, "read_u8"@))
    } else {
        None
    }
}

/// The failure that decoding the data part of a non-resident attribute ends
/// in, if any: it names the first field that the bytes do not reach.
pub open spec fn non_resident_failure(b: Seq<u8>, at: int) -> Option<ErrorView> {
    if !has_bytes(b, at + 16, 8) {
        Some(value_read_failure("lowest_vcn"@, "read_u64"@))
    } else if !has_bytes(b, at + 24, 8) {
        Some(value_read_failure("highest_vcn"@, "read_u64"@))
    } else if !has_bytes(b, at + 32, 2) {
        Some(value_read_failure("data_run_offset"@, "read_u16"@))
    } else if !has_bytes(b, at + 34, 2) {
        Some(value_read_failure("compression_unit_size"@, "read_u16"@))
    } else if !has_bytes(b, at + 36, 4) {
        Some(value_read_failure("_padding"@, "read_u32"@))
    } else if !has_bytes(b, at + 40, 8) {
        Some(value_read_failure("allocated_size"@, "read_u64"@))
    } else if !has_bytes(b, at + 48, 8) {
        Some(value_read_failure("data_size"@, "read_u64"@))
    } else if !has_bytes(b, at + 56, 8) {
        Some(value_read_failure("initialized_size"@, "read_u64"@))
    } else if u16_at(b, at + 34) > 0 && !has_bytes(b, at + 64, 8) {
        Some(value_read_failure("compressed_size_raw"@, "read_u64"@))
    } else {
        None
    }
}

/// The failure that decoding the attribute at position `at` ends in, if any.
/// The fields are taken in the order in which they are stored, then the
/// form code is judged, then the name is read. A position at which no valid
/// type code stands is no failure.
pub open spec fn attribute_failure(b: Seq<u8>, at: int) -> Option<ErrorView> {
    if !has_bytes(b, at, 4) {
        Some(value_read_failure("type_code"@, "read_u32"@))
    } else if !valid_type_code(u32_at(b, at)) {
        None
    } else if !has_bytes(b, at + 4, 4) {
        Some(value_read_failure("record_len"@, "read_u32"@))
    } else if !has_bytes(b, at + 8, 1) {
        Some(value_read_failure("form_code"@, "read_u8"@))
    } else if !has_bytes(b, at + 9, 1) {
        Some(value_read_failure("name_len"@, "read_u8"@))
    } else if !has_bytes(b, at + 10, 2) {
        Some(value_read_failure("name_offset"@, "read_u16"@))
    } else if !has_bytes(b, at + 12, 2) {
        Some(value_read_failure("flags"@, "read_u16"@))
    } else if !has_bytes(b, at + 14, 2) {
        Some(value_read_failure("instance"@, "read_u16"@))
    } else if u8_at(b, at + 8) == FORM_RESIDENT && resident_failure(b, at) is Some {
        resident_failure(b, at)
    } else if u8_at(b, at + 8) == FORM_NON_RESIDENT && non_resident_failure(b, at) is Some {
        non_resident_failure(b, at)
    } else if u8_at(b, at + 8) != FORM_RESIDENT && u8_at(b, at + 8) != FORM_NON_RESIDENT {
        Some(invalid_value_failure("form_code"@, "read_u8"@))
    } else if u8_at(b, at + 9) > 0 && !has_bytes(
        b,
        at + u16_at(b, at + 10),
        2 * u8_at(b, at + 9),
    ) {
        Some(value_read_failure("name_char"@, "read_u16"@))
    } else {
        None
    }
}

/// What decoding the attribute at position `at` gives: a failure, nothing
/// where no valid type code stands there, or the attribute.
pub open spec fn attribute_outcome(b: Seq<u8>, at: int) -> Result<
    Option<AttributeView>,
    ErrorView,
> {
    match attribute_failure(b, at) {
        Some(failure) => Err(failure),
        None => if valid_type_code(u32_at(b, at)) {
            Ok(Some(attribute_at(b, at)))
        } else {
            Ok(None)
        },
    }
}

/// True when `r` is the outcome `outcome`, each taken by its view.
pub open spec fn is_attribute_outcome(
    r: Result<Option<Attribute>, Error>,
    outcome: Result<Option<AttributeView>, ErrorView>,
) -> bool {
    match r {
        Ok(Some(attribute)) => outcome == Ok::<Option<AttributeView>, ErrorView>(
            Some(attribute@),
        ),
        Ok(None) => outcome == Ok::<Option<AttributeView>, ErrorView>(None),
        Err(e) => outcome == Err::<Option<AttributeView>, ErrorView>(e@),
    }
}

impl Attribute {
    /// True for the type codes that an attribute may carry.
    pub fn is_valid_type_code(type_code: u32) -> (valid: bool)
        ensures
            valid == valid_type_code(type_code),
    {
        type_code == 0 || type_code == 0x1000 || (0x10 <= type_code && type_code <= 0x100
            && type_code % 0x10 == 0)
    }

    /// Decodes the data part of the attribute at `offset`.
    fn data_from_buffer(buffer: &[u8], offset: u64, form_code: u8) -> (r: Result<
        AttributeData,
        Error,
    >)
        requires
            has_bytes(buffer@, offset as int, 16),
        ensures
            match r {
                Ok(data) => {
                    &&& form_code == FORM_RESIDENT || form_code == FORM_NON_RESIDENT
                    &&& form_code == FORM_RESIDENT ==> resident_failure(buffer@, offset as int)
                        is None
                    &&& form_code == FORM_NON_RESIDENT ==> non_resident_failure(
                        buffer@,
                        offset as int,
                    ) is None
                    &&& data == attribute_data_at(buffer@, offset as int, form_code)
                },
                Err(e) => {
                    if form_code == FORM_RESIDENT {
                        Some(e@) == resident_failure(buffer@, offset as int)
                    } else if form_code == FORM_NON_RESIDENT {
                        Some(e@) == non_resident_failure(buffer@, offset as int)
                    } else {
                        e@ == invalid_value_failure("form_code"@, "read_u8"@)
                    }
                },
            },
    {
        if form_code == FORM_RESIDENT {
            let data_size = field_u32(buffer, advance(offset, 16), "data_size")?;
            let data_offset = field_u16(buffer, advance(offset, 20), "data_offset")?;
            let indexed_flag = field_u8(buffer, advance(offset, 22), "indexed_flag")?;
            let _padding = field_u8(buffer, advance(offset, 23), "_padding")?;
            Ok(AttributeData::Resident { data_size, data_offset, indexed_flag, _padding })
        } else if form_code == FORM_NON_RESIDENT {
            let lowest_vcn = field_u64(buffer, advance(offset, 16), "lowest_vcn")?;
            let highest_vcn = field_u64(buffer, advance(offset, 24), "highest_vcn")?;
            let data_run_offset = field_u16(buffer, advance(offset, 32), "data_run_offset")?;
            let compression_unit_size = field_u16(
                buffer,
                advance(offset, 34),
                "compression_unit_size",
            )?;
            let _padding = field_u32(buffer, advance(offset, 36), "_padding")?;
            let allocated_size = field_u64(buffer, advance(offset, 40), "allocated_size")?;
            let data_size = field_u64(buffer, advance(offset, 48), "data_size")?;
            let initialized_size = field_u64(buffer, advance(offset, 56), "initialized_size")?;
            let compressed_size = if compression_unit_size > 0 {
                Some(field_u64(buffer, advance(offset, 64), "compressed_size_raw")?)
            } else {
                None
            };
            Ok(
                AttributeData::NonResident {
                    lowest_vcn,
                    highest_vcn,
                    data_run_offset,
                    compression_unit_size,
                    _padding,
                    allocated_size,
                    data_size,
                    initialized_size,
                    compressed_size,
                },
            )
        } else {
            Err(Error::invalid_value("form_code", "read_u8"))
        }
    }

    /// Decodes the attribute that `buffer` holds at position `offset`. Where
    /// no valid type code stands there, the attributes of the record have
    /// ended and there is nothing to decode.
    pub fn from_buffer(buffer: &[u8], offset: u64) -> (r: Result<Option<Attribute>, Error>)
        ensures
            is_attribute_outcome(r, attribute_outcome(buffer@, offset as int)),
    {
        let type_code = field_u32(buffer, offset, "type_code")?;
        if !Attribute::is_valid_type_code(type_code) {
            return Ok(None);
        }
        let record_len = field_u32(buffer, advance(offset, 4), "record_len")?;
        let form_code = field_u8(buffer, advance(offset, 8), "form_code")?;
        let name_len = field_u8(buffer, advance(offset, 9), "name_len")?;
        let name_offset = field_u16(buffer, advance(offset, 10), "name_offset")?;
        let flags = field_u16(buffer, advance(offset, 12), "flags")?;
        let instance = field_u16(buffer, advance(offset, 14), "instance")?;
        let data = Attribute::data_from_buffer(buffer, offset, form_code)?;
        let name = if name_len > 0 {
            Some(read_name(buffer, advance(offset, name_offset as u64), name_len)?)
        } else {
            None
        };
        Ok(
            Some(
                Attribute {
                    offset,
                    type_code,
                    record_len,
                    form_code,
                    name_len,
                    name_offset,
                    name,
                    flags,
                    instance,
                    data,
                },
            ),
        )
    }
}

} // verus!
