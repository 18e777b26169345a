//! The fixed header that every record of the table begins with.
use crate::bytes::{field_u16, field_u32, field_u64, in_bounds, u16_at, u32_at, u64_at};
use crate::error::{fails_with, value_read_failure, Error, ErrorView};
use crate::raw::file_reference::FileReference;
use crate::MFT_RECORD_SIZE;
use vstd::prelude::*;

verus! {

/// Number of bytes that are read to decode a header.
pub const HEADER_SIZE: u64 = 48;

/// Number of leading bytes that the fields of a header occupy.
pub const HEADER_FIELDS_SIZE: u64 = 42;

/// The header of a record.
#[derive(Debug)]
pub struct Header {
    pub sig: [u8; 4],
    pub offset_to_fixup: u16,
    pub num_of_fixup: u16,
    pub log_sequence_number: u64,
    pub sequence_number: u16,
    pub link_count: u16,
    pub attrs_offset: u16,
    pub flags: u16,
    pub used_entry_size: u32,
    pub total_entry_size: u32,
    pub base_mft_record: FileReference,
    pub next_attr_id: u16,
}

/// The header that the bytes `b` hold.
pub open spec fn header_at(b: Seq<u8>) -> Header
    recommends
        b.len() >= HEADER_FIELDS_SIZE,
{
    Header {
        sig: [b[0], b[1], b[2], b[3]],
        offset_to_fixup: u16_at(b, 4),
        num_of_fixup: u16_at(b, 6),
        log_sequence_number: u64_at(b, 8),
        sequence_number: u16_at(b, 16),
        link_count: u16_at(b, 18),
        attrs_offset: u16_at(b, 20),
        flags: u16_at(b, 22),
        used_entry_size: u32_at(b, 24),
        total_entry_size: u32_at(b, 28),
        base_mft_record: FileReference::split(u64_at(b, 32)),
        next_attr_id: u16_at(b, 40),
    }
}

/// The failure that decoding a header ends in when only `len` bytes are
/// there: it names the first field that the bytes do not reach.
pub open spec fn header_failure(len: nat) -> ErrorView
    recommends
        len < HEADER_FIELDS_SIZE,
{
    if len < 4 {
        value_read_failure("sig_buffer"@, "read_u8 * 4"@)
    } else if len < 6 {
        value_read_failure("offset_to_fixup"@, "read_u16"@)
    } else if len < 8 {
        value_read_failure("num_of_fixup"@, "read_u16"@)
    } else if len < 16 {
        value_read_failure("log_sequence_number"@, "read_u64"@)
    } else if len < 18 {
        value_read_failure("sequence_number"@, "read_u16"@)
    } else if len < 20 {
        value_read_failure("link_count"@, "read_u16"@)
    } else if len < 22 {
        value_read_failure("attrs_offset"@, "read_u16"@)
    } else if len < 24 {
        value_read_failure("flags"@, "read_u16"@)
    } else if len < 28 {
        value_read_failure("used_entry_size"@, "read_u32"@)
    } else if len < 32 {
        value_read_failure("total_entry_size"@, "read_u32"@)
    } else if len < 40 {
        value_read_failure("record"@, "read_u64"@)
    } else {
        value_read_failure("next_attr_id"@, "read_u16"@)
    }
}

impl Header {
    /// True when every field but `total_entry_size` is zero: the slot is unused.
    pub open spec fn zeroed(&self) -> bool {
        &&& self.sig@ == seq![0u8, 0u8, 0u8, 0u8]
        &&& self.offset_to_fixup == 0
        &&& self.num_of_fixup == 0
        &&& self.log_sequence_number == 0
        &&& self.sequence_number == 0
        &&& self.link_count == 0
        &&& self.attrs_offset == 0
        &&& self.flags == 0
        &&& self.used_entry_size == 0
        &&& self.base_mft_record.entry == 0
        &&& self.next_attr_id == 0
    }

    /// Number of bytes that the record of this header occupies in the table:
    /// the size that the header gives, or that of one slot where it is zeroed.
    pub open spec fn record_size(&self) -> int {
        if self.zeroed() {
            MFT_RECORD_SIZE as int
        } else {
            self.total_entry_size as int
        }
    }

    /// True when the header marks the record as in use.
    pub open spec fn in_use(&self) -> bool {
        self.flags % 2 == 1
    }

    /// True when every field but `total_entry_size` is zero.
    #[verifier::when_used_as_spec(zeroed)]
    pub fn is_zeroed(&self) -> (zeroed: bool)
        ensures
            zeroed == self.zeroed(),
    {
        let sig_zeroed = self.sig[0] == 0 && self.sig[1] == 0 && self.sig[2] == 0 && self.sig[3]
            == 0;
        proof {
            if sig_zeroed {
                assert(self.sig@ =~= seq![0u8, 0u8, 0u8, 0u8]);
            }
        }
        sig_zeroed && self.offset_to_fixup == 0 && self.num_of_fixup == 0
            && self.log_sequence_number == 0 && self.sequence_number == 0 && self.link_count == 0
            && self.attrs_offset == 0 && self.flags == 0 && self.used_entry_size == 0
            && self.base_mft_record == 0 && self.next_attr_id == 0
    }

    /// Decodes the header that `buffer` begins with. This succeeds when the
    /// buffer holds the 42 bytes of the fields.
    pub fn from_buffer(buffer: &[u8]) -> (r: Result<Header, Error>)
        ensures
            buffer@.len() >= HEADER_FIELDS_SIZE ==> r is Ok && r->Ok_0 == header_at(buffer@),
            buffer@.len() < HEADER_FIELDS_SIZE ==> fails_with(r, header_failure(buffer@.len())),
    {
        if !in_bounds(buffer, 0, 4) {
            return Err(Error::value_read("sig_buffer", "read_u8 * 4"));
        }
        let sig: [u8; 4] = [buffer[0], buffer[1], buffer[2], buffer[3]];
        assert(sig =~= header_at(buffer@).sig);
        let offset_to_fixup = field_u16(buffer, 4, "offset_to_fixup")?;
        let num_of_fixup = field_u16(buffer, 6, "num_of_fixup")?;
        let log_sequence_number = field_u64(buffer, 8, "log_sequence_number")?;
        let sequence_number = field_u16(buffer, 16, "sequence_number")?;
        let link_count = field_u16(buffer, 18, "link_count")?;
        let attrs_offset = field_u16(buffer, 20, "attrs_offset")?;
        let flags = field_u16(buffer, 22, "flags")?;
        let used_entry_size = field_u32(buffer, 24, "used_entry_size")?;
        let total_entry_size = field_u32(buffer, 28, "total_entry_size")?;
        let record = field_u64(buffer, 32, "record")?;
        let base_mft_record = FileReference::from(record);
        let next_attr_id = field_u16(buffer, 40, "next_attr_id")?;
        Ok(
            Header {
                sig,
                offset_to_fixup,
                num_of_fixup,
                log_sequence_number,
                sequence_number,
                link_count,
                attrs_offset,
                flags,
                used_entry_size,
                total_entry_size,
                base_mft_record,
                next_attr_id,
            },
        )
    }
}

} // verus!
