//! The 64-bit pointer from one record of the table to another.
use vstd::prelude::*;
use vstd::std_specs::cmp::PartialEqSpecImpl;
use vstd::std_specs::convert::FromSpecImpl;

verus! {

/// Number of values that the 48-bit record index of a reference can take.
pub const ENTRY_SPAN: u64 = 0x1_0000_0000_0000;

/// Index of the record that holds the root directory.
pub const ROOT_ENTRY: u64 = 5;

/// A pointer to a record: the record's index in the table, and the count of
/// times that slot had been reused when the pointer was made.
/// Two references are equal when they name the same record.
#[derive(Clone, Copy, Debug)]
pub struct FileReference {
    pub entry: u64,
    pub sequence: u16,
}

impl FromSpecImpl<u64> for FileReference {
    open spec fn obeys_from_spec() -> bool {
        true
    }

    open spec fn from_spec(value: u64) -> FileReference {
        FileReference::split(value)
    }
}

impl From<u64> for FileReference {
    /// Splits a raw reference: the low 48 bits are the record index, the
    /// high 16 bits the sequence number.
    fn from(value: u64) -> (r: FileReference) {
        FileReference {
            entry: value % ENTRY_SPAN,
            sequence: (value / ENTRY_SPAN) as u16,
        }
    }
}

impl PartialEqSpecImpl for FileReference {
    open spec fn obeys_eq_spec() -> bool {
        true
    }

    open spec fn eq_spec(&self, other: &FileReference) -> bool {
        self.same_record(*other)
    }
}

impl PartialEq for FileReference {
    fn eq(&self, other: &FileReference) -> (r: bool) {
        self.entry == other.entry
    }
}

impl PartialEqSpecImpl<u64> for FileReference {
    open spec fn obeys_eq_spec() -> bool {
        true
    }

    open spec fn eq_spec(&self, other: &u64) -> bool {
        self.names(*other)
    }
}

impl PartialEq<u64> for FileReference {
    fn eq(&self, other: &u64) -> (r: bool) {
        self.entry == *other
    }
}

impl FileReference {
    /// The reference that a raw 64-bit value holds: the low 48 bits are the
    /// record index, the high 16 bits the sequence number. This is what
    /// `FileReference::from` returns.
    pub open spec fn split(value: u64) -> FileReference {
        FileReference {
            entry: (value % ENTRY_SPAN) as u64,
            sequence: (value / ENTRY_SPAN) as u16,
        }
    }

    /// What `==` between two references means: they name the same record.
    pub open spec fn same_record(self, other: FileReference) -> bool {
        self.entry == other.entry
    }

    /// What `==` between a reference and a record index means.
    pub open spec fn names(self, entry: u64) -> bool {
        self.entry == entry
    }

    /// The raw 64-bit value that splits into this reference.
    pub open spec fn raw(self) -> int {
        self.entry + self.sequence * ENTRY_SPAN
    }
}

/// Splitting a raw reference loses nothing: the index is the low 48 bits, the
/// sequence number the high 16 bits, and together they give the value back.
pub proof fn lemma_split_round_trips(value: u64)
    ensures
        FileReference::split(value).entry == value % ENTRY_SPAN,
        FileReference::split(value).sequence == value / ENTRY_SPAN,
        FileReference::split(value).entry < ENTRY_SPAN,
        FileReference::split(value).raw() == value,
{
}

/// Every reference whose index fits in 48 bits comes out of the raw value
/// that it stands for.
pub proof fn lemma_raw_round_trips(reference: FileReference)
    requires
        reference.entry < ENTRY_SPAN,
    ensures
        0 <= reference.raw() <= u64::MAX,
        FileReference::split(reference.raw() as u64) == reference,
{
    let raw = reference.raw();
    assert(raw / (ENTRY_SPAN as int) == reference.sequence && raw % (ENTRY_SPAN as int)
        == reference.entry) by (nonlinear_arith)
        requires
            raw == reference.entry + reference.sequence * ENTRY_SPAN,
            0 <= reference.entry < ENTRY_SPAN,
            ENTRY_SPAN == 0x1_0000_0000_0000,
    ;
}

/// Equality of references looks at the record index alone: two references
/// to one record are equal whatever their sequence numbers.
pub proof fn lemma_equality_ignores_sequence(a: FileReference, b: FileReference)
    ensures
        a.same_record(b) <==> a.entry == b.entry,
        a.same_record(FileReference { entry: a.entry, sequence: b.sequence }),
        a.names(b.entry) <==> a.same_record(b),
{
}

} // verus!
