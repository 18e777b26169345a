//! One record of the table: its header, with the sector ends restored, and
//! the attributes that follow it.
use crate::bytes::{advance, has_bytes, in_bounds, position};
use crate::error::{
    buffer_fill_failure, invalid_value_failure, plain, viewed, Error, ErrorView,
};
use crate::raw::attribute::{attribute_outcome, valid_type_code, Attribute, AttributeView};
use crate::raw::header::{header_at, header_failure, Header, HEADER_FIELDS_SIZE, HEADER_SIZE};
use crate::MFT_RECORD_SIZE;
use vstd::prelude::*;
use vstd::slice::{slice_subrange, slice_to_vec};

verus! {

/// Number of bytes in a sector. The last two bytes of each sector of a
/// stored record are kept in the record's fixup array.
pub const SECTOR_SIZE: u64 = 512;

/// A record of the table. `offset` is its position in the table and
/// `entry_n` its number, counted from zero.
#[derive(Debug)]
pub struct Entry {
    pub offset: u64,
    pub entry_n: u64,
    pub header: Header,
    pub attributes: Vec<Attribute>,
}

/// What an [`Entry`] holds, with each attribute taken by its view.
pub struct EntryView {
    pub offset: u64,
    pub entry_n: u64,
    pub header: Header,
    pub attributes: Seq<AttributeView>,
}

/// The views of a sequence of attributes.
pub open spec fn attribute_views(attributes: Seq<Attribute>) -> Seq<AttributeView> {
    attributes.map_values(|a: Attribute| a@)
}

impl View for Entry {
    type V = EntryView;

    open spec fn view(&self) -> EntryView {
        EntryView {
            offset: self.offset,
            entry_n: self.entry_n,
            header: self.header,
            attributes: attribute_views(self.attributes@),
        }
    }
}

/// The bytes of the table from which the header at `offset` is decoded: the
/// 48 bytes from `offset` on, or as many as the table still holds.
pub open spec fn header_bytes(data: Seq<u8>, offset: int) -> Seq<u8> {
    if offset >= data.len() {
        Seq::empty()
    } else if offset + HEADER_SIZE <= data.len() {
        data.subrange(offset, offset + HEADER_SIZE)
    } else {
        data.subrange(offset, data.len() as int)
    }
}

/// What decoding the header of the record at `offset` gives.
pub open spec fn header_outcome(data: Seq<u8>, offset: int) -> Result<Header, ErrorView> {
    let bytes = header_bytes(data, offset);
    if bytes.len() >= HEADER_FIELDS_SIZE {
        Ok(header_at(bytes))
    } else {
        Err(header_failure(bytes.len()))
    }
}

/// True when the byte at position `k` of a record of `len` bytes is one
/// that the fixup array of `count` entries replaces: one of the last two
/// bytes of a sector that lies wholly in the record and has an entry.
pub open spec fn is_fixup_position(len: int, count: int, k: int) -> bool {
    &&& k % (SECTOR_SIZE as int) >= SECTOR_SIZE - 2
    &&& k / (SECTOR_SIZE as int) + 1 <= count
    &&& (k / (SECTOR_SIZE as int) + 1) * SECTOR_SIZE <= len
}

/// Position in the stored record of the byte that replaces the byte at
/// position `k`, for a fixup array that begins at `fixup_offset`. Entry zero
/// of the array holds the sequence number, entry `i` the end of sector `i`.
pub open spec fn fixup_source(fixup_offset: int, k: int) -> int {
    fixup_offset + 2 * (k / (SECTOR_SIZE as int) + 1) + (k % (SECTOR_SIZE as int) - (SECTOR_SIZE
        - 2))
}

/// The stored record `raw` with the ends of its sectors restored from the
/// fixup array: `count` entries of two bytes after the first, from position
/// `fixup_offset` on.
pub open spec fn apply_fixups(raw: Seq<u8>, fixup_offset: int, count: int) -> Seq<u8> {
    Seq::new(
        raw.len(),
        |k: int|
            if is_fixup_position(raw.len() as int, count, k) {
                raw[fixup_source(fixup_offset, k)]
            } else {
                raw[k]
            },
    )
}

/// The bytes of the record at `offset` whose header is `header`, with the
/// sector ends restored; or the failure to read them. The record must hold
/// at least its header, lie in the table, and hold its whole fixup array.
pub open spec fn fixed_record(data: Seq<u8>, offset: int, header: Header) -> Result<
    Seq<u8>,
    ErrorView,
> {
    let total = header.total_entry_size as int;
    let fixup_offset = header.offset_to_fixup as int;
    let fixup_len = 2 * header.num_of_fixup + 2;
    if total < HEADER_SIZE {
        Err(invalid_value_failure("total_entry_size"@, "read_u32"@))
    } else if !has_bytes(data, offset, total) {
        Err(buffer_fill_failure(position(offset + HEADER_SIZE), (total - HEADER_SIZE) as u64))
    } else if fixup_offset + fixup_len > total {
        Err(buffer_fill_failure(position(offset + fixup_offset), fixup_len as u64))
    } else {
        Ok(
            apply_fixups(
                data.subrange(offset, offset + total),
                fixup_offset,
                header.num_of_fixup as int,
            ),
        )
    }
}

/// The bytes of the record at `offset`: one slot as it is stored where the
/// header is zeroed, else the record with its sector ends restored.
pub open spec fn record_bytes(data: Seq<u8>, offset: int) -> Result<Seq<u8>, ErrorView> {
    match header_outcome(data, offset) {
        Err(e) => Err(e),
        Ok(header) => if header.zeroed() {
            if has_bytes(data, offset, MFT_RECORD_SIZE as int) {
                Ok(data.subrange(offset, offset + MFT_RECORD_SIZE))
            } else {
                Err(
                    buffer_fill_failure(
                        position(offset + HEADER_SIZE),
                        (MFT_RECORD_SIZE - HEADER_SIZE) as u64,
                    ),
                )
            }
        } else {
            fixed_record(data, offset, header)
        },
    }
}

/// Number of bytes between `at` and the end of a buffer of `len` bytes.
pub open spec fn remaining(len: int, at: int) -> nat {
    if at <= len {
        (len - at) as nat
    } else {
        0
    }
}

/// `first` followed by what `rest` gives, or the failure of `rest`.
pub open spec fn followed_by(
    first: Seq<AttributeView>,
    rest: Result<Seq<AttributeView>, ErrorView>,
) -> Result<Seq<AttributeView>, ErrorView> {
    match rest {
        Ok(attributes) => Ok(first + attributes),
        Err(e) => Err(e),
    }
}

/// The attributes of a record, decoded one after the other from position
/// `at` on. Each begins where the one before it ends. They end at the first
/// position that holds no valid type code, or an attribute of length zero.
pub open spec fn attributes_from(b: Seq<u8>, at: int) -> Result<Seq<AttributeView>, ErrorView>
    decreases remaining(b.len() as int, at),
{
    match attribute_outcome(b, at) {
        Err(e) => Err(e),
        Ok(None) => Ok(Seq::empty()),
        Ok(Some(attribute)) => if attribute.record_len == 0 {
            Ok(Seq::empty())
        } else {
            followed_by(seq![attribute], attributes_from(b, at + attribute.record_len))
        },
    }
}

/// The record at position `offset` of the table, numbered `entry_n`.
pub open spec fn entry_at(data: Seq<u8>, offset: u64, entry_n: u64) -> Result<
    EntryView,
    ErrorView,
> {
    match header_outcome(data, offset as int) {
        Err(e) => Err(e),
        Ok(header) => if header.zeroed() {
            Ok(EntryView { offset, entry_n, header, attributes: Seq::empty() })
        } else {
            match fixed_record(data, offset as int, header) {
                Err(e) => Err(e),
                Ok(bytes) => match attributes_from(bytes, header.attrs_offset as int) {
                    Err(e) => Err(e),
                    Ok(attributes) => Ok(EntryView { offset, entry_n, header, attributes }),
                },
            }
        },
    }
}

/// Position of the record that follows `prev`, or of the first record.
pub open spec fn next_offset(prev: Option<EntryView>) -> int {
    match prev {
        Some(entry) => entry.offset + entry.header.record_size(),
        None => 0,
    }
}

/// Number of the record that follows `prev`, or of the first record.
pub open spec fn next_entry_n(prev: Option<EntryView>) -> int {
    match prev {
        Some(entry) => entry.entry_n + 1,
        None => 0,
    }
}

/// The view of a record that may be there.
pub open spec fn entry_view(entry: Option<Entry>) -> Option<EntryView> {
    match entry {
        Some(e) => Some(e@),
        None => None,
    }
}

/// True when the attribute `a` is one that a record of `size` bytes can
/// hold: its type code is valid, its length is not zero, its fields lie in
/// the record, and a further type code can be read behind it.
pub open spec fn attribute_in_record(a: AttributeView, size: int) -> bool {
    &&& valid_type_code(a.type_code)
    &&& a.record_len > 0
    &&& a.form_code == a.data.form_code()
    &&& a.offset + a.data.fields_end() <= size
    &&& a.offset + a.record_len + 4 <= size
}

/// True when the first of `attributes` stands at `start` and each of the
/// others where the one before it ends.
pub open spec fn chained(attributes: Seq<AttributeView>, start: int) -> bool {
    &&& attributes.len() > 0 ==> attributes[0].offset == start
    &&& forall|i: int|
        0 <= i < attributes.len() - 1 ==> (#[trigger] attributes[i + 1]).offset
            == attributes[i].offset + attributes[i].record_len
}

impl EntryView {
    /// Number of bytes that the record occupies in the table.
    pub open spec fn record_size(self) -> int {
        self.header.record_size()
    }

    /// True when the attributes are such as the record can hold, one behind
    /// the other from the position that the header gives, and none where
    /// the header is zeroed.
    pub open spec fn well_formed(self) -> bool {
        &&& self.header.zeroed() ==> self.attributes.len() == 0
        &&& forall|i: int|
            0 <= i < self.attributes.len() ==> attribute_in_record(
                #[trigger] self.attributes[i],
                self.header.total_entry_size as int,
            )
        &&& chained(self.attributes, self.header.attrs_offset as int)
    }
}

/// The attributes that are decoded from a buffer lie in it, one behind the
/// other, and each has a length that is not zero.
pub proof fn lemma_attributes_lie_in_buffer(b: Seq<u8>, at: int)
    requires
        0 <= at,
        b.len() <= u64::MAX,
        attributes_from(b, at) is Ok,
    ensures
        chained(attributes_from(b, at)->Ok_0, at),
        forall|i: int|
            0 <= i < attributes_from(b, at)->Ok_0.len() ==> attribute_in_record(
                #[trigger] attributes_from(b, at)->Ok_0[i],
                b.len() as int,
            ),
    decreases remaining(b.len() as int, at),
{
    let all = attributes_from(b, at)->Ok_0;
    match attribute_outcome(b, at) {
        Ok(Some(attribute)) => {
            if attribute.record_len != 0 {
                let next = at + attribute.record_len;
                lemma_attributes_lie_in_buffer(b, next);
                let rest = attributes_from(b, next)->Ok_0;
                assert(all == seq![attribute] + rest);
                assert(attribute_outcome(b, next) is Ok);
                assert(has_bytes(b, next, 4));
                assert(attribute_in_record(attribute, b.len() as int));
                assert forall|i: int| 0 <= i < all.len() implies attribute_in_record(
                    #[trigger] all[i],
                    b.len() as int,
                ) by {
                    if i > 0 {
                        assert(all[i] == rest[i - 1]);
                    }
                }
                assert forall|i: int| 0 <= i < all.len() - 1 implies (#[trigger] all[i
                    + 1]).offset == all[i].offset + all[i].record_len by {
                    assert(all[i + 1] == rest[i]);
                    if i > 0 {
                        assert(all[i] == rest[i - 1]);
                        assert(rest[(i - 1) + 1] == rest[i]);
                    }
                }
            }
        },
        _ => {},
    }
}

/// A record that is decoded from the table stands where it was looked for,
/// carries the number it was given, and is well formed.
pub proof fn lemma_entry_well_formed(data: Seq<u8>, offset: u64, entry_n: u64)
    requires
        entry_at(data, offset, entry_n) is Ok,
    ensures
        entry_at(data, offset, entry_n)->Ok_0.offset == offset,
        entry_at(data, offset, entry_n)->Ok_0.entry_n == entry_n,
        Ok::<Header, ErrorView>(entry_at(data, offset, entry_n)->Ok_0.header) == header_outcome(
            data,
            offset as int,
        ),
        entry_at(data, offset, entry_n)->Ok_0.well_formed(),
        !entry_at(data, offset, entry_n)->Ok_0.header.zeroed() ==> has_bytes(
            data,
            offset as int,
            entry_at(data, offset, entry_n)->Ok_0.record_size(),
        ),
{
    let header = header_outcome(data, offset as int)->Ok_0;
    if !header.zeroed() {
        let bytes = fixed_record(data, offset as int, header)->Ok_0;
        lemma_attributes_lie_in_buffer(bytes, header.attrs_offset as int);
    }
}

/// A record with a zeroed header has no attributes, and the record behind
/// it begins one slot further on, whatever size the header gives.
pub proof fn lemma_zeroed_record(data: Seq<u8>, offset: u64, entry_n: u64)
    requires
        header_outcome(data, offset as int) is Ok,
        header_outcome(data, offset as int)->Ok_0.zeroed(),
    ensures
        entry_at(data, offset, entry_n) == Ok::<EntryView, ErrorView>(
            EntryView {
                offset,
                entry_n,
                header: header_outcome(data, offset as int)->Ok_0,
                attributes: Seq::empty(),
            },
        ),
        next_offset(Some(entry_at(data, offset, entry_n)->Ok_0)) == offset + MFT_RECORD_SIZE,
        next_entry_n(Some(entry_at(data, offset, entry_n)->Ok_0)) == entry_n + 1,
{
}

/// The record behind a record that begins at a whole number of slots and
/// occupies a whole number of slots begins at a whole number of slots too.
pub proof fn lemma_next_record_on_slot(prev: EntryView)
    requires
        prev.offset % MFT_RECORD_SIZE == 0,
        prev.record_size() % (MFT_RECORD_SIZE as int) == 0,
    ensures
        next_offset(Some(prev)) % (MFT_RECORD_SIZE as int) == 0,
        prev.entry_n == prev.offset / MFT_RECORD_SIZE && prev.record_size() == MFT_RECORD_SIZE
            ==> next_entry_n(Some(prev)) == next_offset(Some(prev)) / (MFT_RECORD_SIZE as int),
{
}

/// Where the bytes of a record can be read, they hold at least a header,
/// and the header of the record can be decoded.
pub proof fn lemma_record_bytes_hold_header(data: Seq<u8>, offset: int)
    requires
        0 <= offset,
        record_bytes(data, offset) is Ok,
    ensures
        record_bytes(data, offset)->Ok_0.len() >= HEADER_SIZE,
        header_outcome(data, offset) is Ok,
{
}

/// What stands at a position that no 64-bit number names stands at the last
/// position too: nothing can be decoded at either.
proof fn lemma_attributes_past_end(b: Seq<u8>, at: int)
    requires
        b.len() <= u64::MAX,
        at > u64::MAX,
    ensures
        attributes_from(b, at) == attributes_from(b, u64::MAX as int),
{
}

/// Decodes the header of the record at `offset`.
fn read_header(data: &[u8], offset: u64) -> (r: Result<Header, Error>)
    ensures
        plain(r) == header_outcome(data@, offset as int),
{
    let len: u64 = data.len() as u64;
    let start: u64 = if offset > len {
        len
    } else {
        offset
    };
    let end: u64 = if len - start >= HEADER_SIZE {
        start + HEADER_SIZE
    } else {
        len
    };
    let bytes = slice_subrange(data, start as usize, end as usize);
    assert(bytes@ =~= header_bytes(data@, offset as int));
    Header::from_buffer(bytes)
}

/// Reads the record at `offset` whose header is `header` and restores the
/// ends of its sectors.
fn read_fixed(data: &[u8], offset: u64, header: &Header) -> (r: Result<Vec<u8>, Error>)
    ensures
        viewed(r) == fixed_record(data@, offset as int, *header),
{
    let total: u64 = header.total_entry_size as u64;
    if total < HEADER_SIZE {
        return Err(Error::invalid_value("total_entry_size", "read_u32"));
    }
    if !in_bounds(data, offset, total) {
        return Err(Error::buffer_fill(advance(offset, HEADER_SIZE), total - HEADER_SIZE));
    }
    let count: u64 = header.num_of_fixup as u64;
    let fixup_offset: u64 = header.offset_to_fixup as u64;
    let fixup_len: u64 = 2 * count + 2;
    if fixup_offset + fixup_len > total {
        return Err(Error::buffer_fill(advance(offset, fixup_offset), fixup_len));
    }
    let start: usize = offset as usize;
    let raw = slice_subrange(data, start, start + total as usize);
    let fix_up = slice_to_vec(
        slice_subrange(raw, fixup_offset as usize, (fixup_offset + fixup_len) as usize),
    );
    let mut buffer = slice_to_vec(raw);
    assert(buffer@ =~= apply_fixups(raw@, fixup_offset as int, 0));
    let mut i: u64 = 1;
    while i <= count && i * SECTOR_SIZE <= total
        invariant
            1 <= i <= count + 1,
            count <= 0xffff,
            total == raw@.len(),
            total <= 0xffff_ffff,
            fixup_len == 2 * count + 2,
            fixup_offset + fixup_len <= total,
            fix_up@ == raw@.subrange(fixup_offset as int, fixup_offset + fixup_len),
            buffer@ == apply_fixups(raw@, fixup_offset as int, i - 1),
        decreases count + 1 - i,
    {
        let ghost before = buffer@;
        let end: u64 = i * SECTOR_SIZE;
        buffer.set((end - 2) as usize, fix_up[(2 * i) as usize]);
        buffer.set((end - 1) as usize, fix_up[(2 * i + 1) as usize]);
        assert(buffer@ =~= apply_fixups(raw@, fixup_offset as int, i as int)) by {
            assert forall|k: int| 0 <= k < total implies buffer@[k] == apply_fixups(
                raw@,
                fixup_offset as int,
                i as int,
            )[k] by {
                if k == end - 2 || k == end - 1 {
                    assert(k / (SECTOR_SIZE as int) == i - 1);
                    assert(is_fixup_position(total as int, i as int, k));
                } else {
                    assert(buffer@[k] == before[k]);
                    assert(is_fixup_position(total as int, i as int, k) == is_fixup_position(
                        total as int,
                        i - 1,
                        k,
                    ));
                }
            }
        }
        i = i + 1;
    }
    assert(buffer@ =~= apply_fixups(raw@, fixup_offset as int, count as int)) by {
        assert forall|k: int| 0 <= k < total implies is_fixup_position(
            total as int,
            count as int,
            k,
        ) == is_fixup_position(total as int, i - 1, k) by {
            if i <= count {
                if k / (SECTOR_SIZE as int) + 1 >= i {
                    assert((k / (SECTOR_SIZE as int) + 1) * SECTOR_SIZE >= i * SECTOR_SIZE);
                }
            }
        }
    }
    Ok(buffer)
}

/// Decodes the attributes of a record from position `start` on.
fn read_attributes(buffer: &[u8], start: u64) -> (r: Result<Vec<Attribute>, Error>)
    ensures
        match r {
            Ok(attributes) => attributes_from(buffer@, start as int) == Ok::<
                Seq<AttributeView>,
                ErrorView,
            >(attribute_views(attributes@)),
            Err(e) => attributes_from(buffer@, start as int) == Err::<
                Seq<AttributeView>,
                ErrorView,
            >(e@),
        },
{
    let mut attributes: Vec<Attribute> = Vec::new();
    let mut offset: u64 = start;
    let mut done = false;
    assert(attribute_views(attributes@) =~= Seq::empty());
    assert(Seq::<AttributeView>::empty() + Seq::<AttributeView>::empty() =~= Seq::empty());
    assert(buffer@.len() == buffer.len());
    while !done
        invariant
            buffer@.len() <= usize::MAX,
            followed_by(
                attribute_views(attributes@),
                if done {
                    Ok(Seq::empty())
                } else {
                    attributes_from(buffer@, offset as int)
                },
            ) == attributes_from(buffer@, start as int),
        decreases remaining(buffer@.len() as int, offset as int) + if done { 0nat } else { 1nat },
    {
        let ghost before = attribute_views(attributes@);
        let ghost tail = attributes_from(buffer@, offset as int);
        match Attribute::from_buffer(buffer, offset)? {
            None => {
                done = true;
            },
            Some(attribute) => {
                if attribute.record_len == 0 {
                    done = true;
                } else {
                    let ghost next = offset + attribute.record_len;
                    proof {
                        if next > u64::MAX {
                            lemma_attributes_past_end(buffer@, next);
                        }
                    }
                    offset = advance(offset, attribute.record_len as u64);
                    let ghost view = attribute@;
                    attributes.push(attribute);
                    assert(attribute_views(attributes@) =~= before + seq![view]);
                    let ghost rest = attributes_from(buffer@, offset as int);
                    proof {
                        assert(tail == followed_by(seq![view], rest));
                        if rest is Ok {
                            assert((before + seq![view]) + rest->Ok_0 =~= before + (seq![view]
                                + rest->Ok_0));
                        }
                    }
                }
            },
        }
    }
    assert(attribute_views(attributes@) + Seq::<AttributeView>::empty() =~= attribute_views(
        attributes@,
    ));
    Ok(attributes)
}

impl Entry {
    /// The bytes of the record at `offset`. Where the header is zeroed these
    /// are the bytes of one slot as stored. Else they are the bytes of the
    /// record, as many as its header says, with the last two bytes of each
    /// sector replaced by the entry of the fixup array that holds them.
    pub fn get_entry_bytes(data: &[u8], offset: u64) -> (r: Result<Vec<u8>, Error>)
        ensures
            viewed(r) == record_bytes(data@, offset as int),
    {
        let header = read_header(data, offset)?;
        if header.is_zeroed() {
            if !in_bounds(data, offset, MFT_RECORD_SIZE) {
                return Err(
                    Error::buffer_fill(advance(offset, HEADER_SIZE), MFT_RECORD_SIZE - HEADER_SIZE),
                );
            }
            let start: usize = offset as usize;
            return Ok(slice_to_vec(slice_subrange(data, start, start + MFT_RECORD_SIZE as usize)));
        }
        read_fixed(data, offset, &header)
    }

    /// Decodes the record that follows `prev_entry` in the table, or the
    /// first record where there is none before it. A record with a zeroed
    /// header has no attributes and none of its bytes past the header are
    /// looked at.
    pub fn from_reader(data: &[u8], prev_entry: Option<Entry>) -> (r: Result<Entry, Error>)
        requires
            next_offset(entry_view(prev_entry)) <= u64::MAX,
            next_entry_n(entry_view(prev_entry)) <= u64::MAX,
        ensures
            viewed(r) == entry_at(
                data@,
                next_offset(entry_view(prev_entry)) as u64,
                next_entry_n(entry_view(prev_entry)) as u64,
            ),
            r is Ok ==> {
                &&& r->Ok_0.offset == next_offset(entry_view(prev_entry))
                &&& r->Ok_0.entry_n == next_entry_n(entry_view(prev_entry))
                &&& r->Ok_0@.well_formed()
                &&& forall|i: int|
                    0 <= i < r->Ok_0@.attributes.len() ==> (
                    #[trigger] r->Ok_0@.attributes[i]).record_len != 0
                &&& r->Ok_0.header.zeroed() ==> r->Ok_0@.attributes.len() == 0 && next_offset(
                    Some(r->Ok_0@),
                ) == r->Ok_0.offset + MFT_RECORD_SIZE
            },
    {
        proof {
            let offset = next_offset(entry_view(prev_entry)) as u64;
            let entry_n = next_entry_n(entry_view(prev_entry)) as u64;
            if entry_at(data@, offset, entry_n) is Ok {
                lemma_entry_well_formed(data@, offset, entry_n);
                let entry = entry_at(data@, offset, entry_n)->Ok_0;
                assert forall|i: int| 0 <= i < entry.attributes.len() implies (
                #[trigger] entry.attributes[i]).record_len != 0 by {
                    assert(attribute_in_record(
                        entry.attributes[i],
                        entry.header.total_entry_size as int,
                    ));
                }
            }
        }
        let (offset, entry_n): (u64, u64) = match &prev_entry {
            Some(prev) => {
                let size: u64 = if prev.header.is_zeroed() {
                    MFT_RECORD_SIZE
                } else {
                    prev.header.total_entry_size as u64
                };
                (prev.offset + size, prev.entry_n + 1)
            },
            None => (0, 0),
        };
        let header = read_header(data, offset)?;
        if header.is_zeroed() {
            let entry = Entry { offset, entry_n, header, attributes: Vec::new() };
            assert(entry@.attributes =~= Seq::empty());
            return Ok(entry);
        }
        let buffer = read_fixed(data, offset, &header)?;
        let attributes = read_attributes(buffer.as_slice(), header.attrs_offset as u64)?;
        Ok(Entry { offset, entry_n, header, attributes })
    }
}

} // verus!
