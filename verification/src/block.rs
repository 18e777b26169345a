//! The index of the table: for each record, where it and the data of each of
//! its attributes lie.
use crate::error::Error;
use crate::raw::attribute::{AttributeData, AttributeView, NON_RESIDENT_DATA_OFFSET};
use crate::raw::entry::{attribute_in_record, attribute_views, Entry, EntryView};
use vstd::prelude::*;
use vstd::string::StringExecFns;

verus! {

/// What a pointer of the index points at.
#[derive(Debug, PartialEq, Eq, Clone, Copy, Structural)]
pub enum BlockType {
    /// The record itself.
    Entry,
    StandardInformation,
    AttributeList,
    FileName,
    ObjectId,
    SecurityDescriptor,
    VolumeName,
    VolumeInformation,
    Data,
    IndexRoot,
    IndexAllocation,
    Bitmap,
    ReparsePoint,
    EaInformation,
    Ea,
    PropertySet,
    LoggedUtilityStream,
    /// The mark that ends the attributes of a record.
    End,
    UnknownAttribute,
    /// The data of a `Data` attribute that is named `Zone.Identifier`.
    ZoneIdentifier,
}

/// Where one part of a record lies in the table.
#[derive(Debug, PartialEq, Eq, Clone, Copy, Structural)]
pub struct SectionPointer {
    pub block_type: BlockType,
    pub is_resident: bool,
    pub attribute_id: Option<u16>,
    pub offset: u64,
    pub size: u64,
}

/// The pointers of one record: first the one to the record itself, then
/// those to the data of its attributes, in the order of the attributes.
#[derive(Debug, Clone)]
pub struct Block {
    pub blocks: Vec<SectionPointer>,
    pub entry_id: u64,
}

/// The kind of pointer that stands for an attribute with the type code
/// `type_code`.
pub open spec fn block_type_of(type_code: u32) -> BlockType {
    if type_code == 0x10 {
        BlockType::StandardInformation
    } else if type_code == 0x20 {
        BlockType::AttributeList
    } else if type_code == 0x30 {
        BlockType::FileName
    } else if type_code == 0x40 {
        BlockType::ObjectId
    } else if type_code == 0x50 {
        BlockType::SecurityDescriptor
    } else if type_code == 0x60 {
        BlockType::VolumeName
    } else if type_code == 0x70 {
        BlockType::VolumeInformation
    } else if type_code == 0x80 {
        BlockType::Data
    } else if type_code == 0x90 {
        BlockType::IndexRoot
    } else if type_code == 0xA0 {
        BlockType::IndexAllocation
    } else if type_code == 0xB0 {
        BlockType::Bitmap
    } else if type_code == 0xC0 {
        BlockType::ReparsePoint
    } else if type_code == 0xD0 {
        BlockType::EaInformation
    } else if type_code == 0xE0 {
        BlockType::Ea
    } else if type_code == 0xF0 {
        BlockType::PropertySet
    } else if type_code == 0x100 {
        BlockType::LoggedUtilityStream
    } else if type_code == 0xFFFF_FFFF {
        BlockType::End
    } else {
        BlockType::UnknownAttribute
    }
}

/// The name that marks the data of a `Data` attribute as a zone identifier.
pub open spec fn zone_identifier_name() -> Seq<char> {
    "Zone.Identifier"@
}

/// True when `a` is a `Data` attribute named `Zone.Identifier`.
pub open spec fn is_zone_identifier(a: AttributeView) -> bool {
    block_type_of(a.type_code) == BlockType::Data && a.name == Some(zone_identifier_name())
}

/// Position in the table of the data of the attribute `a` of the record at
/// `entry_offset`.
pub open spec fn data_position(entry_offset: u64, a: AttributeView) -> int {
    entry_offset + a.offset + a.data.start()
}

/// The pointer to the record `e` itself.
pub open spec fn entry_pointer(e: EntryView) -> SectionPointer {
    SectionPointer {
        block_type: BlockType::Entry,
        is_resident: true,
        attribute_id: None,
        offset: e.offset,
        size: e.header.total_entry_size as u64,
    }
}

/// The pointer to the data of the attribute `a` of the record at
/// `entry_offset`.
pub open spec fn attribute_pointer(entry_offset: u64, a: AttributeView) -> SectionPointer {
    SectionPointer {
        block_type: block_type_of(a.type_code),
        is_resident: a.data.resident(),
        attribute_id: Some(a.instance),
        offset: data_position(entry_offset, a) as u64,
        size: a.data.size(),
    }
}

/// The second pointer to the data of an attribute that is a zone identifier.
pub open spec fn zone_identifier_pointer(entry_offset: u64, a: AttributeView) -> SectionPointer {
    SectionPointer {
        block_type: BlockType::ZoneIdentifier,
        is_resident: a.data.resident(),
        attribute_id: None,
        offset: data_position(entry_offset, a) as u64,
        size: a.data.size(),
    }
}

/// The pointers that stand for one attribute: the pointer to its data, and
/// for a zone identifier a second one to the same place.
pub open spec fn pointers_of_attribute(entry_offset: u64, a: AttributeView) -> Seq<
    SectionPointer,
> {
    if is_zone_identifier(a) {
        seq![attribute_pointer(entry_offset, a), zone_identifier_pointer(entry_offset, a)]
    } else {
        seq![attribute_pointer(entry_offset, a)]
    }
}

/// The pointers that stand for a sequence of attributes, in their order.
pub open spec fn attribute_pointers(entry_offset: u64, attributes: Seq<AttributeView>) -> Seq<
    SectionPointer,
>
    decreases attributes.len(),
{
    if attributes.len() == 0 {
        Seq::empty()
    } else {
        attribute_pointers(entry_offset, attributes.drop_last()) + pointers_of_attribute(
            entry_offset,
            attributes.last(),
        )
    }
}

/// The pointers of the record `e`.
pub open spec fn pointers_of(e: EntryView) -> Seq<SectionPointer> {
    seq![entry_pointer(e)] + attribute_pointers(e.offset, e.attributes)
}

/// True when the position of the data of every attribute of `e` can be
/// written as a 64-bit number.
pub open spec fn addressable(e: EntryView) -> bool {
    forall|i: int|
        0 <= i < e.attributes.len() ==> data_position(e.offset, #[trigger] e.attributes[i])
            <= u64::MAX
}

/// True when the pointer `p` begins in the record `e`.
pub open spec fn lies_in_record(p: SectionPointer, e: EntryView) -> bool {
    e.offset <= p.offset < e.offset + e.header.total_entry_size
}

/// True when the data of the attribute `a` begins in `a` or where `a` ends.
pub open spec fn data_begins_in_attribute(a: AttributeView) -> bool {
    a.data.start() <= a.record_len
}

impl BlockType {
    /// The kind of pointer that stands for an attribute with the type code
    /// `type_code`.
    pub fn from_attribute_type_code(type_code: u32) -> (block_type: BlockType)
        ensures
            block_type == block_type_of(type_code),
    {
        match type_code {
            0x10 => BlockType::StandardInformation,
            0x20 => BlockType::AttributeList,
            0x30 => BlockType::FileName,
            0x40 => BlockType::ObjectId,
            0x50 => BlockType::SecurityDescriptor,
            0x60 => BlockType::VolumeName,
            0x70 => BlockType::VolumeInformation,
            0x80 => BlockType::Data,
            0x90 => BlockType::IndexRoot,
            0xA0 => BlockType::IndexAllocation,
            0xB0 => BlockType::Bitmap,
            0xC0 => BlockType::ReparsePoint,
            0xD0 => BlockType::EaInformation,
            0xE0 => BlockType::Ea,
            0xF0 => BlockType::PropertySet,
            0x100 => BlockType::LoggedUtilityStream,
            0xFFFF_FFFF => BlockType::End,
            _ => BlockType::UnknownAttribute,
        }
    }
}

impl Block {
    /// The pointers of the record `entry`, under the number `record_n`.
    pub fn new_with_entry(entry: &Entry, record_n: u64) -> (r: Result<Block, Error>)
        requires
            addressable(entry@),
        ensures
            r is Ok,
            r->Ok_0.entry_id == record_n,
            r->Ok_0.blocks@ == pointers_of(entry@),
    {
        let mut blocks: Vec<SectionPointer> = Vec::new();
        blocks.push(
            SectionPointer {
                block_type: BlockType::Entry,
                is_resident: true,
                attribute_id: None,
                offset: entry.offset,
                size: entry.header.total_entry_size as u64,
            },
        );
        let zone_name = String::from_str("Zone.Identifier");
        let ghost views = entry@.attributes;
        assert(views.take(0) =~= Seq::empty());
        let mut i: usize = 0;
        while i < entry.attributes.len()
            invariant
                i <= entry.attributes.len(),
                views == attribute_views(entry.attributes@),
                views == entry@.attributes,
                addressable(entry@),
                zone_name@ == zone_identifier_name(),
                blocks@ == seq![entry_pointer(entry@)] + attribute_pointers(
                    entry.offset,
                    views.take(i as int),
                ),
            decreases entry.attributes.len() - i,
        {
            let attribute = &entry.attributes[i];
            assert(views[i as int] == attribute@);
            assert(data_position(entry.offset, views[i as int]) <= u64::MAX);
            let (data_offset, data_size, is_resident): (u64, u64, bool) = match attribute.data {
                AttributeData::Resident { data_offset, data_size, .. } => (
                    entry.offset + attribute.offset + data_offset as u64,
                    data_size as u64,
                    true,
                ),
                AttributeData::NonResident { data_size, .. } => (
                    entry.offset + attribute.offset + NON_RESIDENT_DATA_OFFSET,
                    data_size,
                    false,
                ),
            };
            let block_type = BlockType::from_attribute_type_code(attribute.type_code);
            let ghost before = blocks@;
            blocks.push(
                SectionPointer {
                    block_type,
                    is_resident,
                    attribute_id: Some(attribute.instance),
                    offset: data_offset,
                    size: data_size,
                },
            );
            let named_zone_identifier = match &attribute.name {
                Some(name) => *name == zone_name,
                None => false,
            };
            if block_type == BlockType::Data && named_zone_identifier {
                blocks.push(
                    SectionPointer {
                        block_type: BlockType::ZoneIdentifier,
                        is_resident,
                        attribute_id: None,
                        offset: data_offset,
                        size: data_size,
                    },
                );
            }
            proof {
                let next = views.take(i + 1);
                assert(next.drop_last() =~= views.take(i as int));
                assert(next.last() == views[i as int]);
                assert(blocks@ =~= before + pointers_of_attribute(entry.offset, views[i as int]));
            }
            i = i + 1;
        }
        assert(views.take(i as int) =~= views);
        Ok(Block { blocks, entry_id: record_n })
    }
}

/// The pointers of a record begin with the pointer to the record itself,
/// and no other pointer is of that kind.
pub proof fn lemma_entry_pointer_first(e: EntryView)
    ensures
        pointers_of(e).len() >= 1,
        pointers_of(e)[0] == entry_pointer(e),
        forall|j: int|
            1 <= j < pointers_of(e).len() ==> (#[trigger] pointers_of(e)[j]).block_type
                != BlockType::Entry,
{
    lemma_attribute_pointers(e.offset, e.attributes);
    assert forall|j: int| 1 <= j < pointers_of(e).len() implies (#[trigger] pointers_of(
        e,
    )[j]).block_type != BlockType::Entry by {
        assert(pointers_of(e)[j] == attribute_pointers(e.offset, e.attributes)[j - 1]);
    }
}

/// Each pointer that stands for a sequence of attributes stands for one of
/// them, as its data pointer or its zone identifier pointer, and each
/// attribute has its data pointer among them.
pub proof fn lemma_attribute_pointers(entry_offset: u64, attributes: Seq<AttributeView>)
    ensures
        attributes.len() <= attribute_pointers(entry_offset, attributes).len() <= 2
            * attributes.len(),
        forall|j: int|
            0 <= j < attribute_pointers(entry_offset, attributes).len() ==> exists|i: int|
                0 <= i < attributes.len() && ({
                    ||| #[trigger] attribute_pointers(entry_offset, attributes)[j]
                        == attribute_pointer(entry_offset, #[trigger] attributes[i])
                    ||| is_zone_identifier(attributes[i]) && attribute_pointers(
                        entry_offset,
                        attributes,
                    )[j] == zone_identifier_pointer(entry_offset, attributes[i])
                }),
        forall|i: int|
            0 <= i < attributes.len() ==> attribute_pointers(entry_offset, attributes).contains(
                attribute_pointer(entry_offset, #[trigger] attributes[i]),
            ),
    decreases attributes.len(),
{
    if attributes.len() > 0 {
        let front = attributes.drop_last();
        let last = attributes.last();
        lemma_attribute_pointers(entry_offset, front);
        let all = attribute_pointers(entry_offset, attributes);
        let head = attribute_pointers(entry_offset, front);
        let tail = pointers_of_attribute(entry_offset, last);
        assert(all == head + tail);
        assert forall|j: int| 0 <= j < all.len() implies exists|i: int|
            0 <= i < attributes.len() && ({
                ||| #[trigger] all[j] == attribute_pointer(entry_offset, #[trigger] attributes[i])
                ||| is_zone_identifier(attributes[i]) && all[j] == zone_identifier_pointer(
                    entry_offset,
                    attributes[i],
                )
            }) by {
            if j < head.len() {
                assert(all[j] == head[j]);
                let i = choose|i: int|
                    0 <= i < front.len() && ({
                        ||| #[trigger] head[j] == attribute_pointer(
                            entry_offset,
                            #[trigger] front[i],
                        )
                        ||| is_zone_identifier(front[i]) && head[j] == zone_identifier_pointer(
                            entry_offset,
                            front[i],
                        )
                    });
                assert(front[i] == attributes[i]);
            } else {
                assert(all[j] == tail[j - head.len()]);
                assert(attributes[attributes.len() - 1] == last);
            }
        }
        assert forall|i: int| 0 <= i < attributes.len() implies all.contains(
            attribute_pointer(entry_offset, #[trigger] attributes[i]),
        ) by {
            if i < front.len() {
                assert(front[i] == attributes[i]);
                let j = choose|j: int|
                    0 <= j < head.len() && head[j] == attribute_pointer(entry_offset, front[i]);
                assert(all[j] == head[j]);
            } else {
                assert(all[head.len() as int] == tail[0]);
            }
        }
    }
}

/// Position among the pointers of the record `e` of the pointer to the
/// data of its attribute numbered `i`: behind the pointer to the record
/// and the pointers of the attributes before it.
pub open spec fn pointer_position(e: EntryView, i: int) -> int {
    1 + attribute_pointers(e.offset, e.attributes.take(i)).len() as int
}

/// The pointers of the first attributes of a sequence stand first among
/// the pointers of the sequence.
pub proof fn lemma_pointers_of_first(entry_offset: u64, attributes: Seq<AttributeView>, k: int)
    requires
        0 <= k <= attributes.len(),
    ensures
        attribute_pointers(entry_offset, attributes.take(k)).len() <= attribute_pointers(
            entry_offset,
            attributes,
        ).len(),
        attribute_pointers(entry_offset, attributes).take(
            attribute_pointers(entry_offset, attributes.take(k)).len() as int,
        ) == attribute_pointers(entry_offset, attributes.take(k)),
    decreases attributes.len(),
{
    let all = attribute_pointers(entry_offset, attributes);
    if k == attributes.len() {
        assert(attributes.take(k) =~= attributes);
        assert(all.take(all.len() as int) =~= all);
    } else {
        let front = attributes.drop_last();
        lemma_pointers_of_first(entry_offset, front, k);
        assert(front.take(k) =~= attributes.take(k));
        let head = attribute_pointers(entry_offset, front);
        let first = attribute_pointers(entry_offset, attributes.take(k));
        assert(all == head + pointers_of_attribute(entry_offset, attributes.last()));
        assert(all.take(first.len() as int) =~= head.take(first.len() as int));
    }
}

/// In the pointers of a record, the pointer to the data of each attribute
/// stands at its position. Behind the pointer of a `Data` attribute named
/// `Zone.Identifier` stands a pointer of the kind `ZoneIdentifier` with the
/// same offset and size. Behind the pointer of any other attribute stands
/// the pointer of the next attribute, or nothing.
pub proof fn lemma_zone_identifier_follows(e: EntryView, i: int)
    requires
        0 <= i < e.attributes.len(),
    ensures
        1 <= pointer_position(e, i) < pointers_of(e).len(),
        pointers_of(e)[pointer_position(e, i)] == attribute_pointer(e.offset, e.attributes[i]),
        is_zone_identifier(e.attributes[i]) ==> {
            let next = pointer_position(e, i) + 1;
            &&& next < pointers_of(e).len()
            &&& pointer_position(e, i + 1) == next + 1
            &&& pointers_of(e)[next].block_type == BlockType::ZoneIdentifier
            &&& pointers_of(e)[next].offset == pointers_of(e)[pointer_position(e, i)].offset
            &&& pointers_of(e)[next].size == pointers_of(e)[pointer_position(e, i)].size
        },
        !is_zone_identifier(e.attributes[i]) ==> pointer_position(e, i + 1) == pointer_position(
            e,
            i,
        ) + 1,
        pointer_position(e, e.attributes.len() as int) == pointers_of(e).len(),
{
    let attributes = e.attributes;
    let all = attribute_pointers(e.offset, attributes);
    let before = attribute_pointers(e.offset, attributes.take(i));
    let upto = attribute_pointers(e.offset, attributes.take(i + 1));
    let own = pointers_of_attribute(e.offset, attributes[i]);
    let at = before.len() as int;
    assert(attributes.take(i + 1).drop_last() =~= attributes.take(i));
    assert(attributes.take(i + 1).last() == attributes[i]);
    assert(upto == before + own);
    lemma_pointers_of_first(e.offset, attributes, i + 1);
    assert(attributes.take(attributes.len() as int) =~= attributes);
    assert(all[at] == all.take(upto.len() as int)[at]);
    assert(upto[at] == own[0]);
    assert(pointers_of(e)[pointer_position(e, i)] == all[at]);
    if is_zone_identifier(attributes[i]) {
        assert(all[at + 1] == all.take(upto.len() as int)[at + 1]);
        assert(upto[at + 1] == own[1]);
        assert(pointers_of(e)[pointer_position(e, i) + 1] == all[at + 1]);
    }
}

/// In a well-formed record, each pointer to the data of an attribute whose
/// data begins in the attribute begins in the record: at or behind the
/// record's start, and before its end.
pub proof fn lemma_pointer_lies_in_record(e: EntryView, i: int)
    requires
        e.well_formed(),
        0 <= i < e.attributes.len(),
        data_begins_in_attribute(e.attributes[i]),
        e.offset + e.header.total_entry_size <= u64::MAX,
    ensures
        e.attributes[i].record_len != 0,
        pointers_of(e).contains(attribute_pointer(e.offset, e.attributes[i])),
        lies_in_record(attribute_pointer(e.offset, e.attributes[i]), e),
        lies_in_record(zone_identifier_pointer(e.offset, e.attributes[i]), e),
{
    let a = e.attributes[i];
    assert(attribute_in_record(a, e.header.total_entry_size as int));
    lemma_attribute_pointers(e.offset, e.attributes);
    let tail = attribute_pointers(e.offset, e.attributes);
    let j = choose|j: int| 0 <= j < tail.len() && tail[j] == attribute_pointer(e.offset, a);
    assert(pointers_of(e)[j + 1] == tail[j]);
}

/// A `Data` attribute named `Zone.Identifier` has two pointers: the one to
/// its data, and one of the kind `ZoneIdentifier` with the same offset and
/// the same size. Any other attribute has one.
pub proof fn lemma_zone_identifier_pointer(entry_offset: u64, a: AttributeView)
    ensures
        is_zone_identifier(a) ==> {
            &&& pointers_of_attribute(entry_offset, a).len() == 2
            &&& pointers_of_attribute(entry_offset, a)[0] == attribute_pointer(entry_offset, a)
            &&& pointers_of_attribute(entry_offset, a)[1].block_type == BlockType::ZoneIdentifier
            &&& pointers_of_attribute(entry_offset, a)[1].offset == pointers_of_attribute(
                entry_offset,
                a,
            )[0].offset
            &&& pointers_of_attribute(entry_offset, a)[1].size == pointers_of_attribute(
                entry_offset,
                a,
            )[0].size
        },
        !is_zone_identifier(a) ==> pointers_of_attribute(entry_offset, a) == seq![
            attribute_pointer(entry_offset, a),
        ],
{
}

} // verus!
