//! The attribute that lists the attributes of a file that lie in other
//! records.
use crate::block::{block_type_of, Block, BlockType, SectionPointer};
use crate::bytes::{advance, field_u16, field_u32, field_u64, has_bytes, u16_at, u32_at, u64_at};
use crate::error::{value_read_failure, Error, ErrorView};
use crate::raw::entry::remaining;
use crate::raw::file_reference::FileReference;
use vstd::prelude::*;

verus! {

/// Number of bytes that the fields of an item of the list occupy.
pub const LIST_ITEM_SIZE: u64 = 26;

/// One item of an attribute list: the attribute numbered `attribute_id`, of
/// the type `type_code`, lies in the record that `file_reference` names.
#[derive(Debug, Clone, Copy)]
pub struct AttributeListItem {
    pub type_code: u32,
    pub attribute_id: u16,
    pub file_reference: FileReference,
}

/// The items of an attribute list, in the order in which they are stored.
#[derive(Debug)]
pub struct AttributeList {
    pub items: Vec<AttributeListItem>,
}

/// The item that `b` holds at position `at`.
pub open spec fn item_at(b: Seq<u8>, at: int) -> AttributeListItem {
    AttributeListItem {
        type_code: u32_at(b, at),
        attribute_id: u16_at(b, at + 24),
        file_reference: FileReference::split(u64_at(b, at + 16)),
    }
}

/// Number of bytes that the item at position `at` occupies.
pub open spec fn item_len(b: Seq<u8>, at: int) -> int {
    u16_at(b, at + 4) as int
}

/// The failure that decoding the item at position `at` ends in, if any: it
/// names the first field that the bytes do not reach.
pub open spec fn item_failure(b: Seq<u8>, at: int) -> Option<ErrorView> {
    if !has_bytes(b, at, 4) {
        Some(value_read_failure("type_code"@, "read_u32"@))
    } else if !has_bytes(b, at + 4, 2) {
        Some(value_read_failure("record_len"@, "read_u16"@))
    } else if !has_bytes(b, at + 16, 8) {
        Some(value_read_failure("file_reference"@, "read_u64"@))
    } else if !has_bytes(b, at + 24, 2) {
        Some(value_read_failure("attribute_id"@, "read_u16"@))
    } else {
        None
    }
}

/// `first` followed by what `rest` gives, or the failure of `rest`.
pub open spec fn item_followed_by(
    first: Seq<AttributeListItem>,
    rest: Result<Seq<AttributeListItem>, ErrorView>,
) -> Result<Seq<AttributeListItem>, ErrorView> {
    match rest {
        Ok(items) => Ok(first + items),
        Err(e) => Err(e),
    }
}

/// The items of a list of `size` bytes, decoded one after the other from
/// position `at` on. Each begins where the one before it ends. They end
/// where fewer bytes are left of the list than the fields of an item
/// occupy, or at an item of length zero.
pub open spec fn items_from(b: Seq<u8>, at: int, size: int) -> Result<
    Seq<AttributeListItem>,
    ErrorView,
>
    decreases remaining(size, at),
{
    if at + LIST_ITEM_SIZE > size {
        Ok(Seq::empty())
    } else if item_failure(b, at) is Some {
        Err(item_failure(b, at)->Some_0)
    } else if item_len(b, at) == 0 {
        Ok(Seq::empty())
    } else {
        item_followed_by(seq![item_at(b, at)], items_from(b, at + item_len(b, at), size))
    }
}

/// True when the pointer `p` is the one that the item `item` speaks of: it
/// stands for the attribute with the item's number and type.
pub open spec fn points_to(item: AttributeListItem, p: SectionPointer) -> bool {
    p.attribute_id == Some(item.attribute_id) && p.block_type == block_type_of(item.type_code)
}

/// Of `pointers`, those that the item `item` speaks of, each with the
/// number of the record that the item names.
pub open spec fn pointers_of_item(item: AttributeListItem, pointers: Seq<SectionPointer>) -> Seq<
    (u64, SectionPointer),
>
    decreases pointers.len(),
{
    if pointers.len() == 0 {
        Seq::empty()
    } else if points_to(item, pointers.last()) {
        pointers_of_item(item, pointers.drop_last()).push(
            (item.file_reference.entry, pointers.last()),
        )
    } else {
        pointers_of_item(item, pointers.drop_last())
    }
}

/// Position from `from` on of the first of `blocks` that stands for the
/// record numbered `entry_id`, if there is one.
pub open spec fn position_of_entry(blocks: Seq<Block>, entry_id: u64, from: int) -> Option<int>
    decreases remaining(blocks.len() as int, from),
{
    if from < 0 || from >= blocks.len() {
        None
    } else if blocks[from].entry_id == entry_id {
        Some(from)
    } else {
        position_of_entry(blocks, entry_id, from + 1)
    }
}

/// What one item of a list resolves to in the index `blocks`: the pointers
/// that it speaks of in the first block of the record that it names.
pub open spec fn resolve_item(item: AttributeListItem, blocks: Seq<Block>) -> Seq<
    (u64, SectionPointer),
> {
    match position_of_entry(blocks, item.file_reference.entry, 0) {
        Some(i) => pointers_of_item(item, blocks[i].blocks@),
        None => Seq::empty(),
    }
}

/// What the items of a list resolve to in the index `blocks`, in the order
/// of the items.
pub open spec fn resolve_items(items: Seq<AttributeListItem>, blocks: Seq<Block>) -> Seq<
    (u64, SectionPointer),
>
    decreases items.len(),
{
    if items.len() == 0 {
        Seq::empty()
    } else {
        resolve_items(items.drop_last(), blocks) + resolve_item(items.last(), blocks)
    }
}

/// Position of the first of `blocks` that stands for the record numbered
/// `entry_id`, if there is one.
pub fn find_block(blocks: &[Block], entry_id: u64) -> (found: Option<usize>)
    ensures
        match found {
            Some(i) => position_of_entry(blocks@, entry_id, 0) == Some(i as int) && i
                < blocks@.len() && blocks@[i as int].entry_id == entry_id,
            None => position_of_entry(blocks@, entry_id, 0) is None,
        },
{
    let mut i: usize = 0;
    while i < blocks.len()
        invariant
            i <= blocks.len(),
            position_of_entry(blocks@, entry_id, 0) == position_of_entry(
                blocks@,
                entry_id,
                i as int,
            ),
        decreases blocks.len() - i,
    {
        if blocks[i].entry_id == entry_id {
            return Some(i);
        }
        i = i + 1;
    }
    None
}

impl AttributeList {
    /// Decodes the items of the list of `size` bytes that `reader` begins
    /// with.
    pub fn from_reader(reader: &[u8], size: u64) -> (r: Result<AttributeList, Error>)
        ensures
            match r {
                Ok(list) => items_from(reader@, 0, size as int) == Ok::<
                    Seq<AttributeListItem>,
                    ErrorView,
                >(list.items@),
                Err(e) => items_from(reader@, 0, size as int) == Err::<
                    Seq<AttributeListItem>,
                    ErrorView,
                >(e@),
            },
    {
        let mut items: Vec<AttributeListItem> = Vec::new();
        let mut at: u64 = 0;
        let mut done = false;
        assert(Seq::<AttributeListItem>::empty() + Seq::<AttributeListItem>::empty()
            =~= Seq::empty());
        while !done
            invariant
                item_followed_by(
                    items@,
                    if done {
                        Ok(Seq::empty())
                    } else {
                        items_from(reader@, at as int, size as int)
                    },
                ) == items_from(reader@, 0, size as int),
            decreases remaining(size as int, at as int) + if done { 0nat } else { 1nat },
        {
            if size < LIST_ITEM_SIZE || at > size - LIST_ITEM_SIZE {
                done = true;
            } else {
                let ghost before = items@;
                let ghost tail = items_from(reader@, at as int, size as int);
                let type_code = field_u32(reader, at, "type_code")?;
                let record_len = field_u16(reader, advance(at, 4), "record_len")?;
                let file_reference = field_u64(reader, advance(at, 16), "file_reference")?;
                let attribute_id = field_u16(reader, advance(at, 24), "attribute_id")?;
                if record_len == 0 {
                    done = true;
                } else {
                    let item = AttributeListItem {
                        type_code,
                        attribute_id,
                        file_reference: FileReference::from(file_reference),
                    };
                    items.push(item);
                    let ghost next = at + record_len;
                    at = advance(at, record_len as u64);
                    proof {
                        let rest = items_from(reader@, at as int, size as int);
                        assert(rest == items_from(reader@, next, size as int));
                        assert(tail == item_followed_by(seq![item], rest));
                        assert(items@ =~= before + seq![item]);
                        if rest is Ok {
                            assert((before + seq![item]) + rest->Ok_0 =~= before + (seq![item]
                                + rest->Ok_0));
                        }
                    }
                }
            }
        }
        assert(items@ + Seq::<AttributeListItem>::empty() =~= items@);
        Ok(AttributeList { items })
    }

    /// The pointers of the index `blocks` that the items of the list speak
    /// of, each with the number of its record, in the order of the items.
    pub fn resolve_to_blocks(&self, blocks: &[Block]) -> (resolved: Vec<(u64, SectionPointer)>)
        ensures
            resolved@ == resolve_items(self.items@, blocks@),
    {
        let mut resolved: Vec<(u64, SectionPointer)> = Vec::new();
        let mut i: usize = 0;
        assert(self.items@.take(0) =~= Seq::empty());
        while i < self.items.len()
            invariant
                i <= self.items.len(),
                resolved@ == resolve_items(self.items@.take(i as int), blocks@),
            decreases self.items.len() - i,
        {
            let item = self.items[i];
            let ghost before = resolved@;
            match find_block(blocks, item.file_reference.entry) {
                Some(position) => {
                    let pointers = &blocks[position].blocks;
                    let mut j: usize = 0;
                    assert(pointers@.take(0) =~= Seq::empty());
                    while j < pointers.len()
                        invariant
                            j <= pointers.len(),
                            resolved@ == before + pointers_of_item(item, pointers@.take(j as int)),
                        decreases pointers.len() - j,
                    {
                        let pointer = pointers[j];
                        proof {
                            let next = pointers@.take(j + 1);
                            assert(next.drop_last() =~= pointers@.take(j as int));
                            assert(next.last() == pointer);
                        }
                        let same_attribute = match pointer.attribute_id {
                            Some(id) => id == item.attribute_id,
                            None => false,
                        };
                        if same_attribute && pointer.block_type
                            == BlockType::from_attribute_type_code(item.type_code) {
                            resolved.push((item.file_reference.entry, pointer));
                            assert(resolved@ =~= before + pointers_of_item(
                                item,
                                pointers@.take(j + 1),
                            ));
                        }
                        j = j + 1;
                    }
                    assert(pointers@.take(j as int) =~= pointers@);
                },
                None => {
                    assert(resolved@ =~= before + Seq::<(u64, SectionPointer)>::empty());
                },
            }
            proof {
                let next = self.items@.take(i + 1);
                assert(next.drop_last() =~= self.items@.take(i as int));
                assert(next.last() == item);
            }
            i = i + 1;
        }
        assert(self.items@.take(i as int) =~= self.items@);
        resolved
    }
}

} // verus!
