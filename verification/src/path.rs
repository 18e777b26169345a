//! The best name of a record: the first of its file names that is no short
//! name for DOS alone, looked for in the record and, through its attribute
//! lists, in the records that extend it.
use crate::attributes::attributes_list::{
    find_block, items_from, position_of_entry, resolve_items, AttributeList,
};
use crate::attributes::file_name::{file_name_outcome, FileName, FileNameView, NAME_SPACE_DOS};
use crate::block::{Block, BlockType, SectionPointer};
use crate::error::{viewed, Error, ErrorView};
use crate::raw::entry::{record_bytes, remaining, Entry};
use vstd::prelude::*;
use vstd::set_lib::{lemma_int_range, lemma_len_subset, set_int_range};
use vstd::slice::slice_subrange;

verus! {

/// Number of keys that the searches in one record can have: one for the
/// search of the whole record, one for an attribute without a number, and
/// one for each number that an attribute can carry.
pub const KEY_SPAN: u128 = 0x1_0002;

/// What tells the searches in one record apart: nothing for the search of
/// the whole record, else the number of the attribute that is looked for.
pub open spec fn target_code(target: Option<SectionPointer>) -> int {
    match target {
        None => 0,
        Some(pointer) => match pointer.attribute_id {
            None => 1,
            Some(id) => 2 + id,
        },
    }
}

/// The key of the search in the block at position `at` for `target`. Two
/// searches with one key look at the same pointers of the same record.
pub open spec fn search_key(at: int, target: Option<SectionPointer>) -> u128 {
    (at * KEY_SPAN + target_code(target)) as u128
}

/// True when `visited` can be the keys of the searches that a search has
/// come through: each is a key of a search in the index, and none occurs
/// twice.
pub open spec fn searchable(blocks: Seq<Block>, visited: Seq<u128>) -> bool {
    &&& visited.no_duplicates()
    &&& forall|i: int| 0 <= i < visited.len() ==> #[trigger] visited[i] < blocks.len() * KEY_SPAN
}

/// Number of searches in the index that a search can still go into after
/// `visited`.
pub open spec fn searches_left(blocks: Seq<Block>, visited: Seq<u128>) -> nat {
    remaining(blocks.len() * KEY_SPAN, visited.len() as int)
}

/// The bytes of `bytes` from position `at` on; none where `at` is no
/// position in `bytes`.
pub open spec fn tail_at(bytes: Seq<u8>, at: int) -> Seq<u8> {
    if 0 <= at <= bytes.len() {
        bytes.skip(at)
    } else {
        Seq::empty()
    }
}

/// The first of `pointers` from position `from` on that is of the kind
/// `block_type`, if there is one.
pub open spec fn first_of_type(
    pointers: Seq<SectionPointer>,
    block_type: BlockType,
    from: int,
) -> Option<SectionPointer>
    decreases remaining(pointers.len() as int, from),
{
    if from < 0 || from >= pointers.len() {
        None
    } else if pointers[from].block_type == block_type {
        Some(pointers[from])
    } else {
        first_of_type(pointers, block_type, from + 1)
    }
}

/// True when the pointer `p` is one that the search for a name looks at: a
/// file name or an attribute list, and where the search is for one
/// attribute, the pointer with that attribute's number.
pub open spec fn wanted(p: SectionPointer, target: Option<SectionPointer>) -> bool {
    &&& p.block_type == BlockType::FileName || p.block_type == BlockType::AttributeList
    &&& target is Some ==> p.attribute_id == target->Some_0.attribute_id
}

/// The failure to find a name for a record.
pub open spec fn no_name() -> Result<FileNameView, ErrorView> {
    Err(ErrorView::MissingFileNameAttribute)
}

/// The best name in the record of the block at position `at` of the index,
/// for a search that has come through the searches `visited`. The record's
/// bytes are read with their sector ends restored, and its pointers are
/// searched in their order. With a `target`, only the attribute with the
/// target's number is looked at. A search that comes back to one that it
/// has come through finds nothing.
pub open spec fn best_in_block(
    data: Seq<u8>,
    blocks: Seq<Block>,
    at: int,
    target: Option<SectionPointer>,
    visited: Seq<u128>,
) -> Result<FileNameView, ErrorView>
    decreases searches_left(blocks, visited), 0nat, 0nat,
    when searchable(blocks, visited)
    via best_in_block_terminates
{
    if at < 0 || at >= blocks.len() || visited.contains(search_key(at, target)) {
        no_name()
    } else {
        match first_of_type(blocks[at].blocks@, BlockType::Entry, 0) {
            None => Err(ErrorView::MissingBlock("EntryBlock"@, blocks[at].entry_id)),
            Some(entry_pointer) => match record_bytes(data, entry_pointer.offset as int) {
                Err(e) => Err(e),
                Ok(bytes) => best_from_pointer(
                    data,
                    blocks,
                    at,
                    bytes,
                    entry_pointer.offset,
                    target,
                    visited.push(search_key(at, target)),
                    0,
                ),
            },
        }
    }
}

#[via_fn]
proof fn best_in_block_terminates(
    data: Seq<u8>,
    blocks: Seq<Block>,
    at: int,
    target: Option<SectionPointer>,
    visited: Seq<u128>,
) {
    if 0 <= at < blocks.len() && !visited.contains(search_key(at, target)) {
        lemma_search_goes_on(blocks, at, target, visited);
    }
}

/// The best name that the pointers from position `i` on lead to, in the
/// record with the bytes `bytes` that begins at `base`. A file name that is
/// usable ends the search. An attribute list is decoded and resolved, and
/// the first name that one of its items leads to ends the search. A file
/// name or a list that cannot be decoded ends it with that failure.
pub open spec fn best_from_pointer(
    data: Seq<u8>,
    blocks: Seq<Block>,
    at: int,
    bytes: Seq<u8>,
    base: u64,
    target: Option<SectionPointer>,
    visited: Seq<u128>,
    i: int,
) -> Result<FileNameView, ErrorView>
    decreases searches_left(blocks, visited), 2nat, remaining(blocks[at].blocks@.len() as int, i),
{
    let pointers = blocks[at].blocks@;
    if i < 0 || i >= pointers.len() {
        no_name()
    } else if !wanted(pointers[i], target) {
        best_from_pointer(data, blocks, at, bytes, base, target, visited, i + 1)
    } else if pointers[i].block_type == BlockType::FileName {
        match file_name_outcome(tail_at(bytes, pointers[i].offset - base)) {
            Err(e) => Err(e),
            Ok(name) => if name.usable() {
                Ok(name)
            } else {
                best_from_pointer(data, blocks, at, bytes, base, target, visited, i + 1)
            },
        }
    } else {
        match items_from(tail_at(bytes, pointers[i].offset - base), 0, pointers[i].size as int) {
            Err(e) => Err(e),
            Ok(items) => match best_of_resolved(
                data,
                blocks,
                blocks[at].entry_id,
                resolve_items(items, blocks),
                visited,
                0,
            ) {
                Err(e) => Err(e),
                Ok(Some(name)) => Ok(name),
                Ok(None) => best_from_pointer(
                    data,
                    blocks,
                    at,
                    bytes,
                    base,
                    target,
                    visited,
                    i + 1,
                ),
            },
        }
    }
}

/// The first name that one of `resolved` from position `j` on leads to, if
/// any: each is looked for in its record, and one that leads to no name or
/// to a failure is passed over. A record that the index does not hold is
/// the failure `MissingBlock` for the record `owner`.
pub open spec fn best_of_resolved(
    data: Seq<u8>,
    blocks: Seq<Block>,
    owner: u64,
    resolved: Seq<(u64, SectionPointer)>,
    visited: Seq<u128>,
    j: int,
) -> Result<Option<FileNameView>, ErrorView>
    decreases searches_left(blocks, visited), 1nat, remaining(resolved.len() as int, j),
{
    if j < 0 || j >= resolved.len() {
        Ok(None)
    } else {
        match position_of_entry(blocks, resolved[j].0, 0) {
            None => Err(ErrorView::MissingBlock("AttributePointer"@, owner)),
            Some(at) => match best_in_block(data, blocks, at, Some(resolved[j].1), visited) {
                Ok(name) => Ok(Some(name)),
                Err(_) => best_of_resolved(data, blocks, owner, resolved, visited, j + 1),
            },
        }
    }
}

/// The best name of the record numbered `entry_id`: that of the first block
/// of the index that stands for the record.
#[verifier::opaque]
pub open spec fn best_part(data: Seq<u8>, blocks: Seq<Block>, entry_id: u64) -> Result<
    FileNameView,
    ErrorView,
> {
    match position_of_entry(blocks, entry_id, 0) {
        None => Err(ErrorView::MissingBlock("Block"@, entry_id)),
        Some(at) => best_in_block(data, blocks, at, None, Seq::empty()),
    }
}

/// No more numbers below `bound` can be told apart than `bound`.
pub proof fn lemma_distinct_keys_below(keys: Seq<u128>, bound: nat)
    requires
        keys.no_duplicates(),
        forall|i: int| 0 <= i < keys.len() ==> #[trigger] keys[i] < bound,
    ensures
        keys.len() <= bound,
{
    let as_int = |k: u128| k as int;
    let ints = keys.map_values(as_int);
    assert(ints.no_duplicates()) by {
        assert forall|i: int, j: int|
            0 <= i < ints.len() && 0 <= j < ints.len() && i != j implies ints[i] != ints[j] by {
            assert(ints[i] == keys[i] as int);
            assert(ints[j] == keys[j] as int);
        }
    }
    ints.unique_seq_to_set();
    lemma_int_range(0, bound as int);
    assert(ints.to_set().subset_of(set_int_range(0, bound as int))) by {
        assert forall|x: int| ints.to_set().contains(x) implies set_int_range(
            0,
            bound as int,
        ).contains(x) by {
            let i = choose|i: int| 0 <= i < ints.len() && ints[i] == x;
            assert(ints[i] == keys[i] as int);
        }
    }
    lemma_len_subset(ints.to_set(), set_int_range(0, bound as int));
}

/// A search that goes into a search it has not come through has come
/// through fewer searches than the index has, and can go on from there.
pub proof fn lemma_search_goes_on(
    blocks: Seq<Block>,
    at: int,
    target: Option<SectionPointer>,
    visited: Seq<u128>,
)
    requires
        searchable(blocks, visited),
        0 <= at < blocks.len(),
        !visited.contains(search_key(at, target)),
    ensures
        searchable(blocks, visited.push(search_key(at, target))),
        visited.len() < blocks.len() * KEY_SPAN,
        searches_left(blocks, visited.push(search_key(at, target))) < searches_left(
            blocks,
            visited,
        ),
{
    let key = search_key(at, target);
    let longer = visited.push(key);
    assert(0 <= target_code(target) < KEY_SPAN);
    assert(at * KEY_SPAN + target_code(target) < blocks.len() * KEY_SPAN) by {
        assert((at + 1) * KEY_SPAN <= blocks.len() * KEY_SPAN) by (nonlinear_arith)
            requires
                at + 1 <= blocks.len(),
                KEY_SPAN > 0,
        ;
    }
    assert(longer.no_duplicates());
    assert forall|i: int| 0 <= i < longer.len() implies #[trigger] longer[i] < blocks.len()
        * KEY_SPAN by {
        if i < visited.len() {
            assert(longer[i] == visited[i]);
        }
    }
    lemma_distinct_keys_below(longer, (blocks.len() * KEY_SPAN) as nat);
}

/// The first of `pointers` that is of the kind `block_type`, if there is
/// one.
pub fn find_pointer(pointers: &Vec<SectionPointer>, block_type: BlockType) -> (found: Option<
    SectionPointer,
>)
    ensures
        found == first_of_type(pointers@, block_type, 0),
{
    let mut i: usize = 0;
    while i < pointers.len()
        invariant
            i <= pointers.len(),
            first_of_type(pointers@, block_type, 0) == first_of_type(
                pointers@,
                block_type,
                i as int,
            ),
        decreases pointers.len() - i,
    {
        if pointers[i].block_type == block_type {
            return Some(pointers[i]);
        }
        i = i + 1;
    }
    None
}

/// The bytes of a record from the place on that the pointer at
/// `pointer_offset` speaks of, in a record that begins at `base`.
pub fn tail(bytes: &[u8], pointer_offset: u64, base: u64) -> (rest: &[u8])
    ensures
        rest@ == tail_at(bytes@, pointer_offset - base),
{
    let len: usize = bytes.len();
    if pointer_offset < base || pointer_offset - base > len as u64 {
        let rest = slice_subrange(bytes, len, len);
        assert(rest@ =~= Seq::<u8>::empty());
        rest
    } else {
        slice_subrange(bytes, (pointer_offset - base) as usize, len)
    }
}

/// True when the search for a name looks at the pointer `p`.
fn is_wanted(p: &SectionPointer, target: &Option<SectionPointer>) -> (b: bool)
    ensures
        b == wanted(*p, *target),
{
    let of_kind = p.block_type == BlockType::FileName || p.block_type == BlockType::AttributeList;
    match target {
        Some(t) => {
            let same = match (p.attribute_id, t.attribute_id) {
                (Some(a), Some(b)) => a == b,
                (None, None) => true,
                _ => false,
            };
            of_kind && same
        },
        None => of_kind,
    }
}

/// The view of a name that may be there.
pub open spec fn name_view(name: Option<FileName>) -> Option<FileNameView> {
    match name {
        Some(n) => Some(n@),
        None => None,
    }
}

/// The key of the search in the block at position `at` for `target`.
fn key_of(at: usize, target: &Option<SectionPointer>) -> (key: u128)
    ensures
        key == search_key(at as int, *target),
{
    let code: u128 = match target {
        None => 0,
        Some(pointer) => match pointer.attribute_id {
            None => 1,
            Some(id) => 2 + id as u128,
        },
    };
    at as u128 * KEY_SPAN + code
}

/// True when `keys` holds `wanted`.
fn holds_key(keys: &Vec<u128>, wanted: u128) -> (found: bool)
    ensures
        found == keys@.contains(wanted),
{
    let mut i: usize = 0;
    while i < keys.len()
        invariant
            i <= keys.len(),
            forall|j: int| 0 <= j < i ==> keys@[j] != wanted,
        decreases keys.len() - i,
    {
        if keys[i] == wanted {
            return true;
        }
        i = i + 1;
    }
    false
}

/// The keys `keys` with `key` behind them.
fn with_key(keys: &Vec<u128>, key: u128) -> (longer: Vec<u128>)
    ensures
        longer@ == keys@.push(key),
{
    let mut longer: Vec<u128> = Vec::new();
    let mut i: usize = 0;
    while i < keys.len()
        invariant
            i <= keys.len(),
            longer@ == keys@.take(i as int),
        decreases keys.len() - i,
    {
        longer.push(keys[i]);
        assert(keys@.take(i + 1) =~= keys@.take(i as int).push(keys@[i as int]));
        i = i + 1;
    }
    assert(keys@.take(i as int) =~= keys@);
    longer.push(key);
    longer
}

/// Looks for the first name that one of `resolved` leads to.
pub fn search_resolved(
    data: &[u8],
    blocks: &[Block],
    owner: u64,
    resolved: &Vec<(u64, SectionPointer)>,
    visited: &Vec<u128>,
) -> (r: Result<Option<FileName>, Error>)
    requires
        searchable(blocks@, visited@),
    ensures
        match r {
            Ok(name) => best_of_resolved(data@, blocks@, owner, resolved@, visited@, 0) == Ok::<
                Option<FileNameView>,
                ErrorView,
            >(name_view(name)),
            Err(e) => best_of_resolved(data@, blocks@, owner, resolved@, visited@, 0) == Err::<
                Option<FileNameView>,
                ErrorView,
            >(e@),
        },
    decreases searches_left(blocks@, visited@), 1nat,
{
    let mut j: usize = 0;
    while j < resolved.len()
        invariant
            j <= resolved.len(),
            searchable(blocks@, visited@),
            best_of_resolved(data@, blocks@, owner, resolved@, visited@, 0) == best_of_resolved(
                data@,
                blocks@,
                owner,
                resolved@,
                visited@,
                j as int,
            ),
        decreases resolved.len() - j,
    {
        let (resolved_entry_id, resolved_attribute) = resolved[j];
        let position = match find_block(blocks, resolved_entry_id) {
            Some(position) => position,
            None => {
                return Err(Error::missing_block("AttributePointer", owner));
            },
        };
        match search_block(data, blocks, position, Some(resolved_attribute), visited) {
            Ok(name) => {
                return Ok(Some(name));
            },
            Err(_) => {},
        }
        j = j + 1;
    }
    Ok(None)
}

/// Searches the record of the block at position `at` of the index for its
/// best name, for a search that has come through the searches `visited`.
pub fn search_block(
    data: &[u8],
    blocks: &[Block],
    at: usize,
    target: Option<SectionPointer>,
    visited: &Vec<u128>,
) -> (r: Result<FileName, Error>)
    requires
        at < blocks@.len(),
        searchable(blocks@, visited@),
    ensures
        viewed(r) == best_in_block(data@, blocks@, at as int, target, visited@),
    decreases searches_left(blocks@, visited@), 0nat,
{
    let key = key_of(at, &target);
    if holds_key(visited, key) {
        return Err(Error::MissingFileNameAttribute);
    }
    let block = &blocks[at];
    let entry_pointer = match find_pointer(&block.blocks, BlockType::Entry) {
        Some(pointer) => pointer,
        None => {
            return Err(Error::missing_block("EntryBlock", block.entry_id));
        },
    };
    let base: u64 = entry_pointer.offset;
    let bytes = Entry::get_entry_bytes(data, base)?;
    let deeper = with_key(visited, key);
    proof {
        lemma_search_goes_on(blocks@, at as int, target, visited@);
    }
    let mut i: usize = 0;
    while i < block.blocks.len()
        invariant
            at < blocks@.len(),
            *block == blocks@[at as int],
            i <= block.blocks.len(),
            searchable(blocks@, deeper@),
            searches_left(blocks@, deeper@) < searches_left(blocks@, visited@),
            best_in_block(data@, blocks@, at as int, target, visited@) == best_from_pointer(
                data@,
                blocks@,
                at as int,
                bytes@,
                base,
                target,
                deeper@,
                i as int,
            ),
        decreases block.blocks.len() - i,
    {
        let pointer = block.blocks[i];
        if is_wanted(&pointer, &target) {
            let rest = tail(bytes.as_slice(), pointer.offset, base);
            if pointer.block_type == BlockType::FileName {
                let name = FileName::from_reader(rest)?;
                if name.name_space != NAME_SPACE_DOS {
                    return Ok(name);
                }
            } else {
                let list = AttributeList::from_reader(rest, pointer.size)?;
                let resolved = list.resolve_to_blocks(blocks);
                match search_resolved(data, blocks, block.entry_id, &resolved, &deeper)? {
                    Some(name) => {
                        return Ok(name);
                    },
                    None => {},
                }
            }
        }
        i = i + 1;
    }
    Err(Error::MissingFileNameAttribute)
}

/// A file name for DOS alone is passed over: the search goes on behind it
/// as if it were not there. Any other file name that the search looks at
/// ends the search as the best name.
pub proof fn lemma_dos_name_is_passed_over(
    data: Seq<u8>,
    blocks: Seq<Block>,
    at: int,
    bytes: Seq<u8>,
    base: u64,
    target: Option<SectionPointer>,
    visited: Seq<u128>,
    i: int,
)
    requires
        0 <= at < blocks.len(),
        0 <= i < blocks[at].blocks@.len(),
        wanted(blocks[at].blocks@[i], target),
        blocks[at].blocks@[i].block_type == BlockType::FileName,
        file_name_outcome(tail_at(bytes, blocks[at].blocks@[i].offset - base)) is Ok,
    ensures
        ({
            let name = file_name_outcome(
                tail_at(bytes, blocks[at].blocks@[i].offset - base),
            )->Ok_0;
            let found = best_from_pointer(data, blocks, at, bytes, base, target, visited, i);
            &&& name.name_space == NAME_SPACE_DOS ==> found == best_from_pointer(
                data,
                blocks,
                at,
                bytes,
                base,
                target,
                visited,
                i + 1,
            )
            &&& name.name_space != NAME_SPACE_DOS ==> found == Ok::<FileNameView, ErrorView>(name)
        }),
{
}

} // verus!
