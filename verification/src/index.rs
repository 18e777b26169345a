//! The records of a table, one behind the other, and the index made of them.
use crate::block::{
    addressable, data_position, lemma_entry_pointer_first, pointers_of, Block, BlockType,
};
use crate::error::{Error, ErrorView};
use crate::raw::entry::{
    attribute_in_record, entry_at, entry_view, lemma_entry_well_formed, next_offset, Entry,
    EntryView,
};
use crate::MFT_RECORD_SIZE;
use vstd::prelude::*;

verus! {

/// The largest table that is read: no buffer in memory holds more bytes.
pub const MAX_TABLE_SIZE: u64 = 0x7FFF_FFFF_FFFF_FFFF;

/// The last of `entries`, or nothing where there is none.
pub open spec fn last_of(entries: Seq<EntryView>) -> Option<EntryView> {
    if entries.len() == 0 {
        None
    } else {
        Some(entries.last())
    }
}

/// The first `count` records of the table, each decoded where the one
/// before it ends; or the failure of the first that cannot be decoded.
#[verifier::opaque]
pub open spec fn entries(data: Seq<u8>, count: nat) -> Result<Seq<EntryView>, ErrorView>
    decreases count,
{
    if count == 0 {
        Ok(Seq::empty())
    } else {
        match entries(data, (count - 1) as nat) {
            Err(e) => Err(e),
            Ok(before) => match entry_at(
                data,
                next_offset(last_of(before)) as u64,
                (count - 1) as u64,
            ) {
                Err(e) => Err(e),
                Ok(entry) => Ok(before.push(entry)),
            },
        }
    }
}

/// True when `blocks` is the index of the records `entries`: one block for
/// each record, under the record's position in the table, with the
/// record's pointers.
pub open spec fn is_index_of(blocks: Seq<Block>, entries: Seq<EntryView>) -> bool {
    &&& blocks.len() == entries.len()
    &&& forall|i: int|
        0 <= i < blocks.len() ==> (#[trigger] blocks[i]).entry_id == i && blocks[i].blocks@
            == pointers_of(entries[i])
}

/// True when each of `blocks` stands for the record of its position.
pub open spec fn dense(blocks: Seq<Block>) -> bool {
    forall|i: int| 0 <= i < blocks.len() ==> (#[trigger] blocks[i]).entry_id == i
}

/// True when each of `entries` is well formed, lies in a table of `len`
/// bytes as far as its header is not zeroed, and carries the number of its
/// position.
pub open spec fn entries_lie_in_table(entries: Seq<EntryView>, len: int) -> bool {
    forall|i: int|
        0 <= i < entries.len() ==> {
            &&& (#[trigger] entries[i]).well_formed()
            &&& entries[i].entry_n == i
            &&& entries[i].offset + 42 <= len
            &&& !entries[i].header.zeroed() ==> entries[i].offset + entries[i].record_size()
                <= len
        }
}

/// The records that are decoded from a table lie in it, each well formed
/// and under the number of its position, and there are as many as were
/// asked for.
pub proof fn lemma_entries(data: Seq<u8>, count: nat)
    requires
        entries(data, count) is Ok,
        count <= u64::MAX,
        data.len() <= MAX_TABLE_SIZE,
    ensures
        entries(data, count)->Ok_0.len() == count,
        entries_lie_in_table(entries(data, count)->Ok_0, data.len() as int),
        forall|k: nat| k <= count ==> #[trigger] entries(data, k) is Ok,
        forall|k: nat|
            k <= count ==> (#[trigger] entries(data, k))->Ok_0 == entries(data, count)->Ok_0.take(
                k as int,
            ),
    decreases count,
{
    reveal(entries);
    let all = entries(data, count)->Ok_0;
    if count == 0 {
        assert forall|k: nat| k <= count implies (#[trigger] entries(data, k))->Ok_0 == all.take(
            k as int,
        ) by {
            assert(all.take(0) =~= all);
        }
    } else {
        let before = entries(data, (count - 1) as nat)->Ok_0;
        lemma_entries(data, (count - 1) as nat);
        let offset = next_offset(last_of(before)) as u64;
        lemma_entry_well_formed(data, offset, (count - 1) as u64);
        assert(all == before.push(all.last()));
        assert forall|i: int| 0 <= i < all.len() implies {
            &&& (#[trigger] all[i]).well_formed()
            &&& all[i].entry_n == i
            &&& all[i].offset + 42 <= data.len()
            &&& !all[i].header.zeroed() ==> all[i].offset + all[i].record_size() <= data.len()
        } by {
            if i < before.len() {
                assert(all[i] == before[i]);
            }
        }
        assert forall|k: nat| k <= count implies #[trigger] entries(data, k) is Ok && entries(
            data,
            k,
        )->Ok_0 == all.take(k as int) by {
            if k == count {
                assert(all.take(k as int) =~= all);
            } else {
                assert(entries(data, k)->Ok_0 == before.take(k as int));
                assert(before.take(k as int) =~= all.take(k as int));
            }
        }
    }
}

/// Where every record before the record numbered `i` occupies one slot,
/// that record begins at a whole number of slots, and its number is its
/// position divided by the size of a slot.
pub proof fn lemma_records_on_slots(data: Seq<u8>, count: nat, i: int)
    requires
        entries(data, count) is Ok,
        count <= u64::MAX,
        data.len() <= MAX_TABLE_SIZE,
        0 <= i < count,
        forall|j: int| 0 <= j < i ==> (#[trigger] entries(data, count)->Ok_0[j]).record_size()
            == MFT_RECORD_SIZE,
    ensures
        entries(data, count)->Ok_0[i].offset == MFT_RECORD_SIZE * i,
        entries(data, count)->Ok_0[i].offset % MFT_RECORD_SIZE == 0,
        entries(data, count)->Ok_0[i].entry_n == entries(data, count)->Ok_0[i].offset
            / MFT_RECORD_SIZE,
    decreases i,
{
    reveal(entries);
    let all = entries(data, count)->Ok_0;
    lemma_entries(data, count);
    let upto = entries(data, (i + 1) as nat)->Ok_0;
    assert(upto == all.take(i + 1));
    let before = entries(data, i as nat)->Ok_0;
    assert(before == all.take(i));
    let offset = next_offset(last_of(before)) as u64;
    lemma_entry_well_formed(data, offset, i as u64);
    assert(upto == before.push(upto.last()));
    assert(all[i] == upto[i]);
    if i > 0 {
        lemma_records_on_slots(data, count, i - 1);
        assert(before.last() == all[i - 1]);
    }
}

/// In the index of a table whose records before the record numbered `i`
/// each occupy one slot, the block at position `i` begins with the pointer
/// to the record, and that pointer stands at `i` slots from the start.
pub proof fn lemma_index_on_slots(blocks: Seq<Block>, data: Seq<u8>, count: nat, i: int)
    requires
        entries(data, count) is Ok,
        is_index_of(blocks, entries(data, count)->Ok_0),
        count <= u64::MAX,
        data.len() <= MAX_TABLE_SIZE,
        0 <= i < count,
        forall|j: int|
            0 <= j < i ==> (#[trigger] entries(data, count)->Ok_0[j]).record_size()
                == MFT_RECORD_SIZE,
    ensures
        blocks.len() == count,
        blocks[i].entry_id == i,
        blocks[i].blocks@.len() >= 1,
        blocks[i].blocks@[0].block_type == BlockType::Entry,
        blocks[i].blocks@[0].offset == MFT_RECORD_SIZE * i,
{
    lemma_entries(data, count);
    lemma_records_on_slots(data, count, i);
    lemma_entry_pointer_first(entries(data, count)->Ok_0[i]);
}

/// The record that follows a record of the table begins where a 64-bit
/// number can point, and the data of each of its attributes too.
proof fn lemma_next_in_reach(data: Seq<u8>, entry: EntryView)
    requires
        data.len() <= MAX_TABLE_SIZE,
        entry.well_formed(),
        entry.offset + 42 <= data.len(),
        !entry.header.zeroed() ==> entry.offset + entry.record_size() <= data.len(),
    ensures
        next_offset(Some(entry)) <= u64::MAX,
        addressable(entry),
{
    assert forall|i: int| 0 <= i < entry.attributes.len() implies data_position(
        entry.offset,
        #[trigger] entry.attributes[i],
    ) <= u64::MAX by {
        assert(attribute_in_record(entry.attributes[i], entry.header.total_entry_size as int));
    }
}

/// Builds the index of the first `records` records of the table.
pub fn get_blocks(data: &[u8], records: u64) -> (r: Result<Vec<Block>, Error>)
    requires
        data@.len() <= MAX_TABLE_SIZE,
    ensures
        match r {
            Ok(blocks) => entries(data@, records as nat) is Ok && is_index_of(
                blocks@,
                entries(data@, records as nat)->Ok_0,
            ),
            Err(e) => entries(data@, records as nat) == Err::<Seq<EntryView>, ErrorView>(e@),
        },
{
    reveal(entries);
    let mut prev: Option<Entry> = None;
    let mut blocks: Vec<Block> = Vec::new();
    let mut record_n: u64 = 0;
    while record_n < records
        invariant
            record_n <= records,
            data@.len() <= MAX_TABLE_SIZE,
            entries(data@, record_n as nat) is Ok,
            is_index_of(blocks@, entries(data@, record_n as nat)->Ok_0),
            entry_view(prev) == last_of(entries(data@, record_n as nat)->Ok_0),
        decreases records - record_n,
    {
        reveal(entries);
        let ghost before = entries(data@, record_n as nat)->Ok_0;
        proof {
            lemma_entries(data@, record_n as nat);
            if record_n > 0 {
                lemma_next_in_reach(data@, before.last());
            }
        }
        let entry = match Entry::from_reader(data, prev) {
            Ok(entry) => entry,
            Err(e) => {
                proof {
                    lemma_failure_stays(data@, (record_n + 1) as nat, records as nat);
                }
                return Err(e);
            },
        };
        proof {
            lemma_entry_well_formed(data@, next_offset(last_of(before)) as u64, record_n);
            lemma_next_in_reach(data@, entry@);
        }
        let block = Block::new_with_entry(&entry, record_n)?;
        blocks.push(block);
        prev = Some(entry);
        record_n = record_n + 1;
        proof {
            let now = entries(data@, record_n as nat)->Ok_0;
            assert(now == before.push(entry@));
            assert forall|i: int| 0 <= i < blocks@.len() implies (#[trigger] blocks@[i]).entry_id
                == i && blocks@[i].blocks@ == pointers_of(now[i]) by {
                if i < before.len() {
                    assert(now[i] == before[i]);
                }
            }
        }
    }
    Ok(blocks)
}

/// Once a record cannot be decoded, no longer run of records can be.
pub proof fn lemma_failure_stays(data: Seq<u8>, failed: nat, count: nat)
    requires
        entries(data, failed) is Err,
        failed <= count,
    ensures
        entries(data, count) == entries(data, failed),
    decreases count,
{
    reveal(entries);
    if count > failed {
        lemma_failure_stays(data, failed, (count - 1) as nat);
    }
}

} // verus!
