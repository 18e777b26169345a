//! The path of a record: its best name behind the names of the directories
//! above it, as far as they can be followed.
use crate::attributes::attributes_list::position_of_entry;
use crate::block::Block;
use crate::error::ErrorView;
use crate::index::dense;
use crate::path::best_part;
use crate::raw::entry::remaining;
use crate::raw::file_reference::ROOT_ENTRY;
use vstd::prelude::*;
use vstd::set_lib::{lemma_int_range, lemma_len_subset, set_int_range};

verus! {

/// What a path begins with when the walk reaches the root directory: the
/// drive letter and a colon, or `{Root}` where no letter is set.
pub open spec fn root_prefix(drive: Option<char>) -> Seq<char> {
    match drive {
        Some(letter) => seq![letter, ':'],
        None => "{Root}"@,
    }
}

/// What a path begins with when the walk cannot go on to a parent.
pub open spec fn orphaned_prefix() -> Seq<char> {
    "{Orphaned}"@
}

/// What the record numbered `entry_id` adds to a path: its best name and
/// the number of its parent, or nothing where it has no name.
pub open spec fn part_of(data: Seq<u8>, blocks: Seq<Block>, entry_id: u64) -> Result<
    Option<(Seq<char>, u64)>,
    ErrorView,
> {
    match best_part(data, blocks, entry_id) {
        Ok(name) => Ok(Some((name.name, name.parent_file_reference.entry))),
        Err(ErrorView::MissingFileNameAttribute) => Ok(None),
        Err(e) => Err(e),
    }
}

/// True when a walk may stand at the record `current` after `visited`: the
/// index is dense, and the records visited are records of the index, each
/// visited once, and `current` is none of them.
pub open spec fn walkable(blocks: Seq<Block>, current: u64, visited: Seq<u64>) -> bool {
    &&& dense(blocks)
    &&& visited.no_duplicates()
    &&& !visited.contains(current)
    &&& forall|i: int| 0 <= i < visited.len() ==> #[trigger] visited[i] < blocks.len()
}

/// True when a walk that stands at `current` after `visited` cannot go on
/// to `parent`: there is no such parent, or it is where the walk stands or
/// has been.
pub open spec fn orphaned(current: u64, parent: u64, visited: Seq<u64>) -> bool {
    parent == 0 || parent == current || visited.contains(parent)
}

/// The components of the path of the record `current`, from the top down,
/// for a walk that has visited `visited`. A record without a name ends the
/// walk with nothing. A record in the root directory ends it with the root
/// prefix, a record that cannot go on to its parent with the orphaned
/// prefix. Any other record stands behind the components of its parent.
#[verifier::opaque]
pub open spec fn components(
    data: Seq<u8>,
    blocks: Seq<Block>,
    drive: Option<char>,
    current: u64,
    visited: Seq<u64>,
) -> Result<Seq<Seq<char>>, ErrorView>
    decreases remaining(blocks.len() as int, visited.len() as int),
    when walkable(blocks, current, visited)
    via components_terminates
{
    match part_of(data, blocks, current) {
        Err(e) => Err(e),
        Ok(None) => Ok(Seq::empty()),
        Ok(Some((name, parent))) => if parent == ROOT_ENTRY {
            Ok(seq![root_prefix(drive), name])
        } else if orphaned(current, parent, visited) {
            Ok(seq![orphaned_prefix(), name])
        } else {
            match components(data, blocks, drive, parent, visited.push(current)) {
                Err(e) => Err(e),
                Ok(above) => Ok(above.push(name)),
            }
        },
    }
}

#[via_fn]
proof fn components_terminates(
    data: Seq<u8>,
    blocks: Seq<Block>,
    drive: Option<char>,
    current: u64,
    visited: Seq<u64>,
) {
    if part_of(data, blocks, current) matches Ok(Some(part)) {
        lemma_walk_goes_on(data, blocks, current, visited);
    }
}

/// The records that a walk from `current` on stands at, behind those that
/// it has visited, in the order of the walk.
#[verifier::opaque]
pub open spec fn visits(data: Seq<u8>, blocks: Seq<Block>, current: u64, visited: Seq<u64>) -> Seq<
    u64,
>
    decreases remaining(blocks.len() as int, visited.len() as int),
    when walkable(blocks, current, visited)
    via visits_terminates
{
    match part_of(data, blocks, current) {
        Ok(Some((name, parent))) => if parent == ROOT_ENTRY || orphaned(current, parent, visited) {
            visited.push(current)
        } else {
            visits(data, blocks, parent, visited.push(current))
        },
        _ => visited.push(current),
    }
}

#[via_fn]
proof fn visits_terminates(data: Seq<u8>, blocks: Seq<Block>, current: u64, visited: Seq<u64>) {
    if part_of(data, blocks, current) matches Ok(Some(part)) {
        lemma_walk_goes_on(data, blocks, current, visited);
    }
}

/// The components joined into one text, with a slash between each two.
pub open spec fn joined(parts: Seq<Seq<char>>) -> Seq<char>
    decreases parts.len(),
{
    if parts.len() == 0 {
        Seq::empty()
    } else if parts.len() == 1 {
        parts[0]
    } else {
        joined(parts.drop_last()) + seq!['/'] + parts.last()
    }
}

/// The path of the record numbered `entry_id`.
pub open spec fn path_of(
    data: Seq<u8>,
    blocks: Seq<Block>,
    drive: Option<char>,
    entry_id: u64,
) -> Result<Seq<char>, ErrorView> {
    match components(data, blocks, drive, entry_id, Seq::empty()) {
        Ok(parts) => Ok(joined(parts)),
        Err(e) => Err(e),
    }
}

/// In a dense index the block of a record stands at the position of the
/// record's number, and a record with a higher number has none.
pub proof fn lemma_dense_position(blocks: Seq<Block>, entry_id: u64, from: int)
    requires
        dense(blocks),
        0 <= from,
        from <= entry_id || entry_id >= blocks.len(),
    ensures
        entry_id < blocks.len() ==> position_of_entry(blocks, entry_id, from) == Some(
            entry_id as int,
        ),
        entry_id >= blocks.len() ==> position_of_entry(blocks, entry_id, from) is None,
    decreases remaining(blocks.len() as int, from),
{
    if from < blocks.len() && blocks[from].entry_id != entry_id {
        lemma_dense_position(blocks, entry_id, from + 1);
    }
}

/// No more numbers below `bound` can be told apart than `bound`.
pub proof fn lemma_distinct_below(numbers: Seq<u64>, bound: nat)
    requires
        numbers.no_duplicates(),
        forall|i: int| 0 <= i < numbers.len() ==> #[trigger] numbers[i] < bound,
    ensures
        numbers.len() <= bound,
{
    let as_int = |n: u64| n as int;
    let ints = numbers.map_values(as_int);
    assert(ints.no_duplicates()) by {
        assert forall|i: int, j: int|
            0 <= i < ints.len() && 0 <= j < ints.len() && i != j implies ints[i] != ints[j] by {
            assert(ints[i] == numbers[i] as int);
            assert(ints[j] == numbers[j] as int);
        }
    }
    ints.unique_seq_to_set();
    lemma_int_range(0, bound as int);
    assert(ints.to_set().subset_of(set_int_range(0, bound as int))) by {
        assert forall|x: int| ints.to_set().contains(x) implies set_int_range(
            0,
            bound as int,
        ).contains(x) by {
            let i = choose|i: int| 0 <= i < ints.len() && ints[i] == x;
            assert(ints[i] == numbers[i] as int);
        }
    }
    lemma_len_subset(ints.to_set(), set_int_range(0, bound as int));
}

/// A walk that stands at a record with a name has visited fewer records
/// than the index holds, and may stand at any record it has not been at.
pub proof fn lemma_walk_goes_on(
    data: Seq<u8>,
    blocks: Seq<Block>,
    current: u64,
    visited: Seq<u64>,
)
    requires
        walkable(blocks, current, visited),
        part_of(data, blocks, current) is Ok,
        part_of(data, blocks, current)->Ok_0 is Some,
    ensures
        current < blocks.len(),
        visited.len() < blocks.len(),
        forall|next: u64|
            next != current && !visited.contains(next) ==> #[trigger] walkable(
                blocks,
                next,
                visited.push(current),
            ),
{
    reveal(best_part);
    lemma_dense_position(blocks, current, 0);
    let longer = visited.push(current);
    assert(longer.no_duplicates());
    assert forall|i: int| 0 <= i < longer.len() implies #[trigger] longer[i] < blocks.len() by {
        if i < visited.len() {
            assert(longer[i] == visited[i]);
        }
    }
    lemma_distinct_below(longer, blocks.len());
    assert forall|next: u64| next != current && !visited.contains(next) implies #[trigger] walkable(
        blocks,
        next,
        longer,
    ) by {
        if longer.contains(next) {
            let i = choose|i: int| 0 <= i < longer.len() && longer[i] == next;
            if i < visited.len() {
                assert(visited[i] == next);
            }
        }
    }
}

/// No walk stands at a record twice: the records that it stands at are
/// all different, and they begin with those that it had visited.
pub proof fn lemma_walk_visits_once(
    data: Seq<u8>,
    blocks: Seq<Block>,
    current: u64,
    visited: Seq<u64>,
)
    requires
        walkable(blocks, current, visited),
    ensures
        visits(data, blocks, current, visited).no_duplicates(),
        visits(data, blocks, current, visited).len() > visited.len(),
        visits(data, blocks, current, visited).take(visited.len() as int) == visited,
        visits(data, blocks, current, visited)[visited.len() as int] == current,
    decreases remaining(blocks.len() as int, visited.len() as int),
{
    reveal(visits);
    let longer = visited.push(current);
    assert(longer.take(visited.len() as int) =~= visited);
    match part_of(data, blocks, current) {
        Ok(Some((name, parent))) => {
            if !(parent == ROOT_ENTRY || orphaned(current, parent, visited)) {
                lemma_walk_goes_on(data, blocks, current, visited);
                lemma_walk_visits_once(data, blocks, parent, longer);
                let all = visits(data, blocks, parent, longer);
                assert(all.take(visited.len() as int) =~= all.take(longer.len() as int).take(
                    visited.len() as int,
                ));
                assert(all[visited.len() as int] == all.take(
                    longer.len() as int,
                )[visited.len() as int]);
            }
        },
        _ => {},
    }
}

/// A walk ends at a record in the root directory: its components are the
/// root prefix and the name of the record, whatever stands above.
pub proof fn lemma_walk_ends_at_root(
    data: Seq<u8>,
    blocks: Seq<Block>,
    drive: Option<char>,
    current: u64,
    visited: Seq<u64>,
)
    requires
        walkable(blocks, current, visited),
        part_of(data, blocks, current) is Ok,
        part_of(data, blocks, current)->Ok_0 is Some,
        part_of(data, blocks, current)->Ok_0->Some_0.1 == ROOT_ENTRY,
    ensures
        components(data, blocks, drive, current, visited) == Ok::<Seq<Seq<char>>, ErrorView>(
            seq![root_prefix(drive), part_of(data, blocks, current)->Ok_0->Some_0.0],
        ),
        joined(seq![root_prefix(drive), part_of(data, blocks, current)->Ok_0->Some_0.0])
            == root_prefix(drive) + seq!['/'] + part_of(data, blocks, current)->Ok_0->Some_0.0,
{
    reveal(components);
    let parts = seq![root_prefix(drive), part_of(data, blocks, current)->Ok_0->Some_0.0];
    assert(parts.drop_last() =~= seq![root_prefix(drive)]);
    assert(joined(parts.drop_last()) == root_prefix(drive));
}

/// A walk ends at a record whose parent is record zero, the record itself,
/// or a record that the walk has been at: its components are the orphaned
/// prefix and the name of the record.
pub proof fn lemma_walk_ends_at_orphan(
    data: Seq<u8>,
    blocks: Seq<Block>,
    drive: Option<char>,
    current: u64,
    visited: Seq<u64>,
)
    requires
        walkable(blocks, current, visited),
        part_of(data, blocks, current) is Ok,
        part_of(data, blocks, current)->Ok_0 is Some,
        part_of(data, blocks, current)->Ok_0->Some_0.1 != ROOT_ENTRY,
        orphaned(current, part_of(data, blocks, current)->Ok_0->Some_0.1, visited),
    ensures
        components(data, blocks, drive, current, visited) == Ok::<Seq<Seq<char>>, ErrorView>(
            seq![orphaned_prefix(), part_of(data, blocks, current)->Ok_0->Some_0.0],
        ),
        joined(seq![orphaned_prefix(), part_of(data, blocks, current)->Ok_0->Some_0.0])
            == orphaned_prefix() + seq!['/'] + part_of(data, blocks, current)->Ok_0->Some_0.0,
{
    reveal(components);
    let parts = seq![orphaned_prefix(), part_of(data, blocks, current)->Ok_0->Some_0.0];
    assert(parts.drop_last() =~= seq![orphaned_prefix()]);
    assert(joined(parts.drop_last()) == orphaned_prefix());
}

} // verus!
