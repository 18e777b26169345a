//! The parser of a table: the bytes of the table, the index of its
//! records, and the parts of paths that have been resolved so far.
use crate::attributes::file_name::FileName;
use crate::block::Block;
use crate::error::{viewed, Error, ErrorView};
use crate::index::{entries, get_blocks, is_index_of, lemma_entries, MAX_TABLE_SIZE};
use crate::path::{best_part, search_block};
use crate::raw::entry::{remaining, EntryView};
use crate::raw::file_reference::ROOT_ENTRY;
use crate::settings::ParserSettings;
use crate::walk::{
    components, joined, lemma_dense_position, lemma_walk_goes_on, part_of, path_of, root_prefix,
    walkable,
};
use crate::MFT_RECORD_SIZE;
use std::collections::HashMap;
use vstd::prelude::*;
use vstd::string::StringExecFns;

verus! {

broadcast use vstd::std_specs::hash::group_hash_axioms;

/// Reads a table that is held in memory. The index is built when the parser
/// is made; parts of paths are kept as they are resolved.
#[derive(Debug)]
pub struct Parser {
    /// The bytes of the table.
    pub data: Vec<u8>,
    /// Number of bytes of the table.
    pub size: u64,
    /// Number of whole slots in the table.
    pub records: u64,
    /// The index: one block for each record.
    pub blocks: Vec<Block>,
    /// For the records resolved so far, the name and the parent's number,
    /// or nothing for a record without a name.
    pub path_parts: HashMap<u64, Option<(String, u64)>>,
    /// The drive letter of the paths, and the records that are left out.
    pub settings: ParserSettings,
}

/// What the cache holds for a record, with the name as a sequence of
/// characters.
pub open spec fn cached_part(value: Option<(String, u64)>) -> Option<(Seq<char>, u64)> {
    match value {
        Some((name, parent)) => Some((name@, parent)),
        None => None,
    }
}

/// True when what `cache` holds for a record is what the record adds to a
/// path.
pub open spec fn cache_agrees(
    cache: Map<u64, Option<(String, u64)>>,
    data: Seq<u8>,
    blocks: Seq<Block>,
) -> bool {
    forall|k: u64| #[trigger]
        cache.contains_key(k) ==> part_of(data, blocks, k) == Ok::<
            Option<(Seq<char>, u64)>,
            ErrorView,
        >(cached_part(cache[k]))
}

/// True when `after` holds what `before` holds, unchanged, and maybe more.
pub open spec fn cache_grows(
    before: Map<u64, Option<(String, u64)>>,
    after: Map<u64, Option<(String, u64)>>,
) -> bool {
    forall|k: u64| #[trigger]
        before.contains_key(k) ==> after.contains_key(k) && cached_part(after[k]) == cached_part(
            before[k],
        )
}

/// True when what `after` holds and `before` did not is a name: nothing
/// is added for a record without one.
pub open spec fn cache_adds_names(
    before: Map<u64, Option<(String, u64)>>,
    after: Map<u64, Option<(String, u64)>>,
) -> bool {
    forall|k: u64| !before.contains_key(k) && #[trigger] after.contains_key(k) ==> after[k] is Some
}

/// A cache that grows by names, and then again, has grown by names.
pub proof fn lemma_cache_goes_on(
    first: Map<u64, Option<(String, u64)>>,
    second: Map<u64, Option<(String, u64)>>,
    third: Map<u64, Option<(String, u64)>>,
)
    requires
        cache_grows(first, second),
        cache_adds_names(first, second),
        cache_grows(second, third),
        cache_adds_names(second, third),
    ensures
        cache_grows(first, third),
        cache_adds_names(first, third),
{
    assert forall|k: u64|
        !first.contains_key(k) && #[trigger] third.contains_key(k) implies third[k] is Some by {
        if second.contains_key(k) {
            assert(cached_part(third[k]) == cached_part(second[k]));
        }
    }
}

/// The texts of a sequence of strings.
pub open spec fn texts(parts: Seq<String>) -> Seq<Seq<char>> {
    parts.map_values(|part: String| part@)
}

/// `above` followed by `below`, or the failure of `above`.
pub open spec fn above_then(
    above: Result<Seq<Seq<char>>, ErrorView>,
    below: Seq<Seq<char>>,
) -> Result<Seq<Seq<char>>, ErrorView> {
    match above {
        Ok(parts) => Ok(parts + below),
        Err(e) => Err(e),
    }
}

/// Joins the parts from the last to the first, with a slash between each
/// two.
pub fn join_reversed(parts: &Vec<String>) -> (path: String)
    ensures
        path@ == joined(texts(parts@).reverse()),
{
    let ghost all = texts(parts@).reverse();
    let mut path = String::new();
    let mut i: usize = parts.len();
    assert(all.take(0) =~= Seq::empty());
    while i > 0
        invariant
            i <= parts.len(),
            all == texts(parts@).reverse(),
            path@ == joined(all.take(parts.len() - i)),
        decreases i,
    {
        let ghost done = all.take(parts.len() - i);
        if i < parts.len() {
            path.append("/");
        }
        i = i - 1;
        path.append(parts[i].as_str());
        proof {
            reveal_strlit("/");
            let next = all.take(parts.len() - i);
            assert(next.drop_last() =~= done);
            assert(next.last() == parts@[i as int]@);
            assert("/"@ =~= seq!['/']);
            if done.len() == 0 {
                assert(path@ =~= next[0]);
            } else {
                assert(path@ =~= joined(done) + seq!['/'] + next.last());
            }
        }
    }
    assert(all.take(parts.len() as int) =~= all);
    path
}

/// The text of the drive letter `letter` and a colon.
fn drive_prefix(letter: char) -> (prefix: String)
    ensures
        prefix@ == root_prefix(Some(letter)),
{
    let mut prefix = String::new();
    prefix.push(letter);
    prefix.push(':');
    assert(prefix@ =~= seq![letter, ':']);
    prefix
}

impl Parser {
    /// True when the parser is one that has been made of a table: its
    /// index is the index of the records of its bytes, and what it has
    /// cached agrees with the table.
    pub open spec fn wf(&self) -> bool {
        &&& self.data@.len() <= MAX_TABLE_SIZE
        &&& self.size == self.data@.len()
        &&& self.records == self.size / MFT_RECORD_SIZE
        &&& entries(self.data@, self.records as nat) is Ok
        &&& is_index_of(self.blocks@, entries(self.data@, self.records as nat)->Ok_0)
        &&& cache_agrees(self.path_parts@, self.data@, self.blocks@)
    }

    /// True when `self` reads the same table as `other`, with the same
    /// index and the same settings.
    pub open spec fn same_table(&self, other: &Parser) -> bool {
        &&& self.data == other.data
        &&& self.size == other.size
        &&& self.records == other.records
        &&& self.blocks == other.blocks
        &&& self.settings == other.settings
    }

    /// The path of the record numbered `entry_id`.
    pub open spec fn path(&self, entry_id: u64) -> Result<Seq<char>, ErrorView> {
        path_of(self.data@, self.blocks@, self.settings.drive_char, entry_id)
    }

    /// A parser of the table `data` with settings that set no drive letter
    /// and leave no record out.
    pub fn new(data: Vec<u8>) -> (r: Result<Parser, Error>)
        requires
            data@.len() <= MAX_TABLE_SIZE,
        ensures
            match r {
                Ok(parser) => {
                    &&& parser.wf()
                    &&& parser.data@ == data@
                    &&& parser.blocks@.len() == data@.len() / MFT_RECORD_SIZE as nat
                    &&& parser.path_parts@ == Map::<u64, Option<(String, u64)>>::empty()
                    &&& parser.settings.drive_char is None
                    &&& parser.settings.excludes_nothing()
                },
                Err(e) => entries(data@, data@.len() / MFT_RECORD_SIZE as nat) == Err::<
                    Seq<EntryView>,
                    ErrorView,
                >(e@),
            },
    {
        Parser::with_settings(data, ParserSettings::new())
    }

    /// A parser of the table `data`. The table holds as many records as it
    /// has whole slots of 1024 bytes; what is left behind them is not
    /// looked at. Making the parser builds the index, and fails where a
    /// record cannot be decoded.
    pub fn with_settings(data: Vec<u8>, settings: ParserSettings) -> (r: Result<Parser, Error>)
        requires
            data@.len() <= MAX_TABLE_SIZE,
        ensures
            match r {
                Ok(parser) => {
                    &&& parser.wf()
                    &&& parser.data@ == data@
                    &&& parser.blocks@.len() == data@.len() / MFT_RECORD_SIZE as nat
                    &&& parser.path_parts@ == Map::<u64, Option<(String, u64)>>::empty()
                    &&& parser.settings == settings
                },
                Err(e) => entries(data@, data@.len() / MFT_RECORD_SIZE as nat) == Err::<
                    Seq<EntryView>,
                    ErrorView,
                >(e@),
            },
    {
        let size: u64 = data.len() as u64;
        let records: u64 = size / MFT_RECORD_SIZE;
        let blocks = get_blocks(data.as_slice(), records)?;
        proof {
            lemma_entries(data@, records as nat);
        }
        let parser = Parser { data, size, records, blocks, path_parts: HashMap::new(), settings };
        assert(parser.path_parts@ =~= Map::<u64, Option<(String, u64)>>::empty());
        Ok(parser)
    }

    /// The best name of the record numbered `entry_id`: the first of its
    /// file names that is no short name for DOS alone.
    pub fn get_best_path_part(&self, entry_id: u64) -> (r: Result<FileName, Error>)
        requires
            self.wf(),
        ensures
            viewed(r) == best_part(self.data@, self.blocks@, entry_id),
    {
        proof {
            reveal(best_part);
            lemma_dense_position(self.blocks@, entry_id, 0);
        }
        if entry_id < self.blocks.len() as u64 {
            let visited: Vec<u128> = Vec::new();
            search_block(
                self.data.as_slice(),
                self.blocks.as_slice(),
                entry_id as usize,
                None,
                &visited,
            )
        } else {
            Err(Error::missing_block("Block", entry_id))
        }
    }

    /// What the record numbered `entry_id` adds to a path, from the cache
    /// or from the table; what is read from the table is kept.
    fn path_part(&mut self, entry_id: u64) -> (r: Result<Option<(String, u64)>, Error>)
        requires
            old(self).wf(),
        ensures
            final(self).wf(),
            final(self).same_table(old(self)),
            cache_grows(old(self).path_parts@, final(self).path_parts@),
            cache_adds_names(old(self).path_parts@, final(self).path_parts@),
            match r {
                Ok(part) => part_of(old(self).data@, old(self).blocks@, entry_id) == Ok::<
                    Option<(Seq<char>, u64)>,
                    ErrorView,
                >(cached_part(part)),
                Err(e) => part_of(old(self).data@, old(self).blocks@, entry_id) == Err::<
                    Option<(Seq<char>, u64)>,
                    ErrorView,
                >(e@),
            },
    {
        match self.path_parts.get(&entry_id) {
            Some(Some((name, parent))) => {
                return Ok(Some((name.clone(), *parent)));
            },
            _ => {},
        }
        match self.get_best_path_part(entry_id) {
            Ok(file_name) => {
                let parent: u64 = file_name.parent_file_reference.entry;
                self.path_parts.insert(entry_id, Some((file_name.name.clone(), parent)));
                Ok(Some((file_name.name, parent)))
            },
            Err(Error::MissingFileNameAttribute) => Ok(None),
            Err(e) => Err(e),
        }
    }

    /// The parts of the path of the record numbered `entry_id`, from the
    /// record's own name up.
    pub fn path_parts_of(&mut self, entry_id: u64) -> (r: Result<Vec<String>, Error>)
        requires
            old(self).wf(),
        ensures
            final(self).wf(),
            final(self).same_table(old(self)),
            cache_grows(old(self).path_parts@, final(self).path_parts@),
            cache_adds_names(old(self).path_parts@, final(self).path_parts@),
            match r {
                Ok(parts) => components(
                    old(self).data@,
                    old(self).blocks@,
                    old(self).settings.drive_char,
                    entry_id,
                    Seq::empty(),
                ) == Ok::<Seq<Seq<char>>, ErrorView>(texts(parts@).reverse()),
                Err(e) => components(
                    old(self).data@,
                    old(self).blocks@,
                    old(self).settings.drive_char,
                    entry_id,
                    Seq::empty(),
                ) == Err::<Seq<Seq<char>>, ErrorView>(e@),
            },
    {
        let ghost data = self.data@;
        let ghost blocks = self.blocks@;
        let ghost drive = self.settings.drive_char;
        let ghost whole = components(data, blocks, drive, entry_id, Seq::empty());
        let mut parts: Vec<String> = Vec::new();
        let mut visited: Vec<u64> = Vec::new();
        let mut current: u64 = entry_id;
        let mut done = false;
        proof {
            assert(texts(parts@).reverse() =~= Seq::empty());
            if whole is Ok {
                assert(whole->Ok_0 + Seq::<Seq<char>>::empty() =~= whole->Ok_0);
            }
        }
        while !done
            invariant
                self.wf(),
                self.same_table(old(self)),
                cache_grows(old(self).path_parts@, self.path_parts@),
                cache_adds_names(old(self).path_parts@, self.path_parts@),
                data == self.data@,
                blocks == self.blocks@,
                drive == self.settings.drive_char,
                whole == components(data, blocks, drive, entry_id, Seq::empty()),
                !done ==> walkable(blocks, current, visited@),
                !done ==> whole == above_then(
                    components(data, blocks, drive, current, visited@),
                    texts(parts@).reverse(),
                ),
                done ==> whole == Ok::<Seq<Seq<char>>, ErrorView>(texts(parts@).reverse()),
            decreases
                    remaining(blocks.len() as int, visited@.len() as int) + if done {
                        0nat
                    } else {
                        1nat
                    },
        {
            reveal(components);
            let ghost below = texts(parts@).reverse();
            let part = self.path_part(current)?;
            match part {
                None => {
                    done = true;
                    proof {
                        assert(Seq::<Seq<char>>::empty() + below =~= below);
                    }
                },
                Some((name, parent)) => {
                    let ghost name_text = name@;
                    proof {
                        lemma_walk_goes_on(data, blocks, current, visited@);
                    }
                    parts.push(name);
                    assert(texts(parts@).reverse() =~= seq![name_text] + below);
                    if parent == ROOT_ENTRY {
                        let prefix = match self.settings.drive_char {
                            Some(letter) => drive_prefix(letter),
                            None => String::from_str("{Root}"),
                        };
                        let ghost prefix_text = prefix@;
                        parts.push(prefix);
                        done = true;
                        assert(texts(parts@).reverse() =~= seq![prefix_text, name_text] + below);
                    } else if parent == 0 || parent == current || contains(&visited, parent) {
                        let prefix = String::from_str("{Orphaned}");
                        let ghost prefix_text = prefix@;
                        parts.push(prefix);
                        done = true;
                        assert(texts(parts@).reverse() =~= seq![prefix_text, name_text] + below);
                    } else {
                        let ghost above = components(
                            data,
                            blocks,
                            drive,
                            parent,
                            visited@.push(current),
                        );
                        visited.push(current);
                        current = parent;
                        proof {
                            if above is Ok {
                                assert(above->Ok_0.push(name_text) + below =~= above->Ok_0 + (
                                seq![name_text] + below));
                            }
                        }
                    }
                },
            }
        }
        Ok(parts)
    }

    /// The path of the record numbered `entry_id`: the names from the top
    /// directory down to the record, with a slash between each two. The
    /// walk up ends at a record in the root directory, with the drive
    /// letter and a colon or `{Root}` before its name; at a record whose
    /// parent is record zero, itself, or a record that the walk has been
    /// at, with `{Orphaned}` before its name; and at a record without a
    /// name, with nothing for it.
    pub fn get_file_path(&mut self, entry_id: u64) -> (r: Result<String, Error>)
        requires
            old(self).wf(),
        ensures
            final(self).wf(),
            final(self).same_table(old(self)),
            cache_grows(old(self).path_parts@, final(self).path_parts@),
            cache_adds_names(old(self).path_parts@, final(self).path_parts@),
            viewed(r) == old(self).path(entry_id),
    {
        let parts = self.path_parts_of(entry_id)?;
        Ok(join_reversed(&parts))
    }

    /// Resolves what every record of the index adds to a path and keeps
    /// it, a name or nothing. This fails with the failure of the first
    /// record whose best name cannot be looked for.
    pub fn fill_path_parts_cache(&mut self) -> (r: Result<(), Error>)
        requires
            old(self).wf(),
        ensures
            final(self).wf(),
            final(self).same_table(old(self)),
            cache_grows(old(self).path_parts@, final(self).path_parts@),
            match r {
                Ok(_) => forall|k: u64|
                    k < old(self).blocks@.len() ==> #[trigger] final(self).path_parts@.contains_key(
                        k,
                    ),
                Err(e) => exists|k: u64|
                    {
                        &&& k < old(self).blocks@.len()
                        &&& #[trigger] part_of(old(self).data@, old(self).blocks@, k) == Err::<
                            Option<(Seq<char>, u64)>,
                            ErrorView,
                        >(e@)
                        &&& forall|j: u64|
                            j < k ==> #[trigger] part_of(old(self).data@, old(self).blocks@, j)
                                is Ok
                    },
            },
    {
        let mut i: usize = 0;
        while i < self.blocks.len()
            invariant
                self.wf(),
                self.same_table(old(self)),
                cache_grows(old(self).path_parts@, self.path_parts@),
                i <= self.blocks.len(),
                forall|k: u64| k < i ==> #[trigger] self.path_parts@.contains_key(k),
                forall|j: u64| j < i ==> #[trigger] part_of(self.data@, self.blocks@, j) is Ok,
            decreases self.blocks.len() - i,
        {
            let id: u64 = self.blocks[i].entry_id;
            let ghost before = self.path_parts@;
            let part = match self.get_best_path_part(id) {
                Ok(file_name) => Some((file_name.name, file_name.parent_file_reference.entry)),
                Err(Error::MissingFileNameAttribute) => None,
                Err(e) => {
                    proof {
                        assert(id < self.blocks@.len());
                        assert(part_of(self.data@, self.blocks@, id) == Err::<
                            Option<(Seq<char>, u64)>,
                            ErrorView,
                        >(e@));
                    }
                    return Err(e);
                },
            };
            self.path_parts.insert(id, part);
            proof {
                assert forall|k: u64| #[trigger] before.contains_key(k) implies cached_part(
                    self.path_parts@[k],
                ) == cached_part(before[k]) by {}
                assert(part_of(self.data@, self.blocks@, id) is Ok);
            }
            i = i + 1;
        }
        Ok(())
    }
}

/// True when `numbers` holds `wanted`.
fn contains(numbers: &Vec<u64>, wanted: u64) -> (found: bool)
    ensures
        found == numbers@.contains(wanted),
{
    let mut i: usize = 0;
    while i < numbers.len()
        invariant
            i <= numbers.len(),
            forall|j: int| 0 <= j < i ==> numbers@[j] != wanted,
        decreases numbers.len() - i,
    {
        if numbers[i] == wanted {
            return true;
        }
        i = i + 1;
    }
    false
}

/// The path of a record is a matter of the table, the index and the drive
/// letter alone. So a parser gives the same path for a record however
/// often it is asked and whatever it has resolved and kept in between.
pub proof fn lemma_path_is_the_same_again(before: Parser, after: Parser, entry_id: u64)
    requires
        after.same_table(&before),
    ensures
        after.path(entry_id) == before.path(entry_id),
{
}

} // verus!
