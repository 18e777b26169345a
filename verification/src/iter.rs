//! The records of a table as a reader wants them: path, kind, state and
//! times, one line of text for each.
use crate::attributes::standard_info::{standard_information_outcome, StandardInformation};
use crate::attributes::timestamp::{rfc3339_text, Timestamp};
use crate::block::{Block, BlockType, SectionPointer};
use crate::error::{viewed, Error, ErrorView};
use crate::parser::{
    cache_adds_names, cache_grows, join_reversed, lemma_cache_goes_on, texts, Parser,
};
use crate::path::{find_pointer, first_of_type, tail, tail_at};
use crate::raw::entry::{lemma_record_bytes_hold_header, record_bytes, remaining, Entry};
use crate::raw::header::{header_at, Header};
use crate::exclusion::pattern_matches;
use crate::settings::ParserSettings;
use crate::text::{bool_text, decimal, push_bool, push_decimal};
use crate::walk::{components, joined};
use vstd::prelude::*;
use vstd::std_specs::convert::FromSpecImpl;
use vstd::string::StringExecFns;

verus! {

/// What is told of one record of the table.
#[derive(Debug, Clone)]
pub struct Record {
    pub entry_id: u64,
    pub path: String,
    pub is_file: bool,
    pub is_deleted: bool,
    pub filename: Option<String>,
    pub created: Timestamp,
    pub modified: Timestamp,
    pub accessed: Timestamp,
}

/// What a [`Record`] holds, with its texts as sequences of characters.
pub struct RecordView {
    pub entry_id: u64,
    pub path: Seq<char>,
    pub is_file: bool,
    pub is_deleted: bool,
    pub filename: Option<Seq<char>>,
    pub created: Timestamp,
    pub modified: Timestamp,
    pub accessed: Timestamp,
}

impl View for Record {
    type V = RecordView;

    open spec fn view(&self) -> RecordView {
        RecordView {
            entry_id: self.entry_id,
            path: self.path@,
            is_file: self.is_file,
            is_deleted: self.is_deleted,
            filename: match self.filename {
                Some(name) => Some(name@),
                None => None,
            },
            created: self.created,
            modified: self.modified,
            accessed: self.accessed,
        }
    }
}

/// The last of the components of a path, or nothing where there is none.
pub open spec fn last_component(parts: Seq<Seq<char>>) -> Option<Seq<char>> {
    if parts.len() == 0 {
        None
    } else {
        Some(parts.last())
    }
}

/// What is told of the record numbered `entry_id` with the pointers
/// `pointers`, whose path has the components `parts`. The standard
/// information gives the times, and says that the record is a file unless
/// it marks a directory. The header says that the record is deleted where
/// it is not in use. Both are read from the bytes of the record with their
/// sector ends restored.
#[verifier::opaque]
pub open spec fn described(
    data: Seq<u8>,
    entry_id: u64,
    pointers: Seq<SectionPointer>,
    parts: Seq<Seq<char>>,
) -> Result<RecordView, ErrorView> {
    match first_of_type(pointers, BlockType::StandardInformation, 0) {
        None => Err(ErrorView::MissingBlock("StandardInfo"@, entry_id)),
        Some(info_pointer) => match first_of_type(pointers, BlockType::Entry, 0) {
            None => Err(ErrorView::MissingBlock("EntryBlock"@, entry_id)),
            Some(entry_pointer) => match record_bytes(data, entry_pointer.offset as int) {
                Err(e) => Err(e),
                Ok(bytes) => match standard_information_outcome(
                    tail_at(bytes, info_pointer.offset - entry_pointer.offset),
                ) {
                    Err(e) => Err(e),
                    Ok(info) => Ok(
                        RecordView {
                            entry_id,
                            path: joined(parts),
                            is_file: info.marks_file(),
                            is_deleted: !header_at(bytes).in_use(),
                            filename: last_component(parts),
                            created: info.creation_time,
                            modified: info.modification_time,
                            accessed: info.access_time,
                        },
                    ),
                },
            },
        },
    }
}

/// What is told of the record that `block` stands for, in the table `data`
/// with the index `blocks`.
pub open spec fn record_of(
    data: Seq<u8>,
    blocks: Seq<Block>,
    drive: Option<char>,
    block: Block,
) -> Result<RecordView, ErrorView> {
    match components(data, blocks, drive, block.entry_id, Seq::empty()) {
        Err(e) => Err(e),
        Ok(parts) => described(data, block.entry_id, block.blocks@, parts),
    }
}

/// The text of an instant in a line.
pub open spec fn time_text(t: Timestamp) -> Seq<char> {
    rfc3339_text(t.unix_micros_spec())
}

/// The text of a name that may be missing: the name, or nothing.
pub open spec fn name_or_empty(name: Option<Seq<char>>) -> Seq<char> {
    match name {
        Some(text) => text,
        None => Seq::empty(),
    }
}

/// A line of comma-separated values: number, path, whether the record is a
/// file, whether it is deleted, file name, and the times of creation,
/// change and access as they are given; the texts in double quotes.
pub open spec fn csv_text(
    entry_id: u64,
    path: Seq<char>,
    is_file: bool,
    is_deleted: bool,
    filename: Seq<char>,
    created: Seq<char>,
    modified: Seq<char>,
    accessed: Seq<char>,
) -> Seq<char> {
    decimal(entry_id as nat) + ",\""@ + path + "\","@ + bool_text(is_file) + ","@ + bool_text(
        is_deleted,
    ) + ",\""@ + filename + "\",\""@ + created + "\",\""@ + modified + "\",\""@ + accessed
        + "\""@
}

/// The line of comma-separated values that tells of a record, with its
/// times as RFC 3339 writes them and nothing for a file name that is
/// missing.
pub open spec fn csv_line(record: RecordView) -> Seq<char> {
    csv_text(
        record.entry_id,
        record.path,
        record.is_file,
        record.is_deleted,
        name_or_empty(record.filename),
        time_text(record.created),
        time_text(record.modified),
        time_text(record.accessed),
    )
}

/// Writes a line of comma-separated values from the fields of a record and
/// the texts of its times.
pub fn csv_fields(
    entry_id: u64,
    path: &str,
    is_file: bool,
    is_deleted: bool,
    filename: &str,
    created: &str,
    modified: &str,
    accessed: &str,
) -> (line: String)
    ensures
        line@ == csv_text(
            entry_id,
            path@,
            is_file,
            is_deleted,
            filename@,
            created@,
            modified@,
            accessed@,
        ),
{
    let mut line = String::new();
    push_decimal(&mut line, entry_id);
    line.append(",\"");
    line.append(path);
    line.append("\",");
    push_bool(&mut line, is_file);
    line.append(",");
    push_bool(&mut line, is_deleted);
    line.append(",\"");
    line.append(filename);
    line.append("\",\"");
    line.append(created);
    line.append("\",\"");
    line.append(modified);
    line.append("\",\"");
    line.append(accessed);
    line.append("\"");
    assert(line@ =~= csv_text(
        entry_id,
        path@,
        is_file,
        is_deleted,
        filename@,
        created@,
        modified@,
        accessed@,
    ));
    line
}

/// True when a record is left out: its path or its file name was matched
/// by the expression that is set for it.
pub open spec fn excluded(path_match: Option<bool>, filename_match: Option<bool>) -> bool {
    path_match == Some(true) || filename_match == Some(true)
}

/// True when a record is left out, given what the expressions for paths
/// and for file names said of it, where they are set.
pub fn is_excluded(path_match: Option<bool>, filename_match: Option<bool>) -> (skip: bool)
    ensures
        skip == excluded(path_match, filename_match),
{
    let by_path = match path_match {
        Some(found) => found,
        None => false,
    };
    let by_name = match filename_match {
        Some(found) => found,
        None => false,
    };
    by_path || by_name
}

/// What the expression for paths says of a record, where one is set.
pub open spec fn path_match(settings: ParserSettings, record: RecordView) -> Option<bool> {
    match settings.path_exclusion_regex {
        Some(expression) => Some(pattern_matches(expression@, record.path)),
        None => None,
    }
}

/// What the expression for file names says of a record, where one is set
/// and the record has a file name.
pub open spec fn filename_match(settings: ParserSettings, record: RecordView) -> Option<bool> {
    match (settings.filename_exclusion_regex, record.filename) {
        (Some(expression), Some(name)) => Some(pattern_matches(expression@, name)),
        _ => None,
    }
}

/// True when the settings leave the record out: the expression for paths
/// matches its path, or the expression for file names its file name.
pub open spec fn leaves_out(settings: ParserSettings, record: RecordView) -> bool {
    excluded(path_match(settings, record), filename_match(settings, record))
}

/// True when the settings leave the record out.
pub fn is_left_out(settings: &ParserSettings, record: &Record) -> (skip: bool)
    ensures
        skip == leaves_out(*settings, record@),
{
    let by_path = match &settings.path_exclusion_regex {
        Some(expression) => Some(expression.is_match(record.path.as_str())),
        None => None,
    };
    let by_name = match (&settings.filename_exclusion_regex, &record.filename) {
        (Some(expression), Some(name)) => Some(expression.is_match(name.as_str())),
        _ => None,
    };
    is_excluded(by_path, by_name)
}

impl Record {
    /// Tells of the record that `block` stands for, given the parts of its
    /// path from the record's own name up.
    pub fn describe(data: &[u8], block: &Block, parts: Vec<String>) -> (r: Result<Record, Error>)
        ensures
            viewed(r) == described(data@, block.entry_id, block.blocks@, texts(parts@).reverse()),
    {
        reveal(described);
        let info_pointer = match find_pointer(&block.blocks, BlockType::StandardInformation) {
            Some(pointer) => pointer,
            None => {
                return Err(Error::missing_block("StandardInfo", block.entry_id));
            },
        };
        let entry_pointer = match find_pointer(&block.blocks, BlockType::Entry) {
            Some(pointer) => pointer,
            None => {
                return Err(Error::missing_block("EntryBlock", block.entry_id));
            },
        };
        let bytes = Entry::get_entry_bytes(data, entry_pointer.offset)?;
        let info = StandardInformation::from_reader(
            tail(bytes.as_slice(), info_pointer.offset, entry_pointer.offset),
        )?;
        proof {
            lemma_record_bytes_hold_header(data@, entry_pointer.offset as int);
        }
        let header = Header::from_buffer(bytes.as_slice()).unwrap();
        let path = join_reversed(&parts);
        let filename = if parts.len() == 0 {
            None
        } else {
            Some(parts[0].clone())
        };
        proof {
            let names = texts(parts@).reverse();
            if parts.len() > 0 {
                assert(names.last() == parts@[0]@);
            }
        }
        Ok(
            Record {
                entry_id: block.entry_id,
                path,
                is_file: info.file_attributes != 0x10,
                is_deleted: header.flags % 2 == 0,
                filename,
                created: info.creation_time,
                modified: info.modification_time,
                accessed: info.access_time,
            },
        )
    }

    /// Tells of the record that `block` stands for.
    pub fn from(parser: &mut Parser, block: &Block) -> (r: Result<Record, Error>)
        requires
            old(parser).wf(),
        ensures
            final(parser).wf(),
            final(parser).same_table(old(parser)),
            cache_grows(old(parser).path_parts@, final(parser).path_parts@),
            cache_adds_names(old(parser).path_parts@, final(parser).path_parts@),
            viewed(r) == record_of(
                old(parser).data@,
                old(parser).blocks@,
                old(parser).settings.drive_char,
                *block,
            ),
    {
        let parts = parser.path_parts_of(block.entry_id)?;
        Record::describe(parser.data.as_slice(), block, parts)
    }

    /// The line of comma-separated values that tells of the record.
    pub fn as_csv(&self) -> (line: String)
        ensures
            line@ == csv_line(self@),
    {
        let created = self.created.to_rfc3339();
        let modified = self.modified.to_rfc3339();
        let accessed = self.accessed.to_rfc3339();
        let filename = match &self.filename {
            Some(name) => name.as_str(),
            None => {
                proof {
                    reveal_strlit("");
                }
                ""
            },
        };
        assert(filename@ =~= name_or_empty(self@.filename));
        csv_fields(
            self.entry_id,
            self.path.as_str(),
            self.is_file,
            self.is_deleted,
            filename,
            created.as_str(),
            modified.as_str(),
            accessed.as_str(),
        )
    }
}

/// Walks the records of a table in the order of their numbers and gives a
/// line for each that can be told of and is not left out.
#[derive(Debug)]
pub struct Iterator {
    pub inner: Parser,
    pub next_entry_id: u64,
}

impl FromSpecImpl<Parser> for Iterator {
    open spec fn obeys_from_spec() -> bool {
        true
    }

    open spec fn from_spec(parser: Parser) -> Iterator {
        Iterator { inner: parser, next_entry_id: 0 }
    }
}

impl From<Parser> for Iterator {
    /// An iterator over the table of `parser`, from its first record on.
    fn from(parser: Parser) -> (iterator: Iterator) {
        Iterator { inner: parser, next_entry_id: 0 }
    }
}

/// The outcome of a step with its record and its error each taken by its
/// view.
pub open spec fn outcome_view(outcome: Result<Option<Record>, Error>) -> Result<
    Option<RecordView>,
    ErrorView,
> {
    match outcome {
        Ok(Some(record)) => Ok(Some(record@)),
        Ok(None) => Ok(None),
        Err(e) => Err(e@),
    }
}

impl Iterator {
    /// What is told of the record at position `i` of the index.
    pub open spec fn record(&self, i: int) -> Result<RecordView, ErrorView> {
        record_of(
            self.inner.data@,
            self.inner.blocks@,
            self.inner.settings.drive_char,
            self.inner.blocks@[i],
        )
    }

    /// What a step over the record at position `i` gives: the failure to
    /// tell of the record, nothing where the settings leave it out, or the
    /// record.
    pub open spec fn outcome(&self, i: int) -> Result<Option<RecordView>, ErrorView> {
        match self.record(i) {
            Err(e) => Err(e),
            Ok(record) => if leaves_out(self.inner.settings, record) {
                Ok(None)
            } else {
                Ok(Some(record))
            },
        }
    }

    /// True when the iterator gives the record at position `i`: it can be
    /// told of, and the settings do not leave it out.
    pub open spec fn gives(&self, i: int) -> bool {
        self.record(i) is Ok && !leaves_out(self.inner.settings, self.record(i)->Ok_0)
    }

    /// Steps over the next record: gives the record, nothing where the
    /// settings leave it out, or the failure to tell of it. When the
    /// records have run out there is no step.
    pub fn next_outcome(&mut self) -> (r: Option<Result<Option<Record>, Error>>)
        requires
            old(self).inner.wf(),
        ensures
            final(self).inner.wf(),
            final(self).inner.same_table(&old(self).inner),
            cache_grows(old(self).inner.path_parts@, final(self).inner.path_parts@),
            cache_adds_names(old(self).inner.path_parts@, final(self).inner.path_parts@),
            match r {
                Some(outcome) => {
                    &&& old(self).next_entry_id < old(self).inner.blocks@.len()
                    &&& final(self).next_entry_id == old(self).next_entry_id + 1
                    &&& outcome_view(outcome) == old(self).outcome(old(self).next_entry_id as int)
                },
                None => {
                    &&& old(self).next_entry_id >= old(self).inner.blocks@.len()
                    &&& final(self).next_entry_id == old(self).next_entry_id
                },
            },
    {
        if self.next_entry_id >= self.inner.blocks.len() as u64 {
            return None;
        }
        let position: usize = self.next_entry_id as usize;
        self.next_entry_id = self.next_entry_id + 1;
        let entry_id: u64 = self.inner.blocks[position].entry_id;
        let parts = match self.inner.path_parts_of(entry_id) {
            Ok(parts) => parts,
            Err(e) => {
                return Some(Err(e));
            },
        };
        let record = match Record::describe(
            self.inner.data.as_slice(),
            &self.inner.blocks[position],
            parts,
        ) {
            Ok(record) => record,
            Err(e) => {
                return Some(Err(e));
            },
        };
        if is_left_out(&self.inner.settings, &record) {
            Some(Ok(None))
        } else {
            Some(Ok(Some(record)))
        }
    }

    /// The next record that can be told of and is not left out, or nothing
    /// when the records have run out. A record that cannot be told of is
    /// passed over.
    pub fn next_record(&mut self) -> (r: Option<Record>)
        requires
            old(self).inner.wf(),
        ensures
            final(self).inner.wf(),
            final(self).inner.same_table(&old(self).inner),
            cache_grows(old(self).inner.path_parts@, final(self).inner.path_parts@),
            cache_adds_names(old(self).inner.path_parts@, final(self).inner.path_parts@),
            old(self).next_entry_id <= final(self).next_entry_id,
            forall|i: int|
                old(self).next_entry_id <= i < final(self).next_entry_id - (if r is Some {
                    1int
                } else {
                    0int
                }) ==> !#[trigger] old(self).gives(i),
            match r {
                Some(record) => {
                    &&& old(self).next_entry_id < final(self).next_entry_id
                    &&& final(self).next_entry_id <= old(self).inner.blocks@.len()
                    &&& old(self).gives(final(self).next_entry_id - 1)
                    &&& old(self).record(final(self).next_entry_id - 1) == Ok::<
                        RecordView,
                        ErrorView,
                    >(record@)
                },
                None => {
                    &&& final(self).next_entry_id >= old(self).inner.blocks@.len()
                    &&& final(self).next_entry_id == old(self).next_entry_id
                        || final(self).next_entry_id == old(self).inner.blocks@.len()
                },
            },
    {
        loop
            invariant
                self.inner.wf(),
                self.inner.same_table(&old(self).inner),
                cache_grows(old(self).inner.path_parts@, self.inner.path_parts@),
                cache_adds_names(old(self).inner.path_parts@, self.inner.path_parts@),
                old(self).next_entry_id <= self.next_entry_id,
                self.next_entry_id <= old(self).inner.blocks@.len() || self.next_entry_id == old(
                    self,
                ).next_entry_id,
                forall|i: int|
                    old(self).next_entry_id <= i < self.next_entry_id ==> !#[trigger] old(
                        self,
                    ).gives(i),
            decreases
                    remaining(
                        old(self).inner.blocks@.len() as int,
                        self.next_entry_id as int,
                    ),
        {
            let ghost at = self.next_entry_id as int;
            let ghost cache = self.inner.path_parts@;
            match self.next_outcome() {
                None => {
                    return None;
                },
                Some(Ok(Some(record))) => {
                    proof {
                        lemma_cache_goes_on(
                            old(self).inner.path_parts@,
                            cache,
                            self.inner.path_parts@,
                        );
                    }
                    return Some(record);
                },
                Some(_) => {
                    proof {
                        lemma_cache_goes_on(
                            old(self).inner.path_parts@,
                            cache,
                            self.inner.path_parts@,
                        );
                        assert(!old(self).gives(at));
                    }
                },
            }
        }
    }

    /// The line of the next record that can be told of and is not left
    /// out, or nothing when the records have run out. A record that cannot
    /// be told of is passed over.
    pub fn next(&mut self) -> (line: Option<String>)
        requires
            old(self).inner.wf(),
        ensures
            final(self).inner.wf(),
            final(self).inner.same_table(&old(self).inner),
            cache_grows(old(self).inner.path_parts@, final(self).inner.path_parts@),
            cache_adds_names(old(self).inner.path_parts@, final(self).inner.path_parts@),
            old(self).next_entry_id <= final(self).next_entry_id,
            forall|i: int|
                old(self).next_entry_id <= i < final(self).next_entry_id - (if line is Some {
                    1int
                } else {
                    0int
                }) ==> !#[trigger] old(self).gives(i),
            match line {
                Some(text) => {
                    &&& old(self).next_entry_id < final(self).next_entry_id
                    &&& final(self).next_entry_id <= old(self).inner.blocks@.len()
                    &&& old(self).gives(final(self).next_entry_id - 1)
                    &&& text@ == csv_line(old(self).record(final(self).next_entry_id - 1)->Ok_0)
                },
                None => {
                    &&& final(self).next_entry_id >= old(self).inner.blocks@.len()
                    &&& final(self).next_entry_id == old(self).next_entry_id
                        || final(self).next_entry_id == old(self).inner.blocks@.len()
                },
            },
    {
        match self.next_record() {
            Some(record) => Some(record.as_csv()),
            None => None,
        }
    }
}

} // verus!
