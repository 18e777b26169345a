//! The records of a table, one after the other, each as a value or as the
//! failure to tell of it.
use crate::attributes::timestamp::Timestamp;
use crate::block::Block;
use crate::error::{Error, ErrorView};
use crate::iter::{record_of, RecordView as NumberedView};
use crate::parser::{cache_adds_names, cache_grows, Parser};
use vstd::prelude::*;
use vstd::std_specs::convert::FromSpecImpl;

verus! {

/// What is told of one record of the table, without its number.
#[derive(Debug, Clone)]
pub struct Record {
    pub path: String,
    pub is_file: bool,
    pub is_deleted: bool,
    pub filename: Option<String>,
    pub created: Timestamp,
    pub modified: Timestamp,
    pub accessed: Timestamp,
}

/// What a [`Record`] holds, with its texts as sequences of characters.
pub struct RecordView {
    pub path: Seq<char>,
    pub is_file: bool,
    pub is_deleted: bool,
    pub filename: Option<Seq<char>>,
    pub created: Timestamp,
    pub modified: Timestamp,
    pub accessed: Timestamp,
}

impl View for Record {
    type V = RecordView;

    open spec fn view(&self) -> RecordView {
        RecordView {
            path: self.path@,
            is_file: self.is_file,
            is_deleted: self.is_deleted,
            filename: match self.filename {
                Some(name) => Some(name@),
                None => None,
            },
            created: self.created,
            modified: self.modified,
            accessed: self.accessed,
        }
    }
}

/// What is told of a record, without the record's number.
pub open spec fn without_number(record: NumberedView) -> RecordView {
    RecordView {
        path: record.path,
        is_file: record.is_file,
        is_deleted: record.is_deleted,
        filename: record.filename,
        created: record.created,
        modified: record.modified,
        accessed: record.accessed,
    }
}

/// The outcome `outcome` without the record's number.
pub open spec fn outcome_without_number(outcome: Result<NumberedView, ErrorView>) -> Result<
    RecordView,
    ErrorView,
> {
    match outcome {
        Ok(record) => Ok(without_number(record)),
        Err(e) => Err(e),
    }
}

/// The result `r` with its record and its error each taken by its view.
pub open spec fn record_view(r: Result<Record, Error>) -> Result<RecordView, ErrorView> {
    match r {
        Ok(record) => Ok(record@),
        Err(e) => Err(e@),
    }
}

impl Record {
    /// Tells of the record that `block` stands for.
    pub fn from(parser: &mut Parser, block: &Block) -> (r: Result<Record, Error>)
        requires
            old(parser).wf(),
        ensures
            final(parser).wf(),
            final(parser).same_table(old(parser)),
            cache_grows(old(parser).path_parts@, final(parser).path_parts@),
            cache_adds_names(old(parser).path_parts@, final(parser).path_parts@),
            record_view(r) == outcome_without_number(
                record_of(
                    old(parser).data@,
                    old(parser).blocks@,
                    old(parser).settings.drive_char,
                    *block,
                ),
            ),
    {
        let parts = parser.path_parts_of(block.entry_id)?;
        let record = crate::iter::Record::describe(parser.data.as_slice(), block, parts)?;
        Ok(
            Record {
                path: record.path,
                is_file: record.is_file,
                is_deleted: record.is_deleted,
                filename: record.filename,
                created: record.created,
                modified: record.modified,
                accessed: record.accessed,
            },
        )
    }
}

/// Walks the records of a table in the order of their numbers.
#[derive(Debug)]
pub struct Iterator {
    pub inner: Parser,
    pub next_entry_id: u64,
}

impl FromSpecImpl<Parser> for Iterator {
    open spec fn obeys_from_spec() -> bool {
        true
    }

    open spec fn from_spec(parser: Parser) -> Iterator {
        Iterator { inner: parser, next_entry_id: 0 }
    }
}

impl From<Parser> for Iterator {
    /// An iterator over the table of `parser`, from its first record on.
    fn from(parser: Parser) -> (iterator: Iterator) {
        Iterator { inner: parser, next_entry_id: 0 }
    }
}

impl Iterator {
    /// What is told of the next record, or the failure to tell of it; or
    /// nothing when the records have run out.
    pub fn next(&mut self) -> (r: Option<Result<Record, Error>>)
        requires
            old(self).inner.wf(),
        ensures
            final(self).inner.wf(),
            final(self).inner.same_table(&old(self).inner),
            cache_grows(old(self).inner.path_parts@, final(self).inner.path_parts@),
            cache_adds_names(old(self).inner.path_parts@, final(self).inner.path_parts@),
            match r {
                Some(outcome) => {
                    &&& old(self).next_entry_id < old(self).inner.blocks@.len()
                    &&& final(self).next_entry_id == old(self).next_entry_id + 1
                    &&& record_view(outcome) == outcome_without_number(
                        record_of(
                            old(self).inner.data@,
                            old(self).inner.blocks@,
                            old(self).inner.settings.drive_char,
                            old(self).inner.blocks@[old(self).next_entry_id as int],
                        ),
                    )
                },
                None => {
                    &&& old(self).next_entry_id >= old(self).inner.blocks@.len()
                    &&& final(self).next_entry_id == old(self).next_entry_id
                },
            },
    {
        if self.next_entry_id < self.inner.blocks.len() as u64 {
            let position: usize = self.next_entry_id as usize;
            self.next_entry_id = self.next_entry_id + 1;
            let entry_id: u64 = self.inner.blocks[position].entry_id;
            let parts = match self.inner.path_parts_of(entry_id) {
                Ok(parts) => parts,
                Err(e) => {
                    return Some(Err(e));
                },
            };
            let record = match crate::iter::Record::describe(
                self.inner.data.as_slice(),
                &self.inner.blocks[position],
                parts,
            ) {
                Ok(record) => record,
                Err(e) => {
                    return Some(Err(e));
                },
            };
            Some(
                Ok(
                    Record {
                        path: record.path,
                        is_file: record.is_file,
                        is_deleted: record.is_deleted,
                        filename: record.filename,
                        created: record.created,
                        modified: record.modified,
                        accessed: record.accessed,
                    },
                ),
            )
        } else {
            None
        }
    }
}

} // verus!
