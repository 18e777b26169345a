//! The failures that reading a master file table can end in.
use crate::text::{decimal, push_decimal};
use vstd::prelude::*;
use vstd::string::StringExecFns;

verus! {

/// A failure met while reading a table or answering a query about it.
#[derive(Debug)]
pub enum Error {
    /// The source of the bytes failed; the text says how.
    Reader(String),
    /// A field of fixed width could not be decoded; the text names the field.
    ValueRead(String),
    /// A read of variable length could not be filled; the text gives offset and size.
    BufferFill(String),
    /// The index holds no pointer of the kind named for the record numbered.
    MissingBlock(String, u64),
    /// The record has no file name outside the DOS name space.
    MissingFileNameAttribute,
}

/// What an [`Error`] holds, with its texts as sequences of characters.
pub enum ErrorView {
    Reader(Seq<char>),
    ValueRead(Seq<char>),
    BufferFill(Seq<char>),
    MissingBlock(Seq<char>, u64),
    MissingFileNameAttribute,
}

impl View for Error {
    type V = ErrorView;

    open spec fn view(&self) -> ErrorView {
        match self {
            Error::Reader(text) => ErrorView::Reader(text@),
            Error::ValueRead(text) => ErrorView::ValueRead(text@),
            Error::BufferFill(text) => ErrorView::BufferFill(text@),
            Error::MissingBlock(kind, entry_id) => ErrorView::MissingBlock(kind@, *entry_id),
            Error::MissingFileNameAttribute => ErrorView::MissingFileNameAttribute,
        }
    }
}

/// What a source of bytes reports when it ends before a read is complete.
pub open spec fn end_of_data_text() -> Seq<char> {
    "failed to fill whole buffer"@
}

/// The text of a failure to read the field `name` as `kind`, caused by `cause`.
pub open spec fn value_read_text(name: Seq<char>, kind: Seq<char>, cause: Seq<char>) -> Seq<char> {
    "Reader error occured trying to get value "@ + name + " as "@ + kind + ". "@ + cause
}

/// The text of a failure to fill `size` bytes at `offset`, caused by `cause`.
pub open spec fn buffer_fill_text(offset: u64, size: u64, cause: Seq<char>) -> Seq<char> {
    "Buffer could not be filled with "@ + decimal(size as nat) + " at offset "@ + decimal(
        offset as nat,
    ) + ". "@ + cause
}

/// The failure to read the field `name` as `kind` because the bytes ended.
pub open spec fn value_read_failure(name: Seq<char>, kind: Seq<char>) -> ErrorView {
    ErrorView::ValueRead(value_read_text(name, kind, end_of_data_text()))
}

/// The failure to decode the field `name` as `kind` because it holds a value
/// that no table can hold there.
pub open spec fn invalid_value_failure(name: Seq<char>, kind: Seq<char>) -> ErrorView {
    ErrorView::ValueRead(value_read_text(name, kind, "invalid data"@))
}

/// The failure to fill `size` bytes at `offset` because the bytes ended.
pub open spec fn buffer_fill_failure(offset: u64, size: u64) -> ErrorView {
    ErrorView::BufferFill(buffer_fill_text(offset, size, end_of_data_text()))
}

/// The result `r` with its error taken by its view.
pub open spec fn plain<T>(r: Result<T, Error>) -> Result<T, ErrorView> {
    match r {
        Ok(value) => Ok(value),
        Err(e) => Err(e@),
    }
}

/// The result `r` with its value and its error each taken by its view.
pub open spec fn viewed<T: View>(r: Result<T, Error>) -> Result<T::V, ErrorView> {
    match r {
        Ok(value) => Ok(value@),
        Err(e) => Err(e@),
    }
}

/// True when `r` is the failure `e`.
pub open spec fn fails_with<T>(r: Result<T, Error>, e: ErrorView) -> bool {
    r is Err && r->Err_0@ == e
}

/// The text that [`Error::to_string`] gives for an error.
pub open spec fn error_text(e: ErrorView) -> Seq<char> {
    match e {
        ErrorView::Reader(text) => "Reader error: "@ + text,
        ErrorView::ValueRead(text) => "Value read error: "@ + text,
        ErrorView::BufferFill(text) => "Buffer fill error: "@ + text,
        ErrorView::MissingBlock(_, _) => "Missing block"@,
        ErrorView::MissingFileNameAttribute => "Missing file name attribute"@,
    }
}

impl Error {
    /// The reader failure for bytes that end before a read is complete.
    pub fn end_of_data() -> (e: Error)
        ensures
            e@ == ErrorView::Reader(end_of_data_text()),
    {
        Error::Reader(String::from_str("failed to fill whole buffer"))
    }

    /// The failure to find a pointer of kind `kind` for record `entry_id`.
    pub fn missing_block(kind: &str, entry_id: u64) -> (e: Error)
        ensures
            e@ == ErrorView::MissingBlock(kind@, entry_id),
    {
        Error::MissingBlock(String::from_str(kind), entry_id)
    }

    /// Turns a reader failure into the failure to read the field `value_name`
    /// as `value_type`, keeping the reader's text as the cause. Any other
    /// failure stays as it is.
    pub fn into_value_read_error(self, value_name: &str, value_type: &str) -> (e: Error)
        ensures
            self is Reader ==> e@ == ErrorView::ValueRead(
                value_read_text(value_name@, value_type@, self->Reader_0@),
            ),
            !(self is Reader) ==> e@ == self@,
    {
        match self {
            Error::Reader(cause) => {
                let mut text = String::from_str("Reader error occured trying to get value ");
                text.append(value_name);
                text.append(" as ");
                text.append(value_type);
                text.append(". ");
                text.append(cause.as_str());
                Error::ValueRead(text)
            },
            other => other,
        }
    }

    /// Turns a reader failure into the failure to fill `size` bytes at
    /// `offset`, keeping the reader's text as the cause. Any other failure
    /// stays as it is.
    pub fn into_buffer_fill_error(self, offset: u64, size: u64) -> (e: Error)
        ensures
            self is Reader ==> e@ == ErrorView::BufferFill(
                buffer_fill_text(offset, size, self->Reader_0@),
            ),
            !(self is Reader) ==> e@ == self@,
    {
        match self {
            Error::Reader(cause) => {
                let mut text = String::from_str("Buffer could not be filled with ");
                push_decimal(&mut text, size);
                text.append(" at offset ");
                push_decimal(&mut text, offset);
                text.append(". ");
                text.append(cause.as_str());
                Error::BufferFill(text)
            },
            other => other,
        }
    }

    /// The failure to read the field `name` as `kind` because the bytes ended.
    pub fn value_read(name: &str, kind: &str) -> (e: Error)
        ensures
            e@ == value_read_failure(name@, kind@),
    {
        Error::end_of_data().into_value_read_error(name, kind)
    }

    /// The failure to decode the field `name` as `kind` because it holds a
    /// value that no table can hold there.
    pub fn invalid_value(name: &str, kind: &str) -> (e: Error)
        ensures
            e@ == invalid_value_failure(name@, kind@),
    {
        Error::Reader(String::from_str("invalid data")).into_value_read_error(name, kind)
    }

    /// The failure to fill `size` bytes at `offset` because the bytes ended.
    pub fn buffer_fill(offset: u64, size: u64) -> (e: Error)
        ensures
            e@ == buffer_fill_failure(offset, size),
    {
        Error::end_of_data().into_buffer_fill_error(offset, size)
    }

    /// The error as a line of text for a reader.
    pub fn to_string(&self) -> (text: String)
        ensures
            text@ == error_text(self@),
    {
        match self {
            Error::Reader(cause) => {
                let mut text = String::from_str("Reader error: ");
                text.append(cause.as_str());
                text
            },
            Error::ValueRead(cause) => {
                let mut text = String::from_str("Value read error: ");
                text.append(cause.as_str());
                text
            },
            Error::BufferFill(cause) => {
                let mut text = String::from_str("Buffer fill error: ");
                text.append(cause.as_str());
                text
            },
            Error::MissingBlock(_, _) => String::from_str("Missing block"),
            Error::MissingFileNameAttribute => String::from_str("Missing file name attribute"),
        }
    }
}

} // verus!
