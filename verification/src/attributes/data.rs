//! The data of a file that lies in its record, as text.
use crate::error::{value_read_text, viewed, Error, ErrorView};
use vstd::prelude::*;
use vstd::string::StringExecFns;
use vstd::utf8::{decode_utf8, valid_utf8};

verus! {

/// The data of a `Data` attribute: the text of a zone identifier as it
/// stands, any other data in base 64.
#[derive(Debug)]
pub enum Data {
    Base64(String),
    ZoneIdentifier(String),
}

/// What a [`Data`] holds, with its text as a sequence of characters.
pub enum DataView {
    Base64(Seq<char>),
    ZoneIdentifier(Seq<char>),
}

impl View for Data {
    type V = DataView;

    open spec fn view(&self) -> DataView {
        match self {
            Data::Base64(text) => DataView::Base64(text@),
            Data::ZoneIdentifier(text) => DataView::ZoneIdentifier(text@),
        }
    }
}

/// The text that stands for `bytes` in base 64, with the standard alphabet
/// and padding.
pub uninterp spec fn base64_text(bytes: Seq<u8>) -> Seq<char>;

/// `base64::encode`: the bytes in base 64, with the standard alphabet and
/// padding.
#[verifier::external_body]
fn encode_base64(bytes: &Vec<u8>) -> (text: String)
    ensures
        text@ == base64_text(bytes@),
{
    base64::encode(bytes)
}

/// `String::from_utf8`: the text that the bytes spell in UTF-8, and nothing
/// where they are not valid UTF-8.
#[verifier::external_body]
fn utf8_text(bytes: Vec<u8>) -> (text: Option<String>)
    ensures
        valid_utf8(bytes@) ==> text is Some && text->Some_0@ == decode_utf8(bytes@),
        !valid_utf8(bytes@) ==> text is None,
{
    String::from_utf8(bytes).ok()
}

/// The failure to read data that is no valid UTF-8 as text.
pub open spec fn invalid_text_failure() -> ErrorView {
    ErrorView::ValueRead(
        value_read_text("data"@, "read_to_string"@, "stream did not contain valid UTF-8"@),
    )
}

/// What the data `bytes` gives as text: for a zone identifier the text that
/// the bytes spell in UTF-8, and a failure where they spell none; for other
/// data the bytes in base 64.
pub open spec fn data_outcome(bytes: Seq<u8>, is_zone_identifier: bool) -> Result<
    DataView,
    ErrorView,
> {
    if !is_zone_identifier {
        Ok(DataView::Base64(base64_text(bytes)))
    } else if valid_utf8(bytes) {
        Ok(DataView::ZoneIdentifier(decode_utf8(bytes)))
    } else {
        Err(invalid_text_failure())
    }
}

impl Data {
    /// The data of a `Data` attribute as text.
    pub fn from_buffer(buffer: &Vec<u8>, is_zone_identifier: bool) -> (r: Result<Data, Error>)
        ensures
            viewed(r) == data_outcome(buffer@, is_zone_identifier),
    {
        if is_zone_identifier {
            match utf8_text(buffer.clone()) {
                Some(text) => Ok(Data::ZoneIdentifier(text)),
                None => Err(
                    Error::Reader(
                        String::from_str("stream did not contain valid UTF-8"),
                    ).into_value_read_error("data", "read_to_string"),
                ),
            }
        } else {
            Ok(Data::Base64(encode_base64(buffer)))
        }
    }
}

} // verus!
