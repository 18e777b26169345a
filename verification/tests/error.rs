use mft::error::Error;

#[test]
fn reader_failure_becomes_value_read_failure() {
    let error = Error::Reader(String::from("failed to fill whole buffer"))
        .into_value_read_error("flags", "read_u16");
    match error {
        Error::ValueRead(text) => assert_eq!(
            text,
            "Reader error occured trying to get value flags as read_u16. failed to fill whole buffer"
        ),
        other => panic!("unexpected error {:?}", other),
    }
}

#[test]
fn reader_failure_becomes_buffer_fill_failure() {
    let error = Error::Reader(String::from("broken pipe")).into_buffer_fill_error(1072, 976);
    match error {
        Error::BufferFill(text) => assert_eq!(
            text,
            "Buffer could not be filled with 976 at offset 1072. broken pipe"
        ),
        other => panic!("unexpected error {:?}", other),
    }
}

#[test]
fn buffer_fill_failure_writes_large_numbers_in_full() {
    let error = Error::buffer_fill(u64::MAX, 0);
    match error {
        Error::BufferFill(text) => assert_eq!(
            text,
            "Buffer could not be filled with 0 at offset 18446744073709551615. failed to fill whole buffer"
        ),
        other => panic!("unexpected error {:?}", other),
    }
}

#[test]
fn errors_read_as_text() {
    assert_eq!(
        Error::Reader(String::from("gone")).to_string(),
        "Reader error: gone"
    );
    assert_eq!(
        Error::ValueRead(String::from("x")).to_string(),
        "Value read error: x"
    );
    assert_eq!(
        Error::BufferFill(String::from("y")).to_string(),
        "Buffer fill error: y"
    );
    assert_eq!(
        Error::missing_block("EntryBlock", 7).to_string(),
        "Missing block"
    );
    assert_eq!(
        Error::MissingFileNameAttribute.to_string(),
        "Missing file name attribute"
    );
}

#[test]
fn missing_block_names_kind_and_record() {
    match Error::missing_block("StandardInfo", 41) {
        Error::MissingBlock(kind, entry_id) => {
            assert_eq!(kind, "StandardInfo");
            assert_eq!(entry_id, 41);
        }
        other => panic!("unexpected error {:?}", other),
    }
}

#[test]
fn invalid_value_is_a_value_read_failure() {
    match Error::invalid_value("form_code", "read_u8") {
        Error::ValueRead(text) => assert_eq!(
            text,
            "Reader error occured trying to get value form_code as read_u8. invalid data"
        ),
        other => panic!("unexpected error {:?}", other),
    }
}

#[test]
fn other_failures_stay_as_they_are() {
    match Error::MissingFileNameAttribute.into_value_read_error("flags", "read_u16") {
        Error::MissingFileNameAttribute => {}
        other => panic!("unexpected error {:?}", other),
    }
    match Error::ValueRead(String::from("kept")).into_buffer_fill_error(1, 2) {
        Error::ValueRead(text) => assert_eq!(text, "kept"),
        other => panic!("unexpected error {:?}", other),
    }
    match Error::missing_block("Block", 3).into_value_read_error("a", "b") {
        Error::MissingBlock(kind, entry_id) => {
            assert_eq!(kind, "Block");
            assert_eq!(entry_id, 3);
        }
        other => panic!("unexpected error {:?}", other),
    }
}
