use mft::block::{Block, BlockType, SectionPointer};
use mft::error::Error;
use mft::exclusion::Exclusion;
use mft::iter::{csv_fields, is_excluded, is_left_out, Record};
use mft::{Iterator, Parser, ParserSettings};

const TICKS: u64 = 0x01D8CC4C4FECAC7A;
const CREATED: u64 = 132000000000000000;
const MODIFIED: u64 = 132000000001230000;
const ACCESSED: u64 = 10_000_000;

fn iter_resident(type_code: u32, instance: u16, name: &str, payload: &[u8]) -> Vec<u8> {
    let name_units: Vec<u16> = name.encode_utf16().collect();
    let data_offset = 24 + (2 * name_units.len() + 7) / 8 * 8;
    let record_len = data_offset + (payload.len() + 7) / 8 * 8;
    let mut bytes = vec![0u8; record_len];
    bytes[0..4].copy_from_slice(&type_code.to_le_bytes());
    bytes[4..8].copy_from_slice(&(record_len as u32).to_le_bytes());
    bytes[8] = 0;
    bytes[9] = name_units.len() as u8;
    bytes[10..12].copy_from_slice(&24u16.to_le_bytes());
    bytes[14..16].copy_from_slice(&instance.to_le_bytes());
    bytes[16..20].copy_from_slice(&(payload.len() as u32).to_le_bytes());
    bytes[20..22].copy_from_slice(&(data_offset as u16).to_le_bytes());
    for (i, unit) in name_units.iter().enumerate() {
        bytes[24 + 2 * i..26 + 2 * i].copy_from_slice(&unit.to_le_bytes());
    }
    bytes[data_offset..data_offset + payload.len()].copy_from_slice(payload);
    bytes
}

fn iter_standard_information(instance: u16, file_attributes: u32) -> Vec<u8> {
    let mut payload = vec![0u8; 72];
    payload[0..8].copy_from_slice(&CREATED.to_le_bytes());
    payload[8..16].copy_from_slice(&MODIFIED.to_le_bytes());
    payload[16..24].copy_from_slice(&TICKS.to_le_bytes());
    payload[24..32].copy_from_slice(&ACCESSED.to_le_bytes());
    payload[32..36].copy_from_slice(&file_attributes.to_le_bytes());
    iter_resident(0x10, instance, "", &payload)
}

fn iter_file_name(instance: u16, parent: u64, name: &str, name_space: u8) -> Vec<u8> {
    let units: Vec<u16> = name.encode_utf16().collect();
    let mut payload = vec![0u8; 66 + 2 * units.len()];
    payload[0..8].copy_from_slice(&(parent | (1u64 << 48)).to_le_bytes());
    for i in 0..4 {
        payload[8 + 8 * i..16 + 8 * i].copy_from_slice(&TICKS.to_le_bytes());
    }
    payload[64] = units.len() as u8;
    payload[65] = name_space;
    for (i, unit) in units.iter().enumerate() {
        payload[66 + 2 * i..68 + 2 * i].copy_from_slice(&unit.to_le_bytes());
    }
    iter_resident(0x30, instance, "", &payload)
}

fn iter_attribute_list(instance: u16, items: &[(u32, u64, u16)]) -> Vec<u8> {
    let mut payload = Vec::new();
    for (type_code, entry, attribute_id) in items {
        let mut item = vec![0u8; 32];
        item[0..4].copy_from_slice(&type_code.to_le_bytes());
        item[4..6].copy_from_slice(&32u16.to_le_bytes());
        item[7] = 26;
        item[16..24].copy_from_slice(&(entry | (1u64 << 48)).to_le_bytes());
        item[24..26].copy_from_slice(&attribute_id.to_le_bytes());
        payload.extend(item);
    }
    iter_resident(0x20, instance, "", &payload)
}

/// A record of 1024 bytes with the attributes given, stored as a volume
/// stores it: the ends of its two sectors hold the sequence number, and
/// the fixup array holds what stood there.
fn iter_record(flags: u16, base: u64, attributes: &[Vec<u8>]) -> Vec<u8> {
    let mut data = vec![0u8; 1024];
    data[0..4].copy_from_slice(b"FILE");
    data[4..6].copy_from_slice(&48u16.to_le_bytes());
    data[6..8].copy_from_slice(&3u16.to_le_bytes());
    data[16..18].copy_from_slice(&1u16.to_le_bytes());
    data[18..20].copy_from_slice(&1u16.to_le_bytes());
    data[20..22].copy_from_slice(&56u16.to_le_bytes());
    data[22..24].copy_from_slice(&flags.to_le_bytes());
    data[28..32].copy_from_slice(&1024u32.to_le_bytes());
    data[32..40].copy_from_slice(&base.to_le_bytes());
    data[40..42].copy_from_slice(&(attributes.len() as u16).to_le_bytes());
    let mut at = 56;
    for attribute in attributes {
        data[at..at + attribute.len()].copy_from_slice(attribute);
        at += attribute.len();
    }
    data[at..at + 4].copy_from_slice(&0xffff_ffffu32.to_le_bytes());
    data[24..28].copy_from_slice(&(at as u32 + 8).to_le_bytes());
    data[48..50].copy_from_slice(&[0x2a, 0x00]);
    let first_end = [data[510], data[511]];
    let second_end = [data[1022], data[1023]];
    data[50..52].copy_from_slice(&first_end);
    data[52..54].copy_from_slice(&second_end);
    data[510..512].copy_from_slice(&[0x2a, 0x00]);
    data[1022..1024].copy_from_slice(&[0x2a, 0x00]);
    data
}

fn iter_file(parent: u64, name: &str) -> Vec<u8> {
    iter_record(
        1,
        0,
        &[
            iter_standard_information(0, 0x20),
            iter_file_name(1, parent, name, 1),
        ],
    )
}

fn iter_directory(parent: u64, name: &str) -> Vec<u8> {
    iter_record(
        3,
        0,
        &[
            iter_standard_information(0, 0x10),
            iter_file_name(1, parent, name, 3),
        ],
    )
}

/// The table that the tests read.
///
///  0 `$MFT`, in the root directory
///  1 an unused slot
///  2 `Windows`, a directory in the root directory
///  3 `System32`, a directory in `Windows`
///  4 `orphan.txt`, its own parent
///  5 `.`, the root directory
///  6 `LONGNA~1` for DOS and `Long Name`, in `System32`
///  7 `lost`, with parent zero
///  8 `x` in 9, and 9 `y` in 8
/// 10 `child`, in the unused slot 1
/// 11 `far`, in a record that the table does not hold
/// 12 `SHORT~1`, a name for DOS alone, in `Windows`
/// 13 a record whose name lies in record 14, through an attribute list
/// 14 the record that extends 13, with the name `extended` in `Windows`
/// 15 `gone.txt`, a deleted file in `System32`
/// 16 a record without standard information, `bare` in `Windows`
fn iter_table() -> Vec<u8> {
    let mut table = Vec::new();
    table.extend(iter_file(5, "$MFT"));
    table.extend(vec![0u8; 1024]);
    table.extend(iter_directory(5, "Windows"));
    table.extend(iter_directory(2, "System32"));
    table.extend(iter_file(4, "orphan.txt"));
    table.extend(iter_directory(5, "."));
    table.extend(iter_record(
        1,
        0,
        &[
            iter_standard_information(0, 0x20),
            iter_file_name(1, 3, "LONGNA~1", 2),
            iter_file_name(2, 3, "Long Name", 1),
        ],
    ));
    table.extend(iter_file(0, "lost"));
    table.extend(iter_file(9, "x"));
    table.extend(iter_file(8, "y"));
    table.extend(iter_file(1, "child"));
    table.extend(iter_file(1000, "far"));
    table.extend(iter_record(
        1,
        0,
        &[
            iter_standard_information(0, 0x20),
            iter_file_name(1, 2, "SHORT~1", 2),
        ],
    ));
    table.extend(iter_record(
        1,
        0,
        &[
            iter_standard_information(0, 0x20),
            iter_attribute_list(1, &[(0x10, 13, 0), (0x30, 14, 3), (0x80, 14, 4)]),
        ],
    ));
    table.extend(iter_record(
        1,
        13,
        &[
            iter_file_name(3, 2, "extended", 1),
            iter_resident(0x80, 4, "", b"data"),
        ],
    ));
    table.extend(iter_record(
        0,
        0,
        &[
            iter_standard_information(0, 0x20),
            iter_file_name(1, 3, "gone.txt", 1),
        ],
    ));
    table.extend(iter_record(1, 0, &[iter_file_name(1, 2, "bare", 1)]));
    table
}

/// A table of `count` records that can all be told of: the root directory
/// at record 5, files in it up to record 99, then a directory at every
/// hundredth record, each in the one before it, and files in the directory
/// before them.
fn iter_large_table(count: u64) -> Vec<u8> {
    let mut table = Vec::with_capacity(count as usize * 1024);
    for n in 0..count {
        if n == 5 {
            table.extend(iter_directory(5, "."));
        } else if n < 100 {
            table.extend(iter_file(5, &format!("file{}.txt", n)));
        } else if n % 100 == 0 {
            let parent = if n == 100 { 5 } else { n - 100 };
            table.extend(iter_directory(parent, &format!("dir{}", n)));
        } else {
            table.extend(iter_file(n - n % 100, &format!("file{}.txt", n)));
        }
    }
    table
}

#[test]
fn iter_test_simple_record() {
    let parser = Parser::new(iter_large_table(41740)).unwrap();
    let mut iterator = Iterator::from(parser);
    println!("{:#?}", iterator.inner.records);
    assert_eq!(iterator.inner.records, 41740);
    for n in 0..41740 {
        let record = iterator.next().unwrap();
        if n < 3 || n == 41739 {
            println!("{:#?}", record);
        }
    }
    assert_eq!(iterator.next_entry_id, 41740);
    assert!(iterator.next().is_none());
}

#[test]
fn lines_of_the_first_records_of_a_large_table() {
    let parser = Parser::with_settings(
        iter_large_table(450),
        ParserSettings::new().drive_char('C'),
    )
    .unwrap();
    let mut iterator = Iterator::from(parser);
    let times = "\"2019-04-17T18:40:00+00:00\",\"2019-04-17T18:40:00.123+00:00\",\"1601-01-01T00:00:01+00:00\"";
    assert_eq!(
        iterator.next().unwrap(),
        format!("0,\"C:/file0.txt\",true,false,\"file0.txt\",{}", times)
    );
    assert_eq!(
        iterator.next().unwrap(),
        format!("1,\"C:/file1.txt\",true,false,\"file1.txt\",{}", times)
    );
    let lines: Vec<String> = std::iter::from_fn(|| iterator.next()).collect();
    assert_eq!(lines.len(), 448);
    assert_eq!(
        lines[3],
        format!("5,\"C:/.\",false,false,\".\",{}", times)
    );
    assert_eq!(
        lines[447],
        format!(
            "449,\"C:/dir100/dir200/dir300/dir400/file449.txt\",true,false,\"file449.txt\",{}",
            times
        )
    );
}

fn iter_lines(settings: ParserSettings) -> Vec<String> {
    let parser = Parser::with_settings(iter_table(), settings).unwrap();
    let mut iterator = Iterator::from(parser);
    let mut lines = Vec::new();
    while let Some(line) = iterator.next() {
        lines.push(line);
    }
    assert_eq!(iterator.next_entry_id, 17);
    assert!(iterator.next().is_none());
    assert_eq!(iterator.next_entry_id, 17);
    lines
}

const TIMES: &str = "\"2019-04-17T18:40:00+00:00\",\"2019-04-17T18:40:00.123+00:00\",\"1601-01-01T00:00:01+00:00\"";

fn iter_all_lines() -> Vec<String> {
    [
        "0,\"C:/$MFT\",true,false,\"$MFT\",",
        "2,\"C:/Windows\",false,false,\"Windows\",",
        "3,\"C:/Windows/System32\",false,false,\"System32\",",
        "4,\"{Orphaned}/orphan.txt\",true,false,\"orphan.txt\",",
        "5,\"C:/.\",false,false,\".\",",
        "6,\"C:/Windows/System32/Long Name\",true,false,\"Long Name\",",
        "7,\"{Orphaned}/lost\",true,false,\"lost\",",
        "8,\"{Orphaned}/y/x\",true,false,\"x\",",
        "9,\"{Orphaned}/x/y\",true,false,\"y\",",
        "10,\"child\",true,false,\"child\",",
        "12,\"\",true,false,\"\",",
        "13,\"C:/Windows/extended\",true,false,\"extended\",",
        "15,\"C:/Windows/System32/gone.txt\",true,true,\"gone.txt\",",
    ]
    .iter()
    .map(|start| format!("{}{}", start, TIMES))
    .collect()
}

#[test]
fn iterator_gives_a_line_for_each_record_that_can_be_told_of() {
    // 1 is an unused slot, 11 has a parent outside the table, and 14 and
    // 16 have no standard information
    let lines = iter_lines(ParserSettings::new().drive_char('C'));
    assert_eq!(lines, iter_all_lines());
}

#[test]
fn records_whose_path_matches_are_left_out() {
    let lines = iter_lines(
        ParserSettings::new()
            .drive_char('C')
            .path_exclusion_regex(".*/Windows/.*"),
    );
    let expected: Vec<String> = iter_all_lines()
        .into_iter()
        .filter(|line| !line.contains("/Windows/"))
        .collect();
    assert_eq!(expected.len(), 9);
    assert_eq!(lines, expected);
}

#[test]
fn records_whose_file_name_matches_are_left_out() {
    let lines = iter_lines(
        ParserSettings::new()
            .drive_char('C')
            .filename_exclusion_regex("^(x|y|\\$MFT)$"),
    );
    let expected: Vec<String> = iter_all_lines()
        .into_iter()
        .filter(|line| {
            !line.starts_with("0,") && !line.starts_with("8,") && !line.starts_with("9,")
        })
        .collect();
    assert_eq!(expected.len(), 10);
    assert_eq!(lines, expected);
}

#[test]
fn records_that_either_expression_matches_are_left_out() {
    let lines = iter_lines(
        ParserSettings::new()
            .drive_char('C')
            .path_exclusion_regex("^C:/Windows")
            .filename_exclusion_regex("^orphan"),
    );
    let expected: Vec<String> = iter_all_lines()
        .into_iter()
        .filter(|line| !line.contains("\"C:/Windows") && !line.contains("\"orphan"))
        .collect();
    assert_eq!(expected.len(), 7);
    assert_eq!(lines, expected);
}

#[test]
fn record_is_left_out_when_an_expression_matched() {
    assert!(!is_excluded(None, None));
    assert!(!is_excluded(Some(false), None));
    assert!(!is_excluded(None, Some(false)));
    assert!(!is_excluded(Some(false), Some(false)));
    assert!(is_excluded(Some(true), None));
    assert!(is_excluded(None, Some(true)));
    assert!(is_excluded(Some(true), Some(false)));
    assert!(is_excluded(Some(false), Some(true)));
    assert!(is_excluded(Some(true), Some(true)));
}

#[test]
fn record_tells_of_kind_state_and_times() {
    let mut parser =
        Parser::with_settings(iter_table(), ParserSettings::new().drive_char('C')).unwrap();
    let block = parser.blocks[15].clone();
    let record = Record::from(&mut parser, &block).unwrap();
    assert_eq!(record.entry_id, 15);
    assert_eq!(record.path, "C:/Windows/System32/gone.txt");
    assert_eq!(record.filename.as_deref(), Some("gone.txt"));
    assert!(record.is_file);
    assert!(record.is_deleted);
    assert_eq!(record.created.micros(), CREATED / 10);
    assert_eq!(record.modified.micros(), MODIFIED / 10);
    assert_eq!(record.accessed.micros(), ACCESSED / 10);
    let block = parser.blocks[2].clone();
    let record = Record::from(&mut parser, &block).unwrap();
    assert_eq!(record.path, "C:/Windows");
    assert!(!record.is_file);
    assert!(!record.is_deleted);
    let block = parser.blocks[12].clone();
    let record = Record::from(&mut parser, &block).unwrap();
    assert_eq!(record.path, "");
    assert_eq!(record.filename, None);
    assert_eq!(
        record.as_csv(),
        format!("12,\"\",true,false,\"\",{}", TIMES)
    );
}

#[test]
fn record_without_standard_information_is_a_missing_block() {
    let mut parser = Parser::new(iter_table()).unwrap();
    for n in [1u64, 14, 16] {
        let block = parser.blocks[n as usize].clone();
        match Record::from(&mut parser, &block).unwrap_err() {
            Error::MissingBlock(kind, entry_id) => {
                assert_eq!(kind, "StandardInfo");
                assert_eq!(entry_id, n);
            }
            other => panic!("unexpected error {:?}", other),
        }
    }
    let block = Block {
        entry_id: 2,
        blocks: vec![SectionPointer {
            block_type: BlockType::StandardInformation,
            is_resident: true,
            attribute_id: Some(0),
            offset: 2 * 1024 + 80,
            size: 72,
        }],
    };
    match Record::from(&mut parser, &block).unwrap_err() {
        Error::MissingBlock(kind, entry_id) => {
            assert_eq!(kind, "EntryBlock");
            assert_eq!(entry_id, 2);
        }
        other => panic!("unexpected error {:?}", other),
    }
    let block = parser.blocks[11].clone();
    match Record::from(&mut parser, &block).unwrap_err() {
        Error::MissingBlock(kind, entry_id) => {
            assert_eq!(kind, "Block");
            assert_eq!(entry_id, 1000);
        }
        other => panic!("unexpected error {:?}", other),
    }
}

#[test]
fn record_is_deleted_when_it_is_not_in_use() {
    for (flags, deleted) in [
        (0u16, true),
        (1, false),
        (2, true),
        (3, false),
        (0x0200, true),
        (0x0201, false),
    ] {
        let record = iter_record(
            flags,
            0,
            &[
                iter_standard_information(0, 0x20),
                iter_file_name(1, 5, "f", 1),
            ],
        );
        let mut parser = Parser::new(record).unwrap();
        let block = parser.blocks[0].clone();
        let record = Record::from(&mut parser, &block).unwrap();
        assert_eq!(record.is_deleted, deleted, "flags {:#x}", flags);
    }
}

#[test]
fn record_is_a_file_unless_it_is_marked_as_a_directory() {
    for (file_attributes, is_file) in [
        (0u32, true),
        (0x10, false),
        (0x20, true),
        (0x30, true),
        (0x11, true),
        (0x1000_0010, true),
    ] {
        let record = iter_record(
            1,
            0,
            &[
                iter_standard_information(0, file_attributes),
                iter_file_name(1, 5, "f", 1),
            ],
        );
        let mut parser = Parser::new(record).unwrap();
        let block = parser.blocks[0].clone();
        let record = Record::from(&mut parser, &block).unwrap();
        assert_eq!(record.is_file, is_file, "attributes {:#x}", file_attributes);
    }
}

#[test]
fn standard_information_over_the_end_of_a_sector_is_read_restored() {
    // a long name before the standard information puts its times on the
    // end of the first sector
    let record = iter_record(
        1,
        0,
        &[
            iter_file_name(1, 5, &"n".repeat(167), 1),
            iter_standard_information(0, 0x20),
        ],
    );
    assert_eq!(&record[510..512], &[0x2a, 0x00]);
    let stored = u64::from_le_bytes(record[504..512].try_into().unwrap());
    assert_ne!(stored, CREATED);
    let mut parser = Parser::new(record).unwrap();
    assert_eq!(parser.blocks[0].blocks[2].offset, 504);
    let block = parser.blocks[0].clone();
    let record = Record::from(&mut parser, &block).unwrap();
    assert_eq!(record.created.micros(), CREATED / 10);
    assert_eq!(record.created.to_rfc3339(), "2019-04-17T18:40:00+00:00");
}

#[test]
fn line_is_written_from_its_fields() {
    assert_eq!(
        csv_fields(
            41,
            "C:/Windows/notepad.exe",
            true,
            false,
            "notepad.exe",
            "2019-04-17T18:40:00+00:00",
            "2019-04-17T18:40:00.123+00:00",
            "1601-01-01T00:00:01+00:00"
        ),
        "41,\"C:/Windows/notepad.exe\",true,false,\"notepad.exe\",\"2019-04-17T18:40:00+00:00\",\"2019-04-17T18:40:00.123+00:00\",\"1601-01-01T00:00:01+00:00\""
    );
    assert_eq!(
        csv_fields(0, "", false, true, "", "a", "b", "c"),
        "0,\"\",false,true,\"\",\"a\",\"b\",\"c\""
    );
    assert_eq!(
        csv_fields(u64::MAX, "p", false, false, "f", "", "", ""),
        "18446744073709551615,\"p\",false,false,\"f\",\"\",\"\",\"\""
    );
}

#[test]
fn each_step_gives_a_record_nothing_or_a_failure() {
    let parser = Parser::with_settings(
        iter_table(),
        ParserSettings::new()
            .drive_char('C')
            .path_exclusion_regex("^C:/Windows$"),
    )
    .unwrap();
    let mut iterator = Iterator::from(parser);
    let mut steps = Vec::new();
    while let Some(outcome) = iterator.next_outcome() {
        assert_eq!(iterator.next_entry_id, steps.len() as u64 + 1);
        steps.push(outcome);
    }
    assert_eq!(steps.len(), 17);
    assert!(iterator.next_outcome().is_none());
    assert_eq!(iterator.next_entry_id, 17);
    match &steps[0] {
        Ok(Some(record)) => assert_eq!(record.path, "C:/$MFT"),
        other => panic!("unexpected outcome {:?}", other),
    }
    match &steps[1] {
        Err(Error::MissingBlock(kind, entry_id)) => {
            assert_eq!(kind, "StandardInfo");
            assert_eq!(*entry_id, 1);
        }
        other => panic!("unexpected outcome {:?}", other),
    }
    assert!(matches!(&steps[2], Ok(None)));
    match &steps[3] {
        Ok(Some(record)) => assert_eq!(record.path, "C:/Windows/System32"),
        other => panic!("unexpected outcome {:?}", other),
    }
    match &steps[11] {
        Err(Error::MissingBlock(kind, entry_id)) => {
            assert_eq!(kind, "Block");
            assert_eq!(*entry_id, 1000);
        }
        other => panic!("unexpected outcome {:?}", other),
    }
    let given = steps.iter().filter(|s| matches!(s, Ok(Some(_)))).count();
    let failed = steps.iter().filter(|s| s.is_err()).count();
    assert_eq!(given, 12);
    assert_eq!(failed, 4);
}

#[test]
fn expression_is_made_of_a_pattern_that_compiles() {
    let expression = Exclusion::new(".*/Windows/.*").unwrap();
    assert_eq!(expression.as_str(), ".*/Windows/.*");
    assert!(expression.is_match("C:/Windows/System32"));
    assert!(!expression.is_match("C:/Windows"));
    assert!(!expression.is_match(""));
    assert!(Exclusion::new("(unclosed").is_none());
    assert!(Exclusion::new("[z-a]").is_none());
    let anything = Exclusion::new("").unwrap();
    assert!(anything.is_match(""));
    assert!(anything.is_match("x"));
}

#[test]
fn settings_leave_out_by_path_or_by_file_name() {
    let mut parser =
        Parser::with_settings(iter_table(), ParserSettings::new().drive_char('C')).unwrap();
    let block = parser.blocks[3].clone();
    let record = Record::from(&mut parser, &block).unwrap();
    assert_eq!(record.path, "C:/Windows/System32");
    assert!(!is_left_out(&ParserSettings::new(), &record));
    assert!(is_left_out(
        &ParserSettings::new().path_exclusion_regex("Windows"),
        &record
    ));
    assert!(!is_left_out(
        &ParserSettings::new().filename_exclusion_regex("Windows"),
        &record
    ));
    assert!(is_left_out(
        &ParserSettings::new().filename_exclusion_regex("^System32$"),
        &record
    ));
    assert!(is_left_out(
        &ParserSettings::new()
            .path_exclusion_regex("nothing")
            .filename_exclusion_regex("32"),
        &record
    ));
    assert!(!is_left_out(
        &ParserSettings::new()
            .path_exclusion_regex("nothing")
            .filename_exclusion_regex("(unclosed"),
        &record
    ));
    let block = parser.blocks[12].clone();
    let nameless = Record::from(&mut parser, &block).unwrap();
    assert_eq!(nameless.filename, None);
    assert!(!is_left_out(
        &ParserSettings::new().filename_exclusion_regex(""),
        &nameless
    ));
    assert!(is_left_out(
        &ParserSettings::new().path_exclusion_regex("^$"),
        &nameless
    ));
}
