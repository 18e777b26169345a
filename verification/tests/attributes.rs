use chrono::{DateTime, NaiveDate, Utc};
use mft::attributes::attributes_list::find_block;
use mft::attributes::timestamp::{LAST_MICROS, UNIX_EPOCH_MICROS};
use mft::attributes::{
    convert_u64_to_datetime, AttributeList, Data, FileName, StandardInformation, Timestamp,
};
use mft::block::{Block, BlockType, SectionPointer};
use mft::error::Error;

fn chrono_instant(date: Timestamp) -> DateTime<Utc> {
    DateTime::from_timestamp_micros(date.unix_micros()).unwrap()
}

#[test]
fn timestamp_test() {
    let data: u64 = 0x989680;
    let date = convert_u64_to_datetime(data);
    assert_eq!(
        chrono_instant(date),
        NaiveDate::from_ymd_opt(1601, 1, 1)
            .unwrap()
            .and_hms_opt(0, 0, 1)
            .unwrap()
            .and_utc()
    );
    assert_eq!(date, Timestamp::from_micros(1_000_000).unwrap());
}

#[test]
fn filetime_zero_is_the_first_day_of_1601() {
    let date = convert_u64_to_datetime(0);
    assert_eq!(date, Timestamp::epoch());
    assert_eq!(date.micros(), 0);
    assert_eq!(date.to_rfc3339(), "1601-01-01T00:00:00+00:00");
    assert_eq!(
        chrono_instant(date),
        NaiveDate::from_ymd_opt(1601, 1, 1)
            .unwrap()
            .and_hms_opt(0, 0, 0)
            .unwrap()
            .and_utc()
    );
}

#[test]
fn filetime_of_one_second() {
    let date = convert_u64_to_datetime(10_000_000);
    assert_eq!(date.micros(), 1_000_000);
    assert_eq!(date.to_rfc3339(), "1601-01-01T00:00:01+00:00");
}

#[test]
fn filetime_drops_what_is_left_of_a_microsecond() {
    assert_eq!(convert_u64_to_datetime(19).micros(), 1);
    assert_eq!(convert_u64_to_datetime(9).micros(), 0);
    assert_eq!(convert_u64_to_datetime(9), convert_u64_to_datetime(0));
}

#[test]
fn filetime_text_has_microseconds() {
    let date = convert_u64_to_datetime(0x01D8CC4C4FECAC7A);
    assert_eq!(date.micros(), 13308081713792114);
    assert_eq!(date.to_rfc3339(), "2022-09-19T17:21:53.792114+00:00");
    assert_eq!(date.unix_micros(), 13308081713792114 - 11_644_473_600_000_000);
}

#[test]
fn unix_micros_before_1970_are_negative() {
    assert_eq!(Timestamp::epoch().unix_micros(), -11_644_473_600_000_000);
    assert_eq!(
        Timestamp::from_micros(UNIX_EPOCH_MICROS).unwrap().unix_micros(),
        0
    );
    assert_eq!(
        Timestamp::from_micros(UNIX_EPOCH_MICROS)
            .unwrap()
            .to_rfc3339(),
        "1970-01-01T00:00:00+00:00"
    );
}

#[test]
fn last_filetime_has_a_text() {
    let date = convert_u64_to_datetime(u64::MAX);
    assert_eq!(date.micros(), LAST_MICROS);
    assert_eq!(Timestamp::from_micros(LAST_MICROS), Some(date));
    assert_eq!(Timestamp::from_micros(LAST_MICROS + 1), None);
    assert_eq!(date.to_rfc3339(), chrono_instant(date).to_rfc3339());
    assert!(date.to_rfc3339().starts_with("+60056-05-28T05:36:10.955161"));
}

fn standard_info_bytes() -> Vec<u8> {
    vec![
        0x7a, 0xac, 0xec, 0x4f, 0x4c, 0xcc, 0xd8, 0x01, 0x7a, 0xac, 0xec, 0x4f, 0x4c, 0xcc,
        0xd8, 0x01, 0x7a, 0xac, 0xec, 0x4f, 0x4c, 0xcc, 0xd8, 0x01, 0x7a, 0xac, 0xec, 0x4f,
        0x4c, 0xcc, 0xd8, 0x01, 0x06, 0x00, 0x00, 0x00, 0x00, 0x00, 0x00, 0x00, 0x00, 0x00,
        0x00, 0x00, 0x00, 0x00, 0x00, 0x00, 0x00, 0x00, 0x00, 0x00, 0x00, 0x01, 0x00, 0x00,
        0x00, 0x00, 0x00, 0x00, 0x00, 0x00, 0x00, 0x00, 0x00, 0x00, 0x00, 0x00, 0x00, 0x00,
        0x00, 0x00,
    ]
}

#[test]
fn standard_info_test() {
    let data = standard_info_bytes();
    let standard_info = StandardInformation::from_reader(&data).unwrap();
    println!("{:?}", standard_info);
    let expected = convert_u64_to_datetime(0x01D8CC4C4FECAC7A);
    assert_eq!(standard_info.creation_time, expected);
    assert_eq!(standard_info.modification_time, expected);
    assert_eq!(standard_info.mft_modification_time, expected);
    assert_eq!(standard_info.access_time, expected);
    assert_eq!(standard_info.file_attributes, 0x06);
    assert_eq!(standard_info.max_versions, 0);
    assert_eq!(standard_info.version_number, 0);
    assert_eq!(standard_info.class_id, 0);
    assert_eq!(standard_info.owner_id, 0);
    assert_eq!(standard_info.security_id, 0x100);
    assert_eq!(standard_info.quota_charged, 0);
    assert_eq!(standard_info.update_sequence_number, 0);
}

#[test]
fn standard_info_decodes_every_field() {
    let mut data = vec![0u8; 72];
    for (i, byte) in data.iter_mut().enumerate() {
        *byte = i as u8 + 1;
    }
    let info = StandardInformation::from_reader(&data).unwrap();
    assert_eq!(info.creation_time.micros(), 0x0807060504030201 / 10);
    assert_eq!(info.modification_time.micros(), 0x100f0e0d0c0b0a09 / 10);
    assert_eq!(info.mft_modification_time.micros(), 0x1817161514131211 / 10);
    assert_eq!(info.access_time.micros(), 0x201f1e1d1c1b1a19 / 10);
    assert_eq!(info.file_attributes, 0x24232221);
    assert_eq!(info.max_versions, 0x28272625);
    assert_eq!(info.version_number, 0x2c2b2a29);
    assert_eq!(info.class_id, 0x302f2e2d);
    assert_eq!(info.owner_id, 0x34333231);
    assert_eq!(info.security_id, 0x38373635);
    assert_eq!(info.quota_charged, 0x403f3e3d3c3b3a39);
    assert_eq!(info.update_sequence_number, 0x4847464544434241);
}

fn value_read_text(error: Error) -> String {
    match error {
        Error::ValueRead(text) => text,
        other => panic!("unexpected error {:?}", other),
    }
}

#[test]
fn short_standard_info_names_the_missing_field() {
    let data = standard_info_bytes();
    let error = StandardInformation::from_reader(&data[..71]).unwrap_err();
    assert_eq!(
        value_read_text(error),
        "Reader error occured trying to get value update_sequence_number as read_u64. failed to fill whole buffer"
    );
    let error = StandardInformation::from_reader(&data[..35]).unwrap_err();
    assert_eq!(
        value_read_text(error),
        "Reader error occured trying to get value file_attributes as read_u32. failed to fill whole buffer"
    );
    let error = StandardInformation::from_reader(&data[..0]).unwrap_err();
    assert_eq!(
        value_read_text(error),
        "Reader error occured trying to get value creation_time as read_u64. failed to fill whole buffer"
    );
}

fn file_name_bytes() -> Vec<u8> {
    vec![
        0x05, 0x00, 0x00, 0x00, 0x00, 0x00, 0x05, 0x00, 0x7a, 0xac, 0xec, 0x4f, 0x4c, 0xcc,
        0xd8, 0x01, 0x7a, 0xac, 0xec, 0x4f, 0x4c, 0xcc, 0xd8, 0x01, 0x7a, 0xac, 0xec, 0x4f,
        0x4c, 0xcc, 0xd8, 0x01, 0x7a, 0xac, 0xec, 0x4f, 0x4c, 0xcc, 0xd8, 0x01, 0x00, 0x40,
        0x00, 0x00, 0x00, 0x00, 0x00, 0x00, 0x00, 0x40, 0x00, 0x00, 0x00, 0x00, 0x00, 0x00,
        0x06, 0x00, 0x00, 0x00, 0x00, 0x00, 0x00, 0x00, 0x04, 0x03, 0x24, 0x00, 0x4d, 0x00,
        0x46, 0x00, 0x54, 0x00,
    ]
}

#[test]
fn file_name_test() {
    let data = file_name_bytes();
    let file_name = FileName::from_reader(&data).unwrap();
    println!("{:?}", file_name);
    assert_eq!(file_name.parent_file_reference.entry, 5);
    assert_eq!(file_name.parent_file_reference.sequence, 5);
    assert_eq!(file_name.name_length, 4);
    assert_eq!(file_name.name_space, 3);
    assert_eq!(file_name.name, "$MFT");
    assert_eq!(file_name.allocated_size, 0x4000);
    assert_eq!(file_name.real_size, 0x4000);
    assert_eq!(file_name.flags, 6);
    assert_eq!(file_name.reparse_value, 0);
    let expected = convert_u64_to_datetime(0x01D8CC4C4FECAC7A);
    assert_eq!(file_name.creation_time, expected);
    assert_eq!(file_name.modification_time, expected);
    assert_eq!(file_name.mft_modification_time, expected);
    assert_eq!(file_name.access_time, expected);
}

#[test]
fn parent_reference_is_read_alone() {
    let data = file_name_bytes();
    let reference = FileName::parent_reference_from_buffer(&data).unwrap();
    assert_eq!(reference.entry, 5);
    assert_eq!(reference.sequence, 5);
    let error = FileName::parent_reference_from_buffer(&data[..7].to_vec()).unwrap_err();
    assert_eq!(
        value_read_text(error),
        "Reader error occured trying to get value parent_file_reference as read_u64. failed to fill whole buffer"
    );
}

#[test]
fn file_name_with_a_cut_name_fails() {
    let data = file_name_bytes();
    let error = FileName::from_reader(&data[..73]).unwrap_err();
    assert_eq!(
        value_read_text(error),
        "Reader error occured trying to get value name_char as read_u16. failed to fill whole buffer"
    );
    let error = FileName::from_reader(&data[..65]).unwrap_err();
    assert_eq!(
        value_read_text(error),
        "Reader error occured trying to get value name_space as read_u8. failed to fill whole buffer"
    );
}

#[test]
fn file_name_is_decoded_as_utf16() {
    let mut data = file_name_bytes();
    data.truncate(64);
    // "é", "€", U+1F600 as a surrogate pair, a lone high surrogate, "z"
    let units: [u16; 6] = [0x00e9, 0x20ac, 0xd83d, 0xde00, 0xd800, 0x007a];
    data.push(units.len() as u8);
    data.push(1);
    for unit in units {
        data.push(unit as u8);
        data.push((unit >> 8) as u8);
    }
    let file_name = FileName::from_reader(&data).unwrap();
    assert_eq!(file_name.name, "\u{e9}\u{20ac}\u{1f600}\u{fffd}z");
    assert_eq!(file_name.name, String::from_utf16_lossy(&units));
    assert_eq!(file_name.name_length, 6);
}

#[test]
fn lone_low_surrogate_is_replaced() {
    let mut data = file_name_bytes();
    data.truncate(64);
    let units: [u16; 3] = [0xdc00, 0x0041, 0xdbff];
    data.push(units.len() as u8);
    data.push(0);
    for unit in units {
        data.push(unit as u8);
        data.push((unit >> 8) as u8);
    }
    let file_name = FileName::from_reader(&data).unwrap();
    assert_eq!(file_name.name, "\u{fffd}A\u{fffd}");
    assert_eq!(file_name.name, String::from_utf16_lossy(&units));
}

#[test]
fn data_zone_identifier_test() {
    let data = vec![
        0x5b, 0x5a, 0x6f, 0x6e, 0x65, 0x54, 0x72, 0x61, 0x6e, 0x73, 0x66, 0x65, 0x72, 0x5d,
        0x0d, 0x0a, 0x5a, 0x6f, 0x6e, 0x65, 0x49, 0x64, 0x3d, 0x33, 0x0d, 0x0a, 0x48, 0x6f,
        0x73, 0x74, 0x55, 0x72, 0x6c, 0x3d, 0x61, 0x62, 0x6f, 0x75, 0x74, 0x3a, 0x69, 0x6e,
        0x74, 0x65, 0x72, 0x6e, 0x65, 0x74, 0x0d, 0x0a,
    ];
    let data = Data::from_buffer(&data, true).unwrap();
    println!("{:?}", data);
    match data {
        Data::ZoneIdentifier(text) => assert_eq!(
            text,
            "[ZoneTransfer]\r\nZoneId=3\r\nHostUrl=about:internet\r\n"
        ),
        other => panic!("unexpected data {:?}", other),
    }
}

#[test]
fn zone_identifier_that_is_no_text_fails() {
    let error = Data::from_buffer(&vec![0x5b, 0xff, 0x5d], true).unwrap_err();
    assert_eq!(
        value_read_text(error),
        "Reader error occured trying to get value data as read_to_string. stream did not contain valid UTF-8"
    );
}

#[test]
fn other_data_is_given_in_base64() {
    match Data::from_buffer(&b"hello world".to_vec(), false).unwrap() {
        Data::Base64(text) => assert_eq!(text, "aGVsbG8gd29ybGQ="),
        other => panic!("unexpected data {:?}", other),
    }
    match Data::from_buffer(&vec![0x5b, 0x5a, 0xff, 0x00], false).unwrap() {
        Data::Base64(text) => assert_eq!(text, "W1r/AA=="),
        other => panic!("unexpected data {:?}", other),
    }
    match Data::from_buffer(&Vec::new(), false).unwrap() {
        Data::Base64(text) => assert_eq!(text, ""),
        other => panic!("unexpected data {:?}", other),
    }
}

fn list_item(type_code: u32, record_len: u16, reference: u64, attribute_id: u16) -> Vec<u8> {
    let mut item = vec![0u8; record_len.max(26) as usize];
    item[0..4].copy_from_slice(&type_code.to_le_bytes());
    item[4..6].copy_from_slice(&record_len.to_le_bytes());
    item[6] = 0;
    item[7] = 26;
    item[16..24].copy_from_slice(&reference.to_le_bytes());
    item[24..26].copy_from_slice(&attribute_id.to_le_bytes());
    item
}

#[test]
fn attribute_list_items_are_decoded_in_order() {
    let mut data = list_item(0x10, 32, 0x0001_0000_0000_000d, 0);
    data.extend(list_item(0x30, 32, 0x0002_0000_0000_000e, 3));
    data.extend(list_item(0x80, 40, 0x0003_0000_0000_000f, 4));
    let list = AttributeList::from_reader(&data, data.len() as u64).unwrap();
    assert_eq!(list.items.len(), 3);
    assert_eq!(list.items[0].type_code, 0x10);
    assert_eq!(list.items[0].attribute_id, 0);
    assert_eq!(list.items[0].file_reference.entry, 13);
    assert_eq!(list.items[0].file_reference.sequence, 1);
    assert_eq!(list.items[1].type_code, 0x30);
    assert_eq!(list.items[1].attribute_id, 3);
    assert_eq!(list.items[1].file_reference.entry, 14);
    assert_eq!(list.items[2].type_code, 0x80);
    assert_eq!(list.items[2].attribute_id, 4);
    assert_eq!(list.items[2].file_reference.entry, 15);
    assert_eq!(list.items[2].file_reference.sequence, 3);
}

#[test]
fn attribute_list_ends_with_its_size() {
    let mut data = list_item(0x10, 32, 13, 0);
    data.extend(list_item(0x30, 32, 14, 3));
    let list = AttributeList::from_reader(&data, 32).unwrap();
    assert_eq!(list.items.len(), 1);
    let list = AttributeList::from_reader(&data, 57).unwrap();
    assert_eq!(list.items.len(), 1);
    let list = AttributeList::from_reader(&data, 58).unwrap();
    assert_eq!(list.items.len(), 2);
    let list = AttributeList::from_reader(&data, 25).unwrap();
    assert_eq!(list.items.len(), 0);
    let list = AttributeList::from_reader(&data, 0).unwrap();
    assert_eq!(list.items.len(), 0);
}

#[test]
fn attribute_list_ends_at_an_item_of_length_zero() {
    let mut data = list_item(0x10, 32, 13, 0);
    data.extend(list_item(0x30, 0, 14, 3));
    data.extend(list_item(0x30, 32, 15, 4));
    let list = AttributeList::from_reader(&data, data.len() as u64).unwrap();
    assert_eq!(list.items.len(), 1);
}

#[test]
fn attribute_list_longer_than_its_bytes_fails() {
    let data = list_item(0x10, 32, 13, 0);
    let error = AttributeList::from_reader(&data, 64).unwrap_err();
    assert_eq!(
        value_read_text(error),
        "Reader error occured trying to get value type_code as read_u32. failed to fill whole buffer"
    );
    let error = AttributeList::from_reader(&data[..20], 64).unwrap_err();
    assert_eq!(
        value_read_text(error),
        "Reader error occured trying to get value file_reference as read_u64. failed to fill whole buffer"
    );
}

fn pointer(block_type: BlockType, attribute_id: Option<u16>, offset: u64) -> SectionPointer {
    SectionPointer {
        block_type,
        is_resident: true,
        attribute_id,
        offset,
        size: 8,
    }
}

fn sample_blocks() -> Vec<Block> {
    vec![
        Block {
            entry_id: 0,
            blocks: vec![
                pointer(BlockType::Entry, None, 0),
                pointer(BlockType::StandardInformation, Some(0), 80),
                pointer(BlockType::FileName, Some(3), 200),
            ],
        },
        Block {
            entry_id: 1,
            blocks: vec![
                pointer(BlockType::Entry, None, 1024),
                pointer(BlockType::FileName, Some(2), 1100),
                pointer(BlockType::FileName, Some(3), 1200),
                pointer(BlockType::Data, Some(4), 1300),
                pointer(BlockType::ZoneIdentifier, None, 1300),
            ],
        },
        Block {
            entry_id: 1,
            blocks: vec![
                pointer(BlockType::Entry, None, 2048),
                pointer(BlockType::FileName, Some(3), 2100),
            ],
        },
    ]
}

#[test]
fn blocks_are_found_by_the_number_of_their_record() {
    let blocks = sample_blocks();
    assert_eq!(find_block(&blocks, 0), Some(0));
    assert_eq!(find_block(&blocks, 1), Some(1));
    assert_eq!(find_block(&blocks, 2), None);
}

#[test]
fn attribute_list_resolves_to_the_pointers_it_speaks_of() {
    let blocks = sample_blocks();
    let mut data = list_item(0x30, 32, 1, 3);
    data.extend(list_item(0x80, 32, 1, 4));
    data.extend(list_item(0x30, 32, 7, 3));
    data.extend(list_item(0x10, 32, 1, 3));
    data.extend(list_item(0x30, 32, 0x0009_0000_0000_0000, 3));
    let list = AttributeList::from_reader(&data, data.len() as u64).unwrap();
    assert_eq!(list.items.len(), 5);
    let resolved = list.resolve_to_blocks(&blocks);
    assert_eq!(
        resolved,
        vec![
            (1, pointer(BlockType::FileName, Some(3), 1200)),
            (1, pointer(BlockType::Data, Some(4), 1300)),
            (0, pointer(BlockType::FileName, Some(3), 200)),
        ]
    );
}
