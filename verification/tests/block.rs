use mft::block::{Block, BlockType, SectionPointer};
use mft::raw::Entry;

const TICKS: u64 = 0x01D8CC4C4FECAC7A;
const CREATED: u64 = 132000000000000000;
const MODIFIED: u64 = 132000000001230000;
const ACCESSED: u64 = 10_000_000;

fn block_resident(type_code: u32, instance: u16, name: &str, payload: &[u8]) -> Vec<u8> {
    let name_units: Vec<u16> = name.encode_utf16().collect();
    let data_offset = 24 + (2 * name_units.len() + 7) / 8 * 8;
    let record_len = data_offset + (payload.len() + 7) / 8 * 8;
    let mut bytes = vec![0u8; record_len];
    bytes[0..4].copy_from_slice(&type_code.to_le_bytes());
    bytes[4..8].copy_from_slice(&(record_len as u32).to_le_bytes());
    bytes[8] = 0;
    bytes[9] = name_units.len() as u8;
    bytes[10..12].copy_from_slice(&24u16.to_le_bytes());
    bytes[14..16].copy_from_slice(&instance.to_le_bytes());
    bytes[16..20].copy_from_slice(&(payload.len() as u32).to_le_bytes());
    bytes[20..22].copy_from_slice(&(data_offset as u16).to_le_bytes());
    for (i, unit) in name_units.iter().enumerate() {
        bytes[24 + 2 * i..26 + 2 * i].copy_from_slice(&unit.to_le_bytes());
    }
    bytes[data_offset..data_offset + payload.len()].copy_from_slice(payload);
    bytes
}

fn block_standard_information(instance: u16, file_attributes: u32) -> Vec<u8> {
    let mut payload = vec![0u8; 72];
    payload[0..8].copy_from_slice(&CREATED.to_le_bytes());
    payload[8..16].copy_from_slice(&MODIFIED.to_le_bytes());
    payload[16..24].copy_from_slice(&TICKS.to_le_bytes());
    payload[24..32].copy_from_slice(&ACCESSED.to_le_bytes());
    payload[32..36].copy_from_slice(&file_attributes.to_le_bytes());
    block_resident(0x10, instance, "", &payload)
}

fn block_file_name(instance: u16, parent: u64, name: &str, name_space: u8) -> Vec<u8> {
    let units: Vec<u16> = name.encode_utf16().collect();
    let mut payload = vec![0u8; 66 + 2 * units.len()];
    payload[0..8].copy_from_slice(&(parent | (1u64 << 48)).to_le_bytes());
    for i in 0..4 {
        payload[8 + 8 * i..16 + 8 * i].copy_from_slice(&TICKS.to_le_bytes());
    }
    payload[64] = units.len() as u8;
    payload[65] = name_space;
    for (i, unit) in units.iter().enumerate() {
        payload[66 + 2 * i..68 + 2 * i].copy_from_slice(&unit.to_le_bytes());
    }
    block_resident(0x30, instance, "", &payload)
}

fn block_attribute_list(instance: u16, items: &[(u32, u64, u16)]) -> Vec<u8> {
    let mut payload = Vec::new();
    for (type_code, entry, attribute_id) in items {
        let mut item = vec![0u8; 32];
        item[0..4].copy_from_slice(&type_code.to_le_bytes());
        item[4..6].copy_from_slice(&32u16.to_le_bytes());
        item[7] = 26;
        item[16..24].copy_from_slice(&(entry | (1u64 << 48)).to_le_bytes());
        item[24..26].copy_from_slice(&attribute_id.to_le_bytes());
        payload.extend(item);
    }
    block_resident(0x20, instance, "", &payload)
}

/// A record of 1024 bytes with the attributes given, stored as a volume
/// stores it: the ends of its two sectors hold the sequence number, and
/// the fixup array holds what stood there.
fn block_record(flags: u16, base: u64, attributes: &[Vec<u8>]) -> Vec<u8> {
    let mut data = vec![0u8; 1024];
    data[0..4].copy_from_slice(b"FILE");
    data[4..6].copy_from_slice(&48u16.to_le_bytes());
    data[6..8].copy_from_slice(&3u16.to_le_bytes());
    data[16..18].copy_from_slice(&1u16.to_le_bytes());
    data[18..20].copy_from_slice(&1u16.to_le_bytes());
    data[20..22].copy_from_slice(&56u16.to_le_bytes());
    data[22..24].copy_from_slice(&flags.to_le_bytes());
    data[28..32].copy_from_slice(&1024u32.to_le_bytes());
    data[32..40].copy_from_slice(&base.to_le_bytes());
    data[40..42].copy_from_slice(&(attributes.len() as u16).to_le_bytes());
    let mut at = 56;
    for attribute in attributes {
        data[at..at + attribute.len()].copy_from_slice(attribute);
        at += attribute.len();
    }
    data[at..at + 4].copy_from_slice(&0xffff_ffffu32.to_le_bytes());
    data[24..28].copy_from_slice(&(at as u32 + 8).to_le_bytes());
    data[48..50].copy_from_slice(&[0x2a, 0x00]);
    let first_end = [data[510], data[511]];
    let second_end = [data[1022], data[1023]];
    data[50..52].copy_from_slice(&first_end);
    data[52..54].copy_from_slice(&second_end);
    data[510..512].copy_from_slice(&[0x2a, 0x00]);
    data[1022..1024].copy_from_slice(&[0x2a, 0x00]);
    data
}

fn block_file(parent: u64, name: &str) -> Vec<u8> {
    block_record(
        1,
        0,
        &[
            block_standard_information(0, 0x20),
            block_file_name(1, parent, name, 1),
        ],
    )
}

fn block_directory(parent: u64, name: &str) -> Vec<u8> {
    block_record(
        3,
        0,
        &[
            block_standard_information(0, 0x10),
            block_file_name(1, parent, name, 3),
        ],
    )
}

/// The table that the tests read.
///
///  0 `$MFT`, in the root directory
///  1 an unused slot
///  2 `Windows`, a directory in the root directory
///  3 `System32`, a directory in `Windows`
///  4 `orphan.txt`, its own parent
///  5 `.`, the root directory
///  6 `LONGNA~1` for DOS and `Long Name`, in `System32`
///  7 `lost`, with parent zero
///  8 `x` in 9, and 9 `y` in 8
/// 10 `child`, in the unused slot 1
/// 11 `far`, in a record that the table does not hold
/// 12 `SHORT~1`, a name for DOS alone, in `Windows`
/// 13 a record whose name lies in record 14, through an attribute list
/// 14 the record that extends 13, with the name `extended` in `Windows`
/// 15 `gone.txt`, a deleted file in `System32`
/// 16 a record without standard information, `bare` in `Windows`
fn block_table() -> Vec<u8> {
    let mut table = Vec::new();
    table.extend(block_file(5, "$MFT"));
    table.extend(vec![0u8; 1024]);
    table.extend(block_directory(5, "Windows"));
    table.extend(block_directory(2, "System32"));
    table.extend(block_file(4, "orphan.txt"));
    table.extend(block_directory(5, "."));
    table.extend(block_record(
        1,
        0,
        &[
            block_standard_information(0, 0x20),
            block_file_name(1, 3, "LONGNA~1", 2),
            block_file_name(2, 3, "Long Name", 1),
        ],
    ));
    table.extend(block_file(0, "lost"));
    table.extend(block_file(9, "x"));
    table.extend(block_file(8, "y"));
    table.extend(block_file(1, "child"));
    table.extend(block_file(1000, "far"));
    table.extend(block_record(
        1,
        0,
        &[
            block_standard_information(0, 0x20),
            block_file_name(1, 2, "SHORT~1", 2),
        ],
    ));
    table.extend(block_record(
        1,
        0,
        &[
            block_standard_information(0, 0x20),
            block_attribute_list(1, &[(0x10, 13, 0), (0x30, 14, 3), (0x80, 14, 4)]),
        ],
    ));
    table.extend(block_record(
        1,
        13,
        &[
            block_file_name(3, 2, "extended", 1),
            block_resident(0x80, 4, "", b"data"),
        ],
    ));
    table.extend(block_record(
        0,
        0,
        &[
            block_standard_information(0, 0x20),
            block_file_name(1, 3, "gone.txt", 1),
        ],
    ));
    table.extend(block_record(1, 0, &[block_file_name(1, 2, "bare", 1)]));
    table
}

#[test]
fn block_type_of_each_type_code() {
    let known = [
        (0x10, BlockType::StandardInformation),
        (0x20, BlockType::AttributeList),
        (0x30, BlockType::FileName),
        (0x40, BlockType::ObjectId),
        (0x50, BlockType::SecurityDescriptor),
        (0x60, BlockType::VolumeName),
        (0x70, BlockType::VolumeInformation),
        (0x80, BlockType::Data),
        (0x90, BlockType::IndexRoot),
        (0xa0, BlockType::IndexAllocation),
        (0xb0, BlockType::Bitmap),
        (0xc0, BlockType::ReparsePoint),
        (0xd0, BlockType::EaInformation),
        (0xe0, BlockType::Ea),
        (0xf0, BlockType::PropertySet),
        (0x100, BlockType::LoggedUtilityStream),
        (0xffff_ffff, BlockType::End),
    ];
    for (code, block_type) in known {
        assert_eq!(BlockType::from_attribute_type_code(code), block_type);
    }
    for code in [0u32, 0x11, 0x1000, 0x110, 0xffff_fffe] {
        assert_eq!(
            BlockType::from_attribute_type_code(code),
            BlockType::UnknownAttribute
        );
    }
}

#[test]
fn zone_identifier_has_a_second_pointer() {
    let record = block_record(
        1,
        0,
        &[
            block_standard_information(0, 0x20),
            block_file_name(1, 5, "setup.exe", 1),
            block_resident(0x80, 2, "", b"MZ"),
            block_resident(0x80, 3, "Zone.Identifier", b"[ZoneTransfer]\r\nZoneId=3\r\n"),
            block_resident(0x80, 4, "Zone.Identifie", b"x"),
            block_resident(0x90, 5, "Zone.Identifier", b"y"),
        ],
    );
    let mut table = vec![0u8; 1024];
    table.extend(record);
    let first = Entry::from_reader(&table[..], None).unwrap();
    let entry = Entry::from_reader(&table[..], Some(first)).unwrap();
    assert_eq!(entry.attributes.len(), 6);
    assert_eq!(entry.attributes[3].name.as_deref(), Some("Zone.Identifier"));
    let block = Block::new_with_entry(&entry, 1).unwrap();
    assert_eq!(block.entry_id, 1);
    let kinds: Vec<BlockType> = block.blocks.iter().map(|p| p.block_type).collect();
    assert_eq!(
        kinds,
        vec![
            BlockType::Entry,
            BlockType::StandardInformation,
            BlockType::FileName,
            BlockType::Data,
            BlockType::Data,
            BlockType::ZoneIdentifier,
            BlockType::Data,
            BlockType::IndexRoot,
        ]
    );
    let data = block.blocks[4];
    let zone = block.blocks[5];
    assert_eq!(data.attribute_id, Some(3));
    assert_eq!(zone.attribute_id, None);
    assert_eq!(zone.offset, data.offset);
    assert_eq!(zone.size, data.size);
    assert_eq!(zone.is_resident, data.is_resident);
    assert_eq!(zone.size, 26);
    let start = zone.offset as usize - 1024;
    let bytes = Entry::get_entry_bytes(&table[..], 1024).unwrap();
    assert_eq!(
        &bytes[start..start + 26],
        b"[ZoneTransfer]\r\nZoneId=3\r\n"
    );
}

#[test]
fn pointers_lie_in_their_record() {
    let table = block_table();
    let mut prev = None;
    for n in 0..17u64 {
        let entry = Entry::from_reader(&table[..], prev).unwrap();
        assert_eq!(entry.entry_n, n);
        assert_eq!(entry.offset, 1024 * n);
        assert_eq!(entry.offset % 1024, 0);
        let block = Block::new_with_entry(&entry, n).unwrap();
        assert_eq!(block.entry_id, n);
        assert_eq!(
            block.blocks[0],
            SectionPointer {
                block_type: BlockType::Entry,
                is_resident: true,
                attribute_id: None,
                offset: 1024 * n,
                size: entry.header.total_entry_size as u64,
            }
        );
        assert!(block.blocks.len() >= 1 + entry.attributes.len());
        for attribute in &entry.attributes {
            assert!(attribute.record_len != 0);
        }
        for pointer in &block.blocks {
            assert!(pointer.offset >= entry.offset);
            assert!(pointer.offset < entry.offset + 1024);
        }
        prev = Some(entry);
    }
}

#[test]
fn pointer_of_data_that_begins_outside_its_attribute() {
    let mut attribute = block_resident(0x80, 2, "", b"MZ");
    attribute[20..22].copy_from_slice(&0xffffu16.to_le_bytes());
    let record = block_record(1, 0, &[attribute]);
    let entry = Entry::from_reader(&record[..], None).unwrap();
    let block = Block::new_with_entry(&entry, 0).unwrap();
    assert_eq!(block.blocks[1].offset, 56 + 0xffff);
    assert_eq!(block.blocks[1].size, 2);
}

#[test]
fn pointer_of_data_outside_the_record() {
    let mut attribute = vec![0u8; 64];
    attribute[0..4].copy_from_slice(&0x80u32.to_le_bytes());
    attribute[4..8].copy_from_slice(&64u32.to_le_bytes());
    attribute[8] = 1;
    attribute[14..16].copy_from_slice(&9u16.to_le_bytes());
    attribute[48..56].copy_from_slice(&0x1234_5678_9abcu64.to_le_bytes());
    let record = block_record(1, 0, &[attribute]);
    let entry = Entry::from_reader(&record[..], None).unwrap();
    let block = Block::new_with_entry(&entry, 3).unwrap();
    assert_eq!(
        block.blocks[1],
        SectionPointer {
            block_type: BlockType::Data,
            is_resident: false,
            attribute_id: Some(9),
            offset: 56 + 16,
            size: 0x1234_5678_9abc,
        }
    );
}
