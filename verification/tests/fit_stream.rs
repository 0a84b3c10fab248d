use fit_parser::base_type::{BaseType, BaseTypeInfo};
use fit_parser::crc::fit_crc;
use fit_parser::error::{FitError, FitErrorKind};
use fit_parser::fit_data::{FieldValue, ResolvedValue, Scalar};
use fit_parser::fit_header::parse_fit_header_from_data;
use fit_parser::fit_records::{
    DefinitionRecord, Endianness, FieldDefinition, NormalDefinitionHeader,
};
use fit_parser::developer::{DeveloperCatalog, DeveloperDataIdMessage, FieldDescriptionMessage};
use fit_parser::fit_stream::{
    compressed_timestamp, decode, decode_records, decode_with_profile, find_record_timestamp,
    DecodedRecord, LocalTable, StreamDecoder,
};
use fit_parser::profile::Profile;
use fit_parser::profile_messages::read_messages;
use fit_parser::profile_types::read_profile_types;

fn file_of(records: &[u8]) -> Vec<u8> {
    let mut data = vec![14, 0x10, 0x64, 0x00];
    data.extend_from_slice(&(records.len() as u32).to_le_bytes());
    data.extend_from_slice(b".FIT");
    let header_crc = fit_crc(&data, 0);
    data.extend_from_slice(&header_crc.to_le_bytes());
    data.extend_from_slice(records);
    let file_crc = fit_crc(&data, 0);
    data.extend_from_slice(&file_crc.to_le_bytes());
    data
}

fn sample_records() -> Vec<u8> {
    vec![
        0x40, 0x00, 0x00, 0x14, 0x00, 0x03, 253, 4, 0x86, 3, 1, 0x02, 2, 2, 0x84, // definition 0
        0x00, 0xE8, 0x03, 0x00, 0x00, 150, 0x0B, 0x0A, // data 0
        0x41, 0x00, 0x01, 0x00, 0x14, 0x01, 3, 1, 0x02, // definition 1
        0xA5, 151, // compressed timestamp, local type 1, offset 5
        0xBF, 0xFF, // compressed timestamp, local type 1, offset 31
        0x01, 152, // data 1
    ]
}

fn field(number: u8, size: u8, base_type: BaseType) -> FieldDefinition {
    FieldDefinition {
        field_definition_number: number,
        field_size: size,
        base_type: BaseTypeInfo::of(base_type),
    }
}

fn uint(raw: &[u8], number: u64, is_invalid: bool) -> ResolvedValue {
    ResolvedValue {
        field_name: None,
        raw_bytes: raw.to_vec(),
        typed: FieldValue::Scalar(Scalar::UInt(number)),
        is_invalid,
    }
}

fn sample_decoded() -> Vec<DecodedRecord> {
    vec![
        DecodedRecord::Definition(DefinitionRecord {
            header: NormalDefinitionHeader {
                contains_extended_definitions: false,
                local_message_type: 0,
            },
            architecture: Endianness::LittleEndian,
            global_message_number: 20,
            field_definitions: vec![
                field(253, 4, BaseType::Uint32),
                field(3, 1, BaseType::Uint8),
                field(2, 2, BaseType::Uint16),
            ],
            developer_field_definitions: vec![],
        }),
        DecodedRecord::Data {
            global_message_number: 20,
            values: vec![
                uint(&[0xE8, 0x03, 0, 0], 1000, false),
                uint(&[150], 150, false),
                uint(&[0x0B, 0x0A], 0x0A0B, false),
            ],
        },
        DecodedRecord::Definition(DefinitionRecord {
            header: NormalDefinitionHeader {
                contains_extended_definitions: false,
                local_message_type: 1,
            },
            architecture: Endianness::BigEndian,
            global_message_number: 20,
            field_definitions: vec![field(3, 1, BaseType::Uint8)],
            developer_field_definitions: vec![],
        }),
        DecodedRecord::CompressedTimestampData {
            global_message_number: 20,
            absolute_timestamp: Some(1029),
            values: vec![uint(&[151], 151, false)],
        },
        DecodedRecord::CompressedTimestampData {
            global_message_number: 20,
            absolute_timestamp: Some(1055),
            values: vec![uint(&[0xFF], 255, true)],
        },
        DecodedRecord::Data {
            global_message_number: 20,
            values: vec![uint(&[152], 152, false)],
        },
    ]
}

#[test]
fn decode_a_small_file() {
    let data = file_of(&sample_records());
    let (header, records) = decode(&data).unwrap();
    assert_eq!(header, parse_fit_header_from_data(&data).unwrap());
    assert_eq!(header.data_size as usize, sample_records().len());
    assert_eq!(records, sample_decoded());
}

#[test]
fn file_crc_covers_header_and_records() {
    let data = file_of(&sample_records());
    let end = data.len() - 2;
    let file_crc = u16::from_le_bytes([data[end], data[end + 1]]);
    assert_eq!(fit_crc(&data[..end], 0), file_crc);
    assert!(decode(&data).is_ok());
    let mut bad = data.clone();
    bad[end] ^= 1;
    assert_eq!(
        decode(&bad),
        Err(FitError { kind: FitErrorKind::FileCrcMismatch, offset: end })
    );
    let mut flipped = data.clone();
    flipped[20] ^= 0x01;
    assert_eq!(decode(&flipped).unwrap_err().kind, FitErrorKind::FileCrcMismatch);
}

#[test]
fn decode_a_file_without_records() {
    let data = file_of(&[]);
    assert_eq!(data.len(), 16);
    let (header, records) = decode(&data).unwrap();
    assert_eq!(header.data_size, 0);
    assert!(records.is_empty());
}

#[test]
fn header_sample_is_no_whole_file() {
    let data: Vec<u8> = vec![
        14, 3, 0x0B, 0x0A, 0x0D, 0x0C, 0x0B, 0x0A, 0x2E, 0x46, 0x49, 0x54, 0xA3, 0xA7, 0xA3, 0xA7,
    ];
    assert!(parse_fit_header_from_data(&data).is_ok());
    assert_eq!(
        decode(&data),
        Err(FitError { kind: FitErrorKind::Truncated, offset: 16 })
    );
    assert_eq!(fit_crc(&data[..12], 0), 0xA7A3);
}

#[test]
fn decode_errors() {
    let truncated = |len: usize| Err(FitError { kind: FitErrorKind::Truncated, offset: len });
    let data = file_of(&sample_records());
    assert_eq!(decode(&data[..data.len() - 1]), truncated(data.len() - 1));
    assert_eq!(decode(&data[..20]), truncated(20));
    assert_eq!(decode(&[]), truncated(0));
    // a data record before any definition
    assert_eq!(
        decode(&file_of(&[0x03, 1, 2])),
        Err(FitError { kind: FitErrorKind::UnknownLocalMessageType, offset: 14 })
    );
    assert_eq!(
        decode(&file_of(&[0x40, 0, 0, 0, 0, 0, 0xA5])),
        Err(FitError { kind: FitErrorKind::UnknownLocalMessageType, offset: 20 })
    );
    // a record that runs over the end of the records
    let records = [0x40, 0x00, 0x00, 0x14, 0x00, 0x01, 3, 2, 0x84, 0x00, 0x01];
    let end = 14 + records.len();
    assert_eq!(decode(&file_of(&records)), truncated(end));
    assert_eq!(decode(&file_of(&records[..8])), truncated(14 + 8));
    assert_eq!(
        decode(&file_of(&[0x40, 0x00, 0x00, 0x14, 0x00, 0x01, 3, 1, 0x84])),
        Err(FitError { kind: FitErrorKind::MalformedDefinition, offset: 20 })
    );
    let mut bad_header = data.clone();
    bad_header[9] = b'f';
    assert_eq!(
        decode(&bad_header),
        Err(FitError { kind: FitErrorKind::MalformedHeader, offset: 8 })
    );
}

#[test]
fn a_later_definition_replaces_the_earlier_one() {
    let records = [
        0x40, 0x00, 0x00, 0x14, 0x00, 0x01, 3, 1, 0x02, // local 0: one byte
        0x00, 7, //
        0x40, 0x00, 0x00, 0x15, 0x00, 0x01, 4, 2, 0x84, // local 0 again: two bytes
        0x00, 1, 2,
    ];
    let (_, decoded) = decode(&file_of(&records)).unwrap();
    assert_eq!(decoded.len(), 4);
    assert_eq!(
        decoded[1],
        DecodedRecord::Data { global_message_number: 20, values: vec![uint(&[7], 7, false)] }
    );
    assert_eq!(
        decoded[3],
        DecodedRecord::Data {
            global_message_number: 21,
            values: vec![uint(&[1, 2], 0x0201, false)]
        }
    );
}

#[test]
fn compressed_timestamp_needs_a_reference() {
    let records = [
        0x40, 0x00, 0x00, 0x14, 0x00, 0x01, 3, 1, 0x02, //
        0x85, 7, // compressed, offset 5, before any timestamp
        0x00, 8, // data without timestamp
        0x9F, 9,
    ];
    let decoded = decode_records(&records, 0, &Profile::empty()).unwrap();
    assert_eq!(
        decoded[1],
        DecodedRecord::CompressedTimestampData {
            global_message_number: 20,
            absolute_timestamp: None,
            values: vec![uint(&[7], 7, false)],
        }
    );
    assert_eq!(
        decoded[3],
        DecodedRecord::CompressedTimestampData {
            global_message_number: 20,
            absolute_timestamp: None,
            values: vec![uint(&[9], 9, false)],
        }
    );
}

#[test]
fn compressed_timestamps() {
    assert_eq!(compressed_timestamp(1000, 5), 1029);
    assert_eq!(compressed_timestamp(1000, 8), 1000);
    assert_eq!(compressed_timestamp(1000, 9), 1001);
    assert_eq!(compressed_timestamp(1000, 31), 1023);
    assert_eq!(compressed_timestamp(1000, 7), 1031);
    assert_eq!(compressed_timestamp(0, 0), 0);
    assert_eq!(compressed_timestamp(u32::MAX, 31), u32::MAX);
    assert_eq!(compressed_timestamp(u32::MAX, 0), 0);
    assert_eq!(compressed_timestamp(u32::MAX, 3), 3);
    for reference in [0u32, 1, 31, 32, 1000, 0x3B, 0xFFFF_FFE0, u32::MAX] {
        for offset in 0u8..32 {
            let expected = reference
                .wrapping_add((offset as u32).wrapping_sub(reference & 0x1F) & 0x1F);
            assert_eq!(compressed_timestamp(reference, offset), expected);
            assert_eq!(expected & 0x1F, offset as u32);
        }
    }
}

#[test]
fn record_timestamps() {
    let definition = |fields: Vec<FieldDefinition>| DefinitionRecord {
        header: NormalDefinitionHeader {
            contains_extended_definitions: false,
            local_message_type: 0,
        },
        architecture: Endianness::LittleEndian,
        global_message_number: 20,
        field_definitions: fields,
        developer_field_definitions: vec![],
    };
    let with = definition(vec![field(3, 1, BaseType::Uint8), field(253, 4, BaseType::Uint32)]);
    let values = vec![uint(&[1], 1, false), uint(&[0xE8, 3, 0, 0], 1000, false)];
    assert_eq!(find_record_timestamp(&with, &values), Some(1000));
    let invalid = vec![uint(&[1], 1, false), uint(&[0xFF; 4], 0xFFFF_FFFF, true)];
    assert_eq!(find_record_timestamp(&with, &invalid), None);
    let large = vec![uint(&[1], 1, false), uint(&[0; 8], 0x1_0000_0000, false)];
    assert_eq!(find_record_timestamp(&with, &large), None);
    let without = definition(vec![field(3, 1, BaseType::Uint8)]);
    assert_eq!(find_record_timestamp(&without, &values), None);
    assert_eq!(find_record_timestamp(&with, &vec![]), None);
}

#[test]
fn local_table() {
    let mut table = LocalTable::new();
    assert_eq!(table.slots.len(), 16);
    for slot in 0..16 {
        assert!(table.lookup(slot).is_none());
    }
    let definition = DefinitionRecord {
        header: NormalDefinitionHeader {
            contains_extended_definitions: false,
            local_message_type: 5,
        },
        architecture: Endianness::LittleEndian,
        global_message_number: 20,
        field_definitions: vec![],
        developer_field_definitions: vec![],
    };
    table.define(5, definition.clone());
    assert_eq!(table.lookup(5), Some(&definition));
    assert_eq!(definition.duplicate(), definition);
    assert!(table.lookup(4).is_none());
}

fn text(raw: &[u8], content: &str) -> ResolvedValue {
    ResolvedValue {
        field_name: None,
        raw_bytes: raw.to_vec(),
        typed: FieldValue::Text(content.to_string()),
        is_invalid: false,
    }
}

fn developer_records() -> Vec<u8> {
    let mut records = vec![
        0x40, 0x00, 0x00, 0xCF, 0x00, 0x02, 1, 16, 0x0D, 3, 1, 0x02, // developer_data_id
        0x00, 1, 2, 3, 4, 5, 6, 7, 8, 9, 10, 11, 12, 13, 14, 15, 16, 0,
        0x41, 0x00, 0x00, 0xCE, 0x00, 0x05, 0, 1, 0x02, 1, 1, 0x02, 2, 1, 0x02, 3, 8, 0x07, 8,
        4, 0x07, // field_description
        0x01, 0, 7, 0x84,
    ];
    records.extend_from_slice(b"doughnutcnt\0");
    records.extend_from_slice(&[
        0x62, 0x00, 0x00, 0x14, 0x00, 0x01, 3, 1, 0x02, 0x02, 7, 2, 0, 9, 1, 0, // record
        0x02, 150, 0x34, 0x12, 0x55,
    ]);
    records
}

#[test]
fn developer_fields_are_described_by_the_file() {
    let records = developer_records();
    let decoded = decode_records(&records, 0, &Profile::empty()).unwrap();
    assert_eq!(decoded.len(), 6);
    assert_eq!(
        decoded[3],
        DecodedRecord::Data {
            global_message_number: 206,
            values: vec![
                uint(&[0], 0, false),
                uint(&[7], 7, false),
                uint(&[0x84], 0x84, false),
                text(b"doughnut", "doughnut"),
                text(b"cnt\0", "cnt"),
            ],
        }
    );
    assert_eq!(
        decoded[5],
        DecodedRecord::Data {
            global_message_number: 20,
            values: vec![
                uint(&[150], 150, false),
                ResolvedValue {
                    field_name: Some("doughnut".to_string()),
                    ..uint(&[0x34, 0x12], 0x1234, false)
                },
                ResolvedValue {
                    field_name: None,
                    raw_bytes: vec![0x55],
                    typed: FieldValue::Bytes(vec![0x55]),
                    is_invalid: false,
                },
            ],
        }
    );
}

#[test]
fn developer_catalog_of_a_file() {
    let records = developer_records();
    let profile = Profile::empty();
    let mut decoder = StreamDecoder::new(0);
    while decoder.cursor < records.len() {
        decoder = decoder.step(&records, &profile).unwrap();
    }
    assert_eq!(
        decoder.catalog,
        DeveloperCatalog {
            applications: vec![DeveloperDataIdMessage {
                application_id: (1..=16).collect(),
                developer_data_index: 0,
            }],
            fields: vec![FieldDescriptionMessage {
                developer_data_index: 0,
                field_definition_number: 7,
                fit_base_type_id: 0x84,
                field_name: "doughnut".to_string(),
                units: "cnt".to_string(),
                native_field_num: None,
            }],
        }
    );
    assert_eq!(decoder.catalog.developer(0), Some(&decoder.catalog.applications[0]));
    assert_eq!(decoder.catalog.developer(1), None);
    assert_eq!(decoder.cursor, records.len());
}

#[test]
fn developer_messages_that_lack_what_they_must_give_are_passed_over() {
    let records = [
        0x40, 0x00, 0x00, 0xCE, 0x00, 0x02, 0, 1, 0x02, 1, 1, 0x02, // no base type
        0x00, 0, 7, //
        0x41, 0x00, 0x00, 0xCF, 0x00, 0x01, 3, 1, 0x02, //
        0x01, 0xFF, // developer data index without a value
        0x01, 3,
    ];
    let profile = Profile::empty();
    let mut decoder = StreamDecoder::new(0);
    while decoder.cursor < records.len() {
        decoder = decoder.step(&records, &profile).unwrap();
    }
    assert!(decoder.catalog.fields.is_empty());
    assert_eq!(
        decoder.catalog.applications,
        vec![DeveloperDataIdMessage { application_id: vec![], developer_data_index: 3 }]
    );
}

const TYPES: &str = "\
Type Name,Base Type,Value Name,Value,Comment
mesg_num,uint16,,,
,,file_id,0,
,,record,20,
,,lap,19,
sport,enum,,,
,,running,1,
,,cycling,2,
,,rowing,3,deprecated
,,sculling,3,
heart_rate_kind,uint8,,,
,,resting,150,
";

const MESSAGES: &str = "\
Message Name,Field Def #,Field Name,Field Type,Array,Components,Scale,Offset,Units,Bits,Accumulate,Ref Field Name,Ref Field Value,Comment,Products:,EXAMPLE
record,,,,,,,,,,,,,,,
,253,timestamp,date_time,,,,,s,,,,,,,
,3,heart_rate,heart_rate_kind,,,,,bpm,,,,,,,
,5,sport,sport,,,,,,,,,,,,
,5,sport_again,sport,,,,,,,,,,,,
,7,sports,sport,[N],,,,,,,,,,,
";

fn sample_profile() -> Profile {
    Profile {
        types: read_profile_types(TYPES).unwrap(),
        messages: read_messages(MESSAGES).unwrap(),
    }
}

#[test]
fn profile_lookups() {
    let profile = sample_profile();
    assert_eq!(profile.message_name(20), Some(&"record".to_string()));
    assert_eq!(profile.message_name(19), Some(&"lap".to_string()));
    assert_eq!(profile.message_name(21), None);
    assert_eq!(profile.find_message_numbered(20), Some(&profile.messages[0]));
    assert_eq!(profile.find_message_numbered(19), None);
    assert_eq!(profile.find_message("record"), Some(&profile.messages[0]));
    assert_eq!(profile.find_message("Record"), None);
    assert_eq!(profile.find_type("sport"), Some(&profile.types[1]));
    assert_eq!(profile.find_type("sports"), None);
    assert_eq!(profile.member_name("sport", 2), Some(&"cycling".to_string()));
    assert_eq!(profile.member_name("sport", 3), Some(&"sculling".to_string()));
    assert_eq!(profile.member_name("sport", 4), None);
    assert_eq!(profile.member_name("heart_rate_kind", 150), None);
    assert_eq!(profile.member_name("mesg_num", 20), None);
    assert_eq!(profile.member_name("nothing", 1), None);
    assert_eq!(Profile::empty().message_name(20), None);
}

#[test]
fn values_are_resolved_against_the_profile() {
    let records = [
        0x40, 0x00, 0x00, 0x14, 0x00, 0x05, 253, 4, 0x86, 3, 1, 0x02, 5, 1, 0x00, 6, 1, 0x02, 7,
        2, 0x00, //
        0x00, 0xE8, 0x03, 0, 0, 150, 2, 9, 1, 2, //
        0x00, 0xE9, 0x03, 0, 0, 0xFF, 0xFF, 9, 1, 2, //
        0x00, 0xEA, 0x03, 0, 0, 151, 4, 9, 1, 2, //
        0x40, 0x00, 0x00, 0x13, 0x00, 0x01, 5, 1, 0x00, // a message without a schema
        0x00, 2,
    ];
    let profile = sample_profile();
    let decoded = decode_records(&records, 0, &profile).unwrap();
    let named = |name: &str, value: ResolvedValue| ResolvedValue {
        field_name: Some(name.to_string()),
        ..value
    };
    let sports = ResolvedValue {
        field_name: Some("sports".to_string()),
        raw_bytes: vec![1, 2],
        typed: FieldValue::Array(vec![Scalar::UInt(1), Scalar::UInt(2)]),
        is_invalid: false,
    };
    assert_eq!(
        decoded[1],
        DecodedRecord::Data {
            global_message_number: 20,
            values: vec![
                named("timestamp", uint(&[0xE8, 3, 0, 0], 1000, false)),
                named("heart_rate", uint(&[150], 150, false)),
                named("sport", text(&[2], "cycling")),
                uint(&[9], 9, false),
                sports.clone(),
            ],
        }
    );
    assert_eq!(
        decoded[2],
        DecodedRecord::Data {
            global_message_number: 20,
            values: vec![
                named("timestamp", uint(&[0xE9, 3, 0, 0], 1001, false)),
                named("heart_rate", uint(&[0xFF], 255, true)),
                named("sport", uint(&[0xFF], 255, true)),
                uint(&[9], 9, false),
                sports.clone(),
            ],
        }
    );
    assert_eq!(
        decoded[3],
        DecodedRecord::Data {
            global_message_number: 20,
            values: vec![
                named("timestamp", uint(&[0xEA, 3, 0, 0], 1002, false)),
                named("heart_rate", uint(&[151], 151, false)),
                named("sport", uint(&[4], 4, false)),
                uint(&[9], 9, false),
                sports,
            ],
        }
    );
    assert_eq!(
        decoded[5],
        DecodedRecord::Data { global_message_number: 19, values: vec![uint(&[2], 2, false)] }
    );
    // without a profile the same records have no names
    let plain = decode_records(&records, 0, &Profile::empty()).unwrap();
    assert_eq!(
        plain[1],
        DecodedRecord::Data {
            global_message_number: 20,
            values: vec![
                uint(&[0xE8, 3, 0, 0], 1000, false),
                uint(&[150], 150, false),
                uint(&[2], 2, false),
                uint(&[9], 9, false),
                ResolvedValue {
                    field_name: None,
                    raw_bytes: vec![1, 2],
                    typed: FieldValue::Array(vec![Scalar::UInt(1), Scalar::UInt(2)]),
                    is_invalid: false,
                },
            ],
        }
    );
}

#[test]
fn decoding_with_the_empty_profile_is_plain_decoding() {
    let data = file_of(&sample_records());
    assert_eq!(decode_with_profile(&data, &Profile::empty()), decode(&data));
    let with_profile = decode_with_profile(&data, &sample_profile()).unwrap();
    assert_eq!(with_profile.1.len(), 6);
    match &with_profile.1[1] {
        DecodedRecord::Data { values, .. } => {
            assert_eq!(values[0].field_name.as_deref(), Some("timestamp"));
            assert_eq!(values[1].field_name.as_deref(), Some("heart_rate"));
            assert_eq!(values[2].field_name, None);
        }
        other => panic!("{:?}", other),
    }
}
