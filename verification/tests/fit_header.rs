use fit_parser::crc::{fit_crc, fit_crc_vec};
use fit_parser::error::{FitError, FitErrorKind};
use fit_parser::fit_header::{parse_fit_header_from_data, FitFileHeader};

fn sample_header() -> Vec<u8> {
    vec![
        14, // header size
        3,  // protocol version
        0x0B, 0x0A, // profile version
        0x0D, 0x0C, 0x0B, 0x0A, // data_size
        0x2E, 0x46, 0x49, 0x54, // data type
        0xA3, 0xA7, // crc
        0xA3, 0xA7, // file crc
    ]
}

#[test]
fn fit_file_header_from_data() {
    let expected_header = FitFileHeader {
        header_size: 14,
        protocol_version: 3,
        profile_version: 0x0A0B,
        data_size: 0x0A0B0C0D,
        data_type: String::from(".FIT"),
        crc: Some(0xA7A3),
    };
    let data = sample_header();
    let actual_header = FitFileHeader::from(&data).unwrap();
    assert_eq!(
        expected_header, actual_header,
        "expected: {:?}, actual: {:?}",
        expected_header, actual_header
    )
}

#[test]
fn header_through_free_function() {
    let data = sample_header();
    assert_eq!(
        parse_fit_header_from_data(&data),
        FitFileHeader::from(&data)
    );
    assert_eq!(parse_fit_header_from_data(&data).unwrap().data_size, 0x0A0B0C0D);
}

#[test]
fn crc_of_sample_header() {
    let data = sample_header();
    assert_eq!(fit_crc(&data[..12], 0), 0xA7A3);
    assert_eq!(fit_crc_vec(data[..12].to_vec(), 0), 0xA7A3);
}

#[test]
fn crc_of_nothing_is_the_seed() {
    assert_eq!(fit_crc(&[], 0), 0);
    assert_eq!(fit_crc(&[], 0x1234), 0x1234);
}

#[test]
fn crc_of_single_bytes() {
    assert_eq!(fit_crc(&[0x00], 0), 0x0000);
    assert_eq!(fit_crc(&[0x01], 0), 0xC0C1);
    assert_eq!(fit_crc(&[0x10], 0), 0xCC01);
    assert_eq!(fit_crc(&[0xFF], 0), 0x4040);
}

#[test]
fn crc_continues_over_concatenation() {
    let data = sample_header();
    for mid in 0..=data.len() {
        let (a, b) = data.split_at(mid);
        assert_eq!(fit_crc(&data, 0), fit_crc(b, fit_crc(a, 0)));
    }
}

#[test]
fn header_of_twelve_bytes_has_no_crc() {
    let mut data = sample_header();
    data[0] = 12;
    data.truncate(12);
    let header = parse_fit_header_from_data(&data).unwrap();
    assert_eq!(header.header_size, 12);
    assert_eq!(header.crc, None);
    assert_eq!(header.data_type, ".FIT");
}

#[test]
fn header_of_thirteen_bytes_has_no_crc() {
    let mut data = sample_header();
    data[0] = 13;
    let header = parse_fit_header_from_data(&data).unwrap();
    assert_eq!(header.crc, None);
}

#[test]
fn empty_buffer_is_truncated() {
    assert_eq!(
        parse_fit_header_from_data(&[]),
        Err(FitError { kind: FitErrorKind::Truncated, offset: 0 })
    );
}

#[test]
fn short_buffer_is_truncated() {
    let data = sample_header();
    assert_eq!(
        parse_fit_header_from_data(&data[..13]),
        Err(FitError { kind: FitErrorKind::Truncated, offset: 13 })
    );
    assert_eq!(
        parse_fit_header_from_data(&data[..5]),
        Err(FitError { kind: FitErrorKind::Truncated, offset: 5 })
    );
}

#[test]
fn small_header_size_is_malformed() {
    let mut data = sample_header();
    data[0] = 11;
    assert_eq!(
        parse_fit_header_from_data(&data),
        Err(FitError { kind: FitErrorKind::MalformedHeader, offset: 0 })
    );
}

#[test]
fn wrong_magic_is_malformed() {
    let mut data = sample_header();
    data[11] = b'X';
    assert_eq!(
        parse_fit_header_from_data(&data),
        Err(FitError { kind: FitErrorKind::MalformedHeader, offset: 8 })
    );
}

#[test]
fn wrong_header_crc_is_malformed() {
    let mut data = sample_header();
    data[12] = 0xA4;
    assert_eq!(
        parse_fit_header_from_data(&data),
        Err(FitError { kind: FitErrorKind::MalformedHeader, offset: 12 })
    );
}
