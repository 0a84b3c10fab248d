//! The file header: the first twelve or fourteen bytes of every file.

use crate::byte_order::{read_u16_le, read_u32_le, u16_le, u32_le};
use crate::crc::{crc16, fit_crc};
use crate::error::{FitError, FitErrorKind};
use vstd::prelude::*;
use vstd::string::StringExecFns;

verus! {

/// The smallest header a file can have.
pub const MIN_HEADER_SIZE: u8 = 12;

/// The header size from which on the header carries its own checksum.
pub const CRC_HEADER_SIZE: u8 = 14;

/// The decoded file header.
#[derive(Debug, Clone, PartialEq, Eq)]
pub struct FitFileHeader {
    pub header_size: u8,
    pub protocol_version: u8,
    pub profile_version: u16,
    pub data_size: u32,
    pub data_type: String,
    pub crc: Option<u16>,
}

/// The mathematical content of a [`FitFileHeader`].
pub struct FitFileHeaderView {
    pub header_size: u8,
    pub protocol_version: u8,
    pub profile_version: u16,
    pub data_size: u32,
    pub data_type: Seq<char>,
    pub crc: Option<u16>,
}

impl View for FitFileHeader {
    type V = FitFileHeaderView;

    open spec fn view(&self) -> FitFileHeaderView {
        FitFileHeaderView {
            header_size: self.header_size,
            protocol_version: self.protocol_version,
            profile_version: self.profile_version,
            data_size: self.data_size,
            data_type: self.data_type@,
            crc: self.crc,
        }
    }
}

/// The four bytes at offset 8 that mark a file as a FIT file: the ASCII text `.FIT`.
pub open spec fn data_type_bytes() -> Seq<u8> {
    seq![0x2Eu8, 0x46u8, 0x49u8, 0x54u8]
}

/// The text of the `data_type` field of every valid header.
pub open spec fn data_type_text() -> Seq<char> {
    seq!['.', 'F', 'I', 'T']
}

impl FitFileHeaderView {
    /// What holds of every header that decoding hands out.
    pub open spec fn wf(self) -> bool {
        &&& self.header_size >= MIN_HEADER_SIZE
        &&& self.data_type == data_type_text()
        &&& self.crc is Some <==> self.header_size >= CRC_HEADER_SIZE
    }
}

/// The header that the buffer `bytes` starts with, or the reason it has none.
///
/// The checks are made in the order of the fields, and the first that fails decides the
/// error; its offset is that of the offending field, or the length of the buffer where
/// the buffer is too short.
pub open spec fn header_of(bytes: Seq<u8>) -> Result<FitFileHeaderView, FitError> {
    if bytes.len() == 0 {
        Err(FitError { kind: FitErrorKind::Truncated, offset: 0 })
    } else if bytes[0] < MIN_HEADER_SIZE {
        Err(FitError { kind: FitErrorKind::MalformedHeader, offset: 0 })
    } else if bytes.len() < bytes[0] {
        Err(FitError { kind: FitErrorKind::Truncated, offset: bytes.len() as usize })
    } else if bytes.subrange(8, 12) != data_type_bytes() {
        Err(FitError { kind: FitErrorKind::MalformedHeader, offset: 8 })
    } else if bytes[0] >= CRC_HEADER_SIZE && u16_le(bytes.subrange(12, 14)) != crc16(
        bytes.subrange(0, 12),
        0,
    ) {
        Err(FitError { kind: FitErrorKind::MalformedHeader, offset: 12 })
    } else {
        Ok(
            FitFileHeaderView {
                header_size: bytes[0],
                protocol_version: bytes[1],
                profile_version: u16_le(bytes.subrange(2, 4)),
                data_size: u32_le(bytes.subrange(4, 8)),
                data_type: data_type_text(),
                crc: if bytes[0] >= CRC_HEADER_SIZE {
                    Some(u16_le(bytes.subrange(12, 14)))
                } else {
                    None
                },
            },
        )
    }
}

impl FitFileHeader {
    /// Decodes and validates the header at the start of `fit_data`.
    pub fn from(fit_data: &[u8]) -> (result: Result<FitFileHeader, FitError>)
        ensures
            match header_of(fit_data@) {
                Ok(header) => result is Ok && result.unwrap()@ == header,
                Err(error) => result == Err::<FitFileHeader, FitError>(error),
            },
    {
        if fit_data.len() == 0 {
            return Err(FitError { kind: FitErrorKind::Truncated, offset: 0 });
        }
        let header_size: u8 = fit_data[0];
        if header_size < MIN_HEADER_SIZE {
            return Err(FitError { kind: FitErrorKind::MalformedHeader, offset: 0 });
        }
        if fit_data.len() < header_size as usize {
            return Err(FitError { kind: FitErrorKind::Truncated, offset: fit_data.len() });
        }
        let protocol_version: u8 = fit_data[1];
        let profile_version: u16 = read_u16_le(&fit_data[2..4]);
        let data_size: u32 = read_u32_le(&fit_data[4..8]);
        if fit_data[8] != 0x2E || fit_data[9] != 0x46 || fit_data[10] != 0x49 || fit_data[11]
            != 0x54 {
            assert(fit_data@.subrange(8, 12) != data_type_bytes()) by {
                let magic = fit_data@.subrange(8, 12);
                assert(magic[0] == fit_data@[8] && magic[1] == fit_data@[9] && magic[2]
                    == fit_data@[10] && magic[3] == fit_data@[11]);
            }
            return Err(FitError { kind: FitErrorKind::MalformedHeader, offset: 8 });
        }
        assert(fit_data@.subrange(8, 12) =~= data_type_bytes());
        let mut crc: Option<u16> = None;
        if header_size >= CRC_HEADER_SIZE {
            let crc_in_data: u16 = read_u16_le(&fit_data[12..14]);
            let calculated_crc: u16 = fit_crc(&fit_data[0..12], 0);
            if crc_in_data != calculated_crc {
                return Err(FitError { kind: FitErrorKind::MalformedHeader, offset: 12 });
            }
            crc = Some(crc_in_data);
        }
        let data_type = String::from_str(".FIT");
        proof {
            reveal_strlit(".FIT");
            assert(data_type@ =~= data_type_text());
        }
        Ok(
            FitFileHeader {
                header_size,
                protocol_version,
                profile_version,
                data_size,
                data_type,
                crc,
            },
        )
    }
}

/// Decodes and validates the header at the start of `fit_data`.
pub fn parse_fit_header_from_data(fit_data: &[u8]) -> (result: Result<FitFileHeader, FitError>)
    ensures
        match header_of(fit_data@) {
            Ok(header) => result is Ok && result.unwrap()@ == header,
            Err(error) => result == Err::<FitFileHeader, FitError>(error),
        },
{
    FitFileHeader::from(fit_data)
}

/// Every header that a buffer yields is well formed.
pub proof fn lemma_header_wf(bytes: Seq<u8>)
    ensures
        header_of(bytes) matches Ok(header) ==> header.wf(),
{
}

/// Where a buffer yields a header that carries a checksum, that checksum is the
/// checksum of the buffer's first twelve bytes.
pub proof fn lemma_header_crc(bytes: Seq<u8>)
    ensures
        header_of(bytes) matches Ok(header) ==> (header.header_size >= CRC_HEADER_SIZE
            ==> header.crc == Some(crc16(bytes.subrange(0, 12), 0))),
{
}

} // verus!
