//! Records: the one-byte record header, and the definition record that announces the
//! layout of the data records of one local message type.

use crate::base_type::{
    base_type_info, get_base_type_info, BaseType, BaseTypeInfo, BaseTypeInfoView,
};
use crate::byte_order::{read_u16_be, read_u16_le, u16_be, u16_le};
use crate::error::{FitError, FitErrorKind};
use vstd::prelude::*;

verus! {

/// The byte order of the multi-byte values of a record.
#[derive(Debug, Clone, Copy, PartialEq, Eq, Structural)]
pub enum Endianness {
    BigEndian,
    LittleEndian,
}

/// The header of a definition record.
#[derive(Debug, Clone, Copy, PartialEq, Eq, Structural)]
pub struct NormalDefinitionHeader {
    pub contains_extended_definitions: bool,
    pub local_message_type: u8,
}

/// The header of a data record.
#[derive(Debug, Clone, Copy, PartialEq, Eq, Structural)]
pub struct NormalDataHeader {
    pub local_message_type: u8,
}

/// The header of a data record that carries a five-bit time offset in place of a
/// timestamp field.
#[derive(Debug, Clone, Copy, PartialEq, Eq, Structural)]
pub struct CompressedTimestampHeader {
    pub local_message_type: u8,
    pub time_offset: u8,
}

/// The three forms that the first byte of a record can take.
#[derive(Debug, Clone, Copy, PartialEq, Eq, Structural)]
pub enum RecordHeader {
    NormalDefinition(NormalDefinitionHeader),
    NormalData(NormalDataHeader),
    CompressedTimestamp(CompressedTimestampHeader),
}

/// The kind of record that a record header announces.
#[derive(Debug, Clone, Copy, PartialEq, Eq, Structural)]
pub enum RecordMessageType {
    Definition,
    Data,
    DataCompressedTimestamp,
}

impl RecordHeader {
    /// The kind of record that this header announces.
    pub open spec fn spec_record_message_type(&self) -> RecordMessageType {
        match self {
            RecordHeader::NormalDefinition(_) => RecordMessageType::Definition,
            RecordHeader::NormalData(_) => RecordMessageType::Data,
            RecordHeader::CompressedTimestamp(_) => RecordMessageType::DataCompressedTimestamp,
        }
    }

    /// The local message type that this header addresses.
    pub open spec fn spec_local_message_type(&self) -> u8 {
        match self {
            RecordHeader::NormalDefinition(header) => header.local_message_type,
            RecordHeader::NormalData(header) => header.local_message_type,
            RecordHeader::CompressedTimestamp(header) => header.local_message_type,
        }
    }

    /// The kind of record that this header announces.
    #[verifier::when_used_as_spec(spec_record_message_type)]
    pub fn get_record_message_type(&self) -> (kind: RecordMessageType)
        ensures
            kind == self.spec_record_message_type(),
    {
        match self {
            RecordHeader::NormalDefinition(_) => RecordMessageType::Definition,
            RecordHeader::NormalData(_) => RecordMessageType::Data,
            RecordHeader::CompressedTimestamp(_) => RecordMessageType::DataCompressedTimestamp,
        }
    }

    /// The local message type that this header addresses.
    #[verifier::when_used_as_spec(spec_local_message_type)]
    pub fn local_message_type(&self) -> (slot: u8)
        ensures
            slot == self.spec_local_message_type(),
    {
        match self {
            RecordHeader::NormalDefinition(header) => header.local_message_type,
            RecordHeader::NormalData(header) => header.local_message_type,
            RecordHeader::CompressedTimestamp(header) => header.local_message_type,
        }
    }
}

/// The record header that the byte `b` encodes.
///
/// Bit 7 marks a compressed-timestamp header, whose local message type is the two bits
/// below it and whose time offset is the low five bits. Otherwise bit 6 tells a
/// definition from a data record, bit 5 of a definition says whether developer fields
/// follow, and the low four bits are the local message type.
pub open spec fn record_header_of(b: u8) -> RecordHeader {
    if b & 0x80 != 0 {
        RecordHeader::CompressedTimestamp(
            CompressedTimestampHeader {
                local_message_type: (b >> 5) & 0x03,
                time_offset: b & 0x1F,
            },
        )
    } else if b & 0x40 != 0 {
        RecordHeader::NormalDefinition(
            NormalDefinitionHeader {
                contains_extended_definitions: b & 0x20 != 0,
                local_message_type: b & 0x0F,
            },
        )
    } else {
        RecordHeader::NormalData(NormalDataHeader { local_message_type: b & 0x0F })
    }
}

/// Classifies the first byte of a record.
pub fn parse_record_header(b: u8) -> (header: RecordHeader)
    ensures
        header == record_header_of(b),
        b >= 0x80 <==> header is CompressedTimestamp,
        0x40 <= b < 0x80 <==> header is NormalDefinition,
        b < 0x40 <==> header is NormalData,
{
    proof {
        lemma_record_header_partition(b);
    }
    if b & 0x80 != 0 {
        let local_message_type: u8 = (b >> 5) & 0x03;
        let time_offset: u8 = b & 0x1F;
        return RecordHeader::CompressedTimestamp(
            CompressedTimestampHeader { local_message_type, time_offset },
        );
    }
    if b & 0x40 != 0 {
        let contains_extended_definitions = b & 0x20 != 0;
        let local_message_type: u8 = b & 0x0F;
        RecordHeader::NormalDefinition(
            NormalDefinitionHeader { contains_extended_definitions, local_message_type },
        )
    } else {
        let local_message_type: u8 = b & 0x0F;
        RecordHeader::NormalData(NormalDataHeader { local_message_type })
    }
}

/// Every byte is a record header of exactly one of the three forms, and the form is
/// decided by the range the byte lies in: from `0x80` on a compressed-timestamp header,
/// from `0x40` to `0x7F` a definition header, below `0x40` a data header.
pub proof fn lemma_record_header_partition(b: u8)
    ensures
        b >= 0x80 <==> record_header_of(b) is CompressedTimestamp,
        0x40 <= b < 0x80 <==> record_header_of(b) is NormalDefinition,
        b < 0x40 <==> record_header_of(b) is NormalData,
{
    assert(b >= 0x80 <==> b & 0x80 != 0) by (bit_vector);
    assert(b < 0x80 ==> (b >= 0x40 <==> b & 0x40 != 0)) by (bit_vector);
}

/// What the fields of a record header hold, in terms of plain arithmetic on the byte:
/// a compressed-timestamp header addresses one of the first four local message types
/// and offsets the time by less than thirty-two; the other headers address one of
/// sixteen local message types.
pub proof fn lemma_record_header_fields(b: u8)
    ensures
        match record_header_of(b) {
            RecordHeader::CompressedTimestamp(header) => {
                &&& header.local_message_type == (b as int / 32) % 4
                &&& header.time_offset == b as int % 32
            },
            RecordHeader::NormalDefinition(header) => {
                &&& header.local_message_type == b as int % 16
                &&& header.contains_extended_definitions == ((b as int / 32) % 2 == 1)
            },
            RecordHeader::NormalData(header) => header.local_message_type == b as int % 16,
        },
{
    assert((b >> 5) & 0x03 == (b / 32) % 4) by (bit_vector);
    assert(b & 0x1F == b % 32) by (bit_vector);
    assert(b & 0x0F == b % 16) by (bit_vector);
    assert((b & 0x20 != 0) == ((b / 32) % 2 == 1)) by (bit_vector);
}

/// The layout of one field of a data record, as a definition record declares it.
#[derive(Debug, Clone, PartialEq)]
pub struct FieldDefinition {
    pub field_definition_number: u8,
    pub field_size: u8,
    pub base_type: BaseTypeInfo,
}

/// The mathematical content of a [`FieldDefinition`].
pub struct FieldDefinitionView {
    pub field_definition_number: u8,
    pub field_size: u8,
    pub base_type: BaseTypeInfoView,
}

impl View for FieldDefinition {
    type V = FieldDefinitionView;

    open spec fn view(&self) -> FieldDefinitionView {
        FieldDefinitionView {
            field_definition_number: self.field_definition_number,
            field_size: self.field_size,
            base_type: self.base_type@,
        }
    }
}

impl DeepView for FieldDefinition {
    type V = FieldDefinitionView;

    open spec fn deep_view(&self) -> FieldDefinitionView {
        self@
    }
}

impl FieldDefinitionView {
    /// The base type is described as the profile has it, and the field holds a whole,
    /// positive number of its elements.
    pub open spec fn wf(self) -> bool {
        &&& self.base_type.wf()
        &&& self.field_size > 0
        &&& self.field_size % self.base_type.size == 0
    }

    /// The number of elements of the base type that the field holds.
    pub open spec fn element_count(self) -> int {
        self.field_size as int / self.base_type.size as int
    }
}

/// The layout of one developer field of a data record.
#[derive(Debug, Clone, Copy, PartialEq, Eq, Structural)]
pub struct DeveloperFieldDefinition {
    pub field_number: u8,
    pub field_size: u8,
    pub developer_data_index: u8,
}

/// What a definition record says of the data records of its local message type.
#[derive(Debug, Clone, PartialEq)]
pub struct DefinitionRecord {
    pub header: NormalDefinitionHeader,
    pub architecture: Endianness,
    pub global_message_number: u16,
    pub field_definitions: Vec<FieldDefinition>,
    pub developer_field_definitions: Vec<DeveloperFieldDefinition>,
}

/// The mathematical content of a [`DefinitionRecord`].
pub struct DefinitionRecordView {
    pub header: NormalDefinitionHeader,
    pub architecture: Endianness,
    pub global_message_number: u16,
    pub field_definitions: Seq<FieldDefinitionView>,
    pub developer_field_definitions: Seq<DeveloperFieldDefinition>,
}

impl View for DefinitionRecord {
    type V = DefinitionRecordView;

    open spec fn view(&self) -> DefinitionRecordView {
        DefinitionRecordView {
            header: self.header,
            architecture: self.architecture,
            global_message_number: self.global_message_number,
            field_definitions: self.field_definitions.deep_view(),
            developer_field_definitions: self.developer_field_definitions@,
        }
    }
}

impl DeepView for DefinitionRecord {
    type V = DefinitionRecordView;

    open spec fn deep_view(&self) -> DefinitionRecordView {
        self@
    }
}

impl DefinitionRecordView {
    /// Every field is well formed, and developer fields are there only where the header
    /// announced them.
    pub open spec fn wf(self) -> bool {
        &&& forall|i: int|
            0 <= i < self.field_definitions.len() ==> (#[trigger] self.field_definitions[i]).wf()
        &&& !self.header.contains_extended_definitions
            ==> self.developer_field_definitions.len() == 0
    }
}

impl FieldDefinition {
    /// A copy of this field layout.
    pub fn duplicate(&self) -> (copy: FieldDefinition)
        ensures
            copy@ == self@,
    {
        FieldDefinition {
            field_definition_number: self.field_definition_number,
            field_size: self.field_size,
            base_type: self.base_type.duplicate(),
        }
    }
}

impl DefinitionRecord {
    /// A copy of this definition.
    pub fn duplicate(&self) -> (copy: DefinitionRecord)
        ensures
            copy@ == self@,
    {
        let mut fields: Vec<FieldDefinition> = Vec::new();
        let mut i: usize = 0;
        while i < self.field_definitions.len()
            invariant
                i <= self.field_definitions.len(),
                fields.deep_view() =~= self.field_definitions.deep_view().take(i as int),
            decreases self.field_definitions.len() - i,
        {
            let field = self.field_definitions[i].duplicate();
            let ghost before = fields.deep_view();
            fields.push(field);
            assert(fields.deep_view() =~= before.push(field@));
            i += 1;
        }
        assert(self.field_definitions.deep_view().take(self.field_definitions.len() as int)
            =~= self.field_definitions.deep_view());
        let mut developer_fields: Vec<DeveloperFieldDefinition> = Vec::new();
        let mut i: usize = 0;
        while i < self.developer_field_definitions.len()
            invariant
                i <= self.developer_field_definitions.len(),
                developer_fields@ =~= self.developer_field_definitions@.take(i as int),
            decreases self.developer_field_definitions.len() - i,
        {
            developer_fields.push(self.developer_field_definitions[i]);
            i += 1;
        }
        assert(self.developer_field_definitions@.take(
            self.developer_field_definitions.len() as int,
        ) =~= self.developer_field_definitions@);
        DefinitionRecord {
            header: self.header,
            architecture: self.architecture,
            global_message_number: self.global_message_number,
            field_definitions: fields,
            developer_field_definitions: developer_fields,
        }
    }
}

/// The number of bytes of a definition record that come before its field entries: the
/// reserved byte, the architecture, the global message number and the field count.
pub const DEFINITION_FIXED_SIZE: usize = 5;

/// The number of bytes of one field entry, and of one developer field entry.
pub const FIELD_ENTRY_SIZE: usize = 3;

/// The error of a buffer of `len` bytes that ends too early.
pub open spec fn truncated(len: nat) -> FitError {
    FitError { kind: FitErrorKind::Truncated, offset: len as usize }
}

/// The error of a field entry at `offset` that breaks the rules of definition records.
pub open spec fn malformed_definition(offset: int) -> FitError {
    FitError { kind: FitErrorKind::MalformedDefinition, offset: offset as usize }
}

/// The field that the three bytes at `offset` declare: definition number, size and base
/// type code. The base type must be known and the size a positive multiple of the base
/// type's size.
pub open spec fn field_definition_at(data: Seq<u8>, offset: int) -> Result<
    FieldDefinitionView,
    FitError,
> {
    if data.len() < offset + FIELD_ENTRY_SIZE {
        Err(truncated(data.len()))
    } else {
        match BaseType::spec_from_code(data[offset + 2]) {
            None => Err(malformed_definition(offset)),
            Some(base_type) => if data[offset + 1] == 0 || data[offset + 1]
                % base_type.spec_size() != 0 {
                Err(malformed_definition(offset))
            } else {
                Ok(
                    FieldDefinitionView {
                        field_definition_number: data[offset],
                        field_size: data[offset + 1],
                        base_type: base_type_info(base_type),
                    },
                )
            },
        }
    }
}

/// The first `count` fields of the entries that start at `base`, or the error of the
/// first entry among them that has one.
pub open spec fn field_definitions_at(data: Seq<u8>, base: int, count: nat) -> Result<
    Seq<FieldDefinitionView>,
    FitError,
>
    decreases count,
{
    if count == 0 {
        Ok(Seq::empty())
    } else {
        match field_definitions_at(data, base, (count - 1) as nat) {
            Err(error) => Err(error),
            Ok(fields) => match field_definition_at(
                data,
                base + FIELD_ENTRY_SIZE * (count - 1),
            ) {
                Err(error) => Err(error),
                Ok(field) => Ok(fields.push(field)),
            },
        }
    }
}

/// The developer field that the three bytes at `offset` declare.
pub open spec fn developer_field_at(data: Seq<u8>, offset: int) -> DeveloperFieldDefinition {
    DeveloperFieldDefinition {
        field_number: data[offset],
        field_size: data[offset + 1],
        developer_data_index: data[offset + 2],
    }
}

/// The developer fields of a definition record whose field entries end at `offset`, and
/// the offset at which the record ends. Without the developer flag in the header there
/// are none, and nothing is read.
pub open spec fn developer_fields_at(data: Seq<u8>, extended: bool, offset: int) -> Result<
    (Seq<DeveloperFieldDefinition>, int),
    FitError,
> {
    if !extended {
        Ok((Seq::empty(), offset))
    } else if data.len() < offset + 1 {
        Err(truncated(data.len()))
    } else if data.len() < offset + 1 + FIELD_ENTRY_SIZE * data[offset] {
        Err(truncated(data.len()))
    } else {
        Ok(
            (
                Seq::new(
                    data[offset] as nat,
                    |i: int| developer_field_at(data, offset + 1 + FIELD_ENTRY_SIZE * i),
                ),
                offset + 1 + FIELD_ENTRY_SIZE * data[offset],
            ),
        )
    }
}

/// The byte order that the architecture byte of a definition record declares.
pub open spec fn architecture_of(byte: u8) -> Endianness {
    if byte == 0 {
        Endianness::LittleEndian
    } else {
        Endianness::BigEndian
    }
}

/// The definition record whose body starts at `start`, the byte after the record header
/// `header`, together with the offset of the byte after the record; or the first error
/// met on the way through it.
pub open spec fn definition_record_at(
    data: Seq<u8>,
    header: NormalDefinitionHeader,
    start: int,
) -> Result<(DefinitionRecordView, int), FitError> {
    if data.len() < start + DEFINITION_FIXED_SIZE {
        Err(truncated(data.len()))
    } else {
        let architecture = architecture_of(data[start + 1]);
        let number = data.subrange(start + 2, start + 4);
        let field_count = data[start + 4] as nat;
        let entries = start + DEFINITION_FIXED_SIZE;
        match field_definitions_at(data, entries, field_count) {
            Err(error) => Err(error),
            Ok(fields) => match developer_fields_at(
                data,
                header.contains_extended_definitions,
                entries + FIELD_ENTRY_SIZE * field_count,
            ) {
                Err(error) => Err(error),
                Ok((developer_fields, end)) => Ok(
                    (
                        DefinitionRecordView {
                            header,
                            architecture,
                            global_message_number: match architecture {
                                Endianness::LittleEndian => u16_le(number),
                                Endianness::BigEndian => u16_be(number),
                            },
                            field_definitions: fields,
                            developer_field_definitions: developer_fields,
                        },
                        end,
                    ),
                ),
            },
        }
    }
}

/// The fields that a definition record declares are its entries in order: as many as
/// were asked for, each read from its own three bytes.
pub proof fn lemma_field_definitions_at(data: Seq<u8>, base: int, count: nat)
    ensures
        field_definitions_at(data, base, count) matches Ok(fields) ==> {
            &&& fields.len() == count
            &&& forall|i: int|
                0 <= i < count ==> field_definition_at(data, base + FIELD_ENTRY_SIZE * i) == Ok::<
                    FieldDefinitionView,
                    FitError,
                >(#[trigger] fields[i])
        },
        field_definitions_at(data, base, count) matches Err(error) ==> exists|i: int|
            0 <= i < count && #[trigger] field_definition_at(data, base + FIELD_ENTRY_SIZE * i)
                == Err::<FieldDefinitionView, FitError>(error),
    decreases count,
{
    if count > 0 {
        lemma_field_definitions_at(data, base, (count - 1) as nat);
        let last = base + FIELD_ENTRY_SIZE * (count - 1);
        match field_definitions_at(data, base, (count - 1) as nat) {
            Err(error) => {},
            Ok(fields) => {
                match field_definition_at(data, last) {
                    Err(error) => {
                        assert(field_definition_at(data, base + FIELD_ENTRY_SIZE * (count - 1))
                            == Err::<FieldDefinitionView, FitError>(error));
                    },
                    Ok(field) => {},
                }
            },
        }
    }
}

/// Every field of a definition record holds a whole, positive number of elements of its
/// base type, and the record has developer fields only where its header announced them.
pub proof fn lemma_definition_record_wf(
    data: Seq<u8>,
    header: NormalDefinitionHeader,
    start: int,
)
    ensures
        definition_record_at(data, header, start) matches Ok((record, end)) ==> record.wf(),
{
    if let Ok((record, end)) = definition_record_at(data, header, start) {
        let entries = start + DEFINITION_FIXED_SIZE;
        lemma_field_definitions_at(data, entries, data[start + 4] as nat);
        assert forall|i: int| 0 <= i < record.field_definitions.len() implies (
        #[trigger] record.field_definitions[i]).wf() by {
            assert(field_definition_at(data, entries + FIELD_ENTRY_SIZE * i) == Ok::<
                FieldDefinitionView,
                FitError,
            >(record.field_definitions[i]));
        }
    }
}

/// Field entries that can be read lie within the buffer.
proof fn lemma_field_definitions_within(data: Seq<u8>, base: int, count: nat)
    ensures
        field_definitions_at(data, base, count) is Ok && count > 0 ==> base + FIELD_ENTRY_SIZE
            * count <= data.len(),
    decreases count,
{
    if count > 0 {
        lemma_field_definitions_within(data, base, (count - 1) as nat);
    }
}

/// A definition record takes at least its five fixed bytes, and lies within the buffer.
pub proof fn lemma_definition_record_bounds(
    data: Seq<u8>,
    header: NormalDefinitionHeader,
    start: int,
)
    ensures
        definition_record_at(data, header, start) matches Ok((record, end)) ==> start
            + DEFINITION_FIXED_SIZE <= end <= data.len(),
{
    if data.len() >= start + DEFINITION_FIXED_SIZE {
        lemma_field_definitions_within(
            data,
            start + DEFINITION_FIXED_SIZE,
            data[start + 4] as nat,
        );
    }
}

/// Once an entry has an error, reading more entries ends in that same error.
proof fn lemma_field_error_persists(data: Seq<u8>, base: int, failed: nat, count: nat)
    requires
        failed <= count,
        field_definitions_at(data, base, failed) is Err,
    ensures
        field_definitions_at(data, base, count) == field_definitions_at(data, base, failed),
    decreases count,
{
    if count > failed {
        lemma_field_error_persists(data, base, failed, (count - 1) as nat);
    }
}

/// Decodes the definition record whose body starts at `data_start_offset`, the byte
/// after the record header `header`. Returns the record and the offset of the byte
/// after it.
pub fn parse_definition_record(
    data: &[u8],
    header: NormalDefinitionHeader,
    data_start_offset: usize,
) -> (result: Result<(DefinitionRecord, usize), FitError>)
    ensures
        match definition_record_at(data@, header, data_start_offset as int) {
            Ok((record, end)) => result matches Ok((parsed, next)) && parsed@ == record && next
                == end,
            Err(error) => result == Err::<(DefinitionRecord, usize), FitError>(error),
        },
        result matches Ok((parsed, next)) ==> parsed@.wf() && data_start_offset
            + DEFINITION_FIXED_SIZE <= next <= data.len(),
{
    let len = data.len();
    if len < DEFINITION_FIXED_SIZE || data_start_offset > len - DEFINITION_FIXED_SIZE {
        return Err(FitError { kind: FitErrorKind::Truncated, offset: len });
    }
    let architecture = if data[data_start_offset + 1] > 0 {
        Endianness::BigEndian
    } else {
        Endianness::LittleEndian
    };
    let number = &data[data_start_offset + 2..data_start_offset + 4];
    let global_message_number: u16 = match architecture {
        Endianness::LittleEndian => read_u16_le(number),
        Endianness::BigEndian => read_u16_be(number),
    };
    let number_of_fields: u8 = data[data_start_offset + 4];
    let entries: usize = data_start_offset + DEFINITION_FIXED_SIZE;
    let mut curr_idx: usize = entries;
    let mut fields: Vec<FieldDefinition> = Vec::new();
    let mut read: u8 = 0;
    assert(fields.deep_view() =~= Seq::empty());
    while read < number_of_fields
        invariant
            len == data.len(),
            entries == data_start_offset + DEFINITION_FIXED_SIZE,
            entries <= len,
            number_of_fields == data@[data_start_offset + 4],
            read <= number_of_fields,
            curr_idx == entries + FIELD_ENTRY_SIZE * read,
            curr_idx <= len,
            field_definitions_at(data@, entries as int, read as nat) == Ok::<
                Seq<FieldDefinitionView>,
                FitError,
            >(fields.deep_view()),
        decreases number_of_fields - read,
    {
        let ghost done = field_definitions_at(data@, entries as int, (read + 1) as nat);
        let ghost all = field_definitions_at(data@, entries as int, number_of_fields as nat);
        if len - curr_idx < FIELD_ENTRY_SIZE {
            proof {
                lemma_field_error_persists(
                    data@,
                    entries as int,
                    (read + 1) as nat,
                    number_of_fields as nat,
                );
            }
            return Err(FitError { kind: FitErrorKind::Truncated, offset: len });
        }
        let field_definition_number: u8 = data[curr_idx];
        let size: u8 = data[curr_idx + 1];
        let base_type = match get_base_type_info(data[curr_idx + 2]) {
            Some(base_type) => base_type,
            None => {
                proof {
                    lemma_field_error_persists(
                        data@,
                        entries as int,
                        (read + 1) as nat,
                        number_of_fields as nat,
                    );
                }
                return Err(FitError { kind: FitErrorKind::MalformedDefinition, offset: curr_idx });
            },
        };
        if size == 0 || size % base_type.size != 0 {
            proof {
                lemma_field_error_persists(
                    data@,
                    entries as int,
                    (read + 1) as nat,
                    number_of_fields as nat,
                );
            }
            return Err(FitError { kind: FitErrorKind::MalformedDefinition, offset: curr_idx });
        }
        let ghost before = fields.deep_view();
        let field = FieldDefinition { field_definition_number, field_size: size, base_type };
        fields.push(field);
        assert(fields.deep_view() =~= before.push(field@));
        curr_idx += FIELD_ENTRY_SIZE;
        read += 1;
    }
    let mut developer_fields: Vec<DeveloperFieldDefinition> = Vec::new();
    if header.contains_extended_definitions {
        if len - curr_idx < 1 {
            return Err(FitError { kind: FitErrorKind::Truncated, offset: len });
        }
        let number_of_developer_fields: u8 = data[curr_idx];
        let first: usize = curr_idx + 1;
        if (len - first) / FIELD_ENTRY_SIZE < number_of_developer_fields as usize {
            return Err(FitError { kind: FitErrorKind::Truncated, offset: len });
        }
        curr_idx = first;
        let mut read: u8 = 0;
        while read < number_of_developer_fields
            invariant
                len == data.len(),
                read <= number_of_developer_fields,
                first + FIELD_ENTRY_SIZE * number_of_developer_fields <= len,
                curr_idx == first + FIELD_ENTRY_SIZE * read,
                developer_fields@ =~= Seq::new(
                    read as nat,
                    |i: int| developer_field_at(data@, first + FIELD_ENTRY_SIZE * i),
                ),
            decreases number_of_developer_fields - read,
        {
            developer_fields.push(
                DeveloperFieldDefinition {
                    field_number: data[curr_idx],
                    field_size: data[curr_idx + 1],
                    developer_data_index: data[curr_idx + 2],
                },
            );
            curr_idx += FIELD_ENTRY_SIZE;
            read += 1;
        }
    }
    proof {
        lemma_definition_record_wf(data@, header, data_start_offset as int);
    }
    let record = DefinitionRecord {
        header,
        architecture,
        global_message_number,
        field_definitions: fields,
        developer_field_definitions: developer_fields,
    };
    Ok((record, curr_idx))
}

} // verus!
