//! The stream driver: the file as a whole, from its header over its records to the
//! checksum that trails them.

use crate::byte_order::{read_u16_le, u16_le};
use crate::crc::{crc16, fit_crc};
use crate::developer::{DeveloperCatalog, DeveloperCatalogView};
use crate::error::{FitError, FitErrorKind};
use crate::fit_data::{
    data_record_at, decode_data_record, find_field_value, u32_of_value, value_of_field,
    ResolvedValue, ResolvedValueView,
};
use crate::fit_header::{header_of, parse_fit_header_from_data, FitFileHeader, FitFileHeaderView};
use crate::fit_records::{
    definition_record_at, parse_definition_record, parse_record_header, record_header_of,
    truncated, DefinitionRecord, DefinitionRecordView, NormalDefinitionHeader, RecordHeader,
};
use crate::profile::{resolve_values, Profile, ProfileView};
use vstd::prelude::*;

verus! {

/// The number of local message types that a file can define at a time.
pub const LOCAL_MESSAGE_TYPES: usize = 16;

/// The definition number of the field that holds the timestamp of a record.
pub const TIMESTAMP_FIELD: u8 = 253;

/// One record of a file, decoded.
#[derive(Debug, Clone, PartialEq)]
pub enum DecodedRecord {
    /// A definition record.
    Definition(DefinitionRecord),
    /// A data record with a normal header.
    Data { global_message_number: u16, values: Vec<ResolvedValue> },
    /// A data record with a compressed-timestamp header. It has no timestamp as long as
    /// no earlier record has given the time.
    CompressedTimestampData {
        global_message_number: u16,
        absolute_timestamp: Option<u32>,
        values: Vec<ResolvedValue>,
    },
}

/// The mathematical content of a [`DecodedRecord`].
pub enum DecodedRecordView {
    Definition(DefinitionRecordView),
    Data { global_message_number: u16, values: Seq<ResolvedValueView> },
    CompressedTimestampData {
        global_message_number: u16,
        absolute_timestamp: Option<u32>,
        values: Seq<ResolvedValueView>,
    },
}

impl View for DecodedRecord {
    type V = DecodedRecordView;

    open spec fn view(&self) -> DecodedRecordView {
        match self {
            DecodedRecord::Definition(definition) => DecodedRecordView::Definition(definition@),
            DecodedRecord::Data { global_message_number, values } => DecodedRecordView::Data {
                global_message_number: *global_message_number,
                values: values.deep_view(),
            },
            DecodedRecord::CompressedTimestampData {
                global_message_number,
                absolute_timestamp,
                values,
            } => DecodedRecordView::CompressedTimestampData {
                global_message_number: *global_message_number,
                absolute_timestamp: *absolute_timestamp,
                values: values.deep_view(),
            },
        }
    }
}

impl DeepView for DecodedRecord {
    type V = DecodedRecordView;

    open spec fn deep_view(&self) -> DecodedRecordView {
        self@
    }
}

/// The time of a compressed-timestamp record with the time offset `time_offset`, where
/// `reference` is the time of the record before it: the first time from `reference` on
/// whose low five bits are the time offset. Time is counted in 32 bits and wraps
/// around.
pub open spec fn advance_timestamp(reference: u32, time_offset: u8) -> u32 {
    ((reference + (time_offset - reference % 32) % 32) % 0x1_0000_0000) as u32
}

/// A number that is `r` more than a multiple of `m` leaves the remainder `r`.
proof fn lemma_remainder(x: int, m: int, q: int, r: int)
    requires
        m > 0,
        x == m * q + r,
        0 <= r < m,
    ensures
        x % m == r,
{
    assert(x == q * m + r) by (nonlinear_arith)
        requires
            x == m * q + r,
    ;
    vstd::arithmetic::div_mod::lemma_fundamental_div_mod_converse(x, m, q, r);
}

/// The time of a compressed-timestamp record lies less than thirty-two ticks after
/// the reference, and its low five bits are the time offset. Where the offset is
/// below the low five bits of the reference, those bits have wrapped around once.
pub proof fn lemma_advance_timestamp(reference: u32, time_offset: u8)
    requires
        time_offset < 32,
    ensures
        advance_timestamp(reference, time_offset) % 32 == time_offset,
        reference + 31 <= u32::MAX ==> reference <= advance_timestamp(reference, time_offset)
            < reference + 32,
        time_offset >= reference % 32 ==> advance_timestamp(reference, time_offset) == (reference
            - reference % 32 + time_offset) % 0x1_0000_0000,
        time_offset < reference % 32 ==> advance_timestamp(reference, time_offset) == (reference
            - reference % 32 + 32 + time_offset) % 0x1_0000_0000,
{
    let low: int = reference as int % 32;
    let q: int = reference as int / 32;
    let wrapped: int = if time_offset >= low {
        0
    } else {
        1
    };
    let delta: int = time_offset - low + 32 * wrapped;
    lemma_remainder(time_offset - low, 32, -wrapped, delta);
    let sum: int = reference + delta;
    assert(sum == 32 * (q + wrapped) + time_offset);
    let over: int = if sum >= 0x1_0000_0000 {
        1
    } else {
        0
    };
    let time: int = sum - 0x1_0000_0000 * over;
    lemma_remainder(sum, 0x1_0000_0000, over, time);
    assert(advance_timestamp(reference, time_offset) == time);
    assert(time == 32 * (q + wrapped - 0x800_0000 * over) + time_offset);
    lemma_remainder(time, 32, q + wrapped - 0x800_0000 * over, time_offset as int);
}

/// Computes the time of a compressed-timestamp record from the time of the record
/// before it.
pub fn compressed_timestamp(reference: u32, time_offset: u8) -> (timestamp: u32)
    ensures
        timestamp == advance_timestamp(reference, time_offset),
{
    let low: u32 = reference % 32;
    let offset: u32 = (time_offset % 32) as u32;
    let delta: u32 = if offset >= low {
        offset - low
    } else {
        offset + 32 - low
    };
    proof {
        let turns: int = if offset >= low {
            time_offset as int / 32
        } else {
            time_offset as int / 32 - 1
        };
        lemma_remainder(time_offset - low, 32, turns, delta as int);
    }
    ((reference as u64 + delta as u64) % 0x1_0000_0000) as u32
}

/// The time that a data record gives: that of the value of its first field with the
/// definition number of timestamps, an unsigned number of at most 32 bits.
pub open spec fn record_timestamp(
    definition: DefinitionRecordView,
    values: Seq<ResolvedValueView>,
) -> Option<u32> {
    match value_of_field(definition, values, TIMESTAMP_FIELD) {
        Some(value) => u32_of_value(value),
        None => None,
    }
}

/// Finds the time that a data record gives.
pub fn find_record_timestamp(definition: &DefinitionRecord, values: &Vec<ResolvedValue>) -> (time:
    Option<u32>)
    ensures
        time == record_timestamp(definition@, values.deep_view()),
{
    match find_field_value(definition, values, TIMESTAMP_FIELD) {
        Some(value) => value.as_u32(),
        None => None,
    }
}

/// The definitions that are in force: for each local message type the definition that
/// was given last, if any was given.
pub struct LocalTable {
    pub slots: Vec<Option<DefinitionRecord>>,
}

impl View for LocalTable {
    type V = Seq<Option<DefinitionRecordView>>;

    open spec fn view(&self) -> Seq<Option<DefinitionRecordView>> {
        self.slots.deep_view()
    }
}

/// Whether `table` has a slot for each local message type, and holds well-formed
/// definitions only.
pub open spec fn table_wf(table: Seq<Option<DefinitionRecordView>>) -> bool {
    &&& table.len() == LOCAL_MESSAGE_TYPES
    &&& forall|slot: int|
        0 <= slot < table.len() ==> ((#[trigger] table[slot]) matches Some(definition)
            ==> definition.wf())
}

/// The table of a file of which no record has been read: no definition is in force.
pub open spec fn empty_table() -> Seq<Option<DefinitionRecordView>> {
    Seq::new(LOCAL_MESSAGE_TYPES as nat, |slot: int| None)
}

impl LocalTable {
    /// The table of a file of which no record has been read.
    pub fn new() -> (table: LocalTable)
        ensures
            table@ == empty_table(),
            table_wf(table@),
    {
        let mut slots: Vec<Option<DefinitionRecord>> = Vec::new();
        let mut i: usize = 0;
        while i < LOCAL_MESSAGE_TYPES
            invariant
                i <= LOCAL_MESSAGE_TYPES,
                slots.deep_view() =~= Seq::new(i as nat, |slot: int| None),
            decreases LOCAL_MESSAGE_TYPES - i,
        {
            let ghost before = slots.deep_view();
            slots.push(None);
            assert(slots.deep_view() =~= before.push(None));
            i += 1;
        }
        LocalTable { slots }
    }

    /// Puts `definition` in force for the local message type `slot`, in place of the
    /// definition that was in force for it.
    pub fn define(&mut self, slot: u8, definition: DefinitionRecord)
        requires
            table_wf(old(self)@),
            definition@.wf(),
            slot < LOCAL_MESSAGE_TYPES,
        ensures
            final(self)@ == old(self)@.update(slot as int, Some(definition@)),
            table_wf(final(self)@),
    {
        let ghost before = self@;
        self.slots.set(slot as usize, Some(definition));
        assert(self@ =~= before.update(slot as int, Some(definition@)));
    }

    /// The definition that is in force for the local message type `slot`.
    pub fn lookup(&self, slot: u8) -> (definition: Option<&DefinitionRecord>)
        requires
            table_wf(self@),
            slot < LOCAL_MESSAGE_TYPES,
        ensures
            definition.deep_view() == self@[slot as int],
            definition matches Some(found) ==> found@.wf(),
    {
        assert(self@[slot as int] == self.slots[slot as int].deep_view());
        self.slots[slot as usize].as_ref()
    }
}

/// How far the decoding of the records has come.
pub struct StreamState {
    /// The offset of the next record.
    pub cursor: int,
    /// The definitions that are in force.
    pub table: Seq<Option<DefinitionRecordView>>,
    /// What the file has said of its developer fields.
    pub catalog: DeveloperCatalogView,
    /// The time of the last record that gave one.
    pub reference_timestamp: Option<u32>,
    /// The records decoded so far.
    pub records: Seq<DecodedRecordView>,
}

impl StreamState {
    /// The state before the first record, which starts at `cursor`.
    pub open spec fn initial(cursor: int) -> StreamState {
        StreamState {
            cursor,
            table: empty_table(),
            catalog: DeveloperCatalogView::empty(),
            reference_timestamp: None,
            records: Seq::empty(),
        }
    }

    /// Whether the state can come up in the decoding of `data`.
    pub open spec fn wf(self, data: Seq<u8>) -> bool {
        &&& 0 <= self.cursor <= data.len()
        &&& table_wf(self.table)
    }
}

/// The error of a data record at `cursor` whose local message type has no definition.
pub open spec fn unknown_local_message_type(cursor: int) -> FitError {
    FitError { kind: FitErrorKind::UnknownLocalMessageType, offset: cursor as usize }
}

/// The state after the definition record at the cursor of `state`, whose header is
/// `header`: the definition comes into force for its local message type, in place of
/// the definition that was in force for it.
pub open spec fn definition_step(
    data: Seq<u8>,
    state: StreamState,
    header: NormalDefinitionHeader,
) -> Result<StreamState, FitError> {
    match definition_record_at(data, header, state.cursor + 1) {
        Err(error) => Err(error),
        Ok((definition, end)) => Ok(
            StreamState {
                cursor: end,
                table: state.table.update(header.local_message_type as int, Some(definition)),
                records: state.records.push(DecodedRecordView::Definition(definition)),
                ..state
            },
        ),
    }
}

/// The state after the data record at the cursor of `state`, which addresses the local
/// message type `slot` and, where its header is a compressed-timestamp header, has
/// the time offset `time_offset`.
///
/// The record is read under the definition that is in force for `slot`, so there must
/// be one. What it says of developer fields goes into the catalog. Its values are
/// handed out as the profile resolves them. A record with a normal header gives the
/// time if it has a timestamp. A record with a compressed-timestamp header takes its
/// time from the time of the record before it, if there is one, and gives the time in
/// turn.
pub open spec fn data_step(
    data: Seq<u8>,
    profile: ProfileView,
    state: StreamState,
    slot: u8,
    time_offset: Option<u8>,
) -> Result<StreamState, FitError> {
    match state.table[slot as int] {
        None => Err(unknown_local_message_type(state.cursor)),
        Some(definition) => match data_record_at(
            data,
            definition,
            state.catalog,
            state.cursor + 1,
        ) {
            Err(error) => Err(error),
            Ok((values, end)) => {
                let global_message_number = definition.global_message_number;
                let resolved = resolve_values(profile, definition, values);
                let time = match time_offset {
                    None => match record_timestamp(definition, values) {
                        Some(time) => Some(time),
                        None => state.reference_timestamp,
                    },
                    Some(offset) => match state.reference_timestamp {
                        Some(reference) => Some(advance_timestamp(reference, offset)),
                        None => None,
                    },
                };
                let record = match time_offset {
                    None => DecodedRecordView::Data { global_message_number, values: resolved },
                    Some(_) => DecodedRecordView::CompressedTimestampData {
                        global_message_number,
                        absolute_timestamp: time,
                        values: resolved,
                    },
                };
                Ok(
                    StreamState {
                        cursor: end,
                        catalog: state.catalog.after(definition, values),
                        reference_timestamp: time,
                        records: state.records.push(record),
                        ..state
                    },
                )
            },
        },
    }
}

/// The state after the record that starts at the cursor of `state`, or the error of
/// that record.
pub open spec fn record_at(data: Seq<u8>, profile: ProfileView, state: StreamState) -> Result<
    StreamState,
    FitError,
> {
    match record_header_of(data[state.cursor]) {
        RecordHeader::NormalDefinition(header) => definition_step(data, state, header),
        RecordHeader::NormalData(header) => data_step(
            data,
            profile,
            state,
            header.local_message_type,
            None,
        ),
        RecordHeader::CompressedTimestamp(header) => data_step(
            data,
            profile,
            state,
            header.local_message_type,
            Some(header.time_offset),
        ),
    }
}

/// The state after all records of `data` from the cursor of `state` on, or the error of
/// the first record that has one. The records end where `data` ends.
pub open spec fn records_from(data: Seq<u8>, profile: ProfileView, state: StreamState) -> Result<
    StreamState,
    FitError,
>
    decreases data.len() - state.cursor,
{
    if state.cursor >= data.len() {
        Ok(state)
    } else {
        match record_at(data, profile, state) {
            Err(error) => Err(error),
            Ok(next) => if next.cursor > state.cursor {
                records_from(data, profile, next)
            } else {
                Ok(next)
            },
        }
    }
}

/// A record takes at least its header byte, lies within the buffer, and leaves the
/// table of definitions well formed.
pub proof fn lemma_record_at_advances(data: Seq<u8>, profile: ProfileView, state: StreamState)
    requires
        state.wf(data),
        state.cursor < data.len(),
    ensures
        record_at(data, profile, state) matches Ok(next) ==> next.wf(data) && next.cursor
            > state.cursor,
{
    let byte = data[state.cursor];
    crate::fit_records::lemma_record_header_fields(byte);
    match record_header_of(byte) {
        RecordHeader::NormalDefinition(header) => {
            crate::fit_records::lemma_definition_record_bounds(data, header, state.cursor + 1);
            crate::fit_records::lemma_definition_record_wf(data, header, state.cursor + 1);
        },
        RecordHeader::NormalData(header) => {},
        RecordHeader::CompressedTimestamp(header) => {},
    }
}

/// The records fill the buffer: where all records from the cursor on can be decoded,
/// the last of them ends where the buffer ends.
pub proof fn lemma_records_fill(data: Seq<u8>, profile: ProfileView, state: StreamState)
    requires
        state.wf(data),
    ensures
        records_from(data, profile, state) matches Ok(last) ==> last.cursor == data.len()
            && last.wf(data),
    decreases data.len() - state.cursor,
{
    if state.cursor < data.len() {
        lemma_record_at_advances(data, profile, state);
        if let Ok(next) = record_at(data, profile, state) {
            lemma_records_fill(data, profile, next);
        }
    }
}

/// The decoding of the records, record by record.
pub struct StreamDecoder {
    pub cursor: usize,
    pub table: LocalTable,
    pub catalog: DeveloperCatalog,
    pub reference_timestamp: Option<u32>,
    pub records: Vec<DecodedRecord>,
}

impl View for StreamDecoder {
    type V = StreamState;

    open spec fn view(&self) -> StreamState {
        StreamState {
            cursor: self.cursor as int,
            table: self.table@,
            catalog: self.catalog@,
            reference_timestamp: self.reference_timestamp,
            records: self.records.deep_view(),
        }
    }
}

impl StreamDecoder {
    /// The decoder before the first record, which starts at `cursor`.
    pub fn new(cursor: usize) -> (decoder: StreamDecoder)
        ensures
            decoder@ == StreamState::initial(cursor as int),
    {
        let records: Vec<DecodedRecord> = Vec::new();
        assert(records.deep_view() =~= Seq::empty());
        StreamDecoder {
            cursor,
            table: LocalTable::new(),
            catalog: DeveloperCatalog::new(),
            reference_timestamp: None,
            records,
        }
    }

    /// Decodes the definition record at the cursor, whose header is `header`.
    fn definition_step(self, data: &[u8], header: NormalDefinitionHeader) -> (result: Result<
        StreamDecoder,
        FitError,
    >)
        requires
            self@.wf(data@),
            self.cursor < data.len(),
            header.local_message_type < LOCAL_MESSAGE_TYPES,
        ensures
            match definition_step(data@, self@, header) {
                Ok(next) => result matches Ok(decoder) && decoder@ == next,
                Err(error) => result matches Err(failure) && failure == error,
            },
            result matches Ok(decoder) ==> decoder@.wf(data@) && decoder.cursor > self.cursor,
    {
        let StreamDecoder { cursor, table, catalog, reference_timestamp, records } = self;
        let mut table = table;
        let mut records = records;
        let (definition, end) = match parse_definition_record(data, header, cursor + 1) {
            Ok(parsed) => parsed,
            Err(error) => {
                return Err(error);
            },
        };
        let ghost before = records.deep_view();
        let record = DecodedRecord::Definition(definition.duplicate());
        records.push(record);
        assert(records.deep_view() =~= before.push(record@));
        table.define(header.local_message_type, definition);
        Ok(StreamDecoder { cursor: end, table, catalog, reference_timestamp, records })
    }

    /// Decodes the data record at the cursor, which addresses the local message type
    /// `slot` and, where its header is a compressed-timestamp header, has the time
    /// offset `time_offset`.
    fn data_step(
        self,
        data: &[u8],
        profile: &Profile,
        slot: u8,
        time_offset: Option<u8>,
    ) -> (result: Result<StreamDecoder, FitError>)
        requires
            self@.wf(data@),
            self.cursor < data.len(),
            slot < LOCAL_MESSAGE_TYPES,
        ensures
            match data_step(data@, profile@, self@, slot, time_offset) {
                Ok(next) => result matches Ok(decoder) && decoder@ == next,
                Err(error) => result matches Err(failure) && failure == error,
            },
            result matches Ok(decoder) ==> decoder@.wf(data@) && decoder.cursor > self.cursor,
    {
        let StreamDecoder { cursor, table, catalog, reference_timestamp, records } = self;
        let mut catalog = catalog;
        let mut records = records;
        let definition = match table.lookup(slot) {
            None => {
                return Err(
                    FitError { kind: FitErrorKind::UnknownLocalMessageType, offset: cursor },
                );
            },
            Some(definition) => definition,
        };
        let (values, end) = match decode_data_record(data, definition, &catalog, cursor + 1) {
            Ok(decoded) => decoded,
            Err(error) => {
                return Err(error);
            },
        };
        let global_message_number = definition.global_message_number;
        let time = match time_offset {
            None => match find_record_timestamp(definition, &values) {
                Some(time) => Some(time),
                None => reference_timestamp,
            },
            Some(offset) => match reference_timestamp {
                Some(reference) => Some(compressed_timestamp(reference, offset)),
                None => None,
            },
        };
        catalog.ingest(definition, &values);
        let resolved = profile.resolve_values(definition, values);
        let record = match time_offset {
            None => DecodedRecord::Data { global_message_number, values: resolved },
            Some(_) => DecodedRecord::CompressedTimestampData {
                global_message_number,
                absolute_timestamp: time,
                values: resolved,
            },
        };
        let ghost before = records.deep_view();
        records.push(record);
        assert(records.deep_view() =~= before.push(record@));
        Ok(StreamDecoder { cursor: end, table, catalog, reference_timestamp: time, records })
    }

    /// Decodes the record at the cursor.
    pub fn step(self, data: &[u8], profile: &Profile) -> (result: Result<StreamDecoder, FitError>)
        requires
            self@.wf(data@),
            self.cursor < data.len(),
        ensures
            match record_at(data@, profile@, self@) {
                Ok(next) => result matches Ok(decoder) && decoder@ == next,
                Err(error) => result matches Err(failure) && failure == error,
            },
            result matches Ok(decoder) ==> decoder@.wf(data@) && decoder.cursor > self.cursor,
    {
        let header = parse_record_header(data[self.cursor]);
        proof {
            crate::fit_records::lemma_record_header_fields(data@[self.cursor as int]);
        }
        match header {
            RecordHeader::NormalDefinition(header) => self.definition_step(data, header),
            RecordHeader::NormalData(header) => self.data_step(
                data,
                profile,
                header.local_message_type,
                None,
            ),
            RecordHeader::CompressedTimestamp(header) => self.data_step(
                data,
                profile,
                header.local_message_type,
                Some(header.time_offset),
            ),
        }
    }
}

/// Decodes the records that fill `data` from `start` on: every byte from `start` to the
/// end of `data` belongs to a record. The values are handed out as `profile` resolves
/// them. There are no records where `start` lies behind the end of `data`.
pub fn decode_records(data: &[u8], start: usize, profile: &Profile) -> (result: Result<
    Vec<DecodedRecord>,
    FitError,
>)
    ensures
        match records_from(data@, profile@, StreamState::initial(start as int)) {
            Ok(state) => result matches Ok(records) && records.deep_view() == state.records,
            Err(error) => result matches Err(failure) && failure == error,
        },
{
    let mut decoder = StreamDecoder::new(start);
    if start > data.len() {
        return Ok(decoder.records);
    }
    while decoder.cursor < data.len()
        invariant
            decoder@.wf(data@),
            records_from(data@, profile@, StreamState::initial(start as int)) == records_from(
                data@,
                profile@,
                decoder@,
            ),
        decreases data.len() - decoder.cursor,
    {
        match decoder.step(data, profile) {
            Ok(next) => {
                decoder = next;
            },
            Err(error) => {
                return Err(error);
            },
        }
    }
    Ok(decoder.records)
}

/// The offset at which the records of a file with the header `header` end, and the
/// checksum of the file begins.
pub open spec fn records_end(header: FitFileHeaderView) -> int {
    header.header_size + header.data_size
}

/// The error of a file whose checksum, which lies at `offset`, does not match.
pub open spec fn file_crc_mismatch(offset: int) -> FitError {
    FitError { kind: FitErrorKind::FileCrcMismatch, offset: offset as usize }
}

/// The header and the records of the file `data`, or the first error met on the way
/// through it. The values of the records are as `profile` resolves them.
///
/// The file is its header, then as many bytes of records as the header announces,
/// then two bytes of checksum. The records are decoded first. Then the checksum must
/// be that of all bytes before it.
pub open spec fn file_of(data: Seq<u8>, profile: ProfileView) -> Result<
    (FitFileHeaderView, Seq<DecodedRecordView>),
    FitError,
> {
    match header_of(data) {
        Err(error) => Err(error),
        Ok(header) => {
            let end = records_end(header);
            if data.len() < end + 2 {
                Err(truncated(data.len()))
            } else {
                match records_from(
                    data.take(end),
                    profile,
                    StreamState::initial(header.header_size as int),
                ) {
                    Err(error) => Err(error),
                    Ok(state) => if crc16(data.take(end), 0) != u16_le(
                        data.subrange(end, end + 2),
                    ) {
                        Err(file_crc_mismatch(end))
                    } else {
                        Ok((header, state.records))
                    },
                }
            }
        },
    }
}

/// The mathematical content of what decoding a file hands back.
pub open spec fn decoded_file(
    result: Result<(FitFileHeader, Vec<DecodedRecord>), FitError>,
) -> Result<(FitFileHeaderView, Seq<DecodedRecordView>), FitError> {
    match result {
        Ok((header, records)) => Ok((header@, records.deep_view())),
        Err(error) => Err(error),
    }
}

/// Decodes the file `data`: its header and its records in the order of the file. The
/// values of the records are handed out as `profile` resolves them.
pub fn decode_with_profile(data: &[u8], profile: &Profile) -> (result: Result<
    (FitFileHeader, Vec<DecodedRecord>),
    FitError,
>)
    ensures
        decoded_file(result) == file_of(data@, profile@),
{
    let header = match parse_fit_header_from_data(data) {
        Ok(header) => header,
        Err(error) => {
            return Err(error);
        },
    };
    let end: u64 = header.header_size as u64 + header.data_size as u64;
    if (data.len() as u64) < end + 2 {
        return Err(FitError { kind: FitErrorKind::Truncated, offset: data.len() });
    }
    let end: usize = end as usize;
    let body: &[u8] = &data[0..end];
    assert(body@ =~= data@.take(end as int));
    let records = match decode_records(body, header.header_size as usize, profile) {
        Ok(records) => records,
        Err(error) => {
            return Err(error);
        },
    };
    let file_crc = read_u16_le(&data[end..end + 2]);
    if fit_crc(body, 0) != file_crc {
        return Err(FitError { kind: FitErrorKind::FileCrcMismatch, offset: end });
    }
    Ok((header, records))
}

/// Decodes the file `data`: its header and its records in the order of the file. No
/// profile is consulted: the values have no names.
pub fn decode(data: &[u8]) -> (result: Result<(FitFileHeader, Vec<DecodedRecord>), FitError>)
    ensures
        decoded_file(result) == file_of(data@, ProfileView::empty()),
{
    let profile = Profile::empty();
    decode_with_profile(data, &profile)
}

/// The checksum at the end of a file that decodes is the checksum of all bytes before
/// it: of the header and the records together.
pub proof fn lemma_file_crc(data: Seq<u8>, profile: ProfileView)
    ensures
        file_of(data, profile) matches Ok((header, records)) ==> {
            &&& records_end(header) + 2 <= data.len()
            &&& crc16(data.take(records_end(header)), 0) == u16_le(
                data.subrange(records_end(header), records_end(header) + 2),
            )
        },
{
}

} // verus!
