//! The message catalog of the profile: the global messages and their fields, as the
//! rows of the message table describe them.

use crate::csv_table::{csv_rows, read_csv};
use crate::decimal::{decimal_of, parse_decimal, Decimal};
use crate::error::{SchemaError, SchemaErrorKind};
use crate::text::{
    chars_of, parse_i16, parse_u8, parse_unsigned, pieces_of, signed_of, split_on, split_ranges,
    trim_bounds, trimmed, unsigned_of, Radix,
};
use vstd::prelude::*;
use vstd::string::StrSliceExecFns;

verus! {

/// Whether a field holds one value, a fixed number of values, or as many as the record
/// has room for.
#[derive(Debug, Clone, Copy, PartialEq, Eq, Structural)]
pub enum FitMessageArrayType {
    NotArray,
    FixedSizeArray(usize),
    VariableSizeArray,
}

/// A field whose value selects this field: the referent's name and the value it must
/// have.
#[derive(Debug, Clone, PartialEq)]
pub struct FitRefField {
    pub name: String,
    pub value: String,
}

/// The mathematical content of a [`FitRefField`].
pub struct FitRefFieldView {
    pub name: Seq<char>,
    pub value: Seq<char>,
}

impl View for FitRefField {
    type V = FitRefFieldView;

    open spec fn view(&self) -> FitRefFieldView {
        FitRefFieldView { name: self.name@, value: self.value@ }
    }
}

impl DeepView for FitRefField {
    type V = FitRefFieldView;

    open spec fn deep_view(&self) -> FitRefFieldView {
        self@
    }
}

/// One field of a global message.
#[derive(Debug, Clone, PartialEq)]
pub struct FitMessageField {
    pub category: String,
    pub definition_number: u8,
    pub name: String,
    pub field_type: String,
    pub array: FitMessageArrayType,
    pub scale: Vec<Decimal>,
    pub offset: i16,
    pub components: Vec<String>,
    pub units: Vec<String>,
    pub bits: Vec<u8>,
    pub accumulate: Vec<u8>,
    pub ref_fields: Vec<FitRefField>,
    pub comment: Option<String>,
    pub example: Option<u8>,
}

/// The mathematical content of a [`FitMessageField`].
pub struct FitMessageFieldView {
    pub category: Seq<char>,
    pub definition_number: u8,
    pub name: Seq<char>,
    pub field_type: Seq<char>,
    pub array: FitMessageArrayType,
    pub scale: Seq<Decimal>,
    pub offset: i16,
    pub components: Seq<Seq<char>>,
    pub units: Seq<Seq<char>>,
    pub bits: Seq<u8>,
    pub accumulate: Seq<u8>,
    pub ref_fields: Seq<FitRefFieldView>,
    pub comment: Option<Seq<char>>,
    pub example: Option<u8>,
}

impl View for FitMessageField {
    type V = FitMessageFieldView;

    open spec fn view(&self) -> FitMessageFieldView {
        FitMessageFieldView {
            category: self.category@,
            definition_number: self.definition_number,
            name: self.name@,
            field_type: self.field_type@,
            array: self.array,
            scale: self.scale@,
            offset: self.offset,
            components: self.components.deep_view(),
            units: self.units.deep_view(),
            bits: self.bits@,
            accumulate: self.accumulate@,
            ref_fields: self.ref_fields.deep_view(),
            comment: self.comment.deep_view(),
            example: self.example,
        }
    }
}

impl DeepView for FitMessageField {
    type V = FitMessageFieldView;

    open spec fn deep_view(&self) -> FitMessageFieldView {
        self@
    }
}

impl FitMessageFieldView {
    /// What holds of every field that the loader hands out: an array of fixed size has
    /// at least one element, there is at least one scale and every scale is greater
    /// than zero, and the scales, the bit widths and the accumulate flags fit the
    /// components.
    pub open spec fn wf(self) -> bool {
        &&& self.array matches FitMessageArrayType::FixedSizeArray(count) ==> count >= 1
        &&& self.scale.len() >= 1
        &&& forall|i: int| 0 <= i < self.scale.len() ==> (#[trigger] self.scale[i]).mantissa > 0
        &&& self.components.len() == self.scale.len() || self.scale.len() == 1
        &&& components_match_bits(self.components.len(), self.bits.len())
        &&& components_match_accumulate(self.components.len(), self.accumulate.len())
    }
}

/// A global message: its name and its fields in the order of the table.
#[derive(Debug, Clone, PartialEq)]
pub struct FitMessage {
    pub name: String,
    pub comment: Option<String>,
    pub fields: Vec<FitMessageField>,
}

/// The mathematical content of a [`FitMessage`].
pub struct FitMessageView {
    pub name: Seq<char>,
    pub comment: Option<Seq<char>>,
    pub fields: Seq<FitMessageFieldView>,
}

impl View for FitMessage {
    type V = FitMessageView;

    open spec fn view(&self) -> FitMessageView {
        FitMessageView {
            name: self.name@,
            comment: self.comment.deep_view(),
            fields: self.fields.deep_view(),
        }
    }
}

impl DeepView for FitMessage {
    type V = FitMessageView;

    open spec fn deep_view(&self) -> FitMessageView {
        self@
    }
}

/// What the `array` cell `s` says: nothing for a single value, `[N]` in either case for
/// an array of any length, `[k]` for an array of `k` values, where `k` is a decimal
/// number of at least one. White space around the cell does not count.
pub open spec fn array_of(s: Seq<char>) -> Option<FitMessageArrayType> {
    let t = trimmed(s);
    if t.len() == 0 {
        Some(FitMessageArrayType::NotArray)
    } else if t.len() == 3 && t[0] == '[' && (t[1] == 'N' || t[1] == 'n') && t[2] == ']' {
        Some(FitMessageArrayType::VariableSizeArray)
    } else if t.len() >= 2 && t[0] == '[' && t.last() == ']' {
        match unsigned_of(t.subrange(1, t.len() - 1), 10, usize::MAX as nat) {
            Some(count) => if count >= 1 {
                Some(FitMessageArrayType::FixedSizeArray(count as usize))
            } else {
                None
            },
            None => None,
        }
    } else {
        None
    }
}

/// Reads the `array` cell of a field row.
pub fn parse_fit_message_array(array_def: &str) -> (result: Result<
    FitMessageArrayType,
    SchemaErrorKind,
>)
    ensures
        match array_of(array_def@) {
            Some(array) => result == Ok::<FitMessageArrayType, SchemaErrorKind>(array),
            None => result == Err::<FitMessageArrayType, SchemaErrorKind>(SchemaErrorKind::Array),
        },
{
    let chars = chars_of(array_def);
    let (start, end) = trim_bounds(chars.as_slice());
    let t: &[char] = &chars[start..end];
    if t.len() == 0 {
        return Ok(FitMessageArrayType::NotArray);
    }
    if t.len() == 3 && t[0] == '[' && (t[1] == 'N' || t[1] == 'n') && t[2] == ']' {
        return Ok(FitMessageArrayType::VariableSizeArray);
    }
    if t.len() >= 2 && t[0] == '[' && t[t.len() - 1] == ']' {
        return match parse_unsigned(&t[1..t.len() - 1], Radix::Decimal, usize::MAX as u64) {
            Some(count) => if count >= 1 {
                Ok(FitMessageArrayType::FixedSizeArray(count as usize))
            } else {
                Err(SchemaErrorKind::Array)
            },
            None => Err(SchemaErrorKind::Array),
        };
    }
    Err(SchemaErrorKind::Array)
}

/// What the `offset` cell `s` says: zero where it is empty, else the signed decimal
/// number of sixteen bits that it writes.
pub open spec fn offset_of(s: Seq<char>) -> Option<i16> {
    if s.len() == 0 {
        Some(0i16)
    } else {
        match signed_of(s, -0x8000, 0x7FFF) {
            Some(offset) => Some(offset as i16),
            None => None,
        }
    }
}

/// Reads the `offset` cell of a field row.
pub fn parse_fit_message_offset_record(s: &str) -> (result: Result<i16, SchemaErrorKind>)
    ensures
        match offset_of(s@) {
            Some(offset) => result == Ok::<i16, SchemaErrorKind>(offset),
            None => result == Err::<i16, SchemaErrorKind>(SchemaErrorKind::Offset),
        },
{
    let chars = chars_of(s);
    if chars.len() == 0 {
        return Ok(0);
    }
    match parse_i16(chars.as_slice()) {
        Some(offset) => Ok(offset),
        None => Err(SchemaErrorKind::Offset),
    }
}

/// The items of the list that the cell `s` holds: none where the cell is empty, else
/// the pieces between its commas, as they stand.
pub open spec fn list_pieces(s: Seq<char>) -> Seq<Seq<char>> {
    if s.len() == 0 {
        Seq::empty()
    } else {
        split_on(s, ',')
    }
}

/// Reads a cell that holds a list of texts: none where the cell is empty, else the
/// pieces between its commas, as they stand.
pub fn parse_comma_delimited_string_list(input: &str) -> (list: Vec<String>)
    ensures
        list.deep_view() == list_pieces(input@),
{
    let chars = chars_of(input);
    let mut list: Vec<String> = Vec::new();
    if chars.len() == 0 {
        assert(list.deep_view() =~= list_pieces(input@));
        return list;
    }
    let ranges = split_ranges(chars.as_slice(), ',');
    let mut i: usize = 0;
    while i < ranges.len()
        invariant
            chars@ == input@,
            i <= ranges.len(),
            forall|k: int|
                0 <= k < ranges.len() ==> (#[trigger] ranges[k]).0 <= ranges[k].1 <= chars.len(),
            list.deep_view() =~= pieces_of(chars@, ranges@).take(i as int),
        decreases ranges.len() - i,
    {
        let (from, to) = ranges[i];
        let piece = input.substring_char(from, to).to_owned();
        let ghost before = list.deep_view();
        list.push(piece);
        assert(list.deep_view() =~= before.push(piece@));
        i += 1;
    }
    assert(pieces_of(chars@, ranges@).take(ranges.len() as int) =~= pieces_of(chars@, ranges@));
    list
}

/// The number of eight bits that one item of a list writes, white space around it
/// aside.
pub open spec fn u8_item(piece: Seq<char>) -> Option<u8> {
    match unsigned_of(trimmed(piece), 10, 0xFF) {
        Some(value) => Some(value as u8),
        None => None,
    }
}

/// The list of numbers of eight bits that the cell `s` holds, where every item of it
/// writes one.
pub open spec fn u8_list_of(s: Seq<char>) -> Option<Seq<u8>> {
    let pieces = list_pieces(s);
    if forall|i: int| 0 <= i < pieces.len() ==> (#[trigger] u8_item(pieces[i])) is Some {
        Some(Seq::new(pieces.len(), |i: int| u8_item(pieces[i]).unwrap()))
    } else {
        None
    }
}

/// Reads a cell that holds a list of numbers of eight bits.
pub fn parse_u8_list(s: &str) -> (result: Option<Vec<u8>>)
    ensures
        match u8_list_of(s@) {
            Some(list) => result matches Some(numbers) && numbers@ == list,
            None => result is None,
        },
{
    let chars = chars_of(s);
    let mut numbers: Vec<u8> = Vec::new();
    if chars.len() == 0 {
        assert(numbers@ =~= u8_list_of(s@).unwrap());
        return Some(numbers);
    }
    let ranges = split_ranges(chars.as_slice(), ',');
    let ghost pieces = list_pieces(s@);
    let mut i: usize = 0;
    while i < ranges.len()
        invariant
            chars@ == s@,
            pieces == pieces_of(chars@, ranges@),
            pieces == list_pieces(s@),
            i <= ranges.len(),
            forall|k: int|
                0 <= k < ranges.len() ==> (#[trigger] ranges[k]).0 <= ranges[k].1 <= chars.len(),
            forall|k: int| 0 <= k < i ==> (#[trigger] u8_item(pieces[k])) is Some,
            numbers@ =~= Seq::new(i as nat, |k: int| u8_item(pieces[k]).unwrap()),
        decreases ranges.len() - i,
    {
        let (from, to) = ranges[i];
        let piece: &[char] = &chars[from..to];
        assert(piece@ == pieces[i as int]);
        let (start, end) = trim_bounds(piece);
        match parse_u8(&piece[start..end]) {
            Some(number) => {
                numbers.push(number);
            },
            None => {
                assert(u8_item(pieces[i as int]) is None);
                return None;
            },
        }
        i += 1;
    }
    Some(numbers)
}

/// Reads the `bits` cell of a field row: the bit widths of the components.
pub fn parse_fit_message_bits(s: &str) -> (result: Result<Vec<u8>, SchemaErrorKind>)
    ensures
        match u8_list_of(s@) {
            Some(list) => result matches Ok(bits) && bits@ == list,
            None => result == Err::<Vec<u8>, SchemaErrorKind>(SchemaErrorKind::Bits),
        },
{
    match parse_u8_list(s) {
        Some(bits) => Ok(bits),
        None => Err(SchemaErrorKind::Bits),
    }
}

/// Reads the `accumulate` cell of a field row: the accumulate flags of the components.
pub fn parse_fit_message_accumulate(input: &str) -> (result: Result<Vec<u8>, SchemaErrorKind>)
    ensures
        match u8_list_of(input@) {
            Some(list) => result matches Ok(accumulate) && accumulate@ == list,
            None => result == Err::<Vec<u8>, SchemaErrorKind>(SchemaErrorKind::Accumulate),
        },
{
    match parse_u8_list(input) {
        Some(accumulate) => Ok(accumulate),
        None => Err(SchemaErrorKind::Accumulate),
    }
}

/// The scale that one item of a list writes, white space around it aside: a decimal
/// number greater than zero.
pub open spec fn scale_item(piece: Seq<char>) -> Option<Decimal> {
    match decimal_of(trimmed(piece)) {
        Some(scale) => if scale.mantissa > 0 {
            Some(scale)
        } else {
            None
        },
        None => None,
    }
}

/// The scales that the cell `s` holds: the single scale one where the cell is empty,
/// else one scale for each piece between its commas.
pub open spec fn scale_of(s: Seq<char>) -> Option<Seq<Decimal>> {
    if s.len() == 0 {
        Some(seq![Decimal::spec_one()])
    } else {
        let pieces = split_on(s, ',');
        if forall|i: int| 0 <= i < pieces.len() ==> (#[trigger] scale_item(pieces[i])) is Some {
            Some(Seq::new(pieces.len(), |i: int| scale_item(pieces[i]).unwrap()))
        } else {
            None
        }
    }
}

/// Reads the `scale` cell of a field row.
pub fn parse_fit_message_scale_record(s: &str) -> (result: Result<Vec<Decimal>, SchemaErrorKind>)
    ensures
        match scale_of(s@) {
            Some(list) => result matches Ok(scale) && scale@ == list,
            None => result == Err::<Vec<Decimal>, SchemaErrorKind>(SchemaErrorKind::Scale),
        },
{
    let chars = chars_of(s);
    let mut scale: Vec<Decimal> = Vec::new();
    if chars.len() == 0 {
        scale.push(Decimal::one());
        assert(scale@ =~= scale_of(s@).unwrap());
        return Ok(scale);
    }
    let ranges = split_ranges(chars.as_slice(), ',');
    let ghost pieces = split_on(s@, ',');
    let mut i: usize = 0;
    while i < ranges.len()
        invariant
            chars@ == s@,
            s@.len() > 0,
            pieces == pieces_of(chars@, ranges@),
            pieces == split_on(s@, ','),
            i <= ranges.len(),
            forall|k: int|
                0 <= k < ranges.len() ==> (#[trigger] ranges[k]).0 <= ranges[k].1 <= chars.len(),
            forall|k: int| 0 <= k < i ==> (#[trigger] scale_item(pieces[k])) is Some,
            scale@ =~= Seq::new(i as nat, |k: int| scale_item(pieces[k]).unwrap()),
        decreases ranges.len() - i,
    {
        let (from, to) = ranges[i];
        let piece: &[char] = &chars[from..to];
        assert(piece@ == pieces[i as int]);
        let (start, end) = trim_bounds(piece);
        match parse_decimal(&piece[start..end]) {
            Some(item) => {
                if !item.is_positive() {
                    assert(scale_item(pieces[i as int]) is None);
                    return Err(SchemaErrorKind::Scale);
                }
                scale.push(item);
            },
            None => {
                assert(scale_item(pieces[i as int]) is None);
                return Err(SchemaErrorKind::Scale);
            },
        }
        i += 1;
    }
    Ok(scale)
}

/// Whether the scales fit the components: one scale for each component, or the scale
/// that stands for an empty cell, or a single scale where there are no components.
pub open spec fn components_match_scale(
    components: nat,
    scale: nat,
    default_scale_used: bool,
) -> bool {
    components == scale || default_scale_used || (components == 0 && scale == 1)
}

/// Whether the bit widths fit the components: one for each component, or a single one
/// where there are no components.
pub open spec fn components_match_bits(components: nat, bits: nat) -> bool {
    components == bits || (components == 0 && bits == 1)
}

/// Whether the accumulate flags fit the components: none, or one for each component.
pub open spec fn components_match_accumulate(components: nat, accumulate: nat) -> bool {
    components == accumulate || accumulate == 0
}

/// Checks that the scales of a field fit its components.
pub fn validate_components_with_scale(
    components: &[String],
    scale: &[Decimal],
    default_scale_used: bool,
) -> (valid: bool)
    ensures
        valid == components_match_scale(
            components@.len(),
            scale@.len(),
            default_scale_used,
        ),
{
    components.len() == scale.len() || default_scale_used || (components.len() == 0
        && scale.len() == 1)
}

/// Checks that the bit widths of a field fit its components.
pub fn validate_components_with_bits(components: &[String], bits: &[u8]) -> (valid: bool)
    ensures
        valid == components_match_bits(components@.len(), bits@.len()),
{
    components.len() == bits.len() || (components.len() == 0 && bits.len() == 1)
}

/// Checks that the accumulate flags of a field fit its components.
pub fn validate_components_with_accumulate(components: &[String], accumulate: &[u8]) -> (valid:
    bool)
    ensures
        valid == components_match_accumulate(components@.len(), accumulate@.len()),
{
    components.len() == accumulate.len() || accumulate.len() == 0
}

/// Checks that there is a value for each reference field name, and no more.
pub fn validate_ref_field_names_and_values(
    ref_field_names: &[String],
    ref_field_values: &[String],
) -> (valid: bool)
    ensures
        valid == (ref_field_names@.len() == ref_field_values@.len()),
{
    ref_field_names.len() == ref_field_values.len()
}

/// The number of cells in every row of the message table.
pub const MESSAGE_COLUMNS: usize = 16;

/// The column of the name of the message that a row starts.
pub const MESSAGE_NAME_IDX: usize = 0;

/// The column of the definition number of a field.
pub const FIELD_DEF_NUMBER_IDX: usize = 1;

/// The column of the name of a field.
pub const FIELD_NAME_IDX: usize = 2;

/// The column of the profile type of a field, or of the name of a category.
pub const FIELD_TYPE_IDX: usize = 3;

/// The column that says whether a field is an array.
pub const ARRAY_IDX: usize = 4;

/// The column of the components of a field.
pub const COMPONENTS_IDX: usize = 5;

/// The column of the scales of a field.
pub const SCALE_IDX: usize = 6;

/// The column of the offset of a field.
pub const OFFSET_IDX: usize = 7;

/// The column of the units of a field.
pub const UNITS_IDX: usize = 8;

/// The column of the bit widths of the components of a field.
pub const BITS_IDX: usize = 9;

/// The column of the accumulate flags of the components of a field.
pub const ACCUMULATE_IDX: usize = 10;

/// The column of the names of the reference fields of a field.
pub const REF_FIELD_NAME_IDX: usize = 11;

/// The column of the values of the reference fields of a field.
pub const REF_FIELD_VALUE_IDX: usize = 12;

/// The column of the comment on a message or a field.
pub const COMMENT_IDX: usize = 13;

/// The column of the products that a field applies to. Nothing is read from it.
pub const PRODUCTS_IDX: usize = 14;

/// The column of the example value of a field.
pub const EXAMPLE_IDX: usize = 15;

/// The text of a cell that may be left empty.
pub open spec fn optional_text(cell: Seq<char>) -> Option<Seq<char>> {
    if cell.len() == 0 {
        None
    } else {
        Some(cell)
    }
}

/// The number of eight bits that a cell writes, with nothing around it.
pub open spec fn u8_of(cell: Seq<char>) -> Option<u8> {
    match unsigned_of(cell, 10, 0xFF) {
        Some(value) => Some(value as u8),
        None => None,
    }
}

/// The example value that the cell `cell` holds: none where it is empty, else the
/// number of eight bits that it writes.
pub open spec fn example_of(cell: Seq<char>) -> Option<Option<u8>> {
    if cell.len() == 0 {
        Some(None)
    } else {
        match u8_of(cell) {
            Some(value) => Some(Some(value)),
            None => None,
        }
    }
}

/// The reference fields that the names and the values make, pair by pair.
pub open spec fn ref_fields_of(names: Seq<Seq<char>>, values: Seq<Seq<char>>) -> Seq<
    FitRefFieldView,
> {
    Seq::new(names.len(), |i: int| FitRefFieldView { name: names[i], value: values[i] })
}

/// The rule that the field row `row` breaks, if it breaks one. The cells are looked at
/// in the order in which the kinds are tested here, and the first broken rule counts.
pub open spec fn field_row_error(row: Seq<Seq<char>>) -> Option<SchemaErrorKind>
    recommends
        row.len() == MESSAGE_COLUMNS,
{
    let components = list_pieces(row[COMPONENTS_IDX as int]).len();
    if u8_of(row[FIELD_DEF_NUMBER_IDX as int]) is None {
        Some(SchemaErrorKind::Number)
    } else if array_of(row[ARRAY_IDX as int]) is None {
        Some(SchemaErrorKind::Array)
    } else if scale_of(row[SCALE_IDX as int]) is None {
        Some(SchemaErrorKind::Scale)
    } else if offset_of(row[OFFSET_IDX as int]) is None {
        Some(SchemaErrorKind::Offset)
    } else if u8_list_of(row[BITS_IDX as int]) is None {
        Some(SchemaErrorKind::Bits)
    } else if u8_list_of(row[ACCUMULATE_IDX as int]) is None {
        Some(SchemaErrorKind::Accumulate)
    } else if !components_match_scale(
        components,
        scale_of(row[SCALE_IDX as int]).unwrap().len(),
        row[SCALE_IDX as int].len() == 0,
    ) {
        Some(SchemaErrorKind::ComponentsScale)
    } else if !components_match_bits(components, u8_list_of(row[BITS_IDX as int]).unwrap().len()) {
        Some(SchemaErrorKind::ComponentsBits)
    } else if !components_match_accumulate(
        components,
        u8_list_of(row[ACCUMULATE_IDX as int]).unwrap().len(),
    ) {
        Some(SchemaErrorKind::ComponentsAccumulate)
    } else if list_pieces(row[REF_FIELD_NAME_IDX as int]).len() != list_pieces(
        row[REF_FIELD_VALUE_IDX as int],
    ).len() {
        Some(SchemaErrorKind::RefFields)
    } else if example_of(row[EXAMPLE_IDX as int]) is None {
        Some(SchemaErrorKind::Example)
    } else {
        None
    }
}

/// The field that the field row `row` describes, in the category `category`. It is
/// meant for rows that break no rule.
pub open spec fn field_of_row(category: Seq<char>, row: Seq<Seq<char>>) -> FitMessageFieldView
    recommends
        row.len() == MESSAGE_COLUMNS,
        field_row_error(row) is None,
{
    FitMessageFieldView {
        category,
        definition_number: u8_of(row[FIELD_DEF_NUMBER_IDX as int]).unwrap(),
        name: row[FIELD_NAME_IDX as int],
        field_type: row[FIELD_TYPE_IDX as int],
        array: array_of(row[ARRAY_IDX as int]).unwrap(),
        scale: scale_of(row[SCALE_IDX as int]).unwrap(),
        offset: offset_of(row[OFFSET_IDX as int]).unwrap(),
        components: list_pieces(row[COMPONENTS_IDX as int]),
        units: list_pieces(row[UNITS_IDX as int]),
        bits: u8_list_of(row[BITS_IDX as int]).unwrap(),
        accumulate: u8_list_of(row[ACCUMULATE_IDX as int]).unwrap(),
        ref_fields: ref_fields_of(
            list_pieces(row[REF_FIELD_NAME_IDX as int]),
            list_pieces(row[REF_FIELD_VALUE_IDX as int]),
        ),
        comment: optional_text(row[COMMENT_IDX as int]),
        example: example_of(row[EXAMPLE_IDX as int]).unwrap(),
    }
}

/// What the field row `row` yields: the field it describes, or the rule it breaks. A
/// row that has not as many cells as the table has columns breaks the first rule.
pub open spec fn field_row_result(category: Seq<char>, row: Seq<Seq<char>>) -> Result<
    FitMessageFieldView,
    SchemaErrorKind,
> {
    if row.len() != MESSAGE_COLUMNS {
        Err(SchemaErrorKind::ColumnCount)
    } else {
        match field_row_error(row) {
            Some(kind) => Err(kind),
            None => Ok(field_of_row(category, row)),
        }
    }
}

/// A scale cell that can be read holds at least one scale, and only scales greater than
/// zero. An empty cell holds exactly one.
pub proof fn lemma_scale_of(s: Seq<char>)
    ensures
        scale_of(s) matches Some(scale) ==> {
            &&& scale.len() >= 1
            &&& s.len() == 0 ==> scale.len() == 1
            &&& forall|i: int| 0 <= i < scale.len() ==> (#[trigger] scale[i]).mantissa > 0
        },
{
    if s.len() > 0 {
        crate::text::lemma_split_on(s, ',');
    }
}

/// Every field that a field row yields is well formed.
pub proof fn lemma_field_row_wf(category: Seq<char>, row: Seq<Seq<char>>)
    ensures
        field_row_result(category, row) matches Ok(field) ==> field.wf(),
{
    if let Ok(field) = field_row_result(category, row) {
        lemma_scale_of(row[SCALE_IDX as int]);
    }
}

/// The text of `cell` where it holds any.
pub fn optional_cell(cell: &String) -> (text: Option<String>)
    ensures
        text.deep_view() == optional_text(cell@),
{
    if cell.as_str().is_empty() {
        None
    } else {
        Some(cell.clone())
    }
}

/// Pairs the names of the reference fields with their values.
fn pair_ref_fields(names: Vec<String>, values: Vec<String>) -> (pairs: Vec<FitRefField>)
    requires
        names.len() == values.len(),
    ensures
        pairs.deep_view() == ref_fields_of(names.deep_view(), values.deep_view()),
{
    let mut pairs: Vec<FitRefField> = Vec::new();
    let mut i: usize = 0;
    while i < names.len()
        invariant
            names.len() == values.len(),
            i <= names.len(),
            pairs.deep_view() =~= ref_fields_of(names.deep_view(), values.deep_view()).take(
                i as int,
            ),
        decreases names.len() - i,
    {
        let pair = FitRefField { name: names[i].clone(), value: values[i].clone() };
        let ghost before = pairs.deep_view();
        pairs.push(pair);
        assert(pairs.deep_view() =~= before.push(pair@));
        i += 1;
    }
    assert(ref_fields_of(names.deep_view(), values.deep_view()).take(names.len() as int)
        =~= ref_fields_of(names.deep_view(), values.deep_view()));
    pairs
}

/// Reads one field row of the message table, which lies in the category `category`.
pub fn parse_field_row(category: &String, row: &Vec<String>) -> (result: Result<
    FitMessageField,
    SchemaErrorKind,
>)
    ensures
        match field_row_result(category@, row.deep_view()) {
            Ok(field) => result matches Ok(parsed) && parsed@ == field,
            Err(kind) => result == Err::<FitMessageField, SchemaErrorKind>(kind),
        },
{
    if row.len() != MESSAGE_COLUMNS {
        return Err(SchemaErrorKind::ColumnCount);
    }
    let ghost cells = row.deep_view();
    assert(forall|i: int| 0 <= i < row.len() ==> cells[i] == (#[trigger] row[i])@);
    let number_chars = chars_of(row[FIELD_DEF_NUMBER_IDX].as_str());
    let definition_number = match parse_u8(number_chars.as_slice()) {
        Some(number) => number,
        None => {
            return Err(SchemaErrorKind::Number);
        },
    };
    let name = row[FIELD_NAME_IDX].clone();
    let field_type = row[FIELD_TYPE_IDX].clone();
    let array = match parse_fit_message_array(row[ARRAY_IDX].as_str()) {
        Ok(array) => array,
        Err(kind) => {
            return Err(kind);
        },
    };
    let components = parse_comma_delimited_string_list(row[COMPONENTS_IDX].as_str());
    let scale = match parse_fit_message_scale_record(row[SCALE_IDX].as_str()) {
        Ok(scale) => scale,
        Err(kind) => {
            return Err(kind);
        },
    };
    let default_scale_used = row[SCALE_IDX].as_str().is_empty();
    let offset = match parse_fit_message_offset_record(row[OFFSET_IDX].as_str()) {
        Ok(offset) => offset,
        Err(kind) => {
            return Err(kind);
        },
    };
    let units = parse_comma_delimited_string_list(row[UNITS_IDX].as_str());
    let bits = match parse_fit_message_bits(row[BITS_IDX].as_str()) {
        Ok(bits) => bits,
        Err(kind) => {
            return Err(kind);
        },
    };
    let accumulate = match parse_fit_message_accumulate(row[ACCUMULATE_IDX].as_str()) {
        Ok(accumulate) => accumulate,
        Err(kind) => {
            return Err(kind);
        },
    };
    assert(components@.len() == components.deep_view().len());
    if !validate_components_with_scale(
        components.as_slice(),
        scale.as_slice(),
        default_scale_used,
    ) {
        return Err(SchemaErrorKind::ComponentsScale);
    }
    if !validate_components_with_bits(components.as_slice(), bits.as_slice()) {
        return Err(SchemaErrorKind::ComponentsBits);
    }
    if !validate_components_with_accumulate(components.as_slice(), accumulate.as_slice()) {
        return Err(SchemaErrorKind::ComponentsAccumulate);
    }
    let ref_field_names = parse_comma_delimited_string_list(row[REF_FIELD_NAME_IDX].as_str());
    let ref_field_values = parse_comma_delimited_string_list(row[REF_FIELD_VALUE_IDX].as_str());
    assert(ref_field_names@.len() == ref_field_names.deep_view().len());
    assert(ref_field_values@.len() == ref_field_values.deep_view().len());
    if !validate_ref_field_names_and_values(
        ref_field_names.as_slice(),
        ref_field_values.as_slice(),
    ) {
        return Err(SchemaErrorKind::RefFields);
    }
    let ref_fields = pair_ref_fields(ref_field_names, ref_field_values);
    let comment = optional_cell(&row[COMMENT_IDX]);
    let example_chars = chars_of(row[EXAMPLE_IDX].as_str());
    let example: Option<u8> = if example_chars.len() == 0 {
        None
    } else {
        match parse_u8(example_chars.as_slice()) {
            Some(example) => Some(example),
            None => {
                return Err(SchemaErrorKind::Example);
            },
        }
    };
    Ok(
        FitMessageField {
            category: category.clone(),
            definition_number,
            name,
            field_type,
            array,
            scale,
            offset,
            components,
            units,
            bits,
            accumulate,
            ref_fields,
            comment,
            example,
        },
    )
}

/// How far the loading of the message table has come: the messages that are complete,
/// the message that the next field row will add to, and the category that the next
/// field row will lie in.
pub struct MessagesState {
    pub messages: Seq<FitMessageView>,
    pub current: Option<FitMessageView>,
    pub category: Seq<char>,
}

impl FitMessageView {
    /// Whether every field of the message is well formed.
    pub open spec fn wf(self) -> bool {
        forall|i: int| 0 <= i < self.fields.len() ==> (#[trigger] self.fields[i]).wf()
    }
}

impl MessagesState {
    /// Whether every field of every message of the state is well formed.
    pub open spec fn wf(self) -> bool {
        &&& forall|i: int| 0 <= i < self.messages.len() ==> (#[trigger] self.messages[i]).wf()
        &&& self.current matches Some(message) ==> message.wf()
    }

    /// The state before the first row: no message, and a category without a name.
    pub open spec fn initial() -> MessagesState {
        MessagesState { messages: Seq::empty(), current: None, category: Seq::empty() }
    }

    /// The messages of this state, the one that is being added to last.
    pub open spec fn flushed(self) -> Seq<FitMessageView> {
        match self.current {
            Some(message) => self.messages.push(message),
            None => self.messages,
        }
    }
}

/// Whether `row` names a category: of its first four cells only the fourth holds
/// anything.
pub open spec fn is_category_row(row: Seq<Seq<char>>) -> bool {
    &&& row[MESSAGE_NAME_IDX as int].len() == 0
    &&& row[FIELD_DEF_NUMBER_IDX as int].len() == 0
    &&& row[FIELD_NAME_IDX as int].len() == 0
    &&& row[FIELD_TYPE_IDX as int].len() > 0
}

/// Whether `row` starts a message: it names one.
pub open spec fn is_message_row(row: Seq<Seq<char>>) -> bool {
    row[MESSAGE_NAME_IDX as int].len() > 0
}

/// Whether `row` describes a field: it starts no message and has a definition number.
/// The rows that are left over are skipped, but for the category that one may name.
pub open spec fn is_field_row(row: Seq<Seq<char>>) -> bool {
    !is_message_row(row) && row[FIELD_DEF_NUMBER_IDX as int].len() > 0
}

/// The state after `row`, or the rule that `row` breaks.
///
/// A row that starts a message completes the message before it. A field row adds its
/// field to the message that was started last, so there must be one.
pub open spec fn message_step(state: MessagesState, row: Seq<Seq<char>>) -> Result<
    MessagesState,
    SchemaErrorKind,
> {
    let category = if is_category_row(row) {
        row[FIELD_TYPE_IDX as int]
    } else {
        state.category
    };
    if row.len() != MESSAGE_COLUMNS {
        Err(SchemaErrorKind::ColumnCount)
    } else if is_message_row(row) {
        Ok(
            MessagesState {
                messages: state.flushed(),
                current: Some(
                    FitMessageView {
                        name: row[MESSAGE_NAME_IDX as int],
                        comment: optional_text(row[COMMENT_IDX as int]),
                        fields: Seq::empty(),
                    },
                ),
                category,
            },
        )
    } else if !is_field_row(row) {
        Ok(MessagesState { category, ..state })
    } else {
        match state.current {
            None => Err(SchemaErrorKind::Orphan),
            Some(message) => match field_row_result(category, row) {
                Err(kind) => Err(kind),
                Ok(field) => Ok(
                    MessagesState {
                        messages: state.messages,
                        current: Some(
                            FitMessageView { fields: message.fields.push(field), ..message },
                        ),
                        category,
                    },
                ),
            },
        }
    }
}

/// The state after the first `count` rows of `rows`, or the error of the first row
/// among them that breaks a rule.
pub open spec fn messages_after(rows: Seq<Seq<Seq<char>>>, count: nat) -> Result<
    MessagesState,
    SchemaError,
>
    decreases count,
{
    if count == 0 {
        Ok(MessagesState::initial())
    } else {
        match messages_after(rows, (count - 1) as nat) {
            Err(error) => Err(error),
            Ok(state) => match message_step(state, rows[count - 1]) {
                Err(kind) => Err(SchemaError { kind, row: (count - 1) as usize }),
                Ok(next) => Ok(next),
            },
        }
    }
}

/// The messages that the rows of the message table describe, in the order of the
/// table, or the error of the first row that breaks a rule.
pub open spec fn messages_of(rows: Seq<Seq<Seq<char>>>) -> Result<
    Seq<FitMessageView>,
    SchemaError,
> {
    match messages_after(rows, rows.len()) {
        Err(error) => Err(error),
        Ok(state) => Ok(state.flushed()),
    }
}

/// The mathematical content of what loading the message table hands back.
pub open spec fn loaded_messages(result: Result<Vec<FitMessage>, SchemaError>) -> Result<
    Seq<FitMessageView>,
    SchemaError,
> {
    match result {
        Ok(messages) => Ok(messages.deep_view()),
        Err(error) => Err(error),
    }
}

/// Once a row has broken a rule, the rows after it change nothing.
proof fn lemma_messages_error_persists(rows: Seq<Seq<Seq<char>>>, failed: nat, count: nat)
    requires
        failed <= count,
        messages_after(rows, failed) is Err,
    ensures
        messages_after(rows, count) == messages_after(rows, failed),
    decreases count,
{
    if count > failed {
        lemma_messages_error_persists(rows, failed, (count - 1) as nat);
    }
}

/// A row keeps the fields of the messages well formed.
proof fn lemma_message_step_wf(state: MessagesState, row: Seq<Seq<char>>)
    requires
        state.wf(),
    ensures
        message_step(state, row) matches Ok(next) ==> next.wf(),
{
    if let Ok(next) = message_step(state, row) {
        if row.len() == MESSAGE_COLUMNS && !is_message_row(row) && is_field_row(row) {
            let category = next.category;
            lemma_field_row_wf(category, row);
            let before = state.current.unwrap();
            let after = next.current.unwrap();
            assert forall|i: int| 0 <= i < after.fields.len() implies (
            #[trigger] after.fields[i]).wf() by {
                if i < before.fields.len() {
                    assert(after.fields[i] == before.fields[i]);
                }
            }
        }
    }
}

/// The state after any number of rows holds well-formed fields only.
proof fn lemma_messages_after_wf(rows: Seq<Seq<Seq<char>>>, count: nat)
    ensures
        messages_after(rows, count) matches Ok(state) ==> state.wf(),
    decreases count,
{
    if count > 0 {
        lemma_messages_after_wf(rows, (count - 1) as nat);
        if let Ok(state) = messages_after(rows, (count - 1) as nat) {
            lemma_message_step_wf(state, rows[count - 1]);
        }
    }
}

/// Every field of every message that the loader hands out is well formed.
pub proof fn lemma_messages_wf(rows: Seq<Seq<Seq<char>>>)
    ensures
        messages_of(rows) matches Ok(messages) ==> forall|i: int|
            0 <= i < messages.len() ==> (#[trigger] messages[i]).wf(),
{
    lemma_messages_after_wf(rows, rows.len());
}

/// The loading of the message table, row by row.
pub struct MessageLoader {
    pub messages: Vec<FitMessage>,
    pub current: Option<FitMessage>,
    pub category: String,
}

impl View for MessageLoader {
    type V = MessagesState;

    open spec fn view(&self) -> MessagesState {
        MessagesState {
            messages: self.messages.deep_view(),
            current: self.current.deep_view(),
            category: self.category@,
        }
    }
}

impl MessageLoader {
    /// The loader before the first row.
    pub fn new() -> (loader: MessageLoader)
        ensures
            loader@ == MessagesState::initial(),
    {
        let messages: Vec<FitMessage> = Vec::new();
        assert(messages.deep_view() =~= Seq::empty());
        MessageLoader { messages, current: None, category: String::new() }
    }

    /// Completes the message that is being added to, if there is one.
    fn flush(self) -> (loader: MessageLoader)
        ensures
            loader@ == (MessagesState { messages: self@.flushed(), current: None, ..self@ }),
    {
        let MessageLoader { messages, current, category } = self;
        let mut messages = messages;
        let ghost before = messages.deep_view();
        match current {
            Some(message) => {
                messages.push(message);
                assert(messages.deep_view() =~= before.push(message@));
            },
            None => {},
        }
        MessageLoader { messages, current: None, category }
    }

    /// Adds `field` to the message that is being added to.
    fn add_field(self, field: FitMessageField) -> (loader: MessageLoader)
        requires
            self.current is Some,
        ensures
            loader@ == (MessagesState {
                current: Some(
                    FitMessageView {
                        fields: self@.current.unwrap().fields.push(field@),
                        ..self@.current.unwrap()
                    },
                ),
                ..self@
            }),
    {
        let MessageLoader { messages, current, category } = self;
        let FitMessage { name, comment, fields } = current.unwrap();
        let mut fields = fields;
        let ghost before = fields.deep_view();
        fields.push(field);
        assert(fields.deep_view() =~= before.push(field@));
        MessageLoader { messages, current: Some(FitMessage { name, comment, fields }), category }
    }

    /// Takes in the next row of the table.
    pub fn step(self, row: &Vec<String>) -> (result: Result<MessageLoader, SchemaErrorKind>)
        ensures
            match message_step(self@, row.deep_view()) {
                Ok(next) => result matches Ok(loader) && loader@ == next,
                Err(kind) => result matches Err(error) && error == kind,
            },
    {
        let ghost cells = row.deep_view();
        assert(forall|k: int| 0 <= k < row.len() ==> cells[k] == (#[trigger] row[k])@);
        if row.len() != MESSAGE_COLUMNS {
            return Err(SchemaErrorKind::ColumnCount);
        }
        let mut loader = self;
        if row[MESSAGE_NAME_IDX].as_str().is_empty()
            && row[FIELD_DEF_NUMBER_IDX].as_str().is_empty()
            && row[FIELD_NAME_IDX].as_str().is_empty()
            && !row[FIELD_TYPE_IDX].as_str().is_empty() {
            loader.category = row[FIELD_TYPE_IDX].clone();
        }
        if !row[MESSAGE_NAME_IDX].as_str().is_empty() {
            let mut loader = loader.flush();
            let fields: Vec<FitMessageField> = Vec::new();
            assert(fields.deep_view() =~= Seq::empty());
            loader.current =
            Some(
                FitMessage {
                    name: row[MESSAGE_NAME_IDX].clone(),
                    comment: optional_cell(&row[COMMENT_IDX]),
                    fields,
                },
            );
            Ok(loader)
        } else if row[FIELD_DEF_NUMBER_IDX].as_str().is_empty() {
            Ok(loader)
        } else if loader.current.is_none() {
            Err(SchemaErrorKind::Orphan)
        } else {
            match parse_field_row(&loader.category, row) {
                Err(kind) => Err(kind),
                Ok(field) => Ok(loader.add_field(field)),
            }
        }
    }

    /// The messages that the rows taken in describe.
    pub fn finish(self) -> (messages: Vec<FitMessage>)
        ensures
            messages.deep_view() == self@.flushed(),
    {
        self.flush().messages
    }
}

/// Builds the message catalog from the rows of the message table. The heading of the
/// table is not among the rows.
pub fn messages_from_rows(rows: &Vec<Vec<String>>) -> (result: Result<
    Vec<FitMessage>,
    SchemaError,
>)
    ensures
        loaded_messages(result) == messages_of(rows.deep_view()),
{
    let ghost table = rows.deep_view();
    let mut loader = MessageLoader::new();
    let mut i: usize = 0;
    while i < rows.len()
        invariant
            table == rows.deep_view(),
            i <= rows.len(),
            messages_after(table, i as nat) == Ok::<MessagesState, SchemaError>(loader@),
        decreases rows.len() - i,
    {
        assert(table[i as int] == rows[i as int].deep_view());
        match loader.step(&rows[i]) {
            Ok(next) => {
                loader = next;
            },
            Err(kind) => {
                proof {
                    lemma_messages_error_persists(table, (i + 1) as nat, table.len());
                }
                return Err(SchemaError { kind, row: i });
            },
        }
        i += 1;
    }
    Ok(loader.finish())
}

/// The messages that the message table `content` describes, which is given in
/// comma-separated form with a heading. A text that cannot be cut into rows is an
/// error of kind `Table`, at row zero.
pub open spec fn messages_of_table(content: Seq<char>) -> Result<Seq<FitMessageView>, SchemaError> {
    match csv_rows(content) {
        None => Err(SchemaError { kind: SchemaErrorKind::Table, row: 0 }),
        Some(rows) => messages_of(rows),
    }
}

/// Builds the message catalog from the message table `content`, which is given in
/// comma-separated form with a heading.
pub fn read_messages(content: &str) -> (result: Result<Vec<FitMessage>, SchemaError>)
    ensures
        loaded_messages(result) == messages_of_table(content@),
{
    match read_csv(content) {
        Ok(rows) => messages_from_rows(&rows),
        Err(_) => Err(SchemaError { kind: SchemaErrorKind::Table, row: 0 }),
    }
}

/// Loading is a function of the table: whatever two loads of the same table hand back
/// has the same content.
pub proof fn lemma_read_messages_repeatable(
    content: Seq<char>,
    first: Result<Vec<FitMessage>, SchemaError>,
    second: Result<Vec<FitMessage>, SchemaError>,
)
    requires
        loaded_messages(first) == messages_of_table(content),
        loaded_messages(second) == messages_of_table(content),
    ensures
        loaded_messages(first) == loaded_messages(second),
{
}

} // verus!
