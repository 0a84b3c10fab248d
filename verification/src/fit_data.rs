//! Data records: the values of the fields that a definition record has announced.

use crate::base_type::BaseType;
use crate::developer::{developer_field_value, DeveloperCatalog, DeveloperCatalogView};
use crate::error::{FitError, FitErrorKind};
use crate::fit_records::{
    truncated, DefinitionRecord, DefinitionRecordView, DeveloperFieldDefinition, Endianness,
    FieldDefinition, FieldDefinitionView,
};
use crate::search::{first_index, lemma_first_index_found};
use vstd::prelude::*;
use vstd::utf8::{decode_utf8, valid_utf8};

verus! {

/// Two hundred and fifty-six to the power of `n`: the number of values that `n` bytes
/// can take.
pub open spec fn pow256(n: nat) -> nat
    decreases n,
{
    if n == 0 {
        1
    } else {
        256 * pow256((n - 1) as nat)
    }
}

/// The unsigned number that `bytes` write with the least significant byte first.
pub open spec fn uint_le(bytes: Seq<u8>) -> nat
    decreases bytes.len(),
{
    if bytes.len() == 0 {
        0
    } else {
        256 * uint_le(bytes.drop_first()) + bytes[0] as nat
    }
}

/// The unsigned number that `bytes` write with the most significant byte first.
pub open spec fn uint_be(bytes: Seq<u8>) -> nat
    decreases bytes.len(),
{
    if bytes.len() == 0 {
        0
    } else {
        256 * uint_be(bytes.drop_last()) + bytes.last() as nat
    }
}

/// The unsigned number that `bytes` write in the byte order `order`.
pub open spec fn uint_of(bytes: Seq<u8>, order: Endianness) -> nat {
    match order {
        Endianness::LittleEndian => uint_le(bytes),
        Endianness::BigEndian => uint_be(bytes),
    }
}

/// The signed number that the unsigned number `value` of `size` bytes stands for in
/// two's complement.
pub open spec fn twos_complement(value: nat, size: nat) -> int {
    if 2 * value >= pow256(size) {
        value - pow256(size)
    } else {
        value as int
    }
}

/// The numbers that up to eight bytes can write.
pub proof fn lemma_pow256()
    ensures
        pow256(0) == 1,
        pow256(1) == 0x100,
        pow256(2) == 0x1_0000,
        pow256(3) == 0x100_0000,
        pow256(4) == 0x1_0000_0000,
        pow256(5) == 0x100_0000_0000,
        pow256(6) == 0x1_0000_0000_0000,
        pow256(7) == 0x100_0000_0000_0000,
        pow256(8) == 0x1_0000_0000_0000_0000,
{
    reveal_with_fuel(pow256, 9);
}

/// A number written in bytes is smaller than the number of values that as many bytes
/// can take.
pub proof fn lemma_uint_bound(bytes: Seq<u8>)
    ensures
        uint_le(bytes) < pow256(bytes.len()),
        uint_be(bytes) < pow256(bytes.len()),
    decreases bytes.len(),
{
    if bytes.len() > 0 {
        lemma_uint_bound(bytes.drop_first());
        lemma_uint_bound(bytes.drop_last());
    }
}

/// Reads the unsigned number that `bytes` write in the byte order `order`.
pub fn read_uint(bytes: &[u8], order: Endianness) -> (value: u64)
    requires
        bytes.len() <= 8,
    ensures
        value == uint_of(bytes@, order),
{
    let len = bytes.len();
    let mut value: u64 = 0;
    let mut i: usize = 0;
    match order {
        Endianness::BigEndian => {
            assert(bytes@.take(0) =~= Seq::<u8>::empty());
            while i < len
                invariant
                    len == bytes.len(),
                    len <= 8,
                    i <= len,
                    value == uint_be(bytes@.take(i as int)),
                decreases len - i,
            {
                proof {
                    lemma_uint_bound(bytes@.take(i as int));
                    lemma_uint_bound(bytes@.take(i + 1));
                    lemma_pow256_grows(i as nat + 1, 8);
                    lemma_pow256();
                    assert(pow256(i as nat + 1) == 256 * pow256(i as nat));
                    assert(bytes@.take(i + 1).drop_last() =~= bytes@.take(i as int));
                }
                value = value * 256 + bytes[i] as u64;
                i += 1;
            }
            assert(bytes@.take(len as int) =~= bytes@);
        },
        Endianness::LittleEndian => {
            assert(bytes@.skip(len as int) =~= Seq::<u8>::empty());
            while i < len
                invariant
                    len == bytes.len(),
                    len <= 8,
                    i <= len,
                    value == uint_le(bytes@.skip(len - i)),
                decreases len - i,
            {
                proof {
                    lemma_uint_bound(bytes@.skip(len - i));
                    lemma_uint_bound(bytes@.skip(len - i - 1));
                    lemma_pow256_grows(i as nat + 1, 8);
                    lemma_pow256();
                    assert(pow256(i as nat + 1) == 256 * pow256(i as nat));
                    assert(bytes@.skip(len - i - 1).drop_first() =~= bytes@.skip(len - i));
                }
                value = value * 256 + bytes[len - i - 1] as u64;
                i += 1;
            }
            assert(bytes@.skip(0) =~= bytes@);
        },
    }
    value
}

/// More bytes can take more values.
proof fn lemma_pow256_grows(fewer: nat, more: nat)
    requires
        fewer <= more,
    ensures
        pow256(fewer) <= pow256(more),
    decreases more,
{
    if fewer < more {
        lemma_pow256_grows(fewer, (more - 1) as nat);
    }
}

/// One element of a numeric base type. A floating-point element is kept as the bit
/// pattern that IEEE 754 gives it.
#[derive(Debug, Clone, Copy, PartialEq, Eq, Structural)]
pub enum Scalar {
    UInt(u64),
    SInt(i64),
    Float32(u32),
    Float64(u64),
}

/// The value of a field, according to its base type.
#[derive(Debug, Clone, PartialEq, Eq)]
pub enum FieldValue {
    /// A single element.
    Scalar(Scalar),
    /// The text of a field of the base type `string`.
    Text(String),
    /// The bytes of the field as they stand.
    Bytes(Vec<u8>),
    /// More than one element.
    Array(Vec<Scalar>),
}

/// The mathematical content of a [`FieldValue`].
pub enum FieldValueView {
    Scalar(Scalar),
    Text(Seq<char>),
    Bytes(Seq<u8>),
    Array(Seq<Scalar>),
}

impl View for FieldValue {
    type V = FieldValueView;

    open spec fn view(&self) -> FieldValueView {
        match self {
            FieldValue::Scalar(scalar) => FieldValueView::Scalar(*scalar),
            FieldValue::Text(text) => FieldValueView::Text(text@),
            FieldValue::Bytes(bytes) => FieldValueView::Bytes(bytes@),
            FieldValue::Array(elements) => FieldValueView::Array(elements@),
        }
    }
}

/// The value of one field of a data record.
#[derive(Debug, Clone, PartialEq, Eq)]
pub struct ResolvedValue {
    /// The name that the profile gives the field. Decoding leaves it open.
    pub field_name: Option<String>,
    /// The bytes of the field as they stand in the record.
    pub raw_bytes: Vec<u8>,
    /// The value that the bytes write.
    pub typed: FieldValue,
    /// Whether the field holds the pattern that stands for "no value".
    pub is_invalid: bool,
}

/// The mathematical content of a [`ResolvedValue`].
pub struct ResolvedValueView {
    pub field_name: Option<Seq<char>>,
    pub raw_bytes: Seq<u8>,
    pub typed: FieldValueView,
    pub is_invalid: bool,
}

impl View for ResolvedValue {
    type V = ResolvedValueView;

    open spec fn view(&self) -> ResolvedValueView {
        ResolvedValueView {
            field_name: self.field_name.deep_view(),
            raw_bytes: self.raw_bytes@,
            typed: self.typed@,
            is_invalid: self.is_invalid,
        }
    }
}

impl DeepView for ResolvedValue {
    type V = ResolvedValueView;

    open spec fn deep_view(&self) -> ResolvedValueView {
        self@
    }
}

/// Whether the elements of `base_type` are signed integers.
pub open spec fn is_signed(base_type: BaseType) -> bool {
    base_type == BaseType::Sint8 || base_type == BaseType::Sint16 || base_type
        == BaseType::Sint32 || base_type == BaseType::Sint64
}

/// The element of `base_type` that `bytes` write in the byte order `order`.
pub open spec fn scalar_of(base_type: BaseType, bytes: Seq<u8>, order: Endianness) -> Scalar {
    let value = uint_of(bytes, order);
    if is_signed(base_type) {
        Scalar::SInt(twos_complement(value, bytes.len()) as i64)
    } else if base_type == BaseType::Float32 {
        Scalar::Float32(value as u32)
    } else if base_type == BaseType::Float64 {
        Scalar::Float64(value as u64)
    } else {
        Scalar::UInt(value as u64)
    }
}

/// Reads one element of `base_type` from `bytes`, which hold just that element.
pub fn read_scalar(base_type: BaseType, bytes: &[u8], order: Endianness) -> (scalar: Scalar)
    requires
        bytes.len() == base_type.spec_size(),
    ensures
        scalar == scalar_of(base_type, bytes@, order),
{
    let value = read_uint(bytes, order);
    proof {
        lemma_pow256();
        lemma_uint_bound(bytes@);
    }
    match base_type {
        BaseType::Sint8 => Scalar::SInt(
            if value >= 0x80 {
                (value as i128 - 0x100) as i64
            } else {
                value as i64
            },
        ),
        BaseType::Sint16 => Scalar::SInt(
            if value >= 0x8000 {
                (value as i128 - 0x1_0000) as i64
            } else {
                value as i64
            },
        ),
        BaseType::Sint32 => Scalar::SInt(
            if value >= 0x8000_0000 {
                (value as i128 - 0x1_0000_0000) as i64
            } else {
                value as i64
            },
        ),
        BaseType::Sint64 => Scalar::SInt(
            if value >= 0x8000_0000_0000_0000 {
                (value as i128 - 0x1_0000_0000_0000_0000) as i64
            } else {
                value as i64
            },
        ),
        BaseType::Float32 => Scalar::Float32(value as u32),
        BaseType::Float64 => Scalar::Float64(value),
        _ => Scalar::UInt(value),
    }
}

/// The bytes of the `i`-th of the elements of `size` bytes that lie in `raw`.
pub open spec fn element_bytes(raw: Seq<u8>, size: int, i: int) -> Seq<u8> {
    raw.subrange(i * size, i * size + size)
}

/// The number of bytes of `raw` that come before its first zero byte.
pub open spec fn text_length(raw: Seq<u8>) -> nat
    decreases raw.len(),
{
    if raw.len() == 0 || raw[0] == 0 {
        0
    } else {
        1 + text_length(raw.drop_first())
    }
}

/// The text that the bytes `raw` of a field of the base type `string` hold: the bytes
/// up to the first zero byte, or all of them where there is none, read as UTF-8.
/// There is no text where those bytes are not UTF-8.
pub open spec fn text_of(raw: Seq<u8>) -> Option<Seq<char>> {
    let body = raw.take(text_length(raw) as int);
    if valid_utf8(body) {
        Some(decode_utf8(body))
    } else {
        None
    }
}

/// The value that the bytes `raw` of a field write, according to the base type and the
/// size that `field` declares.
///
/// A field of the base type `string` holds text, or its bytes as they stand where
/// they are no text. A field of more than one element of the base type `byte` holds
/// bytes as they stand. Any other field holds one element or an array of elements.
pub open spec fn field_value_of(
    field: FieldDefinitionView,
    raw: Seq<u8>,
    order: Endianness,
) -> FieldValueView {
    let base_type = field.base_type.base_type;
    let size = field.base_type.size as int;
    if base_type == BaseType::String {
        match text_of(raw) {
            Some(text) => FieldValueView::Text(text),
            None => FieldValueView::Bytes(raw),
        }
    } else if field.element_count() == 1 {
        FieldValueView::Scalar(scalar_of(base_type, raw, order))
    } else if base_type == BaseType::Byte {
        FieldValueView::Bytes(raw)
    } else {
        FieldValueView::Array(
            Seq::new(
                field.element_count() as nat,
                |i: int| scalar_of(base_type, element_bytes(raw, size, i), order),
            ),
        )
    }
}

/// Whether the bytes `raw` of a field stand for "no value": every element of the field
/// holds the invalid pattern of the base type.
pub open spec fn is_invalid_value(
    field: FieldDefinitionView,
    raw: Seq<u8>,
    order: Endianness,
) -> bool {
    forall|i: int|
        0 <= i < field.element_count() ==> uint_of(
            #[trigger] element_bytes(raw, field.base_type.size as int, i),
            order,
        ) == field.base_type.invalid_value
}

/// What decoding makes of the bytes `raw` of the field `field`.
pub open spec fn resolved_value_of(
    field: FieldDefinitionView,
    raw: Seq<u8>,
    order: Endianness,
) -> ResolvedValueView {
    ResolvedValueView {
        field_name: None,
        raw_bytes: raw,
        typed: field_value_of(field, raw, order),
        is_invalid: is_invalid_value(field, raw, order),
    }
}

/// What decoding makes of the bytes `raw` of a developer field: the bytes as they
/// stand.
pub open spec fn developer_value_of(raw: Seq<u8>) -> ResolvedValueView {
    ResolvedValueView {
        field_name: None,
        raw_bytes: raw,
        typed: FieldValueView::Bytes(raw),
        is_invalid: false,
    }
}

/// Calls `String::from_utf8`, which hands back the text that the bytes hold where
/// they are valid UTF-8, and an error where they are not. The contract says so over
/// the definition of UTF-8 that `vstd` gives.
#[verifier::external_body]
pub(crate) fn utf8_text(bytes: Vec<u8>) -> (text: Option<String>)
    ensures
        match text {
            Some(decoded) => valid_utf8(bytes@) && decoded@ == decode_utf8(bytes@),
            None => !valid_utf8(bytes@),
        },
{
    match String::from_utf8(bytes) {
        Ok(decoded) => Some(decoded),
        Err(_) => None,
    }
}

/// Where no byte before `i` is zero, and `i` is the end of the bytes or a zero byte,
/// the text of the bytes is `i` bytes long.
proof fn lemma_text_length(raw: Seq<u8>, i: int)
    requires
        0 <= i <= raw.len(),
        forall|k: int| 0 <= k < i ==> raw[k] != 0,
        i == raw.len() || raw[i] == 0,
    ensures
        text_length(raw) == i,
    decreases raw.len(),
{
    if i > 0 {
        let rest = raw.drop_first();
        assert forall|k: int| 0 <= k < i - 1 implies rest[k] != 0 by {
            assert(rest[k] == raw[k + 1]);
        }
        lemma_text_length(rest, i - 1);
    }
}

/// Reads the text of a field of the base type `string`.
pub fn read_text(raw: &[u8]) -> (text: Option<String>)
    ensures
        text.deep_view() == text_of(raw@),
{
    let mut end: usize = 0;
    while end < raw.len() && raw[end] != 0
        invariant
            end <= raw.len(),
            forall|k: int| 0 <= k < end ==> raw@[k] != 0,
        decreases raw.len() - end,
    {
        end += 1;
    }
    proof {
        lemma_text_length(raw@, end as int);
    }
    let body = vstd::slice::slice_to_vec(&raw[0..end]);
    assert(body@ =~= raw@.take(end as int));
    utf8_text(body)
}

/// Decodes the bytes `raw` of the field `field` of a data record in the byte order
/// `order`.
pub fn decode_field_value(field: &FieldDefinition, raw: &[u8], order: Endianness) -> (value:
    ResolvedValue)
    requires
        field@.wf(),
        raw.len() == field.field_size,
    ensures
        value@ == resolved_value_of(field@, raw@, order),
{
    let base_type = field.base_type.base_type;
    let size: usize = base_type.size() as usize;
    let count: usize = raw.len() / size;
    let invalid_pattern = base_type.invalid_value();
    let ghost model = field@;
    assert(count == model.element_count());
    assert(count * size == raw.len()) by (nonlinear_arith)
        requires
            count == raw.len() / size,
            raw.len() % size == 0,
            size > 0,
    ;
    let mut elements: Vec<Scalar> = Vec::new();
    let mut is_invalid = true;
    let mut i: usize = 0;
    let mut offset: usize = 0;
    while i < count
        invariant
            model == field@,
            model.wf(),
            base_type == model.base_type.base_type,
            size == base_type.spec_size(),
            size == model.base_type.size,
            invalid_pattern == model.base_type.invalid_value,
            count == model.element_count(),
            count * size == raw.len(),
            i <= count,
            offset == i * size,
            elements@ =~= Seq::new(
                i as nat,
                |k: int| scalar_of(base_type, element_bytes(raw@, size as int, k), order),
            ),
            is_invalid <==> forall|k: int|
                0 <= k < i ==> uint_of(#[trigger] element_bytes(raw@, size as int, k), order)
                    == invalid_pattern,
        decreases count - i,
    {
        assert((i + 1) * size <= count * size) by (nonlinear_arith)
            requires
                i < count,
                size > 0,
        ;
        assert((i + 1) * size == i * size + size) by (nonlinear_arith);
        let element: &[u8] = &raw[offset..offset + size];
        assert(element@ == element_bytes(raw@, size as int, i as int));
        if read_uint(element, order) != invalid_pattern {
            is_invalid = false;
        }
        elements.push(read_scalar(base_type, element, order));
        offset += size;
        i += 1;
    }
    let raw_bytes = vstd::slice::slice_to_vec(raw);
    let typed = match base_type {
        BaseType::String => match read_text(raw) {
            Some(text) => FieldValue::Text(text),
            None => FieldValue::Bytes(vstd::slice::slice_to_vec(raw)),
        },
        _ => if count == 1 {
            assert(raw.len() == size) by (nonlinear_arith)
                requires
                    count == 1,
                    count * size == raw.len(),
            ;
            assert(element_bytes(raw@, size as int, 0) =~= raw@);
            FieldValue::Scalar(elements[0])
        } else {
            match base_type {
                BaseType::Byte => FieldValue::Bytes(vstd::slice::slice_to_vec(raw)),
                _ => FieldValue::Array(elements),
            }
        },
    };
    ResolvedValue { field_name: None, raw_bytes, typed, is_invalid }
}

/// The number of bytes that the fields `fields` take in a data record.
pub open spec fn fields_size(fields: Seq<FieldDefinitionView>) -> nat
    decreases fields.len(),
{
    if fields.len() == 0 {
        0
    } else {
        fields_size(fields.drop_last()) + fields.last().field_size as nat
    }
}

/// The number of bytes that the developer fields `fields` take in a data record.
pub open spec fn developer_fields_size(fields: Seq<DeveloperFieldDefinition>) -> nat
    decreases fields.len(),
{
    if fields.len() == 0 {
        0
    } else {
        developer_fields_size(fields.drop_last()) + fields.last().field_size as nat
    }
}

/// The number of bytes of a data record under `definition`, its header byte aside: the
/// declared sizes of all fields and developer fields together.
pub open spec fn data_record_size(definition: DefinitionRecordView) -> nat {
    fields_size(definition.field_definitions) + developer_fields_size(
        definition.developer_field_definitions,
    )
}

/// The values of the fields of the data record whose body starts at `start`: the
/// fields lie one behind the other, each as long as `definition` declares it.
pub open spec fn field_values_at(
    data: Seq<u8>,
    definition: DefinitionRecordView,
    start: int,
) -> Seq<ResolvedValueView> {
    let fields = definition.field_definitions;
    Seq::new(
        fields.len(),
        |i: int|
            resolved_value_of(
                fields[i],
                data.subrange(
                    start + fields_size(fields.take(i)),
                    start + fields_size(fields.take(i + 1)),
                ),
                definition.architecture,
            ),
    )
}

/// The values of the developer fields, which lie one behind the other from `start`,
/// each as long as `definition` declares it. They are read as `catalog` describes
/// them.
pub open spec fn developer_values_at(
    data: Seq<u8>,
    definition: DefinitionRecordView,
    catalog: DeveloperCatalogView,
    start: int,
) -> Seq<ResolvedValueView> {
    let fields = definition.developer_field_definitions;
    Seq::new(
        fields.len(),
        |i: int|
            developer_field_value(
                catalog,
                fields[i],
                data.subrange(
                    start + developer_fields_size(fields.take(i)),
                    start + developer_fields_size(fields.take(i + 1)),
                ),
                definition.architecture,
            ),
    )
}

/// The values of the data record under `definition` whose body starts at `start`, the
/// byte after the record header: first those of the fields, then those of the
/// developer fields. With them comes the offset of the byte after the record.
pub open spec fn data_record_at(
    data: Seq<u8>,
    definition: DefinitionRecordView,
    catalog: DeveloperCatalogView,
    start: int,
) -> Result<(Seq<ResolvedValueView>, int), FitError> {
    if data.len() < start + data_record_size(definition) {
        Err(truncated(data.len()))
    } else {
        Ok(
            (
                field_values_at(data, definition, start) + developer_values_at(
                    data,
                    definition,
                    catalog,
                    start + fields_size(definition.field_definitions),
                ),
                start + data_record_size(definition),
            ),
        )
    }
}

/// Whether a field has the definition number `number`.
pub open spec fn has_number(number: u8) -> spec_fn(FieldDefinitionView) -> bool {
    |field: FieldDefinitionView| field.field_definition_number == number
}

/// Of the values `values` of a data record under `definition`, the value of the first
/// field with the definition number `number`.
pub open spec fn value_of_field(
    definition: DefinitionRecordView,
    values: Seq<ResolvedValueView>,
    number: u8,
) -> Option<ResolvedValueView> {
    match first_index(definition.field_definitions, has_number(number)) {
        Some(index) => if index < values.len() {
            Some(values[index])
        } else {
            None
        },
        None => None,
    }
}

/// Finds the value of the first field with the definition number `number` among the
/// values `values` of a data record under `definition`.
pub fn find_field_value<'a>(
    definition: &DefinitionRecord,
    values: &'a Vec<ResolvedValue>,
    number: u8,
) -> (value: Option<&'a ResolvedValue>)
    ensures
        value.deep_view() == value_of_field(definition@, values.deep_view(), number),
{
    let ghost fields = definition@.field_definitions;
    let mut i: usize = 0;
    while i < definition.field_definitions.len()
        invariant
            fields == definition@.field_definitions,
            i <= definition.field_definitions.len(),
            forall|k: int| 0 <= k < i ==> !has_number(number)(#[trigger] fields[k]),
        decreases definition.field_definitions.len() - i,
    {
        assert(fields[i as int] == definition.field_definitions[i as int]@);
        if definition.field_definitions[i].field_definition_number == number {
            proof {
                lemma_first_index_found(fields, has_number(number), i as int);
            }
            if i >= values.len() {
                return None;
            }
            assert(values.deep_view()[i as int] == values[i as int]@);
            return Some(&values[i]);
        }
        i += 1;
    }
    proof {
        lemma_first_index_found(fields, has_number(number), fields.len() as int);
    }
    None
}

/// The number of eight bits that `value` holds: its single unsigned element of at most
/// eight bits, unless it stands for "no value".
pub open spec fn u8_of_value(value: ResolvedValueView) -> Option<u8> {
    match value.typed {
        FieldValueView::Scalar(Scalar::UInt(number)) => if !value.is_invalid && number <= 0xFF {
            Some(number as u8)
        } else {
            None
        },
        _ => None,
    }
}

/// The number of 32 bits that `value` holds: its single unsigned element of at most 32
/// bits, unless it stands for "no value".
pub open spec fn u32_of_value(value: ResolvedValueView) -> Option<u32> {
    match value.typed {
        FieldValueView::Scalar(Scalar::UInt(number)) => if !value.is_invalid && number
            <= 0xFFFF_FFFF {
            Some(number as u32)
        } else {
            None
        },
        _ => None,
    }
}

/// The text that `value` holds, which is empty where it holds none.
pub open spec fn text_of_value(value: ResolvedValueView) -> Seq<char> {
    match value.typed {
        FieldValueView::Text(text) => text,
        _ => Seq::empty(),
    }
}

impl ResolvedValue {
    /// The number of eight bits that this value holds.
    pub fn as_u8(&self) -> (number: Option<u8>)
        ensures
            number == u8_of_value(self@),
    {
        match &self.typed {
            FieldValue::Scalar(Scalar::UInt(number)) => if !self.is_invalid && *number <= 0xFF {
                Some(*number as u8)
            } else {
                None
            },
            _ => None,
        }
    }

    /// The number of 32 bits that this value holds.
    pub fn as_u32(&self) -> (number: Option<u32>)
        ensures
            number == u32_of_value(self@),
    {
        match &self.typed {
            FieldValue::Scalar(Scalar::UInt(number)) => if !self.is_invalid && *number
                <= 0xFFFF_FFFF {
                Some(*number as u32)
            } else {
                None
            },
            _ => None,
        }
    }

    /// The text that this value holds, which is empty where it holds none.
    pub fn text(&self) -> (text: String)
        ensures
            text@ == text_of_value(self@),
    {
        match &self.typed {
            FieldValue::Text(text) => text.clone(),
            _ => String::new(),
        }
    }
}

/// A data record takes as many bytes as its definition declares for all fields and
/// developer fields together, and has one value for each of them.
pub proof fn lemma_data_record_consumes(
    data: Seq<u8>,
    definition: DefinitionRecordView,
    catalog: DeveloperCatalogView,
    start: int,
)
    ensures
        data_record_at(data, definition, catalog, start) matches Ok((values, end)) ==> {
            &&& end - start == data_record_size(definition)
            &&& end <= data.len()
            &&& values.len() == definition.field_definitions.len()
                + definition.developer_field_definitions.len()
        },
{
}

/// Some of the fields take no more bytes than all of them.
proof fn lemma_fields_size_grows(fields: Seq<FieldDefinitionView>, some: int)
    requires
        0 <= some <= fields.len(),
    ensures
        fields_size(fields.take(some)) <= fields_size(fields),
    decreases fields.len(),
{
    if some == fields.len() {
        assert(fields.take(some) =~= fields);
    } else {
        lemma_fields_size_grows(fields.drop_last(), some);
        assert(fields.drop_last().take(some) =~= fields.take(some));
    }
}

/// Some of the developer fields take no more bytes than all of them.
proof fn lemma_developer_fields_size_grows(fields: Seq<DeveloperFieldDefinition>, some: int)
    requires
        0 <= some <= fields.len(),
    ensures
        developer_fields_size(fields.take(some)) <= developer_fields_size(fields),
    decreases fields.len(),
{
    if some == fields.len() {
        assert(fields.take(some) =~= fields);
    } else {
        lemma_developer_fields_size_grows(fields.drop_last(), some);
        assert(fields.drop_last().take(some) =~= fields.take(some));
    }
}

/// The number of bytes of a data record under `definition`, its header byte aside;
/// `None` where the number is too large for the machine.
pub fn data_record_length(definition: &DefinitionRecord) -> (length: Option<usize>)
    ensures
        match length {
            Some(size) => size == data_record_size(definition@),
            None => data_record_size(definition@) > usize::MAX,
        },
{
    let ghost fields = definition@.field_definitions;
    let ghost developer_fields = definition@.developer_field_definitions;
    let mut total: usize = 0;
    let mut i: usize = 0;
    assert(fields.take(0) =~= Seq::empty());
    while i < definition.field_definitions.len()
        invariant
            fields == definition@.field_definitions,
            i <= definition.field_definitions.len(),
            total == fields_size(fields.take(i as int)),
        decreases definition.field_definitions.len() - i,
    {
        let size = definition.field_definitions[i].field_size as usize;
        proof {
            assert(fields.take(i + 1).drop_last() =~= fields.take(i as int));
            assert(fields.take(i + 1).last() == definition.field_definitions[i as int]@);
            lemma_fields_size_grows(fields, i + 1);
        }
        if total > usize::MAX - size {
            return None;
        }
        total += size;
        i += 1;
    }
    assert(fields.take(fields.len() as int) =~= fields);
    let ghost fields_total = total;
    let mut i: usize = 0;
    assert(developer_fields.take(0) =~= Seq::empty());
    while i < definition.developer_field_definitions.len()
        invariant
            developer_fields == definition@.developer_field_definitions,
            fields_total == fields_size(definition@.field_definitions),
            i <= definition.developer_field_definitions.len(),
            total == fields_total + developer_fields_size(developer_fields.take(i as int)),
        decreases definition.developer_field_definitions.len() - i,
    {
        let size = definition.developer_field_definitions[i].field_size as usize;
        proof {
            assert(developer_fields.take(i + 1).drop_last() =~= developer_fields.take(i as int));
            lemma_developer_fields_size_grows(developer_fields, i + 1);
        }
        if total > usize::MAX - size {
            return None;
        }
        total += size;
        i += 1;
    }
    assert(developer_fields.take(developer_fields.len() as int) =~= developer_fields);
    Some(total)
}

/// Decodes the data record under `definition` whose body starts at
/// `data_start_offset`, the byte after the record header. Returns the values of the
/// fields, then those of the developer fields, read as `catalog` describes them, and
/// the offset of the byte after the record.
pub fn decode_data_record(
    data: &[u8],
    definition: &DefinitionRecord,
    catalog: &DeveloperCatalog,
    data_start_offset: usize,
) -> (result: Result<(Vec<ResolvedValue>, usize), FitError>)
    requires
        definition@.wf(),
    ensures
        match data_record_at(data@, definition@, catalog@, data_start_offset as int) {
            Ok((values, end)) => result matches Ok((decoded, next)) && decoded.deep_view()
                == values && next == end,
            Err(error) => result matches Err(failure) && failure == error,
        },
        result matches Ok((decoded, next)) ==> next == data_start_offset + data_record_size(
            definition@,
        ) && next <= data.len(),
{
    let len = data.len();
    let length = match data_record_length(definition) {
        Some(length) => length,
        None => {
            return Err(FitError { kind: FitErrorKind::Truncated, offset: len });
        },
    };
    if data_start_offset > len || length > len - data_start_offset {
        return Err(FitError { kind: FitErrorKind::Truncated, offset: len });
    }
    let ghost model = definition@;
    let ghost fields = model.field_definitions;
    let ghost developer_fields = model.developer_field_definitions;
    let mut values: Vec<ResolvedValue> = Vec::new();
    let mut offset: usize = data_start_offset;
    let mut i: usize = 0;
    assert(fields.take(0) =~= Seq::empty());
    while i < definition.field_definitions.len()
        invariant
            model == definition@,
            model.wf(),
            fields == model.field_definitions,
            len == data.len(),
            data_start_offset + data_record_size(model) <= len,
            i <= definition.field_definitions.len(),
            offset == data_start_offset + fields_size(fields.take(i as int)),
            values.deep_view() =~= field_values_at(data@, model, data_start_offset as int).take(
                i as int,
            ),
        decreases definition.field_definitions.len() - i,
    {
        let field = &definition.field_definitions[i];
        proof {
            assert(fields.take(i + 1).drop_last() =~= fields.take(i as int));
            assert(fields.take(i + 1).last() == field@);
            assert(fields[i as int] == field@);
            lemma_fields_size_grows(fields, i + 1);
        }
        let size = field.field_size as usize;
        let value = decode_field_value(
            field,
            &data[offset..offset + size],
            definition.architecture,
        );
        let ghost before = values.deep_view();
        values.push(value);
        assert(values.deep_view() =~= before.push(value@));
        offset += size;
        i += 1;
    }
    assert(fields.take(fields.len() as int) =~= fields);
    let ghost field_values = values.deep_view();
    assert(field_values =~= field_values_at(data@, model, data_start_offset as int));
    let first: usize = offset;
    let mut i: usize = 0;
    assert(developer_fields.take(0) =~= Seq::empty());
    while i < definition.developer_field_definitions.len()
        invariant
            model == definition@,
            developer_fields == model.developer_field_definitions,
            len == data.len(),
            first == data_start_offset + fields_size(model.field_definitions),
            data_start_offset + data_record_size(model) <= len,
            i <= definition.developer_field_definitions.len(),
            offset == first + developer_fields_size(developer_fields.take(i as int)),
            values.deep_view() =~= field_values + developer_values_at(
                data@,
                model,
                catalog@,
                first as int,
            ).take(i as int),
        decreases definition.developer_field_definitions.len() - i,
    {
        proof {
            assert(developer_fields.take(i + 1).drop_last() =~= developer_fields.take(i as int));
            lemma_developer_fields_size_grows(developer_fields, i + 1);
        }
        let field = &definition.developer_field_definitions[i];
        let size = field.field_size as usize;
        let value = catalog.decode_field_value(
            field,
            &data[offset..offset + size],
            definition.architecture,
        );
        let ghost before = values.deep_view();
        values.push(value);
        assert(values.deep_view() =~= before.push(value@));
        offset += size;
        i += 1;
    }
    assert(developer_fields.take(developer_fields.len() as int) =~= developer_fields);
    assert(values.deep_view() =~= field_values + developer_values_at(
        data@,
        model,
        catalog@,
        first as int,
    ));
    Ok((values, offset))
}

} // verus!
