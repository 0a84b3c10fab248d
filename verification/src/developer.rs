//! Developer data: fields that a file describes itself, by `developer_data_id` and
//! `field_description` messages that come before the records that use them.

use crate::base_type::{base_type_info, BaseType, BaseTypeInfo};
use crate::fit_data::{
    decode_field_value, developer_value_of, find_field_value, resolved_value_of, text_of_value,
    u8_of_value, value_of_field, FieldValue, ResolvedValue, ResolvedValueView,
};
use crate::fit_records::{
    DefinitionRecord, DefinitionRecordView, DeveloperFieldDefinition, Endianness, FieldDefinition,
    FieldDefinitionView,
};
use crate::search::{first_match, lemma_first_index_found};
use vstd::prelude::*;

verus! {

/// The global message number of the message that announces a developer.
pub const DEVELOPER_DATA_ID: u16 = 207;

/// The global message number of the message that describes a developer field.
pub const FIELD_DESCRIPTION: u16 = 206;

/// In a `developer_data_id` message, the definition number of the application id.
pub const APPLICATION_ID_FIELD: u8 = 1;

/// In a `developer_data_id` message, the definition number of the developer data index.
pub const DEVELOPER_DATA_INDEX_FIELD: u8 = 3;

/// In a `field_description` message, the definition number of the developer data index.
pub const DESCRIPTION_DEVELOPER_DATA_INDEX_FIELD: u8 = 0;

/// In a `field_description` message, the definition number of the number of the field
/// that is described.
pub const DESCRIPTION_FIELD_NUMBER_FIELD: u8 = 1;

/// In a `field_description` message, the definition number of the base type code.
pub const DESCRIPTION_BASE_TYPE_FIELD: u8 = 2;

/// In a `field_description` message, the definition number of the name of the field.
pub const DESCRIPTION_FIELD_NAME_FIELD: u8 = 3;

/// In a `field_description` message, the definition number of the units of the field.
pub const DESCRIPTION_UNITS_FIELD: u8 = 8;

/// In a `field_description` message, the definition number of the number of the native
/// field that the developer field stands in for.
pub const DESCRIPTION_NATIVE_FIELD_NUM_FIELD: u8 = 15;

/// What a `developer_data_id` message says: which application writes the developer
/// fields with a developer data index.
#[derive(Debug, Clone, PartialEq, Eq)]
pub struct DeveloperDataIdMessage {
    /// The bytes of the application id as they stand; none where the message has none.
    pub application_id: Vec<u8>,
    pub developer_data_index: u8,
}

/// The mathematical content of a [`DeveloperDataIdMessage`].
pub struct DeveloperDataIdMessageView {
    pub application_id: Seq<u8>,
    pub developer_data_index: u8,
}

impl View for DeveloperDataIdMessage {
    type V = DeveloperDataIdMessageView;

    open spec fn view(&self) -> DeveloperDataIdMessageView {
        DeveloperDataIdMessageView {
            application_id: self.application_id@,
            developer_data_index: self.developer_data_index,
        }
    }
}

impl DeepView for DeveloperDataIdMessage {
    type V = DeveloperDataIdMessageView;

    open spec fn deep_view(&self) -> DeveloperDataIdMessageView {
        self@
    }
}

/// What a `field_description` message says of one developer field.
#[derive(Debug, Clone, PartialEq, Eq)]
pub struct FieldDescriptionMessage {
    pub developer_data_index: u8,
    pub field_definition_number: u8,
    pub fit_base_type_id: u8,
    /// The name of the field; empty where the message gives none.
    pub field_name: String,
    /// The units of the field; empty where the message gives none.
    pub units: String,
    /// The number of the native field that this field stands in for; none where the
    /// message gives none.
    pub native_field_num: Option<u8>,
}

/// The mathematical content of a [`FieldDescriptionMessage`].
pub struct FieldDescriptionMessageView {
    pub developer_data_index: u8,
    pub field_definition_number: u8,
    pub fit_base_type_id: u8,
    pub field_name: Seq<char>,
    pub units: Seq<char>,
    pub native_field_num: Option<u8>,
}

impl View for FieldDescriptionMessage {
    type V = FieldDescriptionMessageView;

    open spec fn view(&self) -> FieldDescriptionMessageView {
        FieldDescriptionMessageView {
            developer_data_index: self.developer_data_index,
            field_definition_number: self.field_definition_number,
            fit_base_type_id: self.fit_base_type_id,
            field_name: self.field_name@,
            units: self.units@,
            native_field_num: self.native_field_num,
        }
    }
}

impl DeepView for FieldDescriptionMessage {
    type V = FieldDescriptionMessageView;

    open spec fn deep_view(&self) -> FieldDescriptionMessageView {
        self@
    }
}

/// What a file has said of its developer fields so far. The message that came last
/// stands first, so that it is found first.
#[derive(Debug, Clone, PartialEq, Eq)]
pub struct DeveloperCatalog {
    pub applications: Vec<DeveloperDataIdMessage>,
    pub fields: Vec<FieldDescriptionMessage>,
}

/// The mathematical content of a [`DeveloperCatalog`].
pub struct DeveloperCatalogView {
    pub applications: Seq<DeveloperDataIdMessageView>,
    pub fields: Seq<FieldDescriptionMessageView>,
}

impl View for DeveloperCatalog {
    type V = DeveloperCatalogView;

    open spec fn view(&self) -> DeveloperCatalogView {
        DeveloperCatalogView {
            applications: self.applications.deep_view(),
            fields: self.fields.deep_view(),
        }
    }
}

/// Whether a description is that of the field `field_number` of the developer data
/// index `developer_data_index`.
pub open spec fn describes(developer_data_index: u8, field_number: u8) -> spec_fn(
    FieldDescriptionMessageView,
) -> bool {
    |description: FieldDescriptionMessageView|
        description.developer_data_index == developer_data_index
            && description.field_definition_number == field_number
}

/// Whether a developer is the one with the developer data index `developer_data_index`.
pub open spec fn is_developer(developer_data_index: u8) -> spec_fn(
    DeveloperDataIdMessageView,
) -> bool {
    |developer: DeveloperDataIdMessageView| developer.developer_data_index == developer_data_index
}

impl DeveloperCatalogView {
    /// The catalog of a file that has said nothing yet.
    pub open spec fn empty() -> DeveloperCatalogView {
        DeveloperCatalogView { applications: Seq::empty(), fields: Seq::empty() }
    }

    /// The description of the field `field_number` of the developer data index
    /// `developer_data_index` that came last.
    pub open spec fn description(self, developer_data_index: u8, field_number: u8) -> Option<
        FieldDescriptionMessageView,
    > {
        first_match(self.fields, describes(developer_data_index, field_number))
    }

    /// The announcement of the developer with the developer data index
    /// `developer_data_index` that came last.
    pub open spec fn developer(self, developer_data_index: u8) -> Option<
        DeveloperDataIdMessageView,
    > {
        first_match(self.applications, is_developer(developer_data_index))
    }
}

/// The layout of the developer field `field` as a field of the base type `base_type`.
pub open spec fn described_layout(
    field: DeveloperFieldDefinition,
    base_type: BaseType,
) -> FieldDefinitionView {
    FieldDefinitionView {
        field_definition_number: field.field_number,
        field_size: field.field_size,
        base_type: base_type_info(base_type),
    }
}

/// What decoding makes of the bytes `raw` of the developer field `field`.
///
/// Without a description of the field the bytes stay as they stand. With one the
/// value gets the name of the description. It is read as a value of the base type of
/// the description where that is a base type and the size of the field is a positive
/// multiple of its size; else its bytes stay as they stand.
pub open spec fn developer_field_value(
    catalog: DeveloperCatalogView,
    field: DeveloperFieldDefinition,
    raw: Seq<u8>,
    order: Endianness,
) -> ResolvedValueView {
    match catalog.description(field.developer_data_index, field.field_number) {
        None => developer_value_of(raw),
        Some(description) => {
            let value = match BaseType::spec_from_code(description.fit_base_type_id) {
                Some(base_type) => if described_layout(field, base_type).wf() {
                    resolved_value_of(described_layout(field, base_type), raw, order)
                } else {
                    developer_value_of(raw)
                },
                None => developer_value_of(raw),
            };
            ResolvedValueView { field_name: Some(description.field_name), ..value }
        },
    }
}

impl DeveloperCatalog {
    /// The catalog of a file that has said nothing yet.
    pub fn new() -> (catalog: DeveloperCatalog)
        ensures
            catalog@ == DeveloperCatalogView::empty(),
    {
        let applications: Vec<DeveloperDataIdMessage> = Vec::new();
        let fields: Vec<FieldDescriptionMessage> = Vec::new();
        assert(applications.deep_view() =~= Seq::empty());
        assert(fields.deep_view() =~= Seq::empty());
        DeveloperCatalog { applications, fields }
    }

    /// Finds the description of the field `field_number` of the developer data index
    /// `developer_data_index` that came last.
    pub fn description(&self, developer_data_index: u8, field_number: u8) -> (found: Option<
        &FieldDescriptionMessage,
    >)
        ensures
            found.deep_view() == self@.description(developer_data_index, field_number),
    {
        let ghost fields = self@.fields;
        let ghost wanted = describes(developer_data_index, field_number);
        let mut i: usize = 0;
        while i < self.fields.len()
            invariant
                fields == self@.fields,
                wanted == describes(developer_data_index, field_number),
                i <= self.fields.len(),
                forall|k: int| 0 <= k < i ==> !wanted(#[trigger] fields[k]),
            decreases self.fields.len() - i,
        {
            assert(fields[i as int] == self.fields[i as int]@);
            if self.fields[i].developer_data_index == developer_data_index
                && self.fields[i].field_definition_number == field_number {
                proof {
                    lemma_first_index_found(fields, wanted, i as int);
                }
                return Some(&self.fields[i]);
            }
            i += 1;
        }
        proof {
            lemma_first_index_found(fields, wanted, fields.len() as int);
        }
        None
    }

    /// Finds the announcement of the developer with the developer data index
    /// `developer_data_index` that came last.
    pub fn developer(&self, developer_data_index: u8) -> (found: Option<&DeveloperDataIdMessage>)
        ensures
            found.deep_view() == self@.developer(developer_data_index),
    {
        let ghost applications = self@.applications;
        let ghost wanted = is_developer(developer_data_index);
        let mut i: usize = 0;
        while i < self.applications.len()
            invariant
                applications == self@.applications,
                wanted == is_developer(developer_data_index),
                i <= self.applications.len(),
                forall|k: int| 0 <= k < i ==> !wanted(#[trigger] applications[k]),
            decreases self.applications.len() - i,
        {
            assert(applications[i as int] == self.applications[i as int]@);
            if self.applications[i].developer_data_index == developer_data_index {
                proof {
                    lemma_first_index_found(applications, wanted, i as int);
                }
                return Some(&self.applications[i]);
            }
            i += 1;
        }
        proof {
            lemma_first_index_found(applications, wanted, applications.len() as int);
        }
        None
    }

    /// Decodes the bytes `raw` of the developer field `field` of a data record in the
    /// byte order `order`.
    pub fn decode_field_value(
        &self,
        field: &DeveloperFieldDefinition,
        raw: &[u8],
        order: Endianness,
    ) -> (value: ResolvedValue)
        requires
            raw.len() == field.field_size,
        ensures
            value@ == developer_field_value(self@, *field, raw@, order),
    {
        let as_bytes = ResolvedValue {
            field_name: None,
            raw_bytes: vstd::slice::slice_to_vec(raw),
            typed: FieldValue::Bytes(vstd::slice::slice_to_vec(raw)),
            is_invalid: false,
        };
        let description = match self.description(field.developer_data_index, field.field_number) {
            None => {
                return as_bytes;
            },
            Some(description) => description,
        };
        let value = match BaseType::from_code(description.fit_base_type_id) {
            Some(base_type) => if field.field_size > 0 && field.field_size % base_type.size()
                == 0 {
                let layout = FieldDefinition {
                    field_definition_number: field.field_number,
                    field_size: field.field_size,
                    base_type: BaseTypeInfo::of(base_type),
                };
                decode_field_value(&layout, raw, order)
            } else {
                as_bytes
            },
            None => as_bytes,
        };
        ResolvedValue {
            field_name: Some(description.field_name.clone()),
            raw_bytes: value.raw_bytes,
            typed: value.typed,
            is_invalid: value.is_invalid,
        }
    }
}

/// The number of eight bits that the field `number` of a data record holds.
pub open spec fn u8_of_field(
    definition: DefinitionRecordView,
    values: Seq<ResolvedValueView>,
    number: u8,
) -> Option<u8> {
    match value_of_field(definition, values, number) {
        Some(value) => u8_of_value(value),
        None => None,
    }
}

/// The text that the field `number` of a data record holds, which is empty where the
/// record has no such field or the field holds no text.
pub open spec fn text_of_field(
    definition: DefinitionRecordView,
    values: Seq<ResolvedValueView>,
    number: u8,
) -> Seq<char> {
    match value_of_field(definition, values, number) {
        Some(value) => text_of_value(value),
        None => Seq::empty(),
    }
}

/// The bytes of the field `number` of a data record as they stand, of which there are
/// none where the record has no such field.
pub open spec fn bytes_of_field(
    definition: DefinitionRecordView,
    values: Seq<ResolvedValueView>,
    number: u8,
) -> Seq<u8> {
    match value_of_field(definition, values, number) {
        Some(value) => value.raw_bytes,
        None => Seq::empty(),
    }
}

/// What a data record says as a `developer_data_id` message. It must give the
/// developer data index.
pub open spec fn developer_data_id_of(
    definition: DefinitionRecordView,
    values: Seq<ResolvedValueView>,
) -> Option<DeveloperDataIdMessageView> {
    match u8_of_field(definition, values, DEVELOPER_DATA_INDEX_FIELD) {
        Some(developer_data_index) => Some(
            DeveloperDataIdMessageView {
                application_id: bytes_of_field(definition, values, APPLICATION_ID_FIELD),
                developer_data_index,
            },
        ),
        None => None,
    }
}

/// What a data record says as a `field_description` message. It must give the
/// developer data index, the number of the field and the base type code.
pub open spec fn field_description_of(
    definition: DefinitionRecordView,
    values: Seq<ResolvedValueView>,
) -> Option<FieldDescriptionMessageView> {
    match (
        u8_of_field(definition, values, DESCRIPTION_DEVELOPER_DATA_INDEX_FIELD),
        u8_of_field(definition, values, DESCRIPTION_FIELD_NUMBER_FIELD),
        u8_of_field(definition, values, DESCRIPTION_BASE_TYPE_FIELD),
    ) {
        (Some(developer_data_index), Some(field_definition_number), Some(fit_base_type_id)) => Some(
            FieldDescriptionMessageView {
                developer_data_index,
                field_definition_number,
                fit_base_type_id,
                field_name: text_of_field(definition, values, DESCRIPTION_FIELD_NAME_FIELD),
                units: text_of_field(definition, values, DESCRIPTION_UNITS_FIELD),
                native_field_num: u8_of_field(
                    definition,
                    values,
                    DESCRIPTION_NATIVE_FIELD_NUM_FIELD,
                ),
            },
        ),
        _ => None,
    }
}

impl DeveloperCatalogView {
    /// The catalog after a data record under `definition` with the values `values`, as
    /// they were decoded. A `developer_data_id` message and a `field_description`
    /// message are put before what the catalog holds. A message of either kind that
    /// lacks what it must give changes nothing, and so does every other record.
    pub open spec fn after(
        self,
        definition: DefinitionRecordView,
        values: Seq<ResolvedValueView>,
    ) -> DeveloperCatalogView {
        if definition.global_message_number == DEVELOPER_DATA_ID {
            match developer_data_id_of(definition, values) {
                Some(developer) => DeveloperCatalogView {
                    applications: seq![developer] + self.applications,
                    ..self
                },
                None => self,
            }
        } else if definition.global_message_number == FIELD_DESCRIPTION {
            match field_description_of(definition, values) {
                Some(description) => DeveloperCatalogView {
                    fields: seq![description] + self.fields,
                    ..self
                },
                None => self,
            }
        } else {
            self
        }
    }
}

/// The number of eight bits that the field `number` of a data record holds.
fn field_as_u8(definition: &DefinitionRecord, values: &Vec<ResolvedValue>, number: u8) -> (found:
    Option<u8>)
    ensures
        found == u8_of_field(definition@, values.deep_view(), number),
{
    match find_field_value(definition, values, number) {
        Some(value) => value.as_u8(),
        None => None,
    }
}

/// The text that the field `number` of a data record holds.
fn field_as_text(definition: &DefinitionRecord, values: &Vec<ResolvedValue>, number: u8) -> (text:
    String)
    ensures
        text@ == text_of_field(definition@, values.deep_view(), number),
{
    match find_field_value(definition, values, number) {
        Some(value) => value.text(),
        None => String::new(),
    }
}

/// Reads a data record as a `developer_data_id` message.
pub fn read_developer_data_id(
    definition: &DefinitionRecord,
    values: &Vec<ResolvedValue>,
) -> (message: Option<DeveloperDataIdMessage>)
    ensures
        message.deep_view() == developer_data_id_of(definition@, values.deep_view()),
{
    let developer_data_index = match field_as_u8(definition, values, DEVELOPER_DATA_INDEX_FIELD) {
        Some(index) => index,
        None => {
            return None;
        },
    };
    let application_id = match find_field_value(definition, values, APPLICATION_ID_FIELD) {
        Some(value) => vstd::slice::slice_to_vec(value.raw_bytes.as_slice()),
        None => Vec::new(),
    };
    Some(DeveloperDataIdMessage { application_id, developer_data_index })
}

/// Reads a data record as a `field_description` message.
pub fn read_field_description(
    definition: &DefinitionRecord,
    values: &Vec<ResolvedValue>,
) -> (message: Option<FieldDescriptionMessage>)
    ensures
        message.deep_view() == field_description_of(definition@, values.deep_view()),
{
    let developer_data_index = field_as_u8(
        definition,
        values,
        DESCRIPTION_DEVELOPER_DATA_INDEX_FIELD,
    );
    let field_definition_number = field_as_u8(definition, values, DESCRIPTION_FIELD_NUMBER_FIELD);
    let fit_base_type_id = field_as_u8(definition, values, DESCRIPTION_BASE_TYPE_FIELD);
    match (developer_data_index, field_definition_number, fit_base_type_id) {
        (Some(developer_data_index), Some(field_definition_number), Some(fit_base_type_id)) => Some(
            FieldDescriptionMessage {
                developer_data_index,
                field_definition_number,
                fit_base_type_id,
                field_name: field_as_text(definition, values, DESCRIPTION_FIELD_NAME_FIELD),
                units: field_as_text(definition, values, DESCRIPTION_UNITS_FIELD),
                native_field_num: field_as_u8(
                    definition,
                    values,
                    DESCRIPTION_NATIVE_FIELD_NUM_FIELD,
                ),
            },
        ),
        _ => None,
    }
}

impl DeveloperCatalog {
    /// Takes in a data record under `definition` with the values `values`, as they were
    /// decoded.
    pub fn ingest(&mut self, definition: &DefinitionRecord, values: &Vec<ResolvedValue>)
        ensures
            final(self)@ == old(self)@.after(definition@, values.deep_view()),
    {
        if definition.global_message_number == DEVELOPER_DATA_ID {
            match read_developer_data_id(definition, values) {
                Some(developer) => {
                    let ghost before = self.applications.deep_view();
                    self.applications.insert(0, developer);
                    assert(self.applications.deep_view() =~= seq![developer@] + before);
                },
                None => {},
            }
        } else if definition.global_message_number == FIELD_DESCRIPTION {
            match read_field_description(definition, values) {
                Some(description) => {
                    let ghost before = self.fields.deep_view();
                    self.fields.insert(0, description);
                    assert(self.fields.deep_view() =~= seq![description@] + before);
                },
                None => {},
            }
        }
    }
}

} // verus!
