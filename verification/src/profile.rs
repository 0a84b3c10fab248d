//! The profile at run time: the two catalogs together, and what they say of the
//! records of a file.

use crate::fit_data::{FieldValue, FieldValueView, ResolvedValue, ResolvedValueView, Scalar};
use crate::fit_records::{DefinitionRecord, DefinitionRecordView};
use crate::profile_emit::{comment_is_deprecated, is_deprecated};
use crate::profile_messages::{
    FitMessage, FitMessageField, FitMessageFieldView, FitMessageView,
};
use crate::profile_types::{FitType, FitTypeValue, FitTypeValueView, FitTypeView};
use crate::search::{first_match, lemma_first_index_found};
use crate::text::str_equals;
use vstd::prelude::*;

verus! {

/// The catalogs of the profile: the types and the messages.
#[derive(Debug, Clone, PartialEq)]
pub struct Profile {
    pub types: Vec<FitType>,
    pub messages: Vec<FitMessage>,
}

/// The mathematical content of a [`Profile`].
pub struct ProfileView {
    pub types: Seq<FitTypeView>,
    pub messages: Seq<FitMessageView>,
}

impl View for Profile {
    type V = ProfileView;

    open spec fn view(&self) -> ProfileView {
        ProfileView { types: self.types.deep_view(), messages: self.messages.deep_view() }
    }
}

/// Whether a type has the name `name`.
pub open spec fn type_is_named(name: Seq<char>) -> spec_fn(FitTypeView) -> bool {
    |t: FitTypeView| t.name == name
}

/// Whether a message has the name `name`.
pub open spec fn message_is_named(name: Seq<char>) -> spec_fn(FitMessageView) -> bool {
    |message: FitMessageView| message.name == name
}

/// Whether a field of a message has the definition number `number`.
pub open spec fn field_is_numbered(number: u8) -> spec_fn(FitMessageFieldView) -> bool {
    |field: FitMessageFieldView| field.definition_number == number
}

/// Whether a value of a type is the number `number`.
pub open spec fn value_is(number: nat) -> spec_fn(FitTypeValueView) -> bool {
    |value: FitTypeValueView| value.value == number
}

/// Whether a value of a type is the number `number` and is not deprecated.
pub open spec fn live_value_is(number: nat) -> spec_fn(FitTypeValueView) -> bool {
    |value: FitTypeValueView| value.value == number && !is_deprecated(value.comment)
}

/// The name of the type whose values name the global messages.
pub open spec fn mesg_num() -> Seq<char> {
    "mesg_num"@
}

impl ProfileView {
    /// The profile that knows nothing.
    pub open spec fn empty() -> ProfileView {
        ProfileView { types: Seq::empty(), messages: Seq::empty() }
    }

    /// The first type with the name `name`.
    pub open spec fn type_named(self, name: Seq<char>) -> Option<FitTypeView> {
        first_match(self.types, type_is_named(name))
    }

    /// The first message with the name `name`.
    pub open spec fn message_named(self, name: Seq<char>) -> Option<FitMessageView> {
        first_match(self.messages, message_is_named(name))
    }

    /// The name of the global message with the number `number`: the name of the first
    /// value of the type `mesg_num` that is this number.
    pub open spec fn message_name(self, number: u16) -> Option<Seq<char>> {
        match self.type_named(mesg_num()) {
            Some(numbers) => match first_match(numbers.values, value_is(number as nat)) {
                Some(value) => Some(value.value_name),
                None => None,
            },
            None => None,
        }
    }

    /// The global message with the number `number`: the first message that has the name
    /// of that number.
    pub open spec fn message_numbered(self, number: u16) -> Option<FitMessageView> {
        match self.message_name(number) {
            Some(name) => self.message_named(name),
            None => None,
        }
    }

    /// The name of the member of the enumeration `field_type` that has the value
    /// `number`: the name of the first value that is this number and is not deprecated.
    /// There is none where `field_type` names no type, or a type whose base type is not
    /// `enum`.
    pub open spec fn member_name(self, field_type: Seq<char>, number: nat) -> Option<Seq<char>> {
        match self.type_named(field_type) {
            Some(members) => if members.base_type == "enum"@ {
                match first_match(members.values, live_value_is(number)) {
                    Some(value) => Some(value.value_name),
                    None => None,
                }
            } else {
                None
            },
            None => None,
        }
    }
}

/// The first field of `message` with the definition number `number`.
pub open spec fn field_numbered(message: FitMessageView, number: u8) -> Option<
    FitMessageFieldView,
> {
    first_match(message.fields, field_is_numbered(number))
}

/// Finds the first field of `message` with the definition number `number`.
pub fn find_field(message: &FitMessage, number: u8) -> (field: Option<&FitMessageField>)
    ensures
        field.deep_view() == field_numbered(message@, number),
{
    let ghost fields = message@.fields;
    let mut i: usize = 0;
    while i < message.fields.len()
        invariant
            fields == message@.fields,
            i <= message.fields.len(),
            forall|k: int| 0 <= k < i ==> !field_is_numbered(number)(#[trigger] fields[k]),
        decreases message.fields.len() - i,
    {
        assert(fields[i as int] == message.fields[i as int]@);
        if message.fields[i].definition_number == number {
            proof {
                lemma_first_index_found(fields, field_is_numbered(number), i as int);
            }
            return Some(&message.fields[i]);
        }
        i += 1;
    }
    proof {
        lemma_first_index_found(fields, field_is_numbered(number), fields.len() as int);
    }
    None
}

/// Finds the first of `values` that is the number `number`. Deprecated values are
/// passed over where `live` says so.
pub fn find_value(values: &Vec<FitTypeValue>, number: u64, live: bool) -> (value: Option<
    &FitTypeValue,
>)
    ensures
        value.deep_view() == first_match(
            values.deep_view(),
            if live {
                live_value_is(number as nat)
            } else {
                value_is(number as nat)
            },
        ),
{
    let ghost models = values.deep_view();
    let ghost wanted = if live {
        live_value_is(number as nat)
    } else {
        value_is(number as nat)
    };
    let mut i: usize = 0;
    while i < values.len()
        invariant
            models == values.deep_view(),
            wanted == (if live {
                live_value_is(number as nat)
            } else {
                value_is(number as nat)
            }),
            i <= values.len(),
            forall|k: int| 0 <= k < i ==> !wanted(#[trigger] models[k]),
        decreases values.len() - i,
    {
        assert(models[i as int] == values[i as int]@);
        if values[i].value as u64 == number && !(live && comment_is_deprecated(
            values[i].comment.as_str(),
        )) {
            proof {
                lemma_first_index_found(models, wanted, i as int);
            }
            return Some(&values[i]);
        }
        i += 1;
    }
    proof {
        lemma_first_index_found(models, wanted, models.len() as int);
    }
    None
}

impl Profile {
    /// The profile that knows nothing.
    pub fn empty() -> (profile: Profile)
        ensures
            profile@ == ProfileView::empty(),
    {
        let types: Vec<FitType> = Vec::new();
        let messages: Vec<FitMessage> = Vec::new();
        assert(types.deep_view() =~= Seq::empty());
        assert(messages.deep_view() =~= Seq::empty());
        Profile { types, messages }
    }

    /// Finds the first type with the name `name`.
    pub fn find_type(&self, name: &str) -> (found: Option<&FitType>)
        ensures
            found.deep_view() == self@.type_named(name@),
    {
        let ghost types = self@.types;
        let mut i: usize = 0;
        while i < self.types.len()
            invariant
                types == self@.types,
                i <= self.types.len(),
                forall|k: int| 0 <= k < i ==> !type_is_named(name@)(#[trigger] types[k]),
            decreases self.types.len() - i,
        {
            assert(types[i as int] == self.types[i as int]@);
            if str_equals(self.types[i].name.as_str(), name) {
                proof {
                    lemma_first_index_found(types, type_is_named(name@), i as int);
                }
                return Some(&self.types[i]);
            }
            i += 1;
        }
        proof {
            lemma_first_index_found(types, type_is_named(name@), types.len() as int);
        }
        None
    }

    /// Finds the first message with the name `name`.
    pub fn find_message(&self, name: &str) -> (found: Option<&FitMessage>)
        ensures
            found.deep_view() == self@.message_named(name@),
    {
        let ghost messages = self@.messages;
        let mut i: usize = 0;
        while i < self.messages.len()
            invariant
                messages == self@.messages,
                i <= self.messages.len(),
                forall|k: int|
                    0 <= k < i ==> !message_is_named(name@)(#[trigger] messages[k]),
            decreases self.messages.len() - i,
        {
            assert(messages[i as int] == self.messages[i as int]@);
            if str_equals(self.messages[i].name.as_str(), name) {
                proof {
                    lemma_first_index_found(messages, message_is_named(name@), i as int);
                }
                return Some(&self.messages[i]);
            }
            i += 1;
        }
        proof {
            lemma_first_index_found(messages, message_is_named(name@), messages.len() as int);
        }
        None
    }

    /// The name of the global message with the number `number`.
    pub fn message_name(&self, number: u16) -> (name: Option<&String>)
        ensures
            name.deep_view() == self@.message_name(number),
    {
        match self.find_type("mesg_num") {
            Some(numbers) => match find_value(&numbers.values, number as u64, false) {
                Some(value) => Some(&value.value_name),
                None => None,
            },
            None => None,
        }
    }

    /// Finds the global message with the number `number`.
    pub fn find_message_numbered(&self, number: u16) -> (found: Option<&FitMessage>)
        ensures
            found.deep_view() == self@.message_numbered(number),
    {
        match self.message_name(number) {
            Some(name) => self.find_message(name.as_str()),
            None => None,
        }
    }

    /// The name of the member of the enumeration `field_type` that has the value
    /// `number`.
    pub fn member_name(&self, field_type: &str, number: u64) -> (name: Option<&String>)
        ensures
            name.deep_view() == self@.member_name(field_type@, number as nat),
    {
        match self.find_type(field_type) {
            Some(members) => if str_equals(members.base_type.as_str(), "enum") {
                match find_value(&members.values, number, true) {
                    Some(value) => Some(&value.value_name),
                    None => None,
                }
            } else {
                None
            },
            None => None,
        }
    }
}

/// What the profile makes of the value that a field of the type `field_type` holds: a
/// single unsigned number that is the value of a member of an enumeration becomes the
/// name of that member. Everything else stays as it is, and so does a field that holds
/// no value.
pub open spec fn named_value(
    profile: ProfileView,
    field_type: Seq<char>,
    value: ResolvedValueView,
) -> FieldValueView {
    match value.typed {
        FieldValueView::Scalar(Scalar::UInt(number)) => if value.is_invalid {
            value.typed
        } else {
            match profile.member_name(field_type, number as nat) {
                Some(name) => FieldValueView::Text(name),
                None => value.typed,
            }
        },
        _ => value.typed,
    }
}

/// What the profile makes of the value `value` of the field with the definition number
/// `number` in a record of the message `message`: where the message is known and has
/// such a field, the value gets the name of the field, and a member of an enumeration
/// gets its name. Otherwise the value stays as it is.
pub open spec fn resolve_value(
    profile: ProfileView,
    message: Option<FitMessageView>,
    number: u8,
    value: ResolvedValueView,
) -> ResolvedValueView {
    match message {
        None => value,
        Some(known) => match field_numbered(known, number) {
            None => value,
            Some(field) => ResolvedValueView {
                field_name: Some(field.name),
                typed: named_value(profile, field.field_type, value),
                ..value
            },
        },
    }
}

/// What the profile makes of the values of a data record under `definition`: each
/// value of a field is resolved by the definition number of its field. The values of
/// developer fields, which come after those, stay as they are.
pub open spec fn resolve_values(
    profile: ProfileView,
    definition: DefinitionRecordView,
    values: Seq<ResolvedValueView>,
) -> Seq<ResolvedValueView> {
    let message = profile.message_numbered(definition.global_message_number);
    Seq::new(
        values.len(),
        |i: int|
            if i < definition.field_definitions.len() {
                resolve_value(
                    profile,
                    message,
                    definition.field_definitions[i].field_definition_number,
                    values[i],
                )
            } else {
                values[i]
            },
    )
}

/// The profile that knows nothing leaves every value as it is.
pub proof fn lemma_resolve_values_without_profile(
    definition: DefinitionRecordView,
    values: Seq<ResolvedValueView>,
)
    ensures
        resolve_values(ProfileView::empty(), definition, values) == values,
{
    assert(resolve_values(ProfileView::empty(), definition, values) =~= values);
}

/// Resolving changes neither the number of the values, nor their bytes, nor whether
/// they stand for "no value".
pub proof fn lemma_resolve_values_keeps_bytes(
    profile: ProfileView,
    definition: DefinitionRecordView,
    values: Seq<ResolvedValueView>,
)
    ensures
        resolve_values(profile, definition, values).len() == values.len(),
        forall|i: int|
            0 <= i < values.len() ==> {
                &&& (#[trigger] resolve_values(profile, definition, values)[i]).raw_bytes
                    == values[i].raw_bytes
                &&& resolve_values(profile, definition, values)[i].is_invalid
                    == values[i].is_invalid
            },
{
}

impl Profile {
    /// Resolves the value `value` of the field with the definition number `number` in a
    /// record of the message `message`.
    pub fn resolve_value(
        &self,
        message: Option<&FitMessage>,
        number: u8,
        value: ResolvedValue,
    ) -> (resolved: ResolvedValue)
        ensures
            resolved@ == resolve_value(self@, message.deep_view(), number, value@),
    {
        let field = match message {
            None => {
                return value;
            },
            Some(known) => match find_field(known, number) {
                None => {
                    return value;
                },
                Some(field) => field,
            },
        };
        let ResolvedValue { field_name: _, raw_bytes, typed, is_invalid } = value;
        let typed = match typed {
            FieldValue::Scalar(Scalar::UInt(number)) => if is_invalid {
                FieldValue::Scalar(Scalar::UInt(number))
            } else {
                match self.member_name(field.field_type.as_str(), number) {
                    Some(name) => FieldValue::Text(name.clone()),
                    None => FieldValue::Scalar(Scalar::UInt(number)),
                }
            },
            other => other,
        };
        ResolvedValue { field_name: Some(field.name.clone()), raw_bytes, typed, is_invalid }
    }

    /// Resolves the values of a data record under `definition`.
    pub fn resolve_values(
        &self,
        definition: &DefinitionRecord,
        values: Vec<ResolvedValue>,
    ) -> (resolved: Vec<ResolvedValue>)
        ensures
            resolved.deep_view() == resolve_values(self@, definition@, values.deep_view()),
    {
        let message = self.find_message_numbered(definition.global_message_number);
        let ghost before = values.deep_view();
        let ghost after = resolve_values(self@, definition@, before);
        let mut resolved: Vec<ResolvedValue> = Vec::new();
        let mut values = values;
        let mut rest: Vec<ResolvedValue> = Vec::new();
        // Values are taken from the end, so that each can be moved out of the list.
        while values.len() > 0
            invariant
                values.deep_view() =~= before.take(values.len() as int),
                values.len() <= before.len(),
                rest.len() + values.len() == before.len(),
                forall|k: int|
                    0 <= k < rest.len() ==> (#[trigger] rest[k])@ == after[before.len() - 1 - k],
                after == resolve_values(self@, definition@, before),
                message.deep_view() == self@.message_numbered(
                    definition@.global_message_number,
                ),
            decreases values.len(),
        {
            let i = values.len() - 1;
            let ghost shorter = values.deep_view();
            let ghost last = values@[i as int];
            assert(shorter[i as int] == last@);
            let value = values.pop().unwrap();
            assert(value == last);
            assert(values.deep_view() =~= shorter.take(i as int));
            assert(value@ == before[i as int]);
            let value = if i < definition.field_definitions.len() {
                assert(definition@.field_definitions[i as int]
                    == definition.field_definitions[i as int]@);
                self.resolve_value(
                    message,
                    definition.field_definitions[i].field_definition_number,
                    value,
                )
            } else {
                value
            };
            rest.push(value);
        }
        while rest.len() > 0
            invariant
                rest.len() + resolved.len() == before.len(),
                after.len() == before.len(),
                forall|k: int|
                    0 <= k < rest.len() ==> (#[trigger] rest[k])@ == after[before.len() - 1 - k],
                resolved.deep_view() =~= after.take(resolved.len() as int),
            decreases rest.len(),
        {
            let ghost done = resolved.deep_view();
            let value = rest.pop().unwrap();
            resolved.push(value);
            assert(resolved.deep_view() =~= done.push(value@));
        }
        assert(after.take(after.len() as int) =~= after);
        resolved
    }
}

} // verus!
