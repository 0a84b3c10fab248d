//! The emitter: the source text that stands for a type of the profile.
//!
//! A type whose base type is `enum` becomes an enumeration. Every other type becomes a
//! group of named constants of an unsigned integer type.

use crate::casing::{cased, to_case, NameCase};
use crate::error::SchemaErrorKind;
use crate::profile_types::{FitType, FitTypeValueView, FitTypeView};
use crate::text::{
    append_decimal, char_is_digit, chars_of, decimal_digits, has_prefix_ignoring_ascii_case,
    is_digit, starts_with_ignoring_ascii_case, str_equals, trim_bounds, trimmed,
};
use vstd::prelude::*;
use vstd::string::{StrSliceExecFns, StringExecFns};

verus! {

/// The unsigned integer type of the generated code that holds values of the base type
/// named `fit_type`, for the base types that have one.
pub open spec fn rust_type_of(fit_type: Seq<char>) -> Option<Seq<char>> {
    if fit_type == "uint8"@ || fit_type == "uint8z"@ {
        Some("u8"@)
    } else if fit_type == "uint16"@ || fit_type == "uint16z"@ {
        Some("u16"@)
    } else if fit_type == "uint32"@ || fit_type == "uint32z"@ {
        Some("u32"@)
    } else {
        None
    }
}

/// The unsigned integer type of the generated code that holds values of the base type
/// named `fit_type`; `None` for a base type that has none.
pub fn fit_type_to_rust_type(fit_type: &str) -> (rust_type: Option<&'static str>)
    ensures
        match rust_type_of(fit_type@) {
            Some(name) => rust_type matches Some(text) && text@ == name,
            None => rust_type is None,
        },
{
    if str_equals(fit_type, "uint8") || str_equals(fit_type, "uint8z") {
        Some("u8")
    } else if str_equals(fit_type, "uint16") || str_equals(fit_type, "uint16z") {
        Some("u16")
    } else if str_equals(fit_type, "uint32") || str_equals(fit_type, "uint32z") {
        Some("u32")
    } else {
        None
    }
}

/// Whether a value with the comment `comment` is deprecated: the comment, white space
/// around it aside, starts with the word `deprecated` in any mix of cases.
pub open spec fn is_deprecated(comment: Seq<char>) -> bool {
    starts_with_ignoring_ascii_case(trimmed(comment), "deprecated"@)
}

/// Whether a value with the comment `comment` is deprecated.
pub fn comment_is_deprecated(comment: &str) -> (deprecated: bool)
    ensures
        deprecated == is_deprecated(comment@),
{
    let chars = chars_of(comment);
    let (start, end) = trim_bounds(chars.as_slice());
    let word = chars_of("deprecated");
    has_prefix_ignoring_ascii_case(&chars[start..end], word.as_slice())
}

/// What follows a generated line for a value with the comment `comment`: nothing
/// without a comment, else the comment behind two slashes.
pub open spec fn comment_suffix(comment: Seq<char>) -> Seq<char> {
    if comment.len() == 0 {
        Seq::empty()
    } else {
        " // "@ + comment
    }
}

/// Appends to `out` what follows a generated line for a value with the comment
/// `comment`.
fn append_comment_suffix(out: &mut String, comment: &str)
    ensures
        final(out)@ == old(out)@ + comment_suffix(comment@),
{
    if comment.is_empty() {
        assert(out@ + Seq::<char>::empty() =~= out@);
    } else {
        out.append(" // ");
        out.append(comment);
        assert(out@ =~= old(out)@ + (" // "@ + comment@));
    }
}

/// The line of a generated enumeration for the member that is written `name` and has
/// the value `value` and the comment `comment`.
pub open spec fn enum_line(name: Seq<char>, value: u32, comment: Seq<char>) -> Seq<char> {
    "    "@ + name + " = "@ + decimal_digits(value as nat) + ","@ + comment_suffix(comment)
        + "\n"@
}

/// The generated enumeration that is written `name` and has the lines `lines`.
pub open spec fn enum_text(name: Seq<char>, lines: Seq<char>) -> Seq<char> {
    "pub enum "@ + name + " {\n"@ + lines + "}\n"@
}

/// The line of a generated enumeration that stands for `value`: the member is written
/// in upper camel case.
pub open spec fn enum_member_line(value: FitTypeValueView) -> Seq<char> {
    enum_line(cased(value.value_name, NameCase::UpperCamel), value.value, value.comment)
}

/// The lines of a generated enumeration that stand for `values`: one for each value
/// that is not deprecated, in order.
pub open spec fn enum_member_lines(values: Seq<FitTypeValueView>) -> Seq<char>
    decreases values.len(),
{
    if values.len() == 0 {
        Seq::empty()
    } else if is_deprecated(values.last().comment) {
        enum_member_lines(values.drop_last())
    } else {
        enum_member_lines(values.drop_last()) + enum_member_line(values.last())
    }
}

/// The enumeration that stands for the type `t`, which is written in upper camel case.
/// It is empty where the base type of `t` is not `enum`.
pub open spec fn enum_source(t: FitTypeView) -> Seq<char> {
    if t.base_type != "enum"@ {
        Seq::empty()
    } else {
        enum_text(cased(t.name, NameCase::UpperCamel), enum_member_lines(t.values))
    }
}

/// Writes the line of a generated enumeration for the member that is written `name`
/// and has the value `value` and the comment `comment`.
pub fn write_enum_line(name: &str, value: u32, comment: &str) -> (line: String)
    ensures
        line@ == enum_line(name@, value, comment@),
{
    let mut line = String::from_str("    ");
    line.append(name);
    line.append(" = ");
    append_decimal(&mut line, value);
    line.append(",");
    append_comment_suffix(&mut line, comment);
    line.append("\n");
    line
}

/// Writes the generated enumeration that is written `name` and has the lines `lines`.
pub fn write_enum_text(name: &str, lines: &str) -> (text: String)
    ensures
        text@ == enum_text(name@, lines@),
{
    let mut text = String::from_str("pub enum ");
    text.append(name);
    text.append(" {\n");
    text.append(lines);
    text.append("}\n");
    text
}

/// Writes the enumeration that stands for the type `t`. The result is empty where the
/// base type of `t` is not `enum`.
pub fn generate_enum_type_as_string(t: FitType) -> (source: String)
    ensures
        source@ == enum_source(t@),
{
    if !str_equals(t.base_type.as_str(), "enum") {
        return String::new();
    }
    let mut lines = String::new();
    let ghost values = t.values.deep_view();
    let mut i: usize = 0;
    assert(values.take(0) =~= Seq::empty());
    while i < t.values.len()
        invariant
            values == t.values.deep_view(),
            i <= t.values.len(),
            lines@ == enum_member_lines(values.take(i as int)),
        decreases t.values.len() - i,
    {
        let value = &t.values[i];
        assert(values.take(i + 1).drop_last() =~= values.take(i as int));
        assert(values.take(i + 1).last() == value@);
        if !comment_is_deprecated(value.comment.as_str()) {
            let name = to_case(value.value_name.as_str(), NameCase::UpperCamel);
            let line = write_enum_line(name.as_str(), value.value, value.comment.as_str());
            lines.append(line.as_str());
        }
        i += 1;
    }
    assert(values.take(t.values.len() as int) =~= values);
    let name = to_case(t.name.as_str(), NameCase::UpperCamel);
    write_enum_text(name.as_str(), lines.as_str())
}

/// The name of the generated constant for a value: `converted` is the name of the
/// value in upper snake case, which gets one more underscore in front where the name
/// of the value, `value_name`, starts with a digit.
pub open spec fn marked_name(value_name: Seq<char>, converted: Seq<char>) -> Seq<char> {
    if value_name.len() > 0 && is_digit(value_name[0]) {
        "_"@ + converted
    } else {
        converted
    }
}

/// The line of a generated group of constants for the constant that is written `name`
/// and has the type `rust_type`, the value `value` and the comment `comment`.
pub open spec fn constant_text(
    name: Seq<char>,
    rust_type: Seq<char>,
    value: u32,
    comment: Seq<char>,
) -> Seq<char> {
    "    const "@ + name + ": "@ + rust_type + " = "@ + decimal_digits(value as nat) + ";"@
        + comment_suffix(comment) + "\n"@
}

/// The generated group of constants that is written `name` and has the lines `lines`:
/// a trait that holds the constants, a type to carry it, and the implementation of
/// the one for the other.
pub open spec fn trait_text(name: Seq<char>, lines: Seq<char>) -> Seq<char> {
    "trait "@ + name + "Trait {\n"@ + lines + "}\n"@ + "struct "@ + name + ";\n"@ + "impl "@
        + name + "Trait for "@ + name + "{}\n\n"@
}

/// The name of the generated constant that stands for the value named `value_name`:
/// the name in upper snake case, behind one more underscore where it starts with a
/// digit.
pub open spec fn constant_name(value_name: Seq<char>) -> Seq<char> {
    marked_name(value_name, cased(value_name, NameCase::UpperSnake))
}

/// The line of a generated group of constants that stands for `value`, where the
/// constants have the type `rust_type`.
pub open spec fn constant_line(value: FitTypeValueView, rust_type: Seq<char>) -> Seq<char> {
    constant_text(constant_name(value.value_name), rust_type, value.value, value.comment)
}

/// The lines of a generated group of constants that stand for `values`: one for each
/// value, in order.
pub open spec fn constant_lines(values: Seq<FitTypeValueView>, rust_type: Seq<char>) -> Seq<char>
    decreases values.len(),
{
    if values.len() == 0 {
        Seq::empty()
    } else {
        constant_lines(values.drop_last(), rust_type) + constant_line(values.last(), rust_type)
    }
}

/// The group of constants that stands for the type `t`, which is written in upper
/// camel case. There is none where the base type of `t` is no unsigned integer type.
pub open spec fn trait_source(t: FitTypeView) -> Option<Seq<char>> {
    match rust_type_of(t.base_type) {
        None => None,
        Some(rust_type) => Some(
            trait_text(cased(t.name, NameCase::UpperCamel), constant_lines(t.values, rust_type)),
        ),
    }
}

/// Writes the name of the generated constant for a value: `converted` is the name of
/// the value in upper snake case, `value_name` the name as the table has it.
pub fn write_marked_name(value_name: &str, converted: &str) -> (name: String)
    ensures
        name@ == marked_name(value_name@, converted@),
{
    if value_name.unicode_len() > 0 && char_is_digit(value_name.get_char(0)) {
        let mut name = String::from_str("_");
        name.append(converted);
        name
    } else {
        String::from_str(converted)
    }
}

/// Writes the line of a generated group of constants for the constant that is written
/// `name` and has the type `rust_type`, the value `value` and the comment `comment`.
pub fn write_constant_text(name: &str, rust_type: &str, value: u32, comment: &str) -> (line: String)
    ensures
        line@ == constant_text(name@, rust_type@, value, comment@),
{
    let mut line = String::from_str("    const ");
    line.append(name);
    line.append(": ");
    line.append(rust_type);
    line.append(" = ");
    append_decimal(&mut line, value);
    line.append(";");
    append_comment_suffix(&mut line, comment);
    line.append("\n");
    line
}

/// Writes the generated group of constants that is written `name` and has the lines
/// `lines`.
pub fn write_trait_text(name: &str, lines: &str) -> (text: String)
    ensures
        text@ == trait_text(name@, lines@),
{
    let mut text = String::from_str("trait ");
    text.append(name);
    text.append("Trait {\n");
    text.append(lines);
    text.append("}\n");
    text.append("struct ");
    text.append(name);
    text.append(";\n");
    text.append("impl ");
    text.append(name);
    text.append("Trait for ");
    text.append(name);
    text.append("{}\n\n");
    text
}

/// Writes the group of constants that stands for the type `t`. A base type that is no
/// unsigned integer type is an error.
pub fn generate_fit_trait_as_string(t: FitType) -> (result: Result<String, SchemaErrorKind>)
    ensures
        match trait_source(t@) {
            Some(source) => result matches Ok(text) && text@ == source,
            None => result matches Err(kind) && kind == SchemaErrorKind::BaseType,
        },
{
    let rust_type = match fit_type_to_rust_type(t.base_type.as_str()) {
        Some(rust_type) => rust_type,
        None => {
            return Err(SchemaErrorKind::BaseType);
        },
    };
    let mut lines = String::new();
    let ghost values = t.values.deep_view();
    let mut i: usize = 0;
    assert(values.take(0) =~= Seq::empty());
    while i < t.values.len()
        invariant
            values == t.values.deep_view(),
            i <= t.values.len(),
            lines@ == constant_lines(values.take(i as int), rust_type@),
        decreases t.values.len() - i,
    {
        let value = &t.values[i];
        assert(values.take(i + 1).drop_last() =~= values.take(i as int));
        assert(values.take(i + 1).last() == value@);
        let converted = to_case(value.value_name.as_str(), NameCase::UpperSnake);
        let name = write_marked_name(value.value_name.as_str(), converted.as_str());
        let line = write_constant_text(
            name.as_str(),
            rust_type,
            value.value,
            value.comment.as_str(),
        );
        lines.append(line.as_str());
        i += 1;
    }
    assert(values.take(t.values.len() as int) =~= values);
    let name = to_case(t.name.as_str(), NameCase::UpperCamel);
    Ok(write_trait_text(name.as_str(), lines.as_str()))
}

} // verus!
