//! The writing of names in the cases that generated code asks for. The conversion is
//! done by the `convert_case` crate and is not proved here.

use convert_case::{Case, Casing};
use vstd::prelude::*;

verus! {

/// The cases in which the emitter writes names.
#[derive(Debug, Clone, Copy, PartialEq, Eq, Structural)]
pub enum NameCase {
    /// Words run together, each with a capital first letter: `UpperCamel`.
    UpperCamel,
    /// Words in capitals, joined by underscores: `UPPER_SNAKE`.
    UpperSnake,
}

/// The text that `convert_case` makes of `name` when it is asked for the case `case`.
pub uninterp spec fn cased(name: Seq<char>, case: NameCase) -> Seq<char>;

/// Calls `Casing::to_case` of the `convert_case` crate on `name`, with `Case::UpperCamel`
/// or `Case::UpperSnake` as `case` says. The contract only names the result: it claims
/// that the text returned depends on nothing but the name and the case.
#[verifier::external_body]
pub(crate) fn to_case(name: &str, case: NameCase) -> (converted: String)
    ensures
        converted@ == cased(name@, case),
{
    name.to_case(
        match case {
            NameCase::UpperCamel => Case::UpperCamel,
            NameCase::UpperSnake => Case::UpperSnake,
        },
    )
}

} // verus!
