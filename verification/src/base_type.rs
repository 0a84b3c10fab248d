//! The seventeen wire-level base types that a field of a record can have.

use vstd::prelude::*;
use vstd::std_specs::convert::FromSpecImpl;
use vstd::string::StringExecFns;

verus! {

/// A wire-level base type.
#[derive(Debug, Eq, Clone, Copy, PartialEq, Structural)]
pub enum BaseType {
    Enum,
    Sint8,
    Uint8,
    Sint16,
    Uint16,
    Sint32,
    Uint32,
    String,
    Float32,
    Float64,
    Uint8z,
    Uint16z,
    Uint32z,
    Byte,
    Sint64,
    Uint64,
    Uint64z,
}

impl BaseType {
    /// The code by which a definition record names this base type.
    pub open spec fn spec_code(self) -> u8 {
        match self {
            BaseType::Enum => 0x00,
            BaseType::Sint8 => 0x01,
            BaseType::Uint8 => 0x02,
            BaseType::Sint16 => 0x83,
            BaseType::Uint16 => 0x84,
            BaseType::Sint32 => 0x85,
            BaseType::Uint32 => 0x86,
            BaseType::String => 0x07,
            BaseType::Float32 => 0x88,
            BaseType::Float64 => 0x89,
            BaseType::Uint8z => 0x0A,
            BaseType::Uint16z => 0x8B,
            BaseType::Uint32z => 0x8C,
            BaseType::Byte => 0x0D,
            BaseType::Sint64 => 0x8E,
            BaseType::Uint64 => 0x8F,
            BaseType::Uint64z => 0x90,
        }
    }

    /// The number of bytes that one element of this base type takes.
    pub open spec fn spec_size(self) -> u8 {
        match self {
            BaseType::Enum
            | BaseType::Sint8
            | BaseType::Uint8
            | BaseType::String
            | BaseType::Uint8z
            | BaseType::Byte => 1,
            BaseType::Sint16 | BaseType::Uint16 | BaseType::Uint16z => 2,
            BaseType::Sint32 | BaseType::Uint32 | BaseType::Float32 | BaseType::Uint32z => 4,
            BaseType::Float64 | BaseType::Sint64 | BaseType::Uint64 | BaseType::Uint64z => 8,
        }
    }

    /// Whether the byte order of the record matters to an element of this base type.
    pub open spec fn spec_endian_ability(self) -> bool {
        self.spec_size() > 1
    }

    /// The bit pattern that stands for "no value" in an element of this base type.
    pub open spec fn spec_invalid_value(self) -> u64 {
        match self {
            BaseType::Enum | BaseType::Uint8 | BaseType::Byte => 0xFF,
            BaseType::Sint8 => 0x7F,
            BaseType::Sint16 => 0x7FFF,
            BaseType::Uint16 => 0xFFFF,
            BaseType::Sint32 => 0x7FFF_FFFF,
            BaseType::Uint32 | BaseType::Float32 => 0xFFFF_FFFF,
            BaseType::Float64 | BaseType::Uint64 => 0xFFFF_FFFF_FFFF_FFFF,
            BaseType::Sint64 => 0x7FFF_FFFF_FFFF_FFFF,
            BaseType::String
            | BaseType::Uint8z
            | BaseType::Uint16z
            | BaseType::Uint32z
            | BaseType::Uint64z => 0,
        }
    }

    /// The name of this base type in the profile.
    pub open spec fn spec_name(self) -> Seq<char> {
        match self {
            BaseType::Enum => "enum"@,
            BaseType::Sint8 => "sint8"@,
            BaseType::Uint8 => "uint8"@,
            BaseType::Sint16 => "sint16"@,
            BaseType::Uint16 => "uint16"@,
            BaseType::Sint32 => "sint32"@,
            BaseType::Uint32 => "uint32"@,
            BaseType::String => "string"@,
            BaseType::Float32 => "float32"@,
            BaseType::Float64 => "float64"@,
            BaseType::Uint8z => "uint8z"@,
            BaseType::Uint16z => "uint16z"@,
            BaseType::Uint32z => "uint32z"@,
            BaseType::Byte => "byte"@,
            BaseType::Sint64 => "sint64"@,
            BaseType::Uint64 => "uint64"@,
            BaseType::Uint64z => "uint64z"@,
        }
    }

    /// The base type that `code` names, if it names one.
    pub open spec fn spec_from_code(code: u8) -> Option<BaseType> {
        if code == 0x00 {
            Some(BaseType::Enum)
        } else if code == 0x01 {
            Some(BaseType::Sint8)
        } else if code == 0x02 {
            Some(BaseType::Uint8)
        } else if code == 0x83 {
            Some(BaseType::Sint16)
        } else if code == 0x84 {
            Some(BaseType::Uint16)
        } else if code == 0x85 {
            Some(BaseType::Sint32)
        } else if code == 0x86 {
            Some(BaseType::Uint32)
        } else if code == 0x07 {
            Some(BaseType::String)
        } else if code == 0x88 {
            Some(BaseType::Float32)
        } else if code == 0x89 {
            Some(BaseType::Float64)
        } else if code == 0x0A {
            Some(BaseType::Uint8z)
        } else if code == 0x8B {
            Some(BaseType::Uint16z)
        } else if code == 0x8C {
            Some(BaseType::Uint32z)
        } else if code == 0x0D {
            Some(BaseType::Byte)
        } else if code == 0x8E {
            Some(BaseType::Sint64)
        } else if code == 0x8F {
            Some(BaseType::Uint64)
        } else if code == 0x90 {
            Some(BaseType::Uint64z)
        } else {
            None
        }
    }

    /// The code by which a definition record names this base type.
    #[verifier::when_used_as_spec(spec_code)]
    pub fn code(self) -> (code: u8)
        ensures
            code == self.spec_code(),
    {
        match self {
            BaseType::Enum => 0x00,
            BaseType::Sint8 => 0x01,
            BaseType::Uint8 => 0x02,
            BaseType::Sint16 => 0x83,
            BaseType::Uint16 => 0x84,
            BaseType::Sint32 => 0x85,
            BaseType::Uint32 => 0x86,
            BaseType::String => 0x07,
            BaseType::Float32 => 0x88,
            BaseType::Float64 => 0x89,
            BaseType::Uint8z => 0x0A,
            BaseType::Uint16z => 0x8B,
            BaseType::Uint32z => 0x8C,
            BaseType::Byte => 0x0D,
            BaseType::Sint64 => 0x8E,
            BaseType::Uint64 => 0x8F,
            BaseType::Uint64z => 0x90,
        }
    }

    /// The base type that `code` names, if it names one.
    #[verifier::when_used_as_spec(spec_from_code)]
    pub fn from_code(code: u8) -> (base_type: Option<BaseType>)
        ensures
            base_type == BaseType::spec_from_code(code),
    {
        match code {
            0x00 => Some(BaseType::Enum),
            0x01 => Some(BaseType::Sint8),
            0x02 => Some(BaseType::Uint8),
            0x83 => Some(BaseType::Sint16),
            0x84 => Some(BaseType::Uint16),
            0x85 => Some(BaseType::Sint32),
            0x86 => Some(BaseType::Uint32),
            0x07 => Some(BaseType::String),
            0x88 => Some(BaseType::Float32),
            0x89 => Some(BaseType::Float64),
            0x0A => Some(BaseType::Uint8z),
            0x8B => Some(BaseType::Uint16z),
            0x8C => Some(BaseType::Uint32z),
            0x0D => Some(BaseType::Byte),
            0x8E => Some(BaseType::Sint64),
            0x8F => Some(BaseType::Uint64),
            0x90 => Some(BaseType::Uint64z),
            _ => None,
        }
    }

    /// The number of bytes that one element of this base type takes.
    #[verifier::when_used_as_spec(spec_size)]
    pub fn size(self) -> (size: u8)
        ensures
            size == self.spec_size(),
    {
        match self {
            BaseType::Enum
            | BaseType::Sint8
            | BaseType::Uint8
            | BaseType::String
            | BaseType::Uint8z
            | BaseType::Byte => 1,
            BaseType::Sint16 | BaseType::Uint16 | BaseType::Uint16z => 2,
            BaseType::Sint32 | BaseType::Uint32 | BaseType::Float32 | BaseType::Uint32z => 4,
            BaseType::Float64 | BaseType::Sint64 | BaseType::Uint64 | BaseType::Uint64z => 8,
        }
    }

    /// The bit pattern that stands for "no value" in an element of this base type.
    #[verifier::when_used_as_spec(spec_invalid_value)]
    pub fn invalid_value(self) -> (pattern: u64)
        ensures
            pattern == self.spec_invalid_value(),
    {
        match self {
            BaseType::Enum | BaseType::Uint8 | BaseType::Byte => 0xFF,
            BaseType::Sint8 => 0x7F,
            BaseType::Sint16 => 0x7FFF,
            BaseType::Uint16 => 0xFFFF,
            BaseType::Sint32 => 0x7FFF_FFFF,
            BaseType::Uint32 | BaseType::Float32 => 0xFFFF_FFFF,
            BaseType::Float64 | BaseType::Uint64 => 0xFFFF_FFFF_FFFF_FFFF,
            BaseType::Sint64 => 0x7FFF_FFFF_FFFF_FFFF,
            BaseType::String
            | BaseType::Uint8z
            | BaseType::Uint16z
            | BaseType::Uint32z
            | BaseType::Uint64z => 0,
        }
    }

    /// The name of this base type in the profile.
    pub fn name(self) -> (name: &'static str)
        ensures
            name@ == self.spec_name(),
    {
        match self {
            BaseType::Enum => "enum",
            BaseType::Sint8 => "sint8",
            BaseType::Uint8 => "uint8",
            BaseType::Sint16 => "sint16",
            BaseType::Uint16 => "uint16",
            BaseType::Sint32 => "sint32",
            BaseType::Uint32 => "uint32",
            BaseType::String => "string",
            BaseType::Float32 => "float32",
            BaseType::Float64 => "float64",
            BaseType::Uint8z => "uint8z",
            BaseType::Uint16z => "uint16z",
            BaseType::Uint32z => "uint32z",
            BaseType::Byte => "byte",
            BaseType::Sint64 => "sint64",
            BaseType::Uint64 => "uint64",
            BaseType::Uint64z => "uint64z",
        }
    }
}

impl From<BaseType> for u8 {
    fn from(base_type: BaseType) -> (code: u8) {
        base_type.code()
    }
}

impl FromSpecImpl<BaseType> for u8 {
    open spec fn obeys_from_spec() -> bool {
        true
    }

    open spec fn from_spec(base_type: BaseType) -> u8 {
        base_type.spec_code()
    }
}

/// A code names the base type whose code it is, and no other.
pub proof fn lemma_code_round_trip(base_type: BaseType, code: u8)
    ensures
        BaseType::spec_from_code(base_type.spec_code()) == Some(base_type),
        BaseType::spec_from_code(code) matches Some(named) ==> named.spec_code() == code,
{
}

/// All that is known of a base type, gathered in one value.
#[derive(Debug, Clone, PartialEq)]
pub struct BaseTypeInfo {
    pub base_type: BaseType,
    pub endian_ability: bool,
    pub base_type_field: u8,
    pub name: String,
    pub size: u8,
    pub invalid_value: u64,
}

/// The mathematical content of a [`BaseTypeInfo`].
pub struct BaseTypeInfoView {
    pub base_type: BaseType,
    pub endian_ability: bool,
    pub base_type_field: u8,
    pub name: Seq<char>,
    pub size: u8,
    pub invalid_value: u64,
}

impl View for BaseTypeInfo {
    type V = BaseTypeInfoView;

    open spec fn view(&self) -> BaseTypeInfoView {
        BaseTypeInfoView {
            base_type: self.base_type,
            endian_ability: self.endian_ability,
            base_type_field: self.base_type_field,
            name: self.name@,
            size: self.size,
            invalid_value: self.invalid_value,
        }
    }
}

impl DeepView for BaseTypeInfo {
    type V = BaseTypeInfoView;

    open spec fn deep_view(&self) -> BaseTypeInfoView {
        self@
    }
}

/// The description that belongs to `base_type`.
pub open spec fn base_type_info(base_type: BaseType) -> BaseTypeInfoView {
    BaseTypeInfoView {
        base_type,
        endian_ability: base_type.spec_endian_ability(),
        base_type_field: base_type.spec_code(),
        name: base_type.spec_name(),
        size: base_type.spec_size(),
        invalid_value: base_type.spec_invalid_value(),
    }
}

impl BaseTypeInfoView {
    /// Whether this is the description of the base type it names.
    pub open spec fn wf(self) -> bool {
        self == base_type_info(self.base_type)
    }
}

impl BaseTypeInfo {
    /// The description that belongs to `base_type`.
    pub fn of(base_type: BaseType) -> (info: BaseTypeInfo)
        ensures
            info@ == base_type_info(base_type),
    {
        BaseTypeInfo {
            base_type,
            endian_ability: base_type.size() > 1,
            base_type_field: base_type.code(),
            name: String::from_str(base_type.name()),
            size: base_type.size(),
            invalid_value: base_type.invalid_value(),
        }
    }
}

impl BaseTypeInfo {
    /// A copy of this description.
    pub fn duplicate(&self) -> (copy: BaseTypeInfo)
        ensures
            copy@ == self@,
    {
        BaseTypeInfo {
            base_type: self.base_type,
            endian_ability: self.endian_ability,
            base_type_field: self.base_type_field,
            name: self.name.clone(),
            size: self.size,
            invalid_value: self.invalid_value,
        }
    }
}

/// The description of the base type that the code `number` names; `None` where the code
/// names no base type.
pub fn get_base_type_info(number: u8) -> (info: Option<BaseTypeInfo>)
    ensures
        match BaseType::spec_from_code(number) {
            Some(base_type) => info is Some && info.unwrap()@ == base_type_info(base_type),
            None => info is None,
        },
{
    match BaseType::from_code(number) {
        Some(base_type) => Some(BaseTypeInfo::of(base_type)),
        None => None,
    }
}

} // verus!
