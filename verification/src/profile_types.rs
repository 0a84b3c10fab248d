//! The type catalog of the profile: the named types and their named values, as the
//! rows of the type table describe them.

use crate::csv_table::{csv_rows, read_csv};
use crate::error::{SchemaError, SchemaErrorKind};
use crate::text::{
    chars_of, parse_unsigned, str_equals, trim_bounds, trimmed, unsigned_of, Radix,
};
use vstd::prelude::*;

verus! {

/// One named value of a type.
#[derive(Debug, Clone, PartialEq)]
pub struct FitTypeValue {
    pub value_name: String,
    pub value: u32,
    pub comment: String,
}

/// The mathematical content of a [`FitTypeValue`].
pub struct FitTypeValueView {
    pub value_name: Seq<char>,
    pub value: u32,
    pub comment: Seq<char>,
}

impl View for FitTypeValue {
    type V = FitTypeValueView;

    open spec fn view(&self) -> FitTypeValueView {
        FitTypeValueView { value_name: self.value_name@, value: self.value, comment: self.comment@ }
    }
}

impl DeepView for FitTypeValue {
    type V = FitTypeValueView;

    open spec fn deep_view(&self) -> FitTypeValueView {
        self@
    }
}

/// A named type of the profile: its name, the name of its base type, and its values in
/// the order of the table.
#[derive(Debug, Clone, PartialEq)]
pub struct FitType {
    pub name: String,
    pub base_type: String,
    pub values: Vec<FitTypeValue>,
}

/// The mathematical content of a [`FitType`].
pub struct FitTypeView {
    pub name: Seq<char>,
    pub base_type: Seq<char>,
    pub values: Seq<FitTypeValueView>,
}

impl View for FitType {
    type V = FitTypeView;

    open spec fn view(&self) -> FitTypeView {
        FitTypeView {
            name: self.name@,
            base_type: self.base_type@,
            values: self.values.deep_view(),
        }
    }
}

impl DeepView for FitType {
    type V = FitTypeView;

    open spec fn deep_view(&self) -> FitTypeView {
        self@
    }
}

/// The least number of cells in a row of the type table.
pub const TYPE_COLUMNS: usize = 5;

/// The column of the name of the type that a row starts.
pub const TYPE_NAME_RECORD_IDX: usize = 0;

/// The column of the base type of the type that a row starts.
pub const BASE_TYPE_RECORD_IDX: usize = 1;

/// The column of the name of a value.
pub const VALUE_NAME_RECORD_IDX: usize = 2;

/// The column of a value.
pub const VALUE_RECORD_IDX: usize = 3;

/// The column of the comment on a value.
pub const COMMENT_RECORD_IDX: usize = 4;

/// Whether `s` starts with the mark of a hexadecimal number, `0x` or `0X`.
pub open spec fn has_hex_prefix(s: Seq<char>) -> bool {
    s.len() >= 2 && s[0] == '0' && (s[1] == 'x' || s[1] == 'X')
}

/// The value that the cell `cell` writes, white space around it aside: a number of 32
/// bits, hexadecimal after `0x` or `0X` and decimal otherwise.
pub open spec fn type_value_of(cell: Seq<char>) -> Option<u32> {
    let t = trimmed(cell);
    let number = if has_hex_prefix(t) {
        unsigned_of(t.skip(2), 16, 0xFFFF_FFFF)
    } else {
        unsigned_of(t, 10, 0xFFFF_FFFF)
    };
    match number {
        Some(value) => Some(value as u32),
        None => None,
    }
}

/// Reads the value cell of a row of the type table.
pub fn parse_type_value(cell: &str) -> (value: Option<u32>)
    ensures
        value == type_value_of(cell@),
{
    let chars = chars_of(cell);
    let (start, end) = trim_bounds(chars.as_slice());
    let t: &[char] = &chars[start..end];
    let number = if t.len() >= 2 && t[0] == '0' && (t[1] == 'x' || t[1] == 'X') {
        assert(t@.subrange(2, t.len() as int) =~= t@.skip(2));
        parse_unsigned(&t[2..t.len()], Radix::Hexadecimal, 0xFFFF_FFFF)
    } else {
        parse_unsigned(t, Radix::Decimal, 0xFFFF_FFFF)
    };
    match number {
        Some(value) => Some(value as u32),
        None => None,
    }
}

/// The largest value that a type with the base type named `base_type` can have: the
/// largest number of the width of the base type. The base type `enum` is eight bits
/// wide. Of any other base type than the unsigned integers up to 32 bits the width is
/// not known.
pub open spec fn base_type_limit(base_type: Seq<char>) -> Option<u32> {
    if base_type == "enum"@ || base_type == "uint8"@ || base_type == "uint8z"@ {
        Some(0xFFu32)
    } else if base_type == "uint16"@ || base_type == "uint16z"@ {
        Some(0xFFFFu32)
    } else if base_type == "uint32"@ || base_type == "uint32z"@ {
        Some(0xFFFF_FFFFu32)
    } else {
        None
    }
}

/// Whether `value` fits the width of the base type named `base_type`, as far as the
/// width is known.
pub open spec fn value_fits(base_type: Seq<char>, value: u32) -> bool {
    match base_type_limit(base_type) {
        Some(limit) => value <= limit,
        None => true,
    }
}

impl FitTypeView {
    /// Whether every value of the type fits the width of its base type.
    pub open spec fn wf(self) -> bool {
        forall|i: int|
            0 <= i < self.values.len() ==> value_fits(
                self.base_type,
                (#[trigger] self.values[i]).value,
            )
    }
}

/// The largest value that a type with the base type named `base_type` can have.
pub fn largest_value(base_type: &str) -> (limit: Option<u32>)
    ensures
        limit == base_type_limit(base_type@),
{
    if str_equals(base_type, "enum") || str_equals(base_type, "uint8") || str_equals(
        base_type,
        "uint8z",
    ) {
        Some(0xFF)
    } else if str_equals(base_type, "uint16") || str_equals(base_type, "uint16z") {
        Some(0xFFFF)
    } else if str_equals(base_type, "uint32") || str_equals(base_type, "uint32z") {
        Some(0xFFFF_FFFF)
    } else {
        None
    }
}

/// How far the loading of the type table has come: the types that are complete, and
/// the type that the next value row will add to.
pub struct TypesState {
    pub types: Seq<FitTypeView>,
    pub current: Option<FitTypeView>,
}

impl TypesState {
    /// Whether every value of every type of the state fits the width of its base type.
    pub open spec fn wf(self) -> bool {
        &&& forall|i: int| 0 <= i < self.types.len() ==> (#[trigger] self.types[i]).wf()
        &&& self.current matches Some(fit_type) ==> fit_type.wf()
    }

    /// The state before the first row: no type.
    pub open spec fn initial() -> TypesState {
        TypesState { types: Seq::empty(), current: None }
    }

    /// The types of this state, the one that is being added to last.
    pub open spec fn flushed(self) -> Seq<FitTypeView> {
        match self.current {
            Some(fit_type) => self.types.push(fit_type),
            None => self.types,
        }
    }
}

/// Whether `row` starts a type: it names one.
pub open spec fn is_type_row(row: Seq<Seq<char>>) -> bool {
    row[TYPE_NAME_RECORD_IDX as int].len() > 0
}

/// The value that the value row `row` describes. It is meant for rows whose value cell
/// writes a number.
pub open spec fn value_of_row(row: Seq<Seq<char>>) -> FitTypeValueView {
    FitTypeValueView {
        value_name: row[VALUE_NAME_RECORD_IDX as int],
        value: type_value_of(row[VALUE_RECORD_IDX as int]).unwrap(),
        comment: row[COMMENT_RECORD_IDX as int],
    }
}

/// The state after `row`, or the rule that `row` breaks.
///
/// A row that names a type completes the type before it and starts a new one. Every
/// other row adds a value to the type that was started last, so there must be one,
/// and the value must fit the width of its base type.
pub open spec fn type_step(state: TypesState, row: Seq<Seq<char>>) -> Result<
    TypesState,
    SchemaErrorKind,
> {
    if row.len() < TYPE_COLUMNS {
        Err(SchemaErrorKind::ColumnCount)
    } else if is_type_row(row) {
        Ok(
            TypesState {
                types: state.flushed(),
                current: Some(
                    FitTypeView {
                        name: row[TYPE_NAME_RECORD_IDX as int],
                        base_type: row[BASE_TYPE_RECORD_IDX as int],
                        values: Seq::empty(),
                    },
                ),
            },
        )
    } else {
        match state.current {
            None => Err(SchemaErrorKind::Orphan),
            Some(fit_type) => if type_value_of(row[VALUE_RECORD_IDX as int]) is None {
                Err(SchemaErrorKind::Number)
            } else if !value_fits(fit_type.base_type, value_of_row(row).value) {
                Err(SchemaErrorKind::ValueRange)
            } else {
                Ok(
                    TypesState {
                        types: state.types,
                        current: Some(
                            FitTypeView {
                                values: fit_type.values.push(value_of_row(row)),
                                ..fit_type
                            },
                        ),
                    },
                )
            },
        }
    }
}

/// The state after the first `count` rows of `rows`, or the error of the first row
/// among them that breaks a rule.
pub open spec fn types_after(rows: Seq<Seq<Seq<char>>>, count: nat) -> Result<
    TypesState,
    SchemaError,
>
    decreases count,
{
    if count == 0 {
        Ok(TypesState::initial())
    } else {
        match types_after(rows, (count - 1) as nat) {
            Err(error) => Err(error),
            Ok(state) => match type_step(state, rows[count - 1]) {
                Err(kind) => Err(SchemaError { kind, row: (count - 1) as usize }),
                Ok(next) => Ok(next),
            },
        }
    }
}

/// The types that the rows of the type table describe, in the order of the table, or
/// the error of the first row that breaks a rule.
pub open spec fn types_of(rows: Seq<Seq<Seq<char>>>) -> Result<Seq<FitTypeView>, SchemaError> {
    match types_after(rows, rows.len()) {
        Err(error) => Err(error),
        Ok(state) => Ok(state.flushed()),
    }
}

/// The mathematical content of what loading the type table hands back.
pub open spec fn loaded_types(result: Result<Vec<FitType>, SchemaError>) -> Result<
    Seq<FitTypeView>,
    SchemaError,
> {
    match result {
        Ok(types) => Ok(types.deep_view()),
        Err(error) => Err(error),
    }
}

/// Once a row has broken a rule, the rows after it change nothing.
proof fn lemma_types_error_persists(rows: Seq<Seq<Seq<char>>>, failed: nat, count: nat)
    requires
        failed <= count,
        types_after(rows, failed) is Err,
    ensures
        types_after(rows, count) == types_after(rows, failed),
    decreases count,
{
    if count > failed {
        lemma_types_error_persists(rows, failed, (count - 1) as nat);
    }
}

/// A row keeps the values of the types within the widths of their base types.
proof fn lemma_type_step_wf(state: TypesState, row: Seq<Seq<char>>)
    requires
        state.wf(),
    ensures
        type_step(state, row) matches Ok(next) ==> next.wf(),
{
    if let Ok(next) = type_step(state, row) {
        if is_type_row(row) {
        } else {
            let before = state.current.unwrap();
            let after = next.current.unwrap();
            assert forall|i: int| 0 <= i < after.values.len() implies value_fits(
                after.base_type,
                (#[trigger] after.values[i]).value,
            ) by {
                if i < before.values.len() {
                    assert(after.values[i] == before.values[i]);
                }
            }
        }
    }
}

/// Every value of every type that the loader hands out fits the width of the base
/// type of its type.
pub proof fn lemma_types_wf(rows: Seq<Seq<Seq<char>>>)
    ensures
        types_of(rows) matches Ok(types) ==> forall|i: int|
            0 <= i < types.len() ==> (#[trigger] types[i]).wf(),
{
    lemma_types_after_wf(rows, rows.len());
}

/// The state after any number of rows keeps the values within the widths.
proof fn lemma_types_after_wf(rows: Seq<Seq<Seq<char>>>, count: nat)
    ensures
        types_after(rows, count) matches Ok(state) ==> state.wf(),
    decreases count,
{
    if count > 0 {
        lemma_types_after_wf(rows, (count - 1) as nat);
        if let Ok(state) = types_after(rows, (count - 1) as nat) {
            lemma_type_step_wf(state, rows[count - 1]);
        }
    }
}

/// The loading of the type table, row by row.
pub struct TypeLoader {
    pub types: Vec<FitType>,
    pub current: Option<FitType>,
}

impl View for TypeLoader {
    type V = TypesState;

    open spec fn view(&self) -> TypesState {
        TypesState { types: self.types.deep_view(), current: self.current.deep_view() }
    }
}

impl TypeLoader {
    /// The loader before the first row.
    pub fn new() -> (loader: TypeLoader)
        ensures
            loader@ == TypesState::initial(),
    {
        let types: Vec<FitType> = Vec::new();
        assert(types.deep_view() =~= Seq::empty());
        TypeLoader { types, current: None }
    }

    /// Completes the type that is being added to, if there is one.
    fn flush(self) -> (loader: TypeLoader)
        ensures
            loader@ == (TypesState { types: self@.flushed(), current: None }),
    {
        let TypeLoader { types, current } = self;
        let mut types = types;
        let ghost before = types.deep_view();
        match current {
            Some(fit_type) => {
                types.push(fit_type);
                assert(types.deep_view() =~= before.push(fit_type@));
            },
            None => {},
        }
        TypeLoader { types, current: None }
    }

    /// Adds `value` to the type that is being added to.
    fn add_value(self, value: FitTypeValue) -> (loader: TypeLoader)
        requires
            self.current is Some,
        ensures
            loader@ == (TypesState {
                current: Some(
                    FitTypeView {
                        values: self@.current.unwrap().values.push(value@),
                        ..self@.current.unwrap()
                    },
                ),
                ..self@
            }),
    {
        let TypeLoader { types, current } = self;
        let FitType { name, base_type, values } = current.unwrap();
        let mut values = values;
        let ghost before = values.deep_view();
        values.push(value);
        assert(values.deep_view() =~= before.push(value@));
        TypeLoader { types, current: Some(FitType { name, base_type, values }) }
    }

    /// Takes in the next row of the table.
    pub fn step(self, row: &Vec<String>) -> (result: Result<TypeLoader, SchemaErrorKind>)
        ensures
            match type_step(self@, row.deep_view()) {
                Ok(next) => result matches Ok(loader) && loader@ == next,
                Err(kind) => result matches Err(error) && error == kind,
            },
    {
        let ghost cells = row.deep_view();
        assert(forall|k: int| 0 <= k < row.len() ==> cells[k] == (#[trigger] row[k])@);
        if row.len() < TYPE_COLUMNS {
            return Err(SchemaErrorKind::ColumnCount);
        }
        if !row[TYPE_NAME_RECORD_IDX].as_str().is_empty() {
            let mut loader = self.flush();
            let values: Vec<FitTypeValue> = Vec::new();
            assert(values.deep_view() =~= Seq::empty());
            loader.current =
            Some(
                FitType {
                    name: row[TYPE_NAME_RECORD_IDX].clone(),
                    base_type: row[BASE_TYPE_RECORD_IDX].clone(),
                    values,
                },
            );
            Ok(loader)
        } else {
            let limit = match &self.current {
                None => {
                    return Err(SchemaErrorKind::Orphan);
                },
                Some(fit_type) => largest_value(fit_type.base_type.as_str()),
            };
            let value = match parse_type_value(row[VALUE_RECORD_IDX].as_str()) {
                None => {
                    return Err(SchemaErrorKind::Number);
                },
                Some(value) => value,
            };
            match limit {
                Some(limit) => if value > limit {
                    return Err(SchemaErrorKind::ValueRange);
                },
                None => {},
            }
            Ok(
                self.add_value(
                    FitTypeValue {
                        value_name: row[VALUE_NAME_RECORD_IDX].clone(),
                        value,
                        comment: row[COMMENT_RECORD_IDX].clone(),
                    },
                ),
            )
        }
    }

    /// The types that the rows taken in describe.
    pub fn finish(self) -> (types: Vec<FitType>)
        ensures
            types.deep_view() == self@.flushed(),
    {
        self.flush().types
    }
}

/// Builds the type catalog from the rows of the type table. The heading of the table
/// is not among the rows.
pub fn types_from_rows(rows: &Vec<Vec<String>>) -> (result: Result<Vec<FitType>, SchemaError>)
    ensures
        loaded_types(result) == types_of(rows.deep_view()),
{
    let ghost table = rows.deep_view();
    let mut loader = TypeLoader::new();
    let mut i: usize = 0;
    while i < rows.len()
        invariant
            table == rows.deep_view(),
            i <= rows.len(),
            types_after(table, i as nat) == Ok::<TypesState, SchemaError>(loader@),
        decreases rows.len() - i,
    {
        assert(table[i as int] == rows[i as int].deep_view());
        match loader.step(&rows[i]) {
            Ok(next) => {
                loader = next;
            },
            Err(kind) => {
                proof {
                    lemma_types_error_persists(table, (i + 1) as nat, table.len());
                }
                return Err(SchemaError { kind, row: i });
            },
        }
        i += 1;
    }
    Ok(loader.finish())
}

/// The types that the type table `content` describes, which is given in
/// comma-separated form with a heading. A text that cannot be cut into rows is an
/// error of kind `Table`, at row zero.
pub open spec fn types_of_table(content: Seq<char>) -> Result<Seq<FitTypeView>, SchemaError> {
    match csv_rows(content) {
        None => Err(SchemaError { kind: SchemaErrorKind::Table, row: 0 }),
        Some(rows) => types_of(rows),
    }
}

/// Builds the type catalog from the type table `content`, which is given in
/// comma-separated form with a heading.
pub fn read_profile_types(content: &str) -> (result: Result<Vec<FitType>, SchemaError>)
    ensures
        loaded_types(result) == types_of_table(content@),
{
    match read_csv(content) {
        Ok(rows) => types_from_rows(&rows),
        Err(_) => Err(SchemaError { kind: SchemaErrorKind::Table, row: 0 }),
    }
}

/// Loading is a function of the table: whatever two loads of the same table hand back
/// has the same content.
pub proof fn lemma_read_profile_types_repeatable(
    content: Seq<char>,
    first: Result<Vec<FitType>, SchemaError>,
    second: Result<Vec<FitType>, SchemaError>,
)
    requires
        loaded_types(first) == types_of_table(content),
        loaded_types(second) == types_of_table(content),
    ensures
        loaded_types(first) == loaded_types(second),
{
}

} // verus!
