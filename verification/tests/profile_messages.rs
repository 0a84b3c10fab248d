use fit_parser::decimal::{parse_decimal, Decimal};
use fit_parser::error::{SchemaError, SchemaErrorKind};
use fit_parser::profile_messages::{
    messages_from_rows, parse_comma_delimited_string_list, parse_field_row,
    parse_fit_message_accumulate, parse_fit_message_array, parse_fit_message_bits,
    parse_fit_message_offset_record, parse_fit_message_scale_record, read_messages,
    validate_components_with_accumulate, validate_components_with_bits,
    validate_components_with_scale, validate_ref_field_names_and_values, FitMessage,
    FitMessageArrayType, FitMessageField, FitRefField,
};

#[test]
fn test_parse_empty_fit_message_array_definition() {
    let res = parse_fit_message_array("").unwrap();
    assert_eq!(res, FitMessageArrayType::NotArray)
}

#[test]
fn test_parse_fixed_size_fit_message_array_definition() {
    let res = parse_fit_message_array("[3]").unwrap();
    assert_eq!(res, FitMessageArrayType::FixedSizeArray(3))
}

#[test]
fn test_parse_variable_size_fit_message_arra_definition() {
    let res = parse_fit_message_array("[N]").unwrap();
    assert_eq!(res, FitMessageArrayType::VariableSizeArray);
}

#[test]
fn array_cells() {
    assert_eq!(parse_fit_message_array("  "), Ok(FitMessageArrayType::NotArray));
    assert_eq!(parse_fit_message_array(" [n] "), Ok(FitMessageArrayType::VariableSizeArray));
    assert_eq!(parse_fit_message_array("[12]"), Ok(FitMessageArrayType::FixedSizeArray(12)));
    assert_eq!(parse_fit_message_array("[+7]"), Ok(FitMessageArrayType::FixedSizeArray(7)));
    assert_eq!(parse_fit_message_array("\u{3000}[007]\t"), Ok(FitMessageArrayType::FixedSizeArray(7)));
    for bad in ["[0]", "[]", "[", "]", "3", "[ 3]", "[3", "[-1]", "[x]", "[NN]", "[1.5]", "[99999999999999999999999]"] {
        assert_eq!(parse_fit_message_array(bad), Err(SchemaErrorKind::Array), "{:?}", bad);
    }
}

#[test]
fn offset_cells() {
    assert_eq!(parse_fit_message_offset_record(""), Ok(0));
    assert_eq!(parse_fit_message_offset_record("500"), Ok(500));
    assert_eq!(parse_fit_message_offset_record("+500"), Ok(500));
    assert_eq!(parse_fit_message_offset_record("-273"), Ok(-273));
    assert_eq!(parse_fit_message_offset_record("-0"), Ok(0));
    assert_eq!(parse_fit_message_offset_record("32767"), Ok(32767));
    assert_eq!(parse_fit_message_offset_record("-32768"), Ok(-32768));
    for bad in ["32768", "-32769", " 1", "1 ", "-", "+", "+-1", "1.0", "0x10", "１"] {
        assert_eq!(
            parse_fit_message_offset_record(bad),
            Err(SchemaErrorKind::Offset),
            "{:?}",
            bad
        );
        assert_eq!(bad.parse::<i16>().is_err(), true, "{:?}", bad);
    }
}

#[test]
fn string_list_cells() {
    assert_eq!(parse_comma_delimited_string_list(""), Vec::<String>::new());
    assert_eq!(parse_comma_delimited_string_list("a"), vec!["a"]);
    assert_eq!(parse_comma_delimited_string_list("a,b"), vec!["a", "b"]);
    assert_eq!(parse_comma_delimited_string_list(" a , b "), vec![" a ", " b "]);
    assert_eq!(parse_comma_delimited_string_list(","), vec!["", ""]);
    assert_eq!(parse_comma_delimited_string_list("a,,b,"), vec!["a", "", "b", ""]);
    assert_eq!(parse_comma_delimited_string_list("grüße,m/s"), vec!["grüße", "m/s"]);
    for text in ["", "a", ",", "a,,b,", "x,y,z", ",,,"] {
        let expected: Vec<String> = if text.is_empty() {
            vec![]
        } else {
            text.split(',').map(|piece| piece.to_string()).collect()
        };
        assert_eq!(parse_comma_delimited_string_list(text), expected);
    }
}

#[test]
fn bits_and_accumulate_cells() {
    assert_eq!(parse_fit_message_bits(""), Ok(vec![]));
    assert_eq!(parse_fit_message_bits("8"), Ok(vec![8]));
    assert_eq!(parse_fit_message_bits("12, 12 ,8"), Ok(vec![12, 12, 8]));
    assert_eq!(parse_fit_message_bits("255,0,+1"), Ok(vec![255, 0, 1]));
    assert_eq!(parse_fit_message_accumulate("1,1"), Ok(vec![1, 1]));
    assert_eq!(parse_fit_message_accumulate(""), Ok(vec![]));
    for bad in ["256", "1,", ",", "a", "1;2", "-1", " "] {
        assert_eq!(parse_fit_message_bits(bad), Err(SchemaErrorKind::Bits), "{:?}", bad);
        assert_eq!(
            parse_fit_message_accumulate(bad),
            Err(SchemaErrorKind::Accumulate),
            "{:?}",
            bad
        );
    }
}

#[test]
fn scale_cells() {
    let d = |mantissa: u64, fraction_digits: u8| Decimal { mantissa, fraction_digits };
    assert_eq!(parse_fit_message_scale_record(""), Ok(vec![d(1, 0)]));
    assert_eq!(parse_fit_message_scale_record(""), Ok(vec![Decimal::one()]));
    assert_eq!(parse_fit_message_scale_record("100"), Ok(vec![d(100, 0)]));
    assert_eq!(parse_fit_message_scale_record("1.0"), Ok(vec![d(10, 1)]));
    assert_eq!(parse_fit_message_scale_record("0.01"), Ok(vec![d(1, 2)]));
    assert_eq!(parse_fit_message_scale_record(".5"), Ok(vec![d(5, 1)]));
    assert_eq!(parse_fit_message_scale_record("5."), Ok(vec![d(5, 0)]));
    assert_eq!(parse_fit_message_scale_record("+2.50"), Ok(vec![d(250, 2)]));
    assert_eq!(
        parse_fit_message_scale_record("100, 1000 ,1.5"),
        Ok(vec![d(100, 0), d(1000, 0), d(15, 1)])
    );
    assert_eq!(
        parse_fit_message_scale_record("18446744073709551615"),
        Ok(vec![d(u64::MAX, 0)])
    );
    for bad in ["0", "0.0", "-1", ".", "1..2", "1.2.3", "1,", "x", "1e3", "18446744073709551616", " ", "+", "inf"] {
        assert_eq!(parse_fit_message_scale_record(bad), Err(SchemaErrorKind::Scale), "{:?}", bad);
    }
}

#[test]
fn decimals() {
    let chars = |text: &str| text.chars().collect::<Vec<char>>();
    assert_eq!(parse_decimal(&chars("0")), Some(Decimal { mantissa: 0, fraction_digits: 0 }));
    assert_eq!(parse_decimal(&chars("12.345")), Some(Decimal { mantissa: 12345, fraction_digits: 3 }));
    assert_eq!(parse_decimal(&chars("")), None);
    assert_eq!(parse_decimal(&chars("1 ")), None);
    assert!(!Decimal { mantissa: 0, fraction_digits: 3 }.is_positive());
    assert!(Decimal { mantissa: 1, fraction_digits: 3 }.is_positive());
    let long = format!("0.{}1", "0".repeat(254));
    assert_eq!(parse_decimal(&chars(&long)), Some(Decimal { mantissa: 1, fraction_digits: 255 }));
    let longer = format!("0.{}1", "0".repeat(255));
    assert_eq!(parse_decimal(&chars(&longer)), None);
}

#[test]
fn validators() {
    let names = |n: usize| vec!["x".to_string(); n];
    let one = Decimal::one();
    assert!(validate_components_with_scale(&names(2), &[one, one], false));
    assert!(validate_components_with_scale(&names(2), &[one], true));
    assert!(validate_components_with_scale(&names(0), &[one], false));
    assert!(!validate_components_with_scale(&names(2), &[one], false));
    assert!(!validate_components_with_scale(&names(0), &[one, one], false));
    assert!(validate_components_with_bits(&names(2), &[8, 8]));
    assert!(validate_components_with_bits(&names(0), &[]));
    assert!(validate_components_with_bits(&names(0), &[8]));
    assert!(!validate_components_with_bits(&names(0), &[8, 8]));
    assert!(!validate_components_with_bits(&names(2), &[8]));
    assert!(!validate_components_with_bits(&names(1), &[]));
    assert!(validate_components_with_accumulate(&names(2), &[1, 1]));
    assert!(validate_components_with_accumulate(&names(2), &[]));
    assert!(!validate_components_with_accumulate(&names(2), &[1]));
    assert!(!validate_components_with_accumulate(&names(0), &[1]));
    assert!(validate_ref_field_names_and_values(&names(2), &names(2)));
    assert!(!validate_ref_field_names_and_values(&names(2), &names(1)));
}

const MESSAGES: &str = "\
Message Name,Field Def #,Field Name,Field Type,Array,Components,Scale,Offset,Units,Bits,Accumulate,Ref Field Name,Ref Field Value,Comment,Products:,EXAMPLE
,,,COMMON MESSAGES,,,,,,,,,,,,
file_id,,,,,,,,,,,,,Must be first message in file.,,
,0,type,file,,,,,,,,,,,,1
,1,manufacturer,manufacturer,,,,,,,,,,,,1
,,favero_product,favero_product,,,,,,,,manufacturer,favero_electronics,,,
,3,serial_number,uint32z,,,,,,,,,,,,1
,,,ACTIVITY FILE MESSAGES,,,,,,,,,,,,
record,,,,,,,,,,,,,,,
,253,timestamp,date_time,,,,,s,,,,,,,1
,2,altitude,uint16,,enhanced_altitude,5,500,m,16,,,,,,1
,8,compressed_speed_distance,byte,[3],\"speed,distance\",\"100,16\",,\"m/s,m\",\"12,12\",\"0,1\",,,,,
,108,dynamic,uint8,[N],,,-5,,,,\"a,b\",\"1,2\",A comment,,
";

fn field(category: &str, definition_number: u8, name: &str, field_type: &str) -> FitMessageField {
    FitMessageField {
        category: category.to_string(),
        definition_number,
        name: name.to_string(),
        field_type: field_type.to_string(),
        array: FitMessageArrayType::NotArray,
        scale: vec![Decimal::one()],
        offset: 0,
        components: vec![],
        units: vec![],
        bits: vec![],
        accumulate: vec![],
        ref_fields: vec![],
        comment: None,
        example: Some(1),
    }
}

fn texts(items: &[&str]) -> Vec<String> {
    items.iter().map(|item| item.to_string()).collect()
}

fn expected_messages() -> Vec<FitMessage> {
    let d = |mantissa: u64| Decimal { mantissa, fraction_digits: 0 };
    vec![
        FitMessage {
            name: "file_id".to_string(),
            comment: Some("Must be first message in file.".to_string()),
            fields: vec![
                field("COMMON MESSAGES", 0, "type", "file"),
                field("COMMON MESSAGES", 1, "manufacturer", "manufacturer"),
                field("COMMON MESSAGES", 3, "serial_number", "uint32z"),
            ],
        },
        FitMessage {
            name: "record".to_string(),
            comment: None,
            fields: vec![
                FitMessageField {
                    units: texts(&["s"]),
                    ..field("ACTIVITY FILE MESSAGES", 253, "timestamp", "date_time")
                },
                FitMessageField {
                    components: texts(&["enhanced_altitude"]),
                    scale: vec![d(5)],
                    offset: 500,
                    units: texts(&["m"]),
                    bits: vec![16],
                    ..field("ACTIVITY FILE MESSAGES", 2, "altitude", "uint16")
                },
                FitMessageField {
                    array: FitMessageArrayType::FixedSizeArray(3),
                    components: texts(&["speed", "distance"]),
                    scale: vec![d(100), d(16)],
                    units: texts(&["m/s", "m"]),
                    bits: vec![12, 12],
                    accumulate: vec![0, 1],
                    example: None,
                    ..field("ACTIVITY FILE MESSAGES", 8, "compressed_speed_distance", "byte")
                },
                FitMessageField {
                    array: FitMessageArrayType::VariableSizeArray,
                    offset: -5,
                    ref_fields: vec![
                        FitRefField { name: "a".to_string(), value: "1".to_string() },
                        FitRefField { name: "b".to_string(), value: "2".to_string() },
                    ],
                    comment: Some("A comment".to_string()),
                    example: None,
                    ..field("ACTIVITY FILE MESSAGES", 108, "dynamic", "uint8")
                },
            ],
        },
    ]
}

#[test]
fn messages_of_a_small_table() {
    assert_eq!(read_messages(MESSAGES), Ok(expected_messages()));
}

#[test]
fn loading_messages_twice_gives_equal_models() {
    assert_eq!(read_messages(MESSAGES), read_messages(MESSAGES));
}

#[test]
fn each_message_is_flushed_once() {
    let messages = read_messages(MESSAGES).unwrap();
    assert_eq!(messages.len(), 2);
    assert_eq!(messages[0].name, "file_id");
    assert_eq!(messages[1].name, "record");
    assert_eq!(messages_from_rows(&vec![]), Ok(vec![]));
}

fn field_row(changes: &[(usize, &str)]) -> Vec<String> {
    let mut row = vec![String::new(); 16];
    row[1] = "1".to_string();
    row[2] = "f".to_string();
    row[3] = "uint8".to_string();
    for (index, text) in changes {
        row[*index] = text.to_string();
    }
    row
}

fn message_row(name: &str) -> Vec<String> {
    let mut row = vec![String::new(); 16];
    row[0] = name.to_string();
    row
}

#[test]
fn field_rows() {
    let category = "C".to_string();
    let parsed = parse_field_row(&category, &field_row(&[])).unwrap();
    assert_eq!(parsed, FitMessageField { example: None, ..field("C", 1, "f", "uint8") });
    let errors: [(&[(usize, &str)], SchemaErrorKind); 12] = [
        (&[(1, "256")], SchemaErrorKind::Number),
        (&[(1, " 1")], SchemaErrorKind::Number),
        (&[(4, "[0]")], SchemaErrorKind::Array),
        (&[(6, "0")], SchemaErrorKind::Scale),
        (&[(7, "40000")], SchemaErrorKind::Offset),
        (&[(9, "x")], SchemaErrorKind::Bits),
        (&[(10, "x")], SchemaErrorKind::Accumulate),
        (&[(5, "a,b"), (6, "1")], SchemaErrorKind::ComponentsScale),
        (&[(5, "a,b"), (9, "8")], SchemaErrorKind::ComponentsBits),
        (&[(5, "a,b"), (9, "8,8"), (10, "1")], SchemaErrorKind::ComponentsAccumulate),
        (&[(11, "a,b"), (12, "1")], SchemaErrorKind::RefFields),
        (&[(15, "300")], SchemaErrorKind::Example),
    ];
    for (changes, kind) in errors {
        assert_eq!(parse_field_row(&category, &field_row(changes)), Err(kind), "{:?}", changes);
    }
    assert_eq!(
        parse_field_row(&category, &vec![String::new(); 15]),
        Err(SchemaErrorKind::ColumnCount)
    );
    // the first rule that is broken counts
    assert_eq!(
        parse_field_row(&category, &field_row(&[(4, "x"), (1, "x"), (15, "x")])),
        Err(SchemaErrorKind::Number)
    );
    assert_eq!(
        parse_field_row(&category, &field_row(&[(15, "x"), (11, "a")])),
        Err(SchemaErrorKind::RefFields)
    );
}

#[test]
fn message_table_errors() {
    let at = |kind: SchemaErrorKind, row: usize| Err(SchemaError { kind, row });
    assert_eq!(
        messages_from_rows(&vec![message_row("m"), vec![String::new(); 15]]),
        at(SchemaErrorKind::ColumnCount, 1)
    );
    assert_eq!(
        messages_from_rows(&vec![vec![String::new(); 17]]),
        at(SchemaErrorKind::ColumnCount, 0)
    );
    assert_eq!(
        messages_from_rows(&vec![field_row(&[])]),
        at(SchemaErrorKind::Orphan, 0)
    );
    assert_eq!(
        messages_from_rows(&vec![field_row(&[(1, "x")])]),
        at(SchemaErrorKind::Orphan, 0)
    );
    assert_eq!(
        messages_from_rows(&vec![
            message_row("m"),
            field_row(&[]),
            field_row(&[(6, "-1")]),
            field_row(&[(1, "x")]),
        ]),
        at(SchemaErrorKind::Scale, 2)
    );
    assert_eq!(
        read_messages("a,b\n1,2,3\n"),
        at(SchemaErrorKind::Table, 0)
    );
}

#[test]
fn rows_without_a_definition_number_are_skipped() {
    let mut sub_field = field_row(&[(4, "not an array"), (6, "bad")]);
    sub_field[1] = String::new();
    let rows = vec![sub_field.clone(), message_row("m"), sub_field, field_row(&[])];
    let messages = messages_from_rows(&rows).unwrap();
    assert_eq!(messages.len(), 1);
    assert_eq!(messages[0].fields.len(), 1);
    assert_eq!(messages[0].fields[0].category, "");
}

#[test]
fn a_message_row_may_name_its_category_too() {
    let mut category = vec![String::new(); 16];
    category[3] = "FIRST".to_string();
    let mut start = message_row("m");
    start[3] = "ignored".to_string();
    start[1] = "7".to_string();
    let rows = vec![category, start, field_row(&[])];
    let messages = messages_from_rows(&rows).unwrap();
    assert_eq!(messages.len(), 1);
    assert_eq!(messages[0].fields.len(), 1);
    assert_eq!(messages[0].fields[0].category, "FIRST");
}
