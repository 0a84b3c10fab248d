use fit_parser::error::{SchemaError, SchemaErrorKind};
use fit_parser::profile_emit::{
    comment_is_deprecated, fit_type_to_rust_type, generate_enum_type_as_string,
    generate_fit_trait_as_string, write_constant_text, write_enum_line, write_enum_text,
    write_marked_name, write_trait_text,
};
use fit_parser::profile_types::{
    largest_value, parse_type_value, read_profile_types, types_from_rows, FitType, FitTypeValue,
};

const TYPES: &str = "\
Type Name,Base Type,Value Name,Value,Comment
file,enum,,,
,,device,1,Read only
,,settings,2,\"Read/write, single file\"
,,old_thing,3,  Deprecated: do not use
mesg_num,uint16,,,
,,file_id,0,
,,capabilities,0x01,
,,mfg_range_min,0xFF00,0xFF00 - 0xFFFE reserved
";

fn value(name: &str, value: u32, comment: &str) -> FitTypeValue {
    FitTypeValue {
        value_name: name.to_string(),
        value,
        comment: comment.to_string(),
    }
}

fn expected_types() -> Vec<FitType> {
    vec![
        FitType {
            name: "file".to_string(),
            base_type: "enum".to_string(),
            values: vec![
                value("device", 1, "Read only"),
                value("settings", 2, "Read/write, single file"),
                value("old_thing", 3, "  Deprecated: do not use"),
            ],
        },
        FitType {
            name: "mesg_num".to_string(),
            base_type: "uint16".to_string(),
            values: vec![
                value("file_id", 0, ""),
                value("capabilities", 1, ""),
                value("mfg_range_min", 0xFF00, "0xFF00 - 0xFFFE reserved"),
            ],
        },
    ]
}

fn row(cells: &[&str]) -> Vec<String> {
    cells.iter().map(|cell| cell.to_string()).collect()
}

#[test]
fn types_of_a_small_table() {
    assert_eq!(read_profile_types(TYPES), Ok(expected_types()));
}

#[test]
fn loading_types_twice_gives_equal_models() {
    assert_eq!(read_profile_types(TYPES), read_profile_types(TYPES));
    let bad = "a,b,c,d,e\n,,x,1,\n";
    assert_eq!(read_profile_types(bad), read_profile_types(bad));
}

#[test]
fn heading_alone_gives_no_types() {
    assert_eq!(read_profile_types("Type Name,Base Type,Value Name,Value,Comment\n"), Ok(vec![]));
    assert_eq!(read_profile_types(""), Ok(vec![]));
    assert_eq!(types_from_rows(&vec![]), Ok(vec![]));
}

#[test]
fn each_type_is_flushed_once() {
    let rows = vec![
        row(&["a", "enum", "", "", ""]),
        row(&["b", "uint8", "", "", ""]),
        row(&["", "", "x", " 7 ", "c"]),
        row(&["c", "uint8z", "", "", "", "extra"]),
    ];
    let types = types_from_rows(&rows).unwrap();
    assert_eq!(types.len(), 3);
    assert_eq!(types[0].name, "a");
    assert!(types[0].values.is_empty());
    assert_eq!(types[1].values, vec![value("x", 7, "c")]);
    assert_eq!(types[2].base_type, "uint8z");
}

#[test]
fn type_table_errors() {
    let unequal = "a,b,c,d,e\nfile,enum,,,\n,,x,1\n";
    assert_eq!(
        read_profile_types(unequal),
        Err(SchemaError { kind: SchemaErrorKind::Table, row: 0 })
    );
    let narrow = "a,b,c,d\nfile,enum,,\n";
    assert_eq!(
        read_profile_types(narrow),
        Err(SchemaError { kind: SchemaErrorKind::ColumnCount, row: 0 })
    );
    let orphan = "a,b,c,d,e\n,,x,1,\n";
    assert_eq!(
        read_profile_types(orphan),
        Err(SchemaError { kind: SchemaErrorKind::Orphan, row: 0 })
    );
    let number = "a,b,c,d,e\nfile,enum,,,\n,,x,1,\n,,y,one,\n,,z,,\n";
    assert_eq!(
        read_profile_types(number),
        Err(SchemaError { kind: SchemaErrorKind::Number, row: 2 })
    );
    let blank = "a,b,c,d,e\nfile,enum,,,\n,,,,\n";
    assert_eq!(
        read_profile_types(blank),
        Err(SchemaError { kind: SchemaErrorKind::Number, row: 1 })
    );
}

#[test]
fn type_values() {
    assert_eq!(parse_type_value("0"), Some(0));
    assert_eq!(parse_type_value("  42\t"), Some(42));
    assert_eq!(parse_type_value("+42"), Some(42));
    assert_eq!(parse_type_value("4294967295"), Some(u32::MAX));
    assert_eq!(parse_type_value("0xFF"), Some(255));
    assert_eq!(parse_type_value("0Xff"), Some(255));
    assert_eq!(parse_type_value("0xFFFFFFFF"), Some(u32::MAX));
    assert_eq!(parse_type_value("0x+1f"), Some(31));
    assert_eq!(parse_type_value("007"), Some(7));
    for bad in ["", " ", "4294967296", "0x100000000", "0x", "x10", "-1", "1 2", "0xG", "1_000", "0x0x10"] {
        assert_eq!(parse_type_value(bad), None, "{:?}", bad);
    }
}

#[test]
fn enum_source_of_a_type() {
    let types = expected_types();
    assert_eq!(
        generate_enum_type_as_string(types[0].clone()),
        "pub enum File {\n    Device = 1, // Read only\n    Settings = 2, // Read/write, single file\n}\n"
    );
    assert_eq!(generate_enum_type_as_string(types[1].clone()), "");
}

#[test]
fn enum_source_without_values() {
    let empty = FitType {
        name: "sport_bits_0".to_string(),
        base_type: "enum".to_string(),
        values: vec![],
    };
    assert_eq!(generate_enum_type_as_string(empty), "pub enum SportBits0 {\n}\n");
}

#[test]
fn trait_source_of_a_type() {
    let types = expected_types();
    assert_eq!(
        generate_fit_trait_as_string(types[1].clone()),
        Ok("trait MesgNumTrait {\n    const FILE_ID: u16 = 0;\n    const CAPABILITIES: u16 = 1;\n    const MFG_RANGE_MIN: u16 = 65280; // 0xFF00 - 0xFFFE reserved\n}\nstruct MesgNum;\nimpl MesgNumTrait for MesgNum{}\n\n".to_string())
    );
    assert_eq!(
        generate_fit_trait_as_string(types[0].clone()),
        Err(SchemaErrorKind::BaseType)
    );
}

#[test]
fn constants_keep_deprecated_values_and_mark_leading_digits() {
    let t = FitType {
        name: "bits".to_string(),
        base_type: "uint32z".to_string(),
        values: vec![
            value("3d_speed", 4294967295, "deprecated"),
            value("", 10, ""),
        ],
    };
    assert_eq!(
        generate_fit_trait_as_string(t),
        Ok("trait BitsTrait {\n    const _3_D_SPEED: u32 = 4294967295; // deprecated\n    const : u32 = 10;\n}\nstruct Bits;\nimpl BitsTrait for Bits{}\n\n".to_string())
    );
}

#[test]
fn rust_types_of_base_types() {
    assert_eq!(fit_type_to_rust_type("uint8"), Some("u8"));
    assert_eq!(fit_type_to_rust_type("uint8z"), Some("u8"));
    assert_eq!(fit_type_to_rust_type("uint16"), Some("u16"));
    assert_eq!(fit_type_to_rust_type("uint16z"), Some("u16"));
    assert_eq!(fit_type_to_rust_type("uint32"), Some("u32"));
    assert_eq!(fit_type_to_rust_type("uint32z"), Some("u32"));
    for other in ["enum", "sint8", "uint64", "", "UINT8", "uint8 "] {
        assert_eq!(fit_type_to_rust_type(other), None, "{:?}", other);
    }
}

#[test]
fn deprecated_comments() {
    for yes in ["deprecated", "Deprecated", "DEPRECATED: gone", "  dEpReCaTeD", "\tdeprecated\n", "deprecatedX"] {
        assert!(comment_is_deprecated(yes), "{:?}", yes);
        assert!(yes.trim().to_lowercase().starts_with("deprecated"));
    }
    for no in ["", "deprecate", "not deprecated", "de precated", "depr", "\u{212A}deprecated"] {
        assert!(!comment_is_deprecated(no), "{:?}", no);
        assert!(!no.trim().to_lowercase().starts_with("deprecated"));
    }
}

#[test]
fn values_must_fit_the_base_type() {
    assert_eq!(largest_value("enum"), Some(255));
    assert_eq!(largest_value("uint8"), Some(255));
    assert_eq!(largest_value("uint8z"), Some(255));
    assert_eq!(largest_value("uint16"), Some(65535));
    assert_eq!(largest_value("uint16z"), Some(65535));
    assert_eq!(largest_value("uint32"), Some(u32::MAX));
    assert_eq!(largest_value("uint32z"), Some(u32::MAX));
    assert_eq!(largest_value("sint8"), None);
    assert_eq!(largest_value(""), None);
    let at = |kind: SchemaErrorKind, row: usize| Err(SchemaError { kind, row });
    let table = |base_type: &str, value: &str| {
        types_from_rows(&vec![row(&["t", base_type, "", "", ""]), row(&["", "", "v", value, ""])])
    };
    assert!(table("enum", "255").is_ok());
    assert_eq!(table("enum", "256"), at(SchemaErrorKind::ValueRange, 1));
    assert_eq!(table("uint8z", "0x100"), at(SchemaErrorKind::ValueRange, 1));
    assert!(table("uint16", "65535").is_ok());
    assert_eq!(table("uint16", "65536"), at(SchemaErrorKind::ValueRange, 1));
    assert!(table("uint32", "4294967295").is_ok());
    assert_eq!(table("uint32", "4294967296"), at(SchemaErrorKind::Number, 1));
    assert!(table("string", "4294967295").is_ok());
}

#[test]
fn lines_of_generated_source() {
    assert_eq!(write_enum_line("Device", 1, ""), "    Device = 1,\n");
    assert_eq!(write_enum_line("Device", 0, "x"), "    Device = 0, // x\n");
    assert_eq!(write_enum_line("", 4294967295, " "), "     = 4294967295, //  \n");
    assert_eq!(write_enum_text("File", ""), "pub enum File {\n}\n");
    assert_eq!(write_enum_text("File", "    A = 1,\n"), "pub enum File {\n    A = 1,\n}\n");
    assert_eq!(write_marked_name("file_id", "FILE_ID"), "FILE_ID");
    assert_eq!(write_marked_name("3d", "3_D"), "_3_D");
    assert_eq!(write_marked_name("", ""), "");
    assert_eq!(write_marked_name("٣d", "X"), "X");
    assert_eq!(
        write_constant_text("FILE_ID", "u16", 10, ""),
        "    const FILE_ID: u16 = 10;\n"
    );
    assert_eq!(
        write_constant_text("A", "u8", 7, "seven"),
        "    const A: u8 = 7; // seven\n"
    );
    assert_eq!(
        write_trait_text("MesgNum", "    const A: u8 = 7;\n"),
        "trait MesgNumTrait {\n    const A: u8 = 7;\n}\nstruct MesgNum;\nimpl MesgNumTrait for MesgNum{}\n\n"
    );
}

#[test]
fn decimal_numerals() {
    for number in [0u32, 1, 9, 10, 11, 99, 100, 101, 65535, 1000000, 4294967295] {
        assert_eq!(write_enum_line("", number, ""), format!("     = {},\n", number));
    }
}
