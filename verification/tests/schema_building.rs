use std::path::PathBuf;

use geno::ast::{
    BuiltinType, Declaration, FieldType, FloatType, IntegerType, IntegerValue, MetadataValue, Schema,
};
use geno::{GenoAstBuilder, GenoError, Location};

fn gen_ast(input: &str) -> Result<Schema, GenoError> {
    GenoAstBuilder::new(PathBuf::from("test.geno")).build_from_source(input)
}

#[test]
fn happy_path() {
    let input = r#"
meta { format = 1 }
enum enum1: i16 {
    default = -1,
    banana = 0,
    apple = 1,
    orange = 2,
    kiwiFruit = 3,
    pear = 4,
}
// Another comment
struct type1 {
    alpha: i8,
    alpha_beta: u8,
    alphaBeta: i16,
    a4: u16,
    a5: i32,
    a6: u32,
    a7: i64,
    a8: u64,
    a9: f32,
    a10: f64,
    n1: i8?,
    n2: u8?,
    n3: i16?,
    n4: u16?,
    n5: i16?,
    n6: u16?,
    n7: i32?,
    n8: u32?,
    n9: i64?,
    n10: u64?,
    s1: string,
    s2: string?,
    b1: bool,
    b2: bool?,
    e1: enum1,
    e2: enum1?,
    r1: [ string ],
    r2: [ string ]?,
    r3: [ string; 10],
    m1: { string : f64 },
    m2: { string : string },
    m3: { string : bool },
    t1: type1,
}"#;
    gen_ast(&input).unwrap();
}

#[test]
fn bad_parse() {
    let input = "meta { ";
    let result = gen_ast(&input);

    match result {
        Err(GenoError::Parse { .. }) => {
            assert!(true);
        }
        _ => {
            panic!("expected GenoError::Parse");
        }
    }
}

#[test]
fn number_range() {
    let input = r#"
meta { format = 1 }
enum A:i16 { v = 0xffffffff, }
"#;
    let result = gen_ast(&input);

    match result {
        Err(GenoError::NumberRange { .. }) => {
            assert!(true);
        }
        _ => {
            panic!("expected GenoError::NumberRange");
        }
    }
}

#[test]
fn happy_path_contents() {
    let input = "meta { format = 1, name = \"demo\" }\n\
                 enum Color: u8 { red = 0, green = 0x10, blue = 0b11 }\n\
                 struct Point { x: i32, tags: [string; 3]?, m: { u8 : [Color] } }\n";
    let schema = gen_ast(input).unwrap();
    assert_eq!(
        schema.metadata,
        vec![
            ("format".to_string(), MetadataValue::Integer(IntegerValue::I64(1))),
            ("name".to_string(), MetadataValue::String("\"demo\"".to_string())),
        ]
    );
    assert_eq!(schema.declarations.len(), 2);
    assert_eq!(
        schema.declarations[0],
        Declaration::Enum {
            ident: "Color".to_string(),
            base_type: IntegerType::U8,
            variants: vec![
                ("red".to_string(), IntegerValue::U8(0)),
                ("green".to_string(), IntegerValue::U8(16)),
                ("blue".to_string(), IntegerValue::U8(3)),
            ],
        }
    );
    assert_eq!(
        schema.declarations[1],
        Declaration::Struct {
            ident: "Point".to_string(),
            fields: vec![
                ("x".to_string(), FieldType::Builtin(BuiltinType::Integer(IntegerType::I32), false)),
                (
                    "tags".to_string(),
                    FieldType::Array(Box::new(FieldType::Builtin(BuiltinType::String, false)), Some(3), true)
                ),
                (
                    "m".to_string(),
                    FieldType::MapType(
                        BuiltinType::Integer(IntegerType::U8),
                        Box::new(FieldType::Array(
                            Box::new(FieldType::UserDefined("Color".to_string(), false)),
                            None,
                            false
                        )),
                        false
                    )
                ),
            ],
        }
    );
}

#[test]
fn enum_base_type_defaults_to_i32() {
    let schema = gen_ast("meta {} enum E { a = -2147483648 }").unwrap();
    assert_eq!(
        schema.declarations[0],
        Declaration::Enum {
            ident: "E".to_string(),
            base_type: IntegerType::I32,
            variants: vec![("a".to_string(), IntegerValue::I32(-2147483648))],
        }
    );
}

#[test]
fn later_meta_entry_replaces_earlier() {
    let schema = gen_ast("meta { a = 1, b = 2, a = 3, }").unwrap();
    assert_eq!(
        schema.metadata,
        vec![
            ("a".to_string(), MetadataValue::Integer(IntegerValue::I64(3))),
            ("b".to_string(), MetadataValue::Integer(IntegerValue::I64(2))),
        ]
    );
}

#[test]
fn float_types_are_builtin() {
    let schema = gen_ast("meta {}\nstruct S { a: f32, b: f64? }").unwrap();
    assert_eq!(
        schema.declarations[0],
        Declaration::Struct {
            ident: "S".to_string(),
            fields: vec![
                ("a".to_string(), FieldType::Builtin(BuiltinType::Float(FloatType::F32), false)),
                ("b".to_string(), FieldType::Builtin(BuiltinType::Float(FloatType::F64), true)),
            ],
        }
    );
}

#[test]
fn parse_error_location_and_line() {
    let result = gen_ast("meta {}\nstruct S {\n  a: i8\n  b: u8\n}\n");
    assert_eq!(
        result,
        Err(GenoError::Parse {
            content: "  b: u8".to_string(),
            file: "test.geno".to_string(),
            location: Location { line: 4, column: 3 },
        })
    );
}

#[test]
fn missing_meta_is_a_parse_error() {
    let result = gen_ast("struct S { a: i8 }");
    assert_eq!(
        result,
        Err(GenoError::Parse {
            content: "struct S { a: i8 }".to_string(),
            file: "test.geno".to_string(),
            location: Location { line: 1, column: 1 },
        })
    );
}

#[test]
fn number_range_reports_literal() {
    let result = gen_ast("meta {}\nenum E: i8 {\n  a = 127,\n  b = 128,\n}\n");
    assert_eq!(
        result,
        Err(GenoError::NumberRange {
            content: "128".to_string(),
            file: "test.geno".to_string(),
            location: Location { line: 4, column: 7 },
        })
    );
}

#[test]
fn hex_for_signed_type_is_out_of_range() {
    let result = gen_ast("meta {}\nenum E: i64 { a = 0x1 }");
    assert!(matches!(result, Err(GenoError::NumberRange { .. })));
}

#[test]
fn negative_for_unsigned_type_is_out_of_range() {
    let result = gen_ast("meta {}\nenum E: u8 { a = -1 }");
    assert!(matches!(result, Err(GenoError::NumberRange { .. })));
}

#[test]
fn unsigned_extremes() {
    let schema = gen_ast("meta {}\nenum E: u64 { a = 18446744073709551615, b = 0xFFffFFffFFffFFff }").unwrap();
    assert_eq!(
        schema.declarations[0],
        Declaration::Enum {
            ident: "E".to_string(),
            base_type: IntegerType::U64,
            variants: vec![
                ("a".to_string(), IntegerValue::U64(u64::MAX)),
                ("b".to_string(), IntegerValue::U64(u64::MAX)),
            ],
        }
    );
    let result = gen_ast("meta {}\nenum E: u64 { a = 18446744073709551616 }");
    assert!(matches!(result, Err(GenoError::NumberRange { .. })));
}

#[test]
fn meta_integer_out_of_i64_range() {
    let result = gen_ast("meta { big = 9223372036854775808 }");
    assert_eq!(
        result,
        Err(GenoError::NumberRange {
            content: "9223372036854775808".to_string(),
            file: "test.geno".to_string(),
            location: Location { line: 1, column: 14 },
        })
    );
}

#[test]
fn array_length_out_of_range() {
    let result = gen_ast("meta {}\nstruct S { a: [u8; 99999999999999999999999] }");
    assert!(matches!(result, Err(GenoError::NumberRange { .. })));
}

#[test]
fn array_length_is_read_before_element_type() {
    let result = gen_ast(
        "meta {}\nstruct S { a: [[u8; 99999999999999999999999]; 88888888888888888888888] }",
    );
    match result {
        Err(GenoError::NumberRange { content, .. }) => assert_eq!(content, "88888888888888888888888"),
        other => panic!("unexpected {:?}", other),
    }
}

#[test]
fn syntax_error_comes_before_range_error() {
    let result = gen_ast("meta {}\nenum E: u8 { a = 300 }\nstruct");
    assert!(matches!(result, Err(GenoError::Parse { .. })));
}

#[test]
fn map_key_must_be_builtin() {
    let result = gen_ast("meta {}\nstruct S { m: { Foo : u8 } }");
    assert!(matches!(result, Err(GenoError::Parse { .. })));
}

#[test]
fn errors_name_the_label() {
    let builder = GenoAstBuilder::with_label(PathBuf::from("dir/a.geno"), "dir/a.geno".to_string());
    let result = builder.build_from_source("meta");
    assert_eq!(
        result,
        Err(GenoError::Parse {
            content: "meta".to_string(),
            file: "dir/a.geno".to_string(),
            location: Location { line: 1, column: 5 },
        })
    );
}

#[test]
fn errors_from_new_name_the_path() {
    let builder = GenoAstBuilder::new(PathBuf::from("some/dir/schema.geno"));
    match builder.build_from_source("meta {") {
        Err(GenoError::Parse { file, .. }) => assert_eq!(file, "some/dir/schema.geno"),
        other => panic!("unexpected {:?}", other),
    }
}
