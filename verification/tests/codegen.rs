use std::path::PathBuf;

use geno::ast::{BuiltinType, FieldType, FloatType, IntegerType, IntegerValue};
use geno::codegen::{
    builtin_type_str, field_type_str, generate, generate_enum, generate_struct, integer_type_str,
    integer_value_str, to_pascal_case, to_snake_case,
};
use geno::GenoAstBuilder;

#[test]
fn pascal_case_examples() {
    assert_eq!(to_pascal_case("type1"), "Type1");
    assert_eq!(to_pascal_case("kiwiFruit"), "KiwiFruit");
    assert_eq!(to_pascal_case("alpha_beta"), "AlphaBeta");
    assert_eq!(to_pascal_case(""), "");
    assert_eq!(to_pascal_case("__a__b_"), "AB");
    assert_eq!(to_pascal_case("AlphaBeta"), "AlphaBeta");
    assert_eq!(to_pascal_case("éa_ßb"), "ÉaSSb");
}

#[test]
fn snake_case_examples() {
    assert_eq!(to_snake_case("alphaBeta"), "alpha_beta");
    assert_eq!(to_snake_case("alpha_beta"), "alpha_beta");
    assert_eq!(to_snake_case("AlphaBeta"), "alpha_beta");
    assert_eq!(to_snake_case("HTTPServer"), "h_t_t_p_server");
    assert_eq!(to_snake_case(""), "");
    assert_eq!(to_snake_case("aÉ"), "a_é");
}

#[test]
fn case_conversion_is_idempotent_on_ascii() {
    for s in ["alphaBeta", "alpha_beta", "Type1", "x_Y_z", "__q", "ABC"] {
        let p = to_pascal_case(s);
        assert_eq!(to_pascal_case(&p), p);
        assert!(!p.contains('_'));
        assert!(!p.starts_with(|c: char| c.is_ascii_lowercase()));
        let n = to_snake_case(s);
        assert_eq!(to_snake_case(&n), n);
        assert!(!n.chars().any(|c| c.is_ascii_uppercase()));
    }
}

#[test]
fn type_names() {
    assert_eq!(integer_type_str(&IntegerType::I8), "i8");
    assert_eq!(integer_type_str(&IntegerType::U64), "u64");
    assert_eq!(builtin_type_str(&BuiltinType::Float(FloatType::F32)), "f32");
    assert_eq!(builtin_type_str(&BuiltinType::Float(FloatType::F64)), "f64");
    assert_eq!(builtin_type_str(&BuiltinType::String), "String");
    assert_eq!(builtin_type_str(&BuiltinType::Bool), "bool");
    assert_eq!(builtin_type_str(&BuiltinType::Integer(IntegerType::U16)), "u16");
}

#[test]
fn integer_values() {
    assert_eq!(integer_value_str(&IntegerValue::I8(-128)), "-128");
    assert_eq!(integer_value_str(&IntegerValue::I64(i64::MIN)), "-9223372036854775808");
    assert_eq!(integer_value_str(&IntegerValue::U64(u64::MAX)), "18446744073709551615");
    assert_eq!(integer_value_str(&IntegerValue::U8(0)), "0");
    assert_eq!(integer_value_str(&IntegerValue::I32(1050)), "1050");
}

#[test]
fn field_types() {
    let ft = FieldType::Array(
        Box::new(FieldType::UserDefined("kiwi_fruit".to_string(), true)),
        Some(10),
        true,
    );
    assert_eq!(field_type_str(&ft), "Option<[Option<KiwiFruit>; 10]>");
    let ft = FieldType::MapType(
        BuiltinType::String,
        Box::new(FieldType::Array(Box::new(FieldType::Builtin(BuiltinType::Bool, false)), None, false)),
        false,
    );
    assert_eq!(field_type_str(&ft), "HashMap<String, Vec<bool>>");
}

#[test]
fn enum_definition() {
    let mut out = String::from("x");
    generate_enum(
        &mut out,
        "fruit_kind",
        &IntegerType::I16,
        &[("default".to_string(), IntegerValue::I16(-1)), ("Apple".to_string(), IntegerValue::I16(1))],
    );
    assert_eq!(
        out,
        "x#[derive(Debug, Clone, PartialEq, Serialize, Deserialize, Default)]\n\
         #[repr(i16)]\n\
         pub enum FruitKind {\n    \
         #[default]\n    \
         #[serde(rename = \"default\")]\n    \
         Default = -1,\n    \
         Apple = 1,\n\
         }\n"
    );
}

#[test]
fn struct_definition() {
    let mut out = String::new();
    generate_struct(
        &mut out,
        "type1",
        &[
            ("alphaBeta".to_string(), FieldType::Builtin(BuiltinType::Integer(IntegerType::U8), true)),
            ("b".to_string(), FieldType::UserDefined("type1".to_string(), false)),
        ],
    );
    assert_eq!(
        out,
        "#[derive(Debug, Clone, PartialEq, Serialize, Deserialize)]\n\
         pub struct Type1 {\n    \
         #[serde(rename = \"alphaBeta\")]\n    \
         pub alpha_beta: Option<u8>,\n    \
         pub b: Type1,\n\
         }\n"
    );
}

#[test]
fn whole_file() {
    let schema = GenoAstBuilder::new(PathBuf::from("x.geno"))
        .build_from_source("meta { format = 1 }\nenum e { a = 1 }\nstruct s { f: e }\n")
        .unwrap();
    assert_eq!(
        generate(&schema),
        "#![allow(unused_imports)]\n\
         \n\
         use serde::{Deserialize, Serialize};\n\
         use std::collections::HashMap;\n\
         \n\
         #[derive(Debug, Clone, PartialEq, Serialize, Deserialize, Default)]\n\
         #[repr(i32)]\n\
         pub enum E {\n    \
         #[default]\n    \
         #[serde(rename = \"a\")]\n    \
         A = 1,\n\
         }\n\
         \n\
         #[derive(Debug, Clone, PartialEq, Serialize, Deserialize)]\n\
         pub struct S {\n    \
         pub f: E,\n\
         }\n"
    );
}

#[test]
fn generated_literal_reads_back() {
    for (v, t, lit) in [
        (IntegerValue::I8(-128), "i8", "-128"),
        (IntegerValue::U32(4000000000), "u32", "4000000000"),
        (IntegerValue::I64(i64::MIN), "i64", "-9223372036854775808"),
    ] {
        let text = integer_value_str(&v);
        assert_eq!(text, lit);
        let src = format!("meta {{}}\nenum E: {} {{ a = {} }}", t, text);
        let schema = GenoAstBuilder::new(PathBuf::from("x.geno")).build_from_source(&src).unwrap();
        match &schema.declarations[0] {
            geno::ast::Declaration::Enum { variants, .. } => assert_eq!(variants[0].1, v),
            _ => panic!("expected an enum"),
        }
    }
}
