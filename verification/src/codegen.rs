//! Generation of Rust (serde) type definitions from a schema.
use vstd::prelude::*;

use crate::ast::{
    integer_value_int, BuiltinType, Declaration, FieldType, FloatType, IntegerType, IntegerValue,
    Schema,
};
use crate::text::{
    char_is_upper, int_text, is_upper, lower_text, nat_text, push_char, push_i64_text, push_lower,
    push_u64_text, push_upper, str_to_chars, upper_text,
};

verus! {

// ---------------------------------------------------------------------------
// Identifier case conversion
// ---------------------------------------------------------------------------

/// PascalCase of `s` when scanning starts at the beginning of an
/// `_`-separated segment (`at_start`) or inside one: underscores are
/// dropped and the first character of every segment is uppercased.
pub open spec fn pascal_from(s: Seq<char>, at_start: bool) -> Seq<char>
    decreases s.len(),
{
    if s.len() == 0 {
        seq![]
    } else if s[0] == '_' {
        pascal_from(s.drop_first(), true)
    } else if at_start {
        upper_text(s[0]) + pascal_from(s.drop_first(), false)
    } else {
        seq![s[0]] + pascal_from(s.drop_first(), false)
    }
}

/// `s` split at every `_`, each segment with its first character
/// uppercased, and the segments joined.
pub open spec fn pascal_case(s: Seq<char>) -> Seq<char> {
    pascal_from(s, true)
}

/// snake_case of `s`, where `first` says whether `s` starts the identifier:
/// every character is lowercased, and an uppercase character that is not
/// the first one gets a `_` in front.
pub open spec fn snake_from(s: Seq<char>, first: bool) -> Seq<char>
    decreases s.len(),
{
    if s.len() == 0 {
        seq![]
    } else {
        (if is_upper(s[0]) && !first { seq!['_'] } else { seq![] }) + lower_text(s[0])
            + snake_from(s.drop_first(), false)
    }
}

pub open spec fn snake_case(s: Seq<char>) -> Seq<char> {
    snake_from(s, true)
}

/// Converts a string to PascalCase.
/// "type1" -> "Type1", "kiwiFruit" -> "KiwiFruit", "alpha_beta" -> "AlphaBeta"
pub fn to_pascal_case(s: &str) -> (r: String)
    ensures
        r@ == pascal_case(s@),
{
    let cs = str_to_chars(s);
    let mut out = String::new();
    let mut at_start = true;
    assert(cs@.skip(0) == cs@);
    for i in 0..cs.len()
        invariant
            cs@ == s@,
            pascal_from(cs@, true) == out@ + pascal_from(cs@.skip(i as int), at_start),
    {
        let c = cs[i];
        let ghost rest = cs@.skip(i as int);
        assert(rest.drop_first() == cs@.skip(i + 1));
        assert(rest[0] == c);
        if c == '_' {
            at_start = true;
        } else if at_start {
            push_upper(&mut out, c);
            at_start = false;
        } else {
            push_char(&mut out, c);
        }
    }
    assert(cs@.skip(cs.len() as int) == Seq::<char>::empty());
    out
}

/// Converts a string to snake_case.
/// "alphaBeta" -> "alpha_beta", "alpha_beta" -> "alpha_beta"
pub fn to_snake_case(s: &str) -> (r: String)
    ensures
        r@ == snake_case(s@),
{
    let cs = str_to_chars(s);
    let mut out = String::new();
    assert(cs@.skip(0) == cs@);
    for i in 0..cs.len()
        invariant
            cs@ == s@,
            snake_from(cs@, true) == out@ + snake_from(cs@.skip(i as int), i == 0),
    {
        let c = cs[i];
        let ghost rest = cs@.skip(i as int);
        assert(rest.drop_first() == cs@.skip(i + 1));
        assert(rest[0] == c);
        let ghost before = out@;
        if char_is_upper(c) && i > 0 {
            push_char(&mut out, '_');
        }
        push_lower(&mut out, c);
        assert(out@ == before + (if is_upper(c) && !(i == 0) { seq!['_'] } else { seq![] })
            + lower_text(c));
    }
    assert(cs@.skip(cs.len() as int) == Seq::<char>::empty());
    out
}

// ---------------------------------------------------------------------------
// Type names
// ---------------------------------------------------------------------------

/// The Rust name of an integer type.
pub open spec fn integer_type_text(t: IntegerType) -> Seq<char> {
    match t {
        IntegerType::I8 => "i8"@,
        IntegerType::I16 => "i16"@,
        IntegerType::I32 => "i32"@,
        IntegerType::I64 => "i64"@,
        IntegerType::U8 => "u8"@,
        IntegerType::U16 => "u16"@,
        IntegerType::U32 => "u32"@,
        IntegerType::U64 => "u64"@,
    }
}

/// The Rust name of a builtin type.
pub open spec fn builtin_type_text(bt: BuiltinType) -> Seq<char> {
    match bt {
        BuiltinType::Integer(it) => integer_type_text(it),
        BuiltinType::Float(FloatType::F32) => "f32"@,
        BuiltinType::Float(FloatType::F64) => "f64"@,
        BuiltinType::String => "String"@,
        BuiltinType::Bool => "bool"@,
    }
}

/// `base` wrapped in `Option<..>` when `nullable`.
pub open spec fn optional_text(base: Seq<char>, nullable: bool) -> Seq<char> {
    if nullable {
        "Option<"@ + base + ">"@
    } else {
        base
    }
}

/// The Rust type written for a field type.
pub open spec fn field_type_text(ft: FieldType) -> Seq<char>
    decreases ft,
{
    match ft {
        FieldType::Builtin(bt, nullable) => optional_text(builtin_type_text(bt), nullable),
        FieldType::UserDefined(name, nullable) => optional_text(pascal_case(name@), nullable),
        FieldType::Array(inner, length, nullable) => optional_text(
            match length {
                Some(len) => "["@ + field_type_text(*inner) + "; "@ + nat_text(len as nat) + "]"@,
                None => "Vec<"@ + field_type_text(*inner) + ">"@,
            },
            nullable,
        ),
        FieldType::MapType(key, value, nullable) => optional_text(
            "HashMap<"@ + builtin_type_text(key) + ", "@ + field_type_text(*value) + ">"@,
            nullable,
        ),
    }
}

/// The Rust name of an integer type.
pub fn integer_type_str(t: &IntegerType) -> (r: &'static str)
    ensures
        r@ == integer_type_text(*t),
{
    match t {
        IntegerType::I8 => "i8",
        IntegerType::I16 => "i16",
        IntegerType::I32 => "i32",
        IntegerType::I64 => "i64",
        IntegerType::U8 => "u8",
        IntegerType::U16 => "u16",
        IntegerType::U32 => "u32",
        IntegerType::U64 => "u64",
    }
}

/// The decimal text of an integer value.
pub fn integer_value_str(v: &IntegerValue) -> (r: String)
    ensures
        r@ == int_text(integer_value_int(*v)),
{
    let mut s = String::new();
    match v {
        IntegerValue::I8(n) => push_i64_text(&mut s, *n as i64),
        IntegerValue::I16(n) => push_i64_text(&mut s, *n as i64),
        IntegerValue::I32(n) => push_i64_text(&mut s, *n as i64),
        IntegerValue::I64(n) => push_i64_text(&mut s, *n),
        IntegerValue::U8(n) => push_u64_text(&mut s, *n as u64),
        IntegerValue::U16(n) => push_u64_text(&mut s, *n as u64),
        IntegerValue::U32(n) => push_u64_text(&mut s, *n as u64),
        IntegerValue::U64(n) => push_u64_text(&mut s, *n),
    }
    s
}

/// The Rust name of a builtin type.
pub fn builtin_type_str(bt: &BuiltinType) -> (r: String)
    ensures
        r@ == builtin_type_text(*bt),
{
    match bt {
        BuiltinType::Integer(it) => String::from_str(integer_type_str(it)),
        BuiltinType::Float(ft) => match ft {
            FloatType::F32 => String::from_str("f32"),
            FloatType::F64 => String::from_str("f64"),
        },
        BuiltinType::String => String::from_str("String"),
        BuiltinType::Bool => String::from_str("bool"),
    }
}

fn wrap_optional(base: String, nullable: bool) -> (r: String)
    ensures
        r@ == optional_text(base@, nullable),
{
    if nullable {
        let mut s = String::from_str("Option<");
        s.append(base.as_str());
        s.append(">");
        s
    } else {
        base
    }
}

/// The Rust type written for a field type.
pub fn field_type_str(ft: &FieldType) -> (r: String)
    ensures
        r@ == field_type_text(*ft),
    decreases ft,
{
    match ft {
        FieldType::Builtin(bt, nullable) => wrap_optional(builtin_type_str(bt), *nullable),
        FieldType::UserDefined(name, nullable) => wrap_optional(
            to_pascal_case(name.as_str()),
            *nullable,
        ),
        FieldType::Array(inner, length, nullable) => {
            let inner_str = field_type_str(inner);
            let base = match length {
                Some(len) => {
                    let mut s = String::from_str("[");
                    s.append(inner_str.as_str());
                    s.append("; ");
                    push_u64_text(&mut s, *len as u64);
                    s.append("]");
                    s
                },
                None => {
                    let mut s = String::from_str("Vec<");
                    s.append(inner_str.as_str());
                    s.append(">");
                    s
                },
            };
            wrap_optional(base, *nullable)
        },
        FieldType::MapType(key_type, value_type, nullable) => {
            let key_str = builtin_type_str(key_type);
            let value_str = field_type_str(value_type);
            let mut s = String::from_str("HashMap<");
            s.append(key_str.as_str());
            s.append(", ");
            s.append(value_str.as_str());
            s.append(">");
            wrap_optional(s, *nullable)
        },
    }
}

// ---------------------------------------------------------------------------
// Declarations
// ---------------------------------------------------------------------------

/// A `serde(rename)` attribute line for `name`, present when the Rust name
/// differs from the schema name.
pub open spec fn rename_text(rust_name: Seq<char>, name: Seq<char>) -> Seq<char> {
    if rust_name != name {
        "    #[serde(rename = \""@ + name + "\")]\n"@
    } else {
        seq![]
    }
}

/// The lines written for one enum variant; the first variant is the default.
pub open spec fn variant_text(name: Seq<char>, value: IntegerValue, first: bool) -> Seq<char> {
    (if first { "    #[default]\n"@ } else { seq![] }) + rename_text(pascal_case(name), name)
        + "    "@ + pascal_case(name) + " = "@ + int_text(integer_value_int(value)) + ",\n"@
}

pub open spec fn variants_text(vs: Seq<(String, IntegerValue)>) -> Seq<char>
    decreases vs.len(),
{
    if vs.len() == 0 {
        seq![]
    } else {
        variants_text(vs.drop_last()) + variant_text(vs.last().0@, vs.last().1, vs.len() == 1)
    }
}

/// The Rust definition generated for an enum declaration.
pub open spec fn enum_text(ident: Seq<char>, base: IntegerType, vs: Seq<(String, IntegerValue)>) -> Seq<char> {
    "#[derive(Debug, Clone, PartialEq, Serialize, Deserialize, Default)]\n"@ + "#[repr("@
        + integer_type_text(base) + ")]\n"@ + "pub enum "@ + pascal_case(ident) + " {\n"@
        + variants_text(vs) + "}\n"@
}

/// The lines written for one struct field.
pub open spec fn field_text(name: Seq<char>, ft: FieldType) -> Seq<char> {
    rename_text(snake_case(name), name) + "    pub "@ + snake_case(name) + ": "@
        + field_type_text(ft) + ",\n"@
}

pub open spec fn fields_text(fs: Seq<(String, FieldType)>) -> Seq<char>
    decreases fs.len(),
{
    if fs.len() == 0 {
        seq![]
    } else {
        fields_text(fs.drop_last()) + field_text(fs.last().0@, fs.last().1)
    }
}

/// The Rust definition generated for a struct declaration.
pub open spec fn struct_text(ident: Seq<char>, fs: Seq<(String, FieldType)>) -> Seq<char> {
    "#[derive(Debug, Clone, PartialEq, Serialize, Deserialize)]\n"@ + "pub struct "@
        + pascal_case(ident) + " {\n"@ + fields_text(fs) + "}\n"@
}

/// A declaration as generated: an empty line, then its definition.
pub open spec fn declaration_text(d: Declaration) -> Seq<char> {
    "\n"@ + match d {
        Declaration::Enum { ident, base_type, variants } => enum_text(ident@, base_type, variants@),
        Declaration::Struct { ident, fields } => struct_text(ident@, fields@),
    }
}

pub open spec fn declarations_text(ds: Seq<Declaration>) -> Seq<char>
    decreases ds.len(),
{
    if ds.len() == 0 {
        seq![]
    } else {
        declarations_text(ds.drop_last()) + declaration_text(ds.last())
    }
}

/// The lines that open every generated file.
pub open spec fn header_text() -> Seq<char> {
    "#![allow(unused_imports)]\n"@ + "\n"@ + "use serde::{Deserialize, Serialize};\n"@
        + "use std::collections::HashMap;\n"@
}

/// The whole generated file for a schema.
pub open spec fn generate_text(schema: Schema) -> Seq<char> {
    header_text() + declarations_text(schema.declarations@)
}

/// Appends the lines of one enum variant to `out`.
fn push_variant(out: &mut String, variant_name: &String, value: &IntegerValue, first: bool)
    ensures
        final(out)@ == old(out)@ + variant_text(variant_name@, *value, first),
{
    let rust_variant = to_pascal_case(variant_name.as_str());
    if first {
        out.append("    #[default]\n");
    }
    if !(rust_variant == *variant_name) {
        out.append("    #[serde(rename = \"");
        out.append(variant_name.as_str());
        out.append("\")]\n");
    }
    out.append("    ");
    out.append(rust_variant.as_str());
    out.append(" = ");
    let value_str = integer_value_str(value);
    out.append(value_str.as_str());
    out.append(",\n");
}

/// Appends the lines of one struct field to `out`.
fn push_field(out: &mut String, field_name: &String, field_type: &FieldType)
    ensures
        final(out)@ == old(out)@ + field_text(field_name@, *field_type),
{
    let rust_field = to_snake_case(field_name.as_str());
    if !(rust_field == *field_name) {
        out.append("    #[serde(rename = \"");
        out.append(field_name.as_str());
        out.append("\")]\n");
    }
    out.append("    pub ");
    out.append(rust_field.as_str());
    out.append(": ");
    let type_str = field_type_str(field_type);
    out.append(type_str.as_str());
    out.append(",\n");
}

/// Appends the Rust definition of an enum declaration to `out`.
pub fn generate_enum(
    out: &mut String,
    ident: &str,
    base_type: &IntegerType,
    variants: &[(String, IntegerValue)],
)
    ensures
        final(out)@ == old(out)@ + enum_text(ident@, *base_type, variants@),
{
    let rust_name = to_pascal_case(ident);
    let ghost start = out@;
    out.append("#[derive(Debug, Clone, PartialEq, Serialize, Deserialize, Default)]\n");
    out.append("#[repr(");
    out.append(integer_type_str(base_type));
    out.append(")]\n");
    out.append("pub enum ");
    out.append(rust_name.as_str());
    out.append(" {\n");
    let ghost opening = out@;
    assert(opening == start + ("#[derive(Debug, Clone, PartialEq, Serialize, Deserialize, Default)]\n"@
        + "#[repr("@ + integer_type_text(*base_type) + ")]\n"@ + "pub enum "@ + pascal_case(ident@)
        + " {\n"@));
    let mut first = true;
    assert(variants@.take(0) == Seq::<(String, IntegerValue)>::empty());
    for i in 0..variants.len()
        invariant
            out@ == opening + variants_text(variants@.take(i as int)),
            first == (i == 0),
    {
        let (variant_name, value) = &variants[i];
        push_variant(out, variant_name, value, first);
        first = false;
        assert(variants@.take(i + 1).drop_last() == variants@.take(i as int));
    }
    assert(variants@.take(variants.len() as int) == variants@);
    out.append("}\n");
}

/// Appends the Rust definition of a struct declaration to `out`.
pub fn generate_struct(out: &mut String, ident: &str, fields: &[(String, FieldType)])
    ensures
        final(out)@ == old(out)@ + struct_text(ident@, fields@),
{
    let rust_name = to_pascal_case(ident);
    let ghost start = out@;
    out.append("#[derive(Debug, Clone, PartialEq, Serialize, Deserialize)]\n");
    out.append("pub struct ");
    out.append(rust_name.as_str());
    out.append(" {\n");
    let ghost opening = out@;
    assert(fields@.take(0) == Seq::<(String, FieldType)>::empty());
    for i in 0..fields.len()
        invariant
            out@ == opening + fields_text(fields@.take(i as int)),
    {
        let (field_name, field_type) = &fields[i];
        push_field(out, field_name, field_type);
        assert(fields@.take(i + 1).drop_last() == fields@.take(i as int));
    }
    assert(fields@.take(fields.len() as int) == fields@);
    out.append("}\n");
}

/// Generates the Rust source for a whole schema.
pub fn generate(schema: &Schema) -> (out: String)
    ensures
        out@ == generate_text(*schema),
{
    let mut out = String::new();
    out.append("#![allow(unused_imports)]\n");
    out.append("\n");
    out.append("use serde::{Deserialize, Serialize};\n");
    out.append("use std::collections::HashMap;\n");
    assert(out@ == header_text());
    let ghost ds = schema.declarations@;
    assert(ds.take(0) == Seq::<Declaration>::empty());
    for i in 0..schema.declarations.len()
        invariant
            ds == schema.declarations@,
            out@ == header_text() + declarations_text(ds.take(i as int)),
    {
        let ghost before = out@;
        out.append("\n");
        match &schema.declarations[i] {
            Declaration::Enum { ident, base_type, variants } => {
                generate_enum(&mut out, ident.as_str(), base_type, variants.as_slice())
            },
            Declaration::Struct { ident, fields } => {
                generate_struct(&mut out, ident.as_str(), fields.as_slice())
            },
        }
        assert(out@ == before + declaration_text(ds[i as int]));
        assert(ds.take(i + 1).drop_last() == ds.take(i as int));
    }
    assert(ds.take(ds.len() as int) == ds);
    out
}

} // verus!
