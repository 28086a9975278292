//! The abstract syntax tree of a Geno schema.
use vstd::prelude::*;

verus! {

/// The fixed-width integer types a schema can name.
#[derive(Debug, Clone, Copy, PartialEq, Eq, Structural)]
pub enum IntegerType {
    I8,
    U8,
    I16,
    U16,
    I32,
    U32,
    I64,
    U64,
}

/// The floating-point types a schema can name (only the tag is kept).
#[derive(Debug, Clone, Copy, PartialEq, Eq, Structural)]
pub enum FloatType {
    F32,
    F64,
}

/// An integer value together with the integer type it was read as.
#[derive(Debug, Clone, Copy, PartialEq, Eq, Structural)]
pub enum IntegerValue {
    I8(i8),
    U8(u8),
    I16(i16),
    U16(u16),
    I32(i32),
    U32(u32),
    I64(i64),
    U64(u64),
}

/// The types built into the schema language.
#[derive(Debug, Clone, Copy, PartialEq, Eq, Structural)]
pub enum BuiltinType {
    Integer(IntegerType),
    Float(FloatType),
    String,
    Bool,
}

/// The type of a struct field; the trailing `bool` of each variant says
/// whether the field is nullable (written with a `?`).
#[derive(Debug, PartialEq, Eq)]
pub enum FieldType {
    Builtin(BuiltinType, bool),
    UserDefined(String, bool),
    /// Element type, optional fixed length, nullable.
    Array(Box<FieldType>, Option<usize>, bool),
    /// Key type, value type, nullable.
    MapType(BuiltinType, Box<FieldType>, bool),
}

/// A top-level declaration of a schema.
#[derive(Debug, PartialEq, Eq)]
pub enum Declaration {
    Enum { ident: String, base_type: IntegerType, variants: Vec<(String, IntegerValue)> },
    Struct { ident: String, fields: Vec<(String, FieldType)> },
}

/// The value of a `meta` entry.
#[derive(Debug, Clone, PartialEq, Eq)]
pub enum MetadataValue {
    /// The literal as written, quotes included.
    String(String),
    Integer(IntegerValue),
}

/// A whole schema: the `meta` entries (each key once, in the order in
/// which the keys first appear) and the declarations in source order.
#[derive(Debug, PartialEq, Eq)]
pub struct Schema {
    pub metadata: Vec<(String, MetadataValue)>,
    pub declarations: Vec<Declaration>,
}

/// The mathematical value of an integer value.
pub open spec fn integer_value_int(v: IntegerValue) -> int {
    match v {
        IntegerValue::I8(n) => n as int,
        IntegerValue::U8(n) => n as int,
        IntegerValue::I16(n) => n as int,
        IntegerValue::U16(n) => n as int,
        IntegerValue::I32(n) => n as int,
        IntegerValue::U32(n) => n as int,
        IntegerValue::I64(n) => n as int,
        IntegerValue::U64(n) => n as int,
    }
}

/// The integer type a value belongs to.
pub open spec fn integer_value_type(v: IntegerValue) -> IntegerType {
    match v {
        IntegerValue::I8(_) => IntegerType::I8,
        IntegerValue::U8(_) => IntegerType::U8,
        IntegerValue::I16(_) => IntegerType::I16,
        IntegerValue::U16(_) => IntegerType::U16,
        IntegerValue::I32(_) => IntegerType::I32,
        IntegerValue::U32(_) => IntegerType::U32,
        IntegerValue::I64(_) => IntegerType::I64,
        IntegerValue::U64(_) => IntegerType::U64,
    }
}

/// Whether values of the type may be negative.
pub open spec fn is_signed(t: IntegerType) -> bool {
    t is I8 || t is I16 || t is I32 || t is I64
}

/// The smallest value of the type.
pub open spec fn type_min(t: IntegerType) -> int {
    match t {
        IntegerType::I8 => i8::MIN as int,
        IntegerType::I16 => i16::MIN as int,
        IntegerType::I32 => i32::MIN as int,
        IntegerType::I64 => i64::MIN as int,
        _ => 0,
    }
}

/// The largest value of the type.
pub open spec fn type_max(t: IntegerType) -> int {
    match t {
        IntegerType::I8 => i8::MAX as int,
        IntegerType::U8 => u8::MAX as int,
        IntegerType::I16 => i16::MAX as int,
        IntegerType::U16 => u16::MAX as int,
        IntegerType::I32 => i32::MAX as int,
        IntegerType::U32 => u32::MAX as int,
        IntegerType::I64 => i64::MAX as int,
        IntegerType::U64 => u64::MAX as int,
    }
}

/// The value of type `t` whose mathematical value is `n` (meaningful when
/// `type_min(t) <= n <= type_max(t)`).
pub open spec fn make_integer_value(t: IntegerType, n: int) -> IntegerValue {
    match t {
        IntegerType::I8 => IntegerValue::I8(n as i8),
        IntegerType::U8 => IntegerValue::U8(n as u8),
        IntegerType::I16 => IntegerValue::I16(n as i16),
        IntegerType::U16 => IntegerValue::U16(n as u16),
        IntegerType::I32 => IntegerValue::I32(n as i32),
        IntegerType::U32 => IntegerValue::U32(n as u32),
        IntegerType::I64 => IntegerValue::I64(n as i64),
        IntegerType::U64 => IntegerValue::U64(n as u64),
    }
}

/// A field type with its strings taken as character sequences.
pub enum FieldTypeView {
    Builtin(BuiltinType, bool),
    UserDefined(Seq<char>, bool),
    Array(Box<FieldTypeView>, Option<nat>, bool),
    MapType(BuiltinType, Box<FieldTypeView>, bool),
}

pub open spec fn field_type_view(ft: FieldType) -> FieldTypeView
    decreases ft,
{
    match ft {
        FieldType::Builtin(bt, n) => FieldTypeView::Builtin(bt, n),
        FieldType::UserDefined(name, n) => FieldTypeView::UserDefined(name@, n),
        FieldType::Array(inner, len, n) => FieldTypeView::Array(
            Box::new(field_type_view(*inner)),
            match len {
                Some(l) => Some(l as nat),
                None => None,
            },
            n,
        ),
        FieldType::MapType(k, v, n) => FieldTypeView::MapType(k, Box::new(field_type_view(*v)), n),
    }
}

/// A declaration with its strings taken as character sequences.
pub enum DeclarationView {
    Enum { ident: Seq<char>, base_type: IntegerType, variants: Seq<(Seq<char>, IntegerValue)> },
    Struct { ident: Seq<char>, fields: Seq<(Seq<char>, FieldTypeView)> },
}

pub open spec fn variants_view(vs: Seq<(String, IntegerValue)>) -> Seq<(Seq<char>, IntegerValue)> {
    vs.map_values(|v: (String, IntegerValue)| (v.0@, v.1))
}

pub open spec fn fields_view(fs: Seq<(String, FieldType)>) -> Seq<(Seq<char>, FieldTypeView)> {
    fs.map_values(|f: (String, FieldType)| (f.0@, field_type_view(f.1)))
}

pub open spec fn declaration_view(d: Declaration) -> DeclarationView {
    match d {
        Declaration::Enum { ident, base_type, variants } => DeclarationView::Enum {
            ident: ident@,
            base_type,
            variants: variants_view(variants@),
        },
        Declaration::Struct { ident, fields } => DeclarationView::Struct {
            ident: ident@,
            fields: fields_view(fields@),
        },
    }
}

/// A `meta` value with its string taken as a character sequence.
pub enum MetadataValueView {
    String(Seq<char>),
    Integer(IntegerValue),
}

pub open spec fn metadata_value_view(v: MetadataValue) -> MetadataValueView {
    match v {
        MetadataValue::String(s) => MetadataValueView::String(s@),
        MetadataValue::Integer(i) => MetadataValueView::Integer(i),
    }
}

pub open spec fn metadata_view(m: Seq<(String, MetadataValue)>) -> Seq<(Seq<char>, MetadataValueView)> {
    m.map_values(|e: (String, MetadataValue)| (e.0@, metadata_value_view(e.1)))
}

/// A schema with its strings taken as character sequences.
pub struct SchemaView {
    pub metadata: Seq<(Seq<char>, MetadataValueView)>,
    pub declarations: Seq<DeclarationView>,
}

impl View for Schema {
    type V = SchemaView;

    open spec fn view(&self) -> SchemaView {
        SchemaView {
            metadata: metadata_view(self.metadata@),
            declarations: self.declarations@.map_values(|d: Declaration| declaration_view(d)),
        }
    }
}

} // verus!
