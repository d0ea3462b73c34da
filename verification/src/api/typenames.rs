//! The name of a field type in each target language, and the methods by
//! which templates ask for it.

use vstd::prelude::*;
use crate::api::ir::{FieldType, FieldTypeView, Type, TypeView};
use crate::api::{is_placeholder, placeholder_name};
use crate::text::str_eq;

verus! {

/// The name under which a referenced schema appears: its own, or for the
/// placeholder the language's name for an untyped value.
pub open spec fn schema_ref_typename(name: Seq<char>, untyped: Seq<char>) -> Seq<char> {
    if name == placeholder_name() {
        untyped
    } else {
        name
    }
}

/// The name under which a referenced schema appears.
pub fn filter_schema_ref(name: &String, json_obj_typename: &str) -> (r: String)
    ensures
        r@ == schema_ref_typename(name@, json_obj_typename@),
{
    if is_placeholder(name.as_str()) {
        json_obj_typename.to_owned()
    } else {
        name.clone()
    }
}

/// `inner` after `prefix`.
fn prefixed(prefix: &str, inner: String) -> (r: String)
    ensures
        r@ == prefix@ + inner@,
{
    let mut r = prefix.to_owned();
    r.append(inner.as_str());
    r
}

/// `inner` before `suffix`.
fn suffixed(inner: String, suffix: &str) -> (r: String)
    ensures
        r@ == inner@ + suffix@,
{
    let mut r = inner;
    r.append(suffix);
    r
}

/// `inner` between `prefix` and `suffix`.
fn wrapped(prefix: &str, inner: String, suffix: &str) -> (r: String)
    ensures
        r@ == prefix@ + inner@ + suffix@,
{
    let mut r = prefix.to_owned();
    r.append(inner.as_str());
    r.append(suffix);
    r
}

/// The name of a field type in Python.
pub open spec fn python_typename(t: FieldTypeView) -> Seq<char>
    decreases t,
{
    match t {
        FieldTypeView::Bool => "bool"@,
        FieldTypeView::Int16 => "int"@,
        FieldTypeView::UInt16 => "int"@,
        FieldTypeView::Int32 => "int"@,
        FieldTypeView::UInt32 => "int"@,
        FieldTypeView::Int64 => "int"@,
        FieldTypeView::UInt64 => "int"@,
        FieldTypeView::String => "str"@,
        FieldTypeView::DateTime => "datetime"@,
        FieldTypeView::Uri => "str"@,
        FieldTypeView::JsonObject => "t.Dict[str, t.Any]"@,
        FieldTypeView::List { inner } => "t.List["@ + python_typename(*inner) + "]"@,
        FieldTypeView::SetOf { inner } => "t.List["@ + python_typename(*inner) + "]"@,
        FieldTypeView::MapOf { value_ty } => "t.Dict[str, "@ + python_typename(*value_ty) + "]"@,
        FieldTypeView::SchemaRef { name, .. } => schema_ref_typename(name, "t.Dict[str, t.Any]"@),
        FieldTypeView::StringConst { .. } => "str"@,
    }
}

/// The name of a field type in C#.
pub open spec fn csharp_typename(t: FieldTypeView) -> Seq<char>
    decreases t,
{
    match t {
        FieldTypeView::Bool => "bool"@,
        FieldTypeView::Int16 => "short"@,
        FieldTypeView::UInt16 => "ushort"@,
        FieldTypeView::Int32 => "int"@,
        FieldTypeView::UInt32 => "uint"@,
        FieldTypeView::Int64 => "long"@,
        FieldTypeView::UInt64 => "ulong"@,
        FieldTypeView::String => "string"@,
        FieldTypeView::DateTime => "DateTime"@,
        FieldTypeView::Uri => "string"@,
        FieldTypeView::JsonObject => "Object"@,
        FieldTypeView::List { inner } => "List<"@ + csharp_typename(*inner) + ">"@,
        FieldTypeView::SetOf { inner } => "List<"@ + csharp_typename(*inner) + ">"@,
        FieldTypeView::MapOf { value_ty } => "Dictionary<string, "@ + csharp_typename(*value_ty) + ">"@,
        FieldTypeView::SchemaRef { name, .. } => schema_ref_typename(name, "Object"@),
        FieldTypeView::StringConst { .. } => "string"@,
    }
}

/// The name of a field type in Go.
pub open spec fn go_typename(t: FieldTypeView) -> Seq<char>
    decreases t,
{
    match t {
        FieldTypeView::Bool => "bool"@,
        FieldTypeView::Int16 => "int16"@,
        FieldTypeView::UInt16 => "uint16"@,
        FieldTypeView::Int32 => "int32"@,
        FieldTypeView::UInt32 => "uint32"@,
        FieldTypeView::Int64 => "int64"@,
        FieldTypeView::UInt64 => "uint64"@,
        FieldTypeView::String => "string"@,
        FieldTypeView::DateTime => "time.Time"@,
        FieldTypeView::Uri => "string"@,
        FieldTypeView::JsonObject => "map[string]any"@,
        FieldTypeView::List { inner } => "[]"@ + go_typename(*inner),
        FieldTypeView::SetOf { inner } => "[]"@ + go_typename(*inner),
        FieldTypeView::MapOf { value_ty } => "map[string]"@ + go_typename(*value_ty),
        FieldTypeView::SchemaRef { name, .. } => schema_ref_typename(name, "map[string]any"@),
        FieldTypeView::StringConst { .. } => "string"@,
    }
}

/// The name of a field type in Kotlin.
pub open spec fn kotlin_typename(t: FieldTypeView) -> Seq<char>
    decreases t,
{
    match t {
        FieldTypeView::Bool => "Boolean"@,
        FieldTypeView::Int16 => "Short"@,
        FieldTypeView::UInt16 => "UShort"@,
        FieldTypeView::Int32 => "Int"@,
        FieldTypeView::UInt32 => "UInt"@,
        FieldTypeView::Int64 => "Long"@,
        FieldTypeView::UInt64 => "ULong"@,
        FieldTypeView::String => "String"@,
        FieldTypeView::DateTime => "Instant"@,
        FieldTypeView::Uri => "String"@,
        FieldTypeView::JsonObject => "Map<String,Any>"@,
        FieldTypeView::List { inner } => "List<"@ + kotlin_typename(*inner) + ">"@,
        FieldTypeView::SetOf { inner } => "Set<"@ + kotlin_typename(*inner) + ">"@,
        FieldTypeView::MapOf { value_ty } => "Map<String,"@ + kotlin_typename(*value_ty) + ">"@,
        FieldTypeView::SchemaRef { name, .. } => schema_ref_typename(name, "Map<String,Any>"@),
        FieldTypeView::StringConst { .. } => "String"@,
    }
}

/// The name of a field type in JavaScript and TypeScript.
pub open spec fn js_typename(t: FieldTypeView) -> Seq<char>
    decreases t,
{
    match t {
        FieldTypeView::Bool => "boolean"@,
        FieldTypeView::Int16 => "number"@,
        FieldTypeView::UInt16 => "number"@,
        FieldTypeView::Int32 => "number"@,
        FieldTypeView::UInt32 => "number"@,
        FieldTypeView::Int64 => "number"@,
        FieldTypeView::UInt64 => "number"@,
        FieldTypeView::String => "string"@,
        FieldTypeView::DateTime => "Date"@,
        FieldTypeView::Uri => "string"@,
        FieldTypeView::JsonObject => "any"@,
        FieldTypeView::List { inner } => js_typename(*inner) + "[]"@,
        FieldTypeView::SetOf { inner } => js_typename(*inner) + "[]"@,
        FieldTypeView::MapOf { value_ty } => "{ [key: string]: "@ + js_typename(*value_ty) + " }"@,
        FieldTypeView::SchemaRef { name, .. } => schema_ref_typename(name, "any"@),
        FieldTypeView::StringConst { .. } => "string"@,
    }
}

/// The name of a field type in Rust.
pub open spec fn rust_typename(t: FieldTypeView) -> Seq<char>
    decreases t,
{
    match t {
        FieldTypeView::Bool => "bool"@,
        FieldTypeView::Int16 => "i16"@,
        FieldTypeView::UInt16 => "u16"@,
        FieldTypeView::Int32 => "i32"@,
        FieldTypeView::UInt32 => "i32"@,
        FieldTypeView::Int64 => "i32"@,
        FieldTypeView::UInt64 => "i32"@,
        FieldTypeView::String => "String"@,
        FieldTypeView::DateTime => "DateTime<Utc>"@,
        FieldTypeView::Uri => "String"@,
        FieldTypeView::JsonObject => "serde_json::Value"@,
        FieldTypeView::List { inner } => "Vec<"@ + rust_typename(*inner) + ">"@,
        FieldTypeView::SetOf { inner } => "Vec<"@ + rust_typename(*inner) + ">"@,
        FieldTypeView::MapOf { value_ty } => "std::collections::HashMap<String, "@ + rust_typename(*value_ty) + ">"@,
        FieldTypeView::SchemaRef { name, .. } => schema_ref_typename(name, "serde_json::Value"@),
        FieldTypeView::StringConst { .. } => "String"@,
    }
}

/// The name of a field type in Java.
pub open spec fn java_typename(t: FieldTypeView) -> Seq<char>
    decreases t,
{
    match t {
        FieldTypeView::Bool => "Boolean"@,
        FieldTypeView::Int16 => "Short"@,
        FieldTypeView::UInt16 => "Long"@,
        FieldTypeView::Int32 => "Integer"@,
        FieldTypeView::UInt32 => "Integer"@,
        FieldTypeView::Int64 => "Long"@,
        FieldTypeView::UInt64 => "Long"@,
        FieldTypeView::String => "String"@,
        FieldTypeView::DateTime => "OffsetDateTime"@,
        FieldTypeView::Uri => "URI"@,
        FieldTypeView::JsonObject => "Object"@,
        FieldTypeView::List { inner } => "List<"@ + java_typename(*inner) + ">"@,
        FieldTypeView::SetOf { inner } => "Set<"@ + java_typename(*inner) + ">"@,
        FieldTypeView::MapOf { value_ty } => "Map<String,"@ + java_typename(*value_ty) + ">"@,
        FieldTypeView::SchemaRef { name, .. } => schema_ref_typename(name, "Object"@),
        FieldTypeView::StringConst { .. } => "TypeEnum"@,
    }
}

/// The name of a field type in PHP.
pub open spec fn php_typename(t: FieldTypeView) -> Seq<char> {
    match t {
        FieldTypeView::Bool => "bool"@,
        FieldTypeView::Int16 => "int"@,
        FieldTypeView::UInt16 => "int"@,
        FieldTypeView::Int32 => "int"@,
        FieldTypeView::UInt32 => "int"@,
        FieldTypeView::Int64 => "int"@,
        FieldTypeView::UInt64 => "int"@,
        FieldTypeView::String => "string"@,
        FieldTypeView::DateTime => "\\DateTimeImmutable"@,
        FieldTypeView::Uri => "string"@,
        FieldTypeView::JsonObject => "array"@,
        FieldTypeView::List { .. } => "array"@,
        FieldTypeView::SetOf { .. } => "array"@,
        FieldTypeView::MapOf { .. } => "array"@,
        FieldTypeView::SchemaRef { name, .. } => name,
        FieldTypeView::StringConst { .. } => "string"@,
    }
}

/// The name of a field type in a PHPDoc annotation.
pub open spec fn phpdoc_typename(t: FieldTypeView) -> Seq<char>
    decreases t,
{
    match t {
        FieldTypeView::List { inner } => "list<"@ + phpdoc_typename(*inner) + ">"@,
        FieldTypeView::SetOf { inner } => "list<"@ + phpdoc_typename(*inner) + ">"@,
        FieldTypeView::MapOf { value_ty } => "array<string, "@ + phpdoc_typename(*value_ty) + ">"@,
        _ => php_typename(t),
    }
}

/// The name of a field type in Ruby, as Ruby documentation writes types. A
/// referenced schema appears under its own name.
pub open spec fn ruby_typename(t: FieldTypeView) -> Seq<char>
    decreases t,
{
    match t {
        FieldTypeView::Bool => "Boolean"@,
        FieldTypeView::Int16 => "Integer"@,
        FieldTypeView::UInt16 => "Integer"@,
        FieldTypeView::Int32 => "Integer"@,
        FieldTypeView::UInt32 => "Integer"@,
        FieldTypeView::Int64 => "Integer"@,
        FieldTypeView::UInt64 => "Integer"@,
        FieldTypeView::String => "String"@,
        FieldTypeView::DateTime => "Time"@,
        FieldTypeView::Uri => "String"@,
        FieldTypeView::JsonObject => "Hash"@,
        FieldTypeView::List { inner } => "Array<"@ + ruby_typename(*inner) + ">"@,
        FieldTypeView::SetOf { inner } => "Array<"@ + ruby_typename(*inner) + ">"@,
        FieldTypeView::MapOf { value_ty } => "Hash{String => "@ + ruby_typename(*value_ty) + "}"@,
        FieldTypeView::SchemaRef { name, .. } => name,
        FieldTypeView::StringConst { .. } => "String"@,
    }
}

impl FieldType {
    /// The name of this field type in Python.
    pub fn to_python_typename(&self) -> (r: String)
        ensures
            r@ == python_typename(self@),
        decreases self,
    {
        match self {
            FieldType::Bool => "bool".to_owned(),
            FieldType::Int16 => "int".to_owned(),
            FieldType::UInt16 => "int".to_owned(),
            FieldType::Int32 => "int".to_owned(),
            FieldType::UInt32 => "int".to_owned(),
            FieldType::Int64 => "int".to_owned(),
            FieldType::UInt64 => "int".to_owned(),
            FieldType::String => "str".to_owned(),
            FieldType::DateTime => "datetime".to_owned(),
            FieldType::Uri => "str".to_owned(),
            FieldType::JsonObject => "t.Dict[str, t.Any]".to_owned(),
            FieldType::List { inner } => wrapped("t.List[", (**inner).to_python_typename(), "]"),
            FieldType::SetOf { inner } => wrapped("t.List[", (**inner).to_python_typename(), "]"),
            FieldType::MapOf { value_ty } => wrapped("t.Dict[str, ", (**value_ty).to_python_typename(), "]"),
            FieldType::SchemaRef { name, .. } => filter_schema_ref(name, "t.Dict[str, t.Any]"),
            FieldType::StringConst { .. } => "str".to_owned(),
        }
    }

    /// The name of this field type in C#.
    pub fn to_csharp_typename(&self) -> (r: String)
        ensures
            r@ == csharp_typename(self@),
        decreases self,
    {
        match self {
            FieldType::Bool => "bool".to_owned(),
            FieldType::Int16 => "short".to_owned(),
            FieldType::UInt16 => "ushort".to_owned(),
            FieldType::Int32 => "int".to_owned(),
            FieldType::UInt32 => "uint".to_owned(),
            FieldType::Int64 => "long".to_owned(),
            FieldType::UInt64 => "ulong".to_owned(),
            FieldType::String => "string".to_owned(),
            FieldType::DateTime => "DateTime".to_owned(),
            FieldType::Uri => "string".to_owned(),
            FieldType::JsonObject => "Object".to_owned(),
            FieldType::List { inner } => wrapped("List<", (**inner).to_csharp_typename(), ">"),
            FieldType::SetOf { inner } => wrapped("List<", (**inner).to_csharp_typename(), ">"),
            FieldType::MapOf { value_ty } => wrapped("Dictionary<string, ", (**value_ty).to_csharp_typename(), ">"),
            FieldType::SchemaRef { name, .. } => filter_schema_ref(name, "Object"),
            FieldType::StringConst { .. } => "string".to_owned(),
        }
    }

    /// The name of this field type in Go.
    pub fn to_go_typename(&self) -> (r: String)
        ensures
            r@ == go_typename(self@),
        decreases self,
    {
        match self {
            FieldType::Bool => "bool".to_owned(),
            FieldType::Int16 => "int16".to_owned(),
            FieldType::UInt16 => "uint16".to_owned(),
            FieldType::Int32 => "int32".to_owned(),
            FieldType::UInt32 => "uint32".to_owned(),
            FieldType::Int64 => "int64".to_owned(),
            FieldType::UInt64 => "uint64".to_owned(),
            FieldType::String => "string".to_owned(),
            FieldType::DateTime => "time.Time".to_owned(),
            FieldType::Uri => "string".to_owned(),
            FieldType::JsonObject => "map[string]any".to_owned(),
            FieldType::List { inner } => prefixed("[]", (**inner).to_go_typename()),
            FieldType::SetOf { inner } => prefixed("[]", (**inner).to_go_typename()),
            FieldType::MapOf { value_ty } => prefixed("map[string]", (**value_ty).to_go_typename()),
            FieldType::SchemaRef { name, .. } => filter_schema_ref(name, "map[string]any"),
            FieldType::StringConst { .. } => "string".to_owned(),
        }
    }

    /// The name of this field type in Kotlin.
    pub fn to_kotlin_typename(&self) -> (r: String)
        ensures
            r@ == kotlin_typename(self@),
        decreases self,
    {
        match self {
            FieldType::Bool => "Boolean".to_owned(),
            FieldType::Int16 => "Short".to_owned(),
            FieldType::UInt16 => "UShort".to_owned(),
            FieldType::Int32 => "Int".to_owned(),
            FieldType::UInt32 => "UInt".to_owned(),
            FieldType::Int64 => "Long".to_owned(),
            FieldType::UInt64 => "ULong".to_owned(),
            FieldType::String => "String".to_owned(),
            FieldType::DateTime => "Instant".to_owned(),
            FieldType::Uri => "String".to_owned(),
            FieldType::JsonObject => "Map<String,Any>".to_owned(),
            FieldType::List { inner } => wrapped("List<", (**inner).to_kotlin_typename(), ">"),
            FieldType::SetOf { inner } => wrapped("Set<", (**inner).to_kotlin_typename(), ">"),
            FieldType::MapOf { value_ty } => wrapped("Map<String,", (**value_ty).to_kotlin_typename(), ">"),
            FieldType::SchemaRef { name, .. } => filter_schema_ref(name, "Map<String,Any>"),
            FieldType::StringConst { .. } => "String".to_owned(),
        }
    }

    /// The name of this field type in JavaScript and TypeScript.
    pub fn to_js_typename(&self) -> (r: String)
        ensures
            r@ == js_typename(self@),
        decreases self,
    {
        match self {
            FieldType::Bool => "boolean".to_owned(),
            FieldType::Int16 => "number".to_owned(),
            FieldType::UInt16 => "number".to_owned(),
            FieldType::Int32 => "number".to_owned(),
            FieldType::UInt32 => "number".to_owned(),
            FieldType::Int64 => "number".to_owned(),
            FieldType::UInt64 => "number".to_owned(),
            FieldType::String => "string".to_owned(),
            FieldType::DateTime => "Date".to_owned(),
            FieldType::Uri => "string".to_owned(),
            FieldType::JsonObject => "any".to_owned(),
            FieldType::List { inner } => suffixed((**inner).to_js_typename(), "[]"),
            FieldType::SetOf { inner } => suffixed((**inner).to_js_typename(), "[]"),
            FieldType::MapOf { value_ty } => wrapped("{ [key: string]: ", (**value_ty).to_js_typename(), " }"),
            FieldType::SchemaRef { name, .. } => filter_schema_ref(name, "any"),
            FieldType::StringConst { .. } => "string".to_owned(),
        }
    }

    /// The name of this field type in Rust.
    pub fn to_rust_typename(&self) -> (r: String)
        ensures
            r@ == rust_typename(self@),
        decreases self,
    {
        match self {
            FieldType::Bool => "bool".to_owned(),
            FieldType::Int16 => "i16".to_owned(),
            FieldType::UInt16 => "u16".to_owned(),
            FieldType::Int32 => "i32".to_owned(),
            FieldType::UInt32 => "i32".to_owned(),
            FieldType::Int64 => "i32".to_owned(),
            FieldType::UInt64 => "i32".to_owned(),
            FieldType::String => "String".to_owned(),
            FieldType::DateTime => "DateTime<Utc>".to_owned(),
            FieldType::Uri => "String".to_owned(),
            FieldType::JsonObject => "serde_json::Value".to_owned(),
            FieldType::List { inner } => wrapped("Vec<", (**inner).to_rust_typename(), ">"),
            FieldType::SetOf { inner } => wrapped("Vec<", (**inner).to_rust_typename(), ">"),
            FieldType::MapOf { value_ty } => wrapped(
                "std::collections::HashMap<String, ",
                (**value_ty).to_rust_typename(),
                ">",
            ),
            FieldType::SchemaRef { name, .. } => filter_schema_ref(name, "serde_json::Value"),
            FieldType::StringConst { .. } => "String".to_owned(),
        }
    }

    /// The name of this field type in Java.
    pub fn to_java_typename(&self) -> (r: String)
        ensures
            r@ == java_typename(self@),
        decreases self,
    {
        match self {
            FieldType::Bool => "Boolean".to_owned(),
            FieldType::Int16 => "Short".to_owned(),
            FieldType::UInt16 => "Long".to_owned(),
            FieldType::Int32 => "Integer".to_owned(),
            FieldType::UInt32 => "Integer".to_owned(),
            FieldType::Int64 => "Long".to_owned(),
            FieldType::UInt64 => "Long".to_owned(),
            FieldType::String => "String".to_owned(),
            FieldType::DateTime => "OffsetDateTime".to_owned(),
            FieldType::Uri => "URI".to_owned(),
            FieldType::JsonObject => "Object".to_owned(),
            FieldType::List { inner } => wrapped("List<", (**inner).to_java_typename(), ">"),
            FieldType::SetOf { inner } => wrapped("Set<", (**inner).to_java_typename(), ">"),
            FieldType::MapOf { value_ty } => wrapped("Map<String,", (**value_ty).to_java_typename(), ">"),
            FieldType::SchemaRef { name, .. } => filter_schema_ref(name, "Object"),
            FieldType::StringConst { .. } => "TypeEnum".to_owned(),
        }
    }

    /// The name of this field type in PHP.
    pub fn to_php_typename(&self) -> (r: String)
        ensures
            r@ == php_typename(self@),
    {
        match self {
            FieldType::Bool => "bool".to_owned(),
            FieldType::Int16 => "int".to_owned(),
            FieldType::UInt16 => "int".to_owned(),
            FieldType::Int32 => "int".to_owned(),
            FieldType::UInt32 => "int".to_owned(),
            FieldType::Int64 => "int".to_owned(),
            FieldType::UInt64 => "int".to_owned(),
            FieldType::String => "string".to_owned(),
            FieldType::DateTime => "\\DateTimeImmutable".to_owned(),
            FieldType::Uri => "string".to_owned(),
            FieldType::JsonObject => "array".to_owned(),
            FieldType::List { .. } => "array".to_owned(),
            FieldType::SetOf { .. } => "array".to_owned(),
            FieldType::MapOf { .. } => "array".to_owned(),
            FieldType::SchemaRef { name, .. } => name.clone(),
            FieldType::StringConst { .. } => "string".to_owned(),
        }
    }

    /// The name of this field type in a PHPDoc annotation.
    pub fn to_phpdoc_typename(&self) -> (r: String)
        ensures
            r@ == phpdoc_typename(self@),
        decreases self,
    {
        match self {
            FieldType::List { inner } => wrapped("list<", (**inner).to_phpdoc_typename(), ">"),
            FieldType::SetOf { inner } => wrapped("list<", (**inner).to_phpdoc_typename(), ">"),
            FieldType::MapOf { value_ty } => wrapped(
                "array<string, ",
                (**value_ty).to_phpdoc_typename(),
                ">",
            ),
            _ => self.to_php_typename(),
        }
    }

    /// The name of this field type in Ruby.
    pub fn to_ruby_typename(&self) -> (r: String)
        ensures
            r@ == ruby_typename(self@),
        decreases self,
    {
        match self {
            FieldType::Bool => "Boolean".to_owned(),
            FieldType::Int16 => "Integer".to_owned(),
            FieldType::UInt16 => "Integer".to_owned(),
            FieldType::Int32 => "Integer".to_owned(),
            FieldType::UInt32 => "Integer".to_owned(),
            FieldType::Int64 => "Integer".to_owned(),
            FieldType::UInt64 => "Integer".to_owned(),
            FieldType::String => "String".to_owned(),
            FieldType::DateTime => "Time".to_owned(),
            FieldType::Uri => "String".to_owned(),
            FieldType::JsonObject => "Hash".to_owned(),
            FieldType::List { inner } => wrapped("Array<", (**inner).to_ruby_typename(), ">"),
            FieldType::SetOf { inner } => wrapped("Array<", (**inner).to_ruby_typename(), ">"),
            FieldType::MapOf { value_ty } => wrapped("Hash{String => ", (**value_ty).to_ruby_typename(), "}"),
            FieldType::SchemaRef { name, .. } => name.clone(),
            FieldType::StringConst { .. } => "String".to_owned(),
        }
    }
}

/// Whether every schema that a field type refers to has a name.
pub open spec fn references_named(t: FieldTypeView) -> bool
    decreases t,
{
    match t {
        FieldTypeView::SchemaRef { name, .. } => name.len() > 0,
        FieldTypeView::List { inner } => references_named(*inner),
        FieldTypeView::SetOf { inner } => references_named(*inner),
        FieldTypeView::MapOf { value_ty } => references_named(*value_ty),
        _ => true,
    }
}

/// Every field type has a name in every target language, as long as the
/// schemas it refers to have names.
pub proof fn lemma_typenames_nonempty(t: FieldTypeView)
    requires
        references_named(t),
    ensures
        python_typename(t).len() > 0,
        csharp_typename(t).len() > 0,
        go_typename(t).len() > 0,
        kotlin_typename(t).len() > 0,
        js_typename(t).len() > 0,
        rust_typename(t).len() > 0,
        java_typename(t).len() > 0,
        php_typename(t).len() > 0,
        phpdoc_typename(t).len() > 0,
        ruby_typename(t).len() > 0,
    decreases t,
{
    reveal_strlit("bool");
    reveal_strlit("int");
    reveal_strlit("str");
    reveal_strlit("datetime");
    reveal_strlit("t.Dict[str, t.Any]");
    reveal_strlit("short");
    reveal_strlit("ushort");
    reveal_strlit("uint");
    reveal_strlit("long");
    reveal_strlit("ulong");
    reveal_strlit("string");
    reveal_strlit("DateTime");
    reveal_strlit("Object");
    reveal_strlit("int16");
    reveal_strlit("uint16");
    reveal_strlit("int32");
    reveal_strlit("uint32");
    reveal_strlit("int64");
    reveal_strlit("uint64");
    reveal_strlit("time.Time");
    reveal_strlit("map[string]any");
    reveal_strlit("Boolean");
    reveal_strlit("Short");
    reveal_strlit("UShort");
    reveal_strlit("Int");
    reveal_strlit("UInt");
    reveal_strlit("Long");
    reveal_strlit("ULong");
    reveal_strlit("String");
    reveal_strlit("Instant");
    reveal_strlit("Map<String,Any>");
    reveal_strlit("boolean");
    reveal_strlit("number");
    reveal_strlit("Date");
    reveal_strlit("any");
    reveal_strlit("i16");
    reveal_strlit("u16");
    reveal_strlit("i32");
    reveal_strlit("DateTime<Utc>");
    reveal_strlit("serde_json::Value");
    reveal_strlit("Integer");
    reveal_strlit("OffsetDateTime");
    reveal_strlit("URI");
    reveal_strlit("TypeEnum");
    reveal_strlit("\\DateTimeImmutable");
    reveal_strlit("array");
    reveal_strlit("Time");
    reveal_strlit("Hash");
    match t {
        FieldTypeView::List { inner } => {
            lemma_typenames_nonempty(*inner);
        },
        FieldTypeView::SetOf { inner } => {
            lemma_typenames_nonempty(*inner);
        },
        FieldTypeView::MapOf { value_ty } => {
            lemma_typenames_nonempty(*value_ty);
        },
        _ => {},
    }
}

/// What a template gets back from a method of a field type.
pub enum MethodValue<'a> {
    /// The name of the type in a target language.
    Text(String),
    /// The answer to a question about the kind of the type.
    Flag(bool),
    /// The type of the items or of the values of a container, if the type
    /// is such a container.
    FieldType(Option<&'a FieldType>),
    /// The type behind a reference, if the type is a reference.
    Type(Option<&'a Type>),
    /// The value of a string constant, if the type is one.
    Constant(Option<&'a str>),
}

/// The model of what a method gives back.
pub enum MethodValueView {
    Text(Seq<char>),
    Flag(bool),
    FieldType(Option<FieldTypeView>),
    Type(Option<TypeView>),
    Constant(Option<Seq<char>>),
}

/// Why a method call on a field type fails.
#[derive(Debug, PartialEq, Eq, Clone, Copy)]
pub enum MethodError {
    UnknownMethod,
    TooManyArguments,
}

impl<'a> View for MethodValue<'a> {
    type V = MethodValueView;

    open spec fn view(&self) -> MethodValueView {
        match self {
            MethodValue::Text(s) => MethodValueView::Text(s@),
            MethodValue::Flag(b) => MethodValueView::Flag(*b),
            MethodValue::FieldType(t) => MethodValueView::FieldType(
                match t {
                    Some(t) => Some(t@),
                    None => None,
                },
            ),
            MethodValue::Type(t) => MethodValueView::Type(
                match t {
                    Some(t) => Some(t@),
                    None => None,
                },
            ),
            MethodValue::Constant(c) => MethodValueView::Constant(
                match c {
                    Some(c) => Some(c@),
                    None => None,
                },
            ),
        }
    }
}

/// Whether a field type is one of the sized integers.
pub open spec fn is_int_or_uint(t: FieldTypeView) -> bool {
    t is Int16 || t is UInt16 || t is Int32 || t is UInt32 || t is Int64 || t is UInt64
}

/// The type of the items of a list or a set.
pub open spec fn inner_type_of(t: FieldTypeView) -> Option<FieldTypeView> {
    match t {
        FieldTypeView::List { inner } => Some(*inner),
        FieldTypeView::SetOf { inner } => Some(*inner),
        _ => None,
    }
}

/// The type of the values of a map.
pub open spec fn value_type_of(t: FieldTypeView) -> Option<FieldTypeView> {
    match t {
        FieldTypeView::MapOf { value_ty } => Some(*value_ty),
        _ => None,
    }
}

/// The type behind a reference that has been resolved.
pub open spec fn inner_schema_ref_type_of(t: FieldTypeView) -> Option<TypeView> {
    match t {
        FieldTypeView::SchemaRef { inner, .. } => inner,
        _ => None,
    }
}

/// The value of a string constant.
pub open spec fn string_const_of(t: FieldTypeView) -> Option<Seq<char>> {
    match t {
        FieldTypeView::StringConst { value } => Some(value),
        _ => None,
    }
}

/// What the method named `method` gives on `t`; `None` if there is no
/// such method.
pub open spec fn method_value(t: FieldTypeView, method: Seq<char>) -> Option<MethodValueView> {
    if method == "to_python"@ {
        Some(MethodValueView::Text(python_typename(t)))
    } else if method == "to_csharp"@ {
        Some(MethodValueView::Text(csharp_typename(t)))
    } else if method == "to_go"@ {
        Some(MethodValueView::Text(go_typename(t)))
    } else if method == "to_js"@ {
        Some(MethodValueView::Text(js_typename(t)))
    } else if method == "to_kotlin"@ {
        Some(MethodValueView::Text(kotlin_typename(t)))
    } else if method == "to_rust"@ {
        Some(MethodValueView::Text(rust_typename(t)))
    } else if method == "to_java"@ {
        Some(MethodValueView::Text(java_typename(t)))
    } else if method == "to_ruby"@ {
        Some(MethodValueView::Text(ruby_typename(t)))
    } else if method == "to_php"@ {
        Some(MethodValueView::Text(php_typename(t)))
    } else if method == "to_phpdoc"@ {
        Some(MethodValueView::Text(phpdoc_typename(t)))
    } else if method == "is_datetime"@ {
        Some(MethodValueView::Flag(t is DateTime))
    } else if method == "is_schema_ref"@ {
        Some(MethodValueView::Flag(t is SchemaRef))
    } else if method == "is_list"@ {
        Some(MethodValueView::Flag(t is List))
    } else if method == "is_set"@ {
        Some(MethodValueView::Flag(t is SetOf))
    } else if method == "is_map"@ {
        Some(MethodValueView::Flag(t is MapOf))
    } else if method == "is_string"@ {
        Some(MethodValueView::Flag(t is String))
    } else if method == "is_uri"@ {
        Some(MethodValueView::Flag(t is Uri))
    } else if method == "is_bool"@ {
        Some(MethodValueView::Flag(t is Bool))
    } else if method == "is_json_object"@ {
        Some(MethodValueView::Flag(t is JsonObject))
    } else if method == "is_string_const"@ {
        Some(MethodValueView::Flag(t is StringConst))
    } else if method == "is_int_or_uint"@ {
        Some(MethodValueView::Flag(is_int_or_uint(t)))
    } else if method == "inner_type"@ {
        Some(MethodValueView::FieldType(inner_type_of(t)))
    } else if method == "inner_schema_ref_ty"@ {
        Some(MethodValueView::Type(inner_schema_ref_type_of(t)))
    } else if method == "value_type"@ {
        Some(MethodValueView::FieldType(value_type_of(t)))
    } else if method == "string_const_val"@ {
        Some(MethodValueView::Constant(string_const_of(t)))
    } else {
        None
    }
}

/// What a call of the method named `method` with `arg_count` arguments
/// gives on `t`. No method takes an argument.
pub open spec fn method_result(t: FieldTypeView, method: Seq<char>, arg_count: nat) -> Result<
    MethodValueView,
    MethodError,
> {
    match method_value(t, method) {
        None => Err(MethodError::UnknownMethod),
        Some(v) => if arg_count != 0 {
            Err(MethodError::TooManyArguments)
        } else {
            Ok(v)
        },
    }
}

/// Checks that a method was called without arguments.
pub fn ensure_no_args(arg_count: usize) -> (r: Result<(), MethodError>)
    ensures
        r is Ok <==> arg_count == 0,
        r is Err ==> r == Err::<(), MethodError>(MethodError::TooManyArguments),
{
    if arg_count != 0 {
        return Err(MethodError::TooManyArguments);
    }
    Ok(())
}

impl FieldType {
    /// Whether this is one of the sized integers.
    pub fn int_or_uint(&self) -> (r: bool)
        ensures
            r == is_int_or_uint(self@),
    {
        match self {
            FieldType::Int16
            | FieldType::UInt16
            | FieldType::Int32
            | FieldType::UInt32
            | FieldType::Int64
            | FieldType::UInt64 => true,
            FieldType::Bool
            | FieldType::String
            | FieldType::DateTime
            | FieldType::Uri
            | FieldType::JsonObject
            | FieldType::List { .. }
            | FieldType::SetOf { .. }
            | FieldType::MapOf { .. }
            | FieldType::SchemaRef { .. }
            | FieldType::StringConst { .. } => false,
        }
    }

    /// The type of the items, if this is a list or a set.
    pub fn inner_type(&self) -> (r: Option<&FieldType>)
        ensures
            match r {
                Some(t) => inner_type_of(self@) == Some(t@),
                None => inner_type_of(self@) is None,
            },
    {
        match self {
            FieldType::List { inner } => Some(&**inner),
            FieldType::SetOf { inner } => Some(&**inner),
            _ => None,
        }
    }

    /// The type of the values, if this is a map.
    pub fn value_type(&self) -> (r: Option<&FieldType>)
        ensures
            match r {
                Some(t) => value_type_of(self@) == Some(t@),
                None => value_type_of(self@) is None,
            },
    {
        match self {
            FieldType::MapOf { value_ty } => Some(&**value_ty),
            _ => None,
        }
    }

    /// The type behind the reference, if this is a reference.
    pub fn inner_schema_ref_ty(&self) -> (r: Option<&Type>)
        ensures
            match r {
                Some(t) => inner_schema_ref_type_of(self@) == Some(t@),
                None => inner_schema_ref_type_of(self@) is None,
            },
    {
        match self {
            FieldType::SchemaRef { inner, .. } => inner.as_ref(),
            _ => None,
        }
    }

    /// The value, if this is a string constant.
    pub fn string_const_val(&self) -> (r: Option<&str>)
        ensures
            match r {
                Some(v) => string_const_of(self@) == Some(v@),
                None => string_const_of(self@) is None,
            },
    {
        match self {
            FieldType::StringConst { value } => Some(value.as_str()),
            _ => None,
        }
    }

    /// Whether there is a method named `method`.
    pub fn has_method(method: &str) -> (r: bool)
        ensures
            r == forall|t: FieldTypeView| method_value(t, method@) is Some,
            r == exists|t: FieldTypeView| method_value(t, method@) is Some,
    {
        let r = str_eq(method, "to_python")
            || str_eq(method, "to_csharp")
            || str_eq(method, "to_go")
            || str_eq(method, "to_js")
            || str_eq(method, "to_kotlin")
            || str_eq(method, "to_rust")
            || str_eq(method, "to_java")
            || str_eq(method, "to_ruby")
            || str_eq(method, "to_php")
            || str_eq(method, "to_phpdoc")
            || str_eq(method, "is_datetime")
            || str_eq(method, "is_schema_ref")
            || str_eq(method, "is_list")
            || str_eq(method, "is_set")
            || str_eq(method, "is_map")
            || str_eq(method, "is_string")
            || str_eq(method, "is_uri")
            || str_eq(method, "is_bool")
            || str_eq(method, "is_json_object")
            || str_eq(method, "is_string_const")
            || str_eq(method, "is_int_or_uint")
            || str_eq(method, "inner_type")
            || str_eq(method, "inner_schema_ref_ty")
            || str_eq(method, "value_type")
            || str_eq(method, "string_const_val");
        proof {
            if r {
                assert(method_value(FieldTypeView::Bool, method@) is Some);
            }
        }
        r
    }

    /// Calls the method named `method` with `arg_count` arguments.
    pub fn call_method(&self, method: &str, arg_count: usize) -> (r: Result<MethodValue<'_>, MethodError>)
        ensures
            match r {
                Ok(v) => method_result(self@, method@, arg_count as nat) == Ok::<
                    MethodValueView,
                    MethodError,
                >(v@),
                Err(e) => method_result(self@, method@, arg_count as nat) == Err::<
                    MethodValueView,
                    MethodError,
                >(e),
            },
    {
        if !FieldType::has_method(method) {
            return Err(MethodError::UnknownMethod);
        }
        match ensure_no_args(arg_count) {
            Err(e) => {
                return Err(e);
            },
            Ok(_) => {},
        }
        let value = if str_eq(method, "to_python") {
            MethodValue::Text(self.to_python_typename())
        } else if str_eq(method, "to_csharp") {
            MethodValue::Text(self.to_csharp_typename())
        } else if str_eq(method, "to_go") {
            MethodValue::Text(self.to_go_typename())
        } else if str_eq(method, "to_js") {
            MethodValue::Text(self.to_js_typename())
        } else if str_eq(method, "to_kotlin") {
            MethodValue::Text(self.to_kotlin_typename())
        } else if str_eq(method, "to_rust") {
            MethodValue::Text(self.to_rust_typename())
        } else if str_eq(method, "to_java") {
            MethodValue::Text(self.to_java_typename())
        } else if str_eq(method, "to_ruby") {
            MethodValue::Text(self.to_ruby_typename())
        } else if str_eq(method, "to_php") {
            MethodValue::Text(self.to_php_typename())
        } else if str_eq(method, "to_phpdoc") {
            MethodValue::Text(self.to_phpdoc_typename())
        } else if str_eq(method, "is_datetime") {
            MethodValue::Flag(matches!(self, FieldType::DateTime))
        } else if str_eq(method, "is_schema_ref") {
            MethodValue::Flag(matches!(self, FieldType::SchemaRef { .. }))
        } else if str_eq(method, "is_list") {
            MethodValue::Flag(matches!(self, FieldType::List { .. }))
        } else if str_eq(method, "is_set") {
            MethodValue::Flag(matches!(self, FieldType::SetOf { .. }))
        } else if str_eq(method, "is_map") {
            MethodValue::Flag(matches!(self, FieldType::MapOf { .. }))
        } else if str_eq(method, "is_string") {
            MethodValue::Flag(matches!(self, FieldType::String))
        } else if str_eq(method, "is_uri") {
            MethodValue::Flag(matches!(self, FieldType::Uri))
        } else if str_eq(method, "is_bool") {
            MethodValue::Flag(matches!(self, FieldType::Bool))
        } else if str_eq(method, "is_json_object") {
            MethodValue::Flag(matches!(self, FieldType::JsonObject))
        } else if str_eq(method, "is_string_const") {
            MethodValue::Flag(matches!(self, FieldType::StringConst { .. }))
        } else if str_eq(method, "is_int_or_uint") {
            MethodValue::Flag(self.int_or_uint())
        } else if str_eq(method, "inner_type") {
            MethodValue::FieldType(self.inner_type())
        } else if str_eq(method, "inner_schema_ref_ty") {
            MethodValue::Type(self.inner_schema_ref_ty())
        } else if str_eq(method, "value_type") {
            MethodValue::FieldType(self.value_type())
        } else if str_eq(method, "string_const_val") {
            MethodValue::Constant(self.string_const_val())
        } else {
            return Err(MethodError::UnknownMethod);
        };
        Ok(value)
    }
}

} // verus!
