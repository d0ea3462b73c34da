use openapi_codegen::api::ir::{FieldType, Type, TypeData};
use openapi_codegen::api::typenames::{ensure_no_args, filter_schema_ref, MethodError, MethodValue};
use std::sync::Arc;

fn list(inner: FieldType) -> FieldType {
    FieldType::List { inner: Arc::new(inner) }
}

fn set(inner: FieldType) -> FieldType {
    FieldType::SetOf { inner: Arc::new(inner) }
}

fn map(value_ty: FieldType) -> FieldType {
    FieldType::MapOf { value_ty: Arc::new(value_ty) }
}

fn reference(name: &str) -> FieldType {
    FieldType::SchemaRef { name: name.to_string(), inner: None }
}

fn constant() -> FieldType {
    FieldType::StringConst { value: "tag".to_string() }
}

fn scalars() -> Vec<FieldType> {
    vec![
        FieldType::Bool,
        FieldType::Int16,
        FieldType::UInt16,
        FieldType::Int32,
        FieldType::UInt32,
        FieldType::Int64,
        FieldType::UInt64,
        FieldType::String,
        FieldType::DateTime,
        FieldType::Uri,
        FieldType::JsonObject,
    ]
}

fn check(project: fn(&FieldType) -> String, expected: [&str; 11]) {
    let got: Vec<String> = scalars().iter().map(project).collect();
    assert_eq!(got, expected.to_vec());
}

#[test]
fn python_typenames() {
    check(
        FieldType::to_python_typename,
        ["bool", "int", "int", "int", "int", "int", "int", "str", "datetime", "str", "t.Dict[str, t.Any]"],
    );
    assert_eq!(set(FieldType::String).to_python_typename(), "t.List[str]");
    assert_eq!(list(reference("Foo")).to_python_typename(), "t.List[Foo]");
    assert_eq!(map(list(FieldType::Bool)).to_python_typename(), "t.Dict[str, t.List[bool]]");
    assert_eq!(reference("Data").to_python_typename(), "t.Dict[str, t.Any]");
    assert_eq!(constant().to_python_typename(), "str");
}

#[test]
fn csharp_typenames() {
    check(
        FieldType::to_csharp_typename,
        ["bool", "short", "ushort", "int", "uint", "long", "ulong", "string", "DateTime", "string", "Object"],
    );
    assert_eq!(set(FieldType::String).to_csharp_typename(), "List<string>");
    assert_eq!(list(FieldType::Int64).to_csharp_typename(), "List<long>");
    assert_eq!(map(reference("Foo")).to_csharp_typename(), "Dictionary<string, Foo>");
    assert_eq!(reference("Data").to_csharp_typename(), "Object");
    assert_eq!(constant().to_csharp_typename(), "string");
}

#[test]
fn go_typenames() {
    check(
        FieldType::to_go_typename,
        [
            "bool", "int16", "uint16", "int32", "uint32", "int64", "uint64", "string", "time.Time", "string",
            "map[string]any",
        ],
    );
    assert_eq!(set(FieldType::String).to_go_typename(), "[]string");
    assert_eq!(list(list(FieldType::Bool)).to_go_typename(), "[][]bool");
    assert_eq!(map(reference("Foo")).to_go_typename(), "map[string]Foo");
    assert_eq!(reference("Data").to_go_typename(), "map[string]any");
    assert_eq!(constant().to_go_typename(), "string");
}

#[test]
fn kotlin_typenames() {
    check(
        FieldType::to_kotlin_typename,
        [
            "Boolean", "Short", "UShort", "Int", "UInt", "Long", "ULong", "String", "Instant", "String",
            "Map<String,Any>",
        ],
    );
    assert_eq!(set(FieldType::String).to_kotlin_typename(), "Set<String>");
    assert_eq!(list(FieldType::String).to_kotlin_typename(), "List<String>");
    assert_eq!(map(FieldType::Int32).to_kotlin_typename(), "Map<String,Int>");
    assert_eq!(reference("Data").to_kotlin_typename(), "Map<String,Any>");
    assert_eq!(constant().to_kotlin_typename(), "String");
}

#[test]
fn js_typenames() {
    check(
        FieldType::to_js_typename,
        ["boolean", "number", "number", "number", "number", "number", "number", "string", "Date", "string", "any"],
    );
    assert_eq!(set(FieldType::String).to_js_typename(), "string[]");
    assert_eq!(list(reference("Foo")).to_js_typename(), "Foo[]");
    assert_eq!(map(FieldType::DateTime).to_js_typename(), "{ [key: string]: Date }");
    assert_eq!(reference("Data").to_js_typename(), "any");
    assert_eq!(constant().to_js_typename(), "string");
}

#[test]
fn rust_typenames() {
    check(
        FieldType::to_rust_typename,
        [
            "bool", "i16", "u16", "i32", "i32", "i32", "i32", "String", "DateTime<Utc>", "String",
            "serde_json::Value",
        ],
    );
    assert_eq!(set(FieldType::String).to_rust_typename(), "Vec<String>");
    assert_eq!(map(FieldType::Uri).to_rust_typename(), "std::collections::HashMap<String, String>");
    assert_eq!(reference("Data").to_rust_typename(), "serde_json::Value");
    assert_eq!(reference("Foo").to_rust_typename(), "Foo");
    assert_eq!(constant().to_rust_typename(), "String");
}

#[test]
fn java_typenames() {
    check(
        FieldType::to_java_typename,
        [
            "Boolean", "Short", "Long", "Integer", "Integer", "Long", "Long", "String", "OffsetDateTime", "URI",
            "Object",
        ],
    );
    assert_eq!(set(FieldType::String).to_java_typename(), "Set<String>");
    assert_eq!(list(FieldType::Uri).to_java_typename(), "List<URI>");
    assert_eq!(map(set(FieldType::Bool)).to_java_typename(), "Map<String,Set<Boolean>>");
    assert_eq!(reference("Data").to_java_typename(), "Object");
    assert_eq!(constant().to_java_typename(), "TypeEnum");
}

#[test]
fn php_typenames() {
    check(
        FieldType::to_php_typename,
        ["bool", "int", "int", "int", "int", "int", "int", "string", "\\DateTimeImmutable", "string", "array"],
    );
    assert_eq!(set(FieldType::String).to_php_typename(), "array");
    assert_eq!(map(FieldType::String).to_php_typename(), "array");
    assert_eq!(reference("Data").to_php_typename(), "Data");
    assert_eq!(constant().to_php_typename(), "string");
    check(
        FieldType::to_phpdoc_typename,
        ["bool", "int", "int", "int", "int", "int", "int", "string", "\\DateTimeImmutable", "string", "array"],
    );
    assert_eq!(set(FieldType::String).to_phpdoc_typename(), "list<string>");
    assert_eq!(list(reference("Foo")).to_phpdoc_typename(), "list<Foo>");
    assert_eq!(map(list(FieldType::DateTime)).to_phpdoc_typename(), "array<string, list<\\DateTimeImmutable>>");
}

#[test]
fn ruby_typenames() {
    check(
        FieldType::to_ruby_typename,
        [
            "Boolean", "Integer", "Integer", "Integer", "Integer", "Integer", "Integer", "String", "Time", "String",
            "Hash",
        ],
    );
    assert_eq!(set(FieldType::String).to_ruby_typename(), "Array<String>");
    assert_eq!(list(reference("Foo")).to_ruby_typename(), "Array<Foo>");
    assert_eq!(map(list(FieldType::DateTime)).to_ruby_typename(), "Hash{String => Array<Time>}");
    assert_eq!(reference("Foo").to_ruby_typename(), "Foo");
    assert_eq!(reference("Data").to_ruby_typename(), "Data");
    assert_eq!(constant().to_ruby_typename(), "String");
}

#[test]
fn untyped_payload_gets_the_fallback_name() {
    assert_eq!(filter_schema_ref(&"Data".to_string(), "any"), "any");
    assert_eq!(filter_schema_ref(&"Datum".to_string(), "any"), "Datum");
    assert_eq!(filter_schema_ref(&String::new(), "any"), "");
}

#[test]
fn every_scalar_has_a_name_in_every_language() {
    let projections: [fn(&FieldType) -> String; 10] = [
        FieldType::to_ruby_typename,
        FieldType::to_python_typename,
        FieldType::to_csharp_typename,
        FieldType::to_go_typename,
        FieldType::to_kotlin_typename,
        FieldType::to_js_typename,
        FieldType::to_rust_typename,
        FieldType::to_java_typename,
        FieldType::to_php_typename,
        FieldType::to_phpdoc_typename,
    ];
    let mut all = scalars();
    all.push(constant());
    all.push(reference("Foo"));
    all.push(list(FieldType::Bool));
    all.push(set(FieldType::String));
    all.push(map(FieldType::String));
    for t in &all {
        for project in projections {
            assert!(!project(t).is_empty(), "{t:?}");
        }
    }
}

fn text(t: &FieldType, method: &str) -> String {
    match t.call_method(method, 0) {
        Ok(MethodValue::Text(s)) => s,
        _ => panic!("{method}"),
    }
}

fn flag(t: &FieldType, method: &str) -> bool {
    match t.call_method(method, 0) {
        Ok(MethodValue::Flag(b)) => b,
        _ => panic!("{method}"),
    }
}

#[test]
fn methods_give_names_in_each_language() {
    let t = set(FieldType::String);
    assert_eq!(text(&t, "to_python"), "t.List[str]");
    assert_eq!(text(&t, "to_csharp"), "List<string>");
    assert_eq!(text(&t, "to_go"), "[]string");
    assert_eq!(text(&t, "to_js"), "string[]");
    assert_eq!(text(&t, "to_kotlin"), "Set<String>");
    assert_eq!(text(&t, "to_rust"), "Vec<String>");
    assert_eq!(text(&t, "to_java"), "Set<String>");
    assert_eq!(text(&t, "to_php"), "array");
    assert_eq!(text(&t, "to_phpdoc"), "list<string>");
    assert_eq!(text(&t, "to_ruby"), "Array<String>");
    assert_eq!(text(&reference("Foo"), "to_ruby"), "Foo");
    assert_eq!(text(&FieldType::Bool, "to_ruby"), "Boolean");
    assert_eq!(text(&constant(), "to_ruby"), "String");
}

#[test]
fn methods_answer_questions_about_the_kind() {
    let questions = [
        "is_datetime",
        "is_schema_ref",
        "is_list",
        "is_set",
        "is_map",
        "is_string",
        "is_uri",
        "is_bool",
        "is_int_or_uint",
        "is_json_object",
        "is_string_const",
    ];
    let yes = |t: &FieldType| -> Vec<&str> { questions.iter().copied().filter(|q| flag(t, q)).collect() };
    assert_eq!(yes(&FieldType::DateTime), vec!["is_datetime"]);
    assert_eq!(yes(&reference("Foo")), vec!["is_schema_ref"]);
    assert_eq!(yes(&list(FieldType::Bool)), vec!["is_list"]);
    assert_eq!(yes(&set(FieldType::Bool)), vec!["is_set"]);
    assert_eq!(yes(&map(FieldType::Bool)), vec!["is_map"]);
    assert_eq!(yes(&FieldType::String), vec!["is_string"]);
    assert_eq!(yes(&FieldType::Uri), vec!["is_uri"]);
    assert_eq!(yes(&FieldType::Bool), vec!["is_bool"]);
    assert_eq!(yes(&FieldType::JsonObject), vec!["is_json_object"]);
    assert_eq!(yes(&constant()), vec!["is_string_const"]);
    for t in [
        FieldType::Int16,
        FieldType::UInt16,
        FieldType::Int32,
        FieldType::UInt32,
        FieldType::Int64,
        FieldType::UInt64,
    ] {
        assert_eq!(yes(&t), vec!["is_int_or_uint"]);
    }
}

#[test]
fn methods_give_the_parts_of_a_type() {
    let inner = |t: &FieldType, method: &str| match t.call_method(method, 0) {
        Ok(MethodValue::FieldType(x)) => x.map(|t| format!("{t:?}")),
        _ => panic!("{method}"),
    };
    assert_eq!(inner(&list(FieldType::Bool), "inner_type"), Some("Bool".to_string()));
    assert_eq!(inner(&set(FieldType::Uri), "inner_type"), Some("Uri".to_string()));
    assert_eq!(inner(&map(FieldType::Uri), "inner_type"), None);
    assert_eq!(inner(&map(FieldType::Uri), "value_type"), Some("Uri".to_string()));
    assert_eq!(inner(&list(FieldType::Uri), "value_type"), None);
    assert_eq!(inner(&FieldType::Bool, "inner_type"), None);

    match constant().call_method("string_const_val", 0) {
        Ok(MethodValue::Constant(Some(v))) => assert_eq!(v, "tag"),
        _ => panic!(),
    }
    match FieldType::String.call_method("string_const_val", 0) {
        Ok(MethodValue::Constant(None)) => {}
        _ => panic!(),
    }
    let resolved = FieldType::SchemaRef {
        name: "Foo".into(),
        inner: Some(Type {
            name: "Foo".into(),
            description: None,
            deprecated: false,
            data: TypeData::StringEnum { values: vec![] },
        }),
    };
    match resolved.call_method("inner_schema_ref_ty", 0) {
        Ok(MethodValue::Type(Some(t))) => assert_eq!(t.name, "Foo"),
        _ => panic!(),
    }
    match FieldType::Bool.call_method("inner_schema_ref_ty", 0) {
        Ok(MethodValue::Type(None)) => {}
        _ => panic!(),
    }
    match reference("Foo").call_method("inner_schema_ref_ty", 0) {
        Ok(MethodValue::Type(None)) => {}
        _ => panic!(),
    }
}

#[test]
fn methods_take_no_arguments() {
    assert!(matches!(FieldType::Bool.call_method("to_rust", 1), Err(MethodError::TooManyArguments)));
    assert!(matches!(FieldType::Bool.call_method("to_ruby", 2), Err(MethodError::TooManyArguments)));
    assert!(matches!(FieldType::Bool.call_method("is_list", 1), Err(MethodError::TooManyArguments)));
    assert!(matches!(FieldType::Bool.call_method("to_cobol", 0), Err(MethodError::UnknownMethod)));
    assert!(matches!(FieldType::Bool.call_method("to_cobol", 3), Err(MethodError::UnknownMethod)));
    assert!(matches!(FieldType::Bool.call_method("", 0), Err(MethodError::UnknownMethod)));
    assert!(FieldType::has_method("value_type"));
    assert!(!FieldType::has_method("value_types"));
    assert_eq!(ensure_no_args(0), Ok(()));
    assert_eq!(ensure_no_args(1), Err(MethodError::TooManyArguments));
}
