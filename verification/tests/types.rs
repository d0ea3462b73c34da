use indexmap::IndexMap;
use openapi_codegen::api::error::SchemaError;
use openapi_codegen::api::graph::{SkipReason, TypeGraph};
use openapi_codegen::api::get_schema_name;
use openapi_codegen::api::ir::{EnumVariantType, Field, FieldType, SimpleVariant, StructEnumRepr, Type, TypeData};
use openapi_codegen::json::{JsonMember, JsonNumber, JsonValue};
use openapi_codegen::name_map::NameSet;
use openapi_codegen::pool::SchemaPool;
use openapi_codegen::schema::{
    ArrayItems, ArrayValidation, InstanceType, Metadata, ObjectValidation, Property, Schema, SchemaObject,
    SchemaTypes, SubschemaValidation,
};
use std::sync::Arc;

fn typed(ty: InstanceType) -> SchemaObject {
    let mut s = SchemaObject::empty();
    s.instance_type = Some(SchemaTypes::Single(ty));
    s
}

fn with_format(ty: InstanceType, format: &str) -> SchemaObject {
    let mut s = typed(ty);
    s.format = Some(format.to_string());
    s
}

fn reference(name: &str) -> SchemaObject {
    let mut s = SchemaObject::empty();
    s.reference = Some(format!("#/components/schemas/{name}"));
    s
}

fn constant(value: &str) -> SchemaObject {
    let mut s = typed(InstanceType::String);
    s.enum_values = Some(vec![JsonValue::String(value.to_string())]);
    s
}

fn object_of(properties: Vec<(&str, SchemaObject)>, required: Vec<&str>) -> ObjectValidation {
    let mut o = ObjectValidation::empty();
    o.properties = properties
        .into_iter()
        .map(|(name, schema)| Property { name: name.to_string(), schema: Schema::Object(schema) })
        .collect();
    o.required = required.into_iter().map(|r| r.to_string()).collect();
    o
}

fn struct_schema(properties: Vec<(&str, SchemaObject)>, required: Vec<&str>) -> SchemaObject {
    let mut s = typed(InstanceType::Object);
    s.object = Some(Box::new(object_of(properties, required)));
    s
}

fn plain_field(name: &str, ty: FieldType, required: bool) -> Field {
    Field {
        name: name.to_string(),
        ty,
        default: None,
        description: None,
        required,
        nullable: false,
        deprecated: false,
        example: None,
    }
}

fn schema_ref(name: &str) -> FieldType {
    FieldType::SchemaRef { name: name.to_string(), inner: None }
}

fn names(list: &[&str]) -> NameSet {
    let mut s = NameSet::new();
    for n in list {
        s.insert(n.to_string());
    }
    s
}

#[test]
fn schema_name_strips_the_component_prefix() {
    assert_eq!(get_schema_name(Some("#/components/schemas/Foo")), Some("Foo".to_string()));
    assert_eq!(get_schema_name(Some("#/components/schemas/")), Some(String::new()));
    assert_eq!(get_schema_name(Some("#/components/responses/Foo")), None);
    assert_eq!(get_schema_name(Some("Foo")), None);
    assert_eq!(get_schema_name(None), None);
}

#[test]
fn scalar_field_types() {
    assert_eq!(FieldType::from_schema_object(&typed(InstanceType::Boolean)), Ok(FieldType::Bool));
    let cases = [
        ("int16", FieldType::Int16),
        ("uint16", FieldType::UInt16),
        ("int32", FieldType::Int32),
        ("uint32", FieldType::UInt32),
        ("int", FieldType::Int64),
        ("int64", FieldType::Int64),
        ("uint", FieldType::UInt64),
        ("uint64", FieldType::UInt64),
    ];
    for (format, expected) in cases {
        assert_eq!(FieldType::from_schema_object(&with_format(InstanceType::Integer, format)), Ok(expected));
    }
    assert_eq!(
        FieldType::from_schema_object(&typed(InstanceType::Integer)),
        Err(SchemaError::UnsupportedIntegerFormat)
    );
    assert_eq!(
        FieldType::from_schema_object(&with_format(InstanceType::Integer, "int8")),
        Err(SchemaError::UnsupportedIntegerFormat)
    );
    assert_eq!(FieldType::from_schema_object(&typed(InstanceType::String)), Ok(FieldType::String));
    assert_eq!(FieldType::from_schema_object(&with_format(InstanceType::String, "color")), Ok(FieldType::String));
    assert_eq!(FieldType::from_schema_object(&with_format(InstanceType::String, "email")), Ok(FieldType::String));
    assert_eq!(
        FieldType::from_schema_object(&with_format(InstanceType::String, "date-time")),
        Ok(FieldType::DateTime)
    );
    assert_eq!(FieldType::from_schema_object(&with_format(InstanceType::String, "uri")), Ok(FieldType::Uri));
    assert_eq!(
        FieldType::from_schema_object(&with_format(InstanceType::String, "uuid")),
        Err(SchemaError::UnsupportedStringFormat)
    );
    assert_eq!(FieldType::from_schema_object(&typed(InstanceType::Number)), Err(SchemaError::UnsupportedType));
    assert_eq!(FieldType::from_schema_object(&typed(InstanceType::Null)), Err(SchemaError::UnsupportedType));
}

#[test]
fn string_constants_come_before_string_formats() {
    let mut s = with_format(InstanceType::String, "no-such-format");
    s.const_value = Some(JsonValue::String("tag".to_string()));
    assert_eq!(FieldType::from_schema_object(&s), Ok(FieldType::StringConst { value: "tag".to_string() }));
    assert_eq!(
        FieldType::from_schema_object(&constant("a")),
        Ok(FieldType::StringConst { value: "a".to_string() })
    );
    let mut two = typed(InstanceType::String);
    two.enum_values = Some(vec![JsonValue::String("a".into()), JsonValue::String("b".into())]);
    assert_eq!(FieldType::from_schema_object(&two), Err(SchemaError::EnumAsFieldType));
    let mut number = typed(InstanceType::String);
    number.const_value = Some(JsonValue::Number(JsonNumber::PosInt(1)));
    assert_eq!(FieldType::from_schema_object(&number), Err(SchemaError::NonStringConst));
    let mut on_bool = typed(InstanceType::Boolean);
    on_bool.const_value = Some(JsonValue::Bool(true));
    assert_eq!(FieldType::from_schema_object(&on_bool), Err(SchemaError::ConstValue));
    let mut on_int = with_format(InstanceType::Integer, "int32");
    on_int.enum_values = Some(vec![]);
    assert_eq!(FieldType::from_schema_object(&on_int), Err(SchemaError::EnumValues));
}

#[test]
fn container_field_types() {
    let list = |unique: Option<bool>, item: SchemaObject| {
        let mut s = typed(InstanceType::Array);
        s.array = Some(Box::new(ArrayValidation {
            items: Some(ArrayItems::Single(Box::new(Schema::Object(item)))),
            additional_items: None,
            unique_items: unique,
        }));
        s
    };
    assert_eq!(
        FieldType::from_schema_object(&list(None, typed(InstanceType::String))),
        Ok(FieldType::List { inner: Arc::new(FieldType::String) })
    );
    assert_eq!(
        FieldType::from_schema_object(&list(Some(false), reference("Foo"))),
        Ok(FieldType::List { inner: Arc::new(schema_ref("Foo")) })
    );
    assert_eq!(
        FieldType::from_schema_object(&list(Some(true), typed(InstanceType::String))),
        Ok(FieldType::SetOf { inner: Arc::new(FieldType::String) })
    );
    assert_eq!(
        FieldType::from_schema_object(&list(Some(true), typed(InstanceType::Integer))),
        Err(SchemaError::UnsupportedIntegerFormat)
    );
    assert_eq!(FieldType::from_schema_object(&typed(InstanceType::Array)), Err(SchemaError::ArrayWithoutProps));
    let mut tuple = typed(InstanceType::Array);
    tuple.array = Some(Box::new(ArrayValidation {
        items: Some(ArrayItems::Multiple(vec![])),
        additional_items: None,
        unique_items: None,
    }));
    assert_eq!(FieldType::from_schema_object(&tuple), Err(SchemaError::MultiTypedArray));
    let mut no_items = typed(InstanceType::Array);
    no_items.array = Some(Box::new(ArrayValidation { items: None, additional_items: None, unique_items: None }));
    assert_eq!(FieldType::from_schema_object(&no_items), Err(SchemaError::ArrayWithoutItems));

    let map = |additional: Option<Schema>| {
        let mut s = typed(InstanceType::Object);
        let mut o = ObjectValidation::empty();
        o.additional_properties = additional.map(Box::new);
        s.object = Some(Box::new(o));
        s
    };
    assert_eq!(FieldType::from_schema_object(&map(Some(Schema::Bool(true)))), Ok(FieldType::JsonObject));
    assert_eq!(
        FieldType::from_schema_object(&map(Some(Schema::Bool(false)))),
        Err(SchemaError::AdditionalPropertiesFalse)
    );
    assert_eq!(
        FieldType::from_schema_object(&map(Some(Schema::Object(with_format(InstanceType::Integer, "int64"))))),
        Ok(FieldType::MapOf { value_ty: Arc::new(FieldType::Int64) })
    );
    assert_eq!(FieldType::from_schema_object(&map(None)), Err(SchemaError::ObjectWithoutAdditionalProperties));
    assert_eq!(
        FieldType::from_schema_object(&typed(InstanceType::Object)),
        Err(SchemaError::ObjectWithoutValidation)
    );
    let mut inline = struct_schema(vec![("x", typed(InstanceType::String))], vec![]);
    inline.object.as_mut().unwrap().additional_properties = Some(Box::new(Schema::Bool(true)));
    assert_eq!(FieldType::from_schema_object(&inline), Err(SchemaError::PropertiesOnFieldType));
}

#[test]
fn references_and_typeless_schemas() {
    assert_eq!(FieldType::from_schema_object(&reference("Foo")), Ok(schema_ref("Foo")));
    assert_eq!(FieldType::from_schema_object(&reference("Data")), Ok(schema_ref("Data")));
    assert_eq!(FieldType::from_schema_object(&SchemaObject::empty()), Err(SchemaError::TypelessParameter));
    let mut foreign = SchemaObject::empty();
    foreign.reference = Some("#/definitions/Foo".to_string());
    assert_eq!(FieldType::from_schema_object(&foreign), Err(SchemaError::TypelessParameter));
    let mut several = SchemaObject::empty();
    several.instance_type = Some(SchemaTypes::Multiple(vec![InstanceType::String, InstanceType::Null]));
    assert_eq!(FieldType::from_schema_object(&several), Err(SchemaError::MultipleTypes));
    assert_eq!(FieldType::from_schema(&Schema::Bool(true)), Err(SchemaError::BoolSchema));
}

#[test]
fn struct_type_with_field_annotations() {
    let mut name = typed(InstanceType::String);
    name.metadata = Some(Metadata {
        description: Some("The name".to_string()),
        default: Some(JsonValue::String("x".to_string())),
        deprecated: true,
    });
    name.extensions = vec![
        JsonMember { key: "nullable".to_string(), value: JsonValue::Bool(true) },
        JsonMember { key: "example".to_string(), value: JsonValue::String("joe".to_string()) },
    ];
    let mut s = struct_schema(vec![("name", name), ("friend", reference("Person"))], vec!["friend"]);
    s.metadata = Some(Metadata { description: Some("A person".to_string()), default: None, deprecated: false });
    let ty = Type::from_schema("Person".to_string(), &s).unwrap();
    assert_eq!(
        ty,
        Type {
            name: "Person".to_string(),
            description: Some("A person".to_string()),
            deprecated: false,
            data: TypeData::Struct {
                fields: vec![
                    Field {
                        name: "name".to_string(),
                        ty: FieldType::String,
                        default: Some(JsonValue::String("x".to_string())),
                        description: Some("The name".to_string()),
                        required: false,
                        nullable: true,
                        deprecated: true,
                        example: Some(JsonValue::String("joe".to_string())),
                    },
                    plain_field("friend", schema_ref("Person"), true),
                ],
            },
        }
    );
    let refs = ty.referenced_components();
    assert_eq!(refs.len(), 1);
    assert!(refs.contains("Person"));
}

#[test]
fn object_type_without_keywords_is_an_empty_struct() {
    let ty = Type::from_schema("Empty".to_string(), &typed(InstanceType::Object)).unwrap();
    assert_eq!(ty.data, TypeData::Struct { fields: vec![] });
}

#[test]
fn string_and_integer_enums() {
    let mut s = typed(InstanceType::String);
    s.enum_values = Some(vec![JsonValue::String("a".into()), JsonValue::String("b".into())]);
    assert_eq!(
        Type::from_schema("Letters".into(), &s).unwrap().data,
        TypeData::StringEnum { values: vec!["a".to_string(), "b".to_string()] }
    );
    s.enum_values = Some(vec![JsonValue::String("a".into()), JsonValue::Null]);
    assert_eq!(Type::from_schema("Letters".into(), &s), Err(SchemaError::EnumValueNotString));
    assert_eq!(
        Type::from_schema("Letters".into(), &typed(InstanceType::String)),
        Err(SchemaError::StringWithoutEnumValues)
    );

    let mut i = typed(InstanceType::Integer);
    i.enum_values =
        Some(vec![JsonValue::Number(JsonNumber::PosInt(0)), JsonValue::Number(JsonNumber::NegInt(-3))]);
    assert_eq!(Type::from_schema("Level".into(), &i), Err(SchemaError::IntegerWithoutVarnames));
    i.extensions = vec![JsonMember {
        key: "x-enum-varnames".to_string(),
        value: JsonValue::Array(vec![JsonValue::String("Low".into()), JsonValue::String("High".into())]),
    }];
    assert_eq!(
        Type::from_schema("Level".into(), &i).unwrap().data,
        TypeData::IntegerEnum { variants: vec![("Low".to_string(), 0), ("High".to_string(), -3)] }
    );
    i.enum_values = Some(vec![JsonValue::Number(JsonNumber::PosInt(0))]);
    assert_eq!(Type::from_schema("Level".into(), &i), Err(SchemaError::VarnamesLengthMismatch));
    i.enum_values = Some(vec![
        JsonValue::Number(JsonNumber::PosInt(u64::MAX)),
        JsonValue::Number(JsonNumber::PosInt(1)),
    ]);
    assert_eq!(Type::from_schema("Level".into(), &i), Err(SchemaError::EnumValueNotInteger));
    i.enum_values = Some(vec![
        JsonValue::Number(JsonNumber::Float("1.5".to_string())),
        JsonValue::Number(JsonNumber::PosInt(1)),
    ]);
    assert_eq!(Type::from_schema("Level".into(), &i), Err(SchemaError::EnumValueNotInteger));
    i.enum_values = Some(vec![JsonValue::String("0".into()), JsonValue::Number(JsonNumber::PosInt(1))]);
    assert_eq!(Type::from_schema("Level".into(), &i), Err(SchemaError::EnumValueNotNumber));
    i.enum_values = Some(vec![JsonValue::Number(JsonNumber::PosInt(i64::MAX as u64)), JsonValue::Null]);
    assert_eq!(Type::from_schema("Level".into(), &i), Err(SchemaError::EnumValueNotNumber));
    i.extensions[0].value = JsonValue::String("Low".into());
    assert_eq!(Type::from_schema("Level".into(), &i), Err(SchemaError::VarnamesNotList));
}

#[test]
fn unsupported_named_types() {
    assert_eq!(Type::from_schema("X".into(), &SchemaObject::empty()), Err(SchemaError::NoType));
    assert_eq!(Type::from_schema("X".into(), &typed(InstanceType::Boolean)), Err(SchemaError::UnsupportedType));
    let mut several = SchemaObject::empty();
    several.instance_type = Some(SchemaTypes::Multiple(vec![]));
    assert_eq!(Type::from_schema("X".into(), &several), Err(SchemaError::MultipleTypes));
    let mut all_of = struct_schema(vec![], vec![]);
    all_of.subschemas = Some(Box::new(SubschemaValidation {
        all_of: Some(vec![]),
        any_of: None,
        one_of: None,
        not: None,
        if_schema: None,
        then_schema: None,
        else_schema: None,
    }));
    assert_eq!(Type::from_schema("X".into(), &all_of), Err(SchemaError::AllOf));
    let mut bad_field = struct_schema(vec![("a", typed(InstanceType::String)), ("b", typed(InstanceType::Number))], vec![]);
    assert_eq!(Type::from_schema("X".into(), &bad_field), Err(SchemaError::UnsupportedType));
    bad_field.object.as_mut().unwrap().additional_properties = Some(Box::new(Schema::Bool(true)));
    assert_eq!(Type::from_schema("X".into(), &bad_field), Err(SchemaError::AdditionalProperties));
}

fn one_of(variants: Vec<SchemaObject>) -> SubschemaValidation {
    SubschemaValidation {
        all_of: None,
        any_of: None,
        one_of: Some(variants.into_iter().map(Schema::Object).collect()),
        not: None,
        if_schema: None,
        then_schema: None,
        else_schema: None,
    }
}

fn union_example() -> SchemaObject {
    let a = struct_schema(vec![("data", reference("Foo")), ("type", constant("a"))], vec!["data", "type"]);
    let b = struct_schema(
        vec![
            ("data", struct_schema(vec![("x", with_format(InstanceType::Integer, "int32"))], vec!["x"])),
            ("type", constant("b")),
        ],
        vec!["data", "type"],
    );
    let c = struct_schema(vec![("type", constant("c"))], vec!["type"]);
    let mut s = struct_schema(vec![("id", typed(InstanceType::String))], vec!["id"]);
    s.subschemas = Some(Box::new(one_of(vec![a, b, c])));
    s
}

#[test]
fn discriminated_union_is_inferred_from_one_of() {
    let ty = Type::from_schema("Event".into(), &union_example()).unwrap();
    assert_eq!(
        ty.data,
        TypeData::StructEnum {
            discriminator_field: "type".to_string(),
            repr: StructEnumRepr::AdjacentlyTagged {
                content_field: "data".to_string(),
                variants: vec![
                    SimpleVariant {
                        name: "a".to_string(),
                        content: EnumVariantType::Ref { schema_ref: Some("Foo".to_string()), inner: None },
                    },
                    SimpleVariant {
                        name: "b".to_string(),
                        content: EnumVariantType::Struct {
                            fields: vec![plain_field("x", FieldType::Int32, true)],
                        },
                    },
                    SimpleVariant {
                        name: "c".to_string(),
                        content: EnumVariantType::Ref { schema_ref: None, inner: None },
                    },
                ],
            },
            fields: vec![plain_field("id", FieldType::String, true)],
        }
    );
    let refs = ty.referenced_components();
    assert_eq!(refs.len(), 1);
    assert!(refs.contains("Foo"));
}

#[test]
fn discriminated_union_rejections() {
    let infer = |variants: Vec<SchemaObject>| {
        let mut s = struct_schema(vec![], vec![]);
        s.subschemas = Some(Box::new(one_of(variants)));
        Type::from_schema("U".into(), &s).map(|t| t.data)
    };
    let tagged = |field: &str, tag: &str, content: Option<(&str, SchemaObject)>| {
        let mut props = vec![(field, constant(tag))];
        if let Some(c) = content {
            props.push(c);
        }
        struct_schema(props, vec![])
    };
    assert_eq!(infer(vec![]), Err(SchemaError::NoDiscriminatorField));
    assert_eq!(infer(vec![tagged("type", "a", None)]), Err(SchemaError::NoContentField));
    assert_eq!(infer(vec![typed(InstanceType::Object)]), Err(SchemaError::ObjectWithoutValidation));
    assert_eq!(
        infer(vec![struct_schema(vec![("data", reference("Foo"))], vec![])]),
        Err(SchemaError::NoDiscriminator)
    );
    assert_eq!(
        infer(vec![tagged("type", "a", Some(("data", reference("Foo")))), tagged("kind", "b", None)]),
        Err(SchemaError::DiscriminatorMismatch)
    );
    assert_eq!(
        infer(vec![
            tagged("type", "a", Some(("data", reference("Foo")))),
            tagged("type", "b", Some(("payload", reference("Bar")))),
        ]),
        Err(SchemaError::ContentFieldMismatch)
    );
    assert_eq!(
        infer(vec![tagged("type", "a", Some(("data", typed(InstanceType::String))))]),
        Err(SchemaError::NoContent)
    );
    assert_eq!(
        infer(vec![struct_schema(
            vec![("type", constant("a")), ("data", reference("Foo")), ("more", reference("Bar"))],
            vec![]
        )]),
        Err(SchemaError::VariantPropertyCount)
    );
    let mut number_tag = typed(InstanceType::Integer);
    number_tag.enum_values = Some(vec![JsonValue::Number(JsonNumber::PosInt(1))]);
    assert_eq!(
        infer(vec![struct_schema(vec![("type", number_tag)], vec![])]),
        Err(SchemaError::DiscriminatorNotString)
    );
    let mut foreign = SchemaObject::empty();
    foreign.reference = Some("#/elsewhere/Foo".to_string());
    assert_eq!(
        infer(vec![tagged("type", "a", Some(("data", foreign)))]),
        Err(SchemaError::ForeignReference)
    );
}

fn pool_of(schemas: Vec<(&str, Schema)>) -> SchemaPool {
    let mut pool: SchemaPool = IndexMap::new();
    for (name, schema) in schemas {
        pool.insert(name.to_string(), schema);
    }
    pool
}

fn type_names(graph: &TypeGraph) -> Vec<String> {
    (0..graph.types.len()).map(|i| graph.types.key_at(i).to_string()).collect()
}

#[test]
fn closure_follows_references_through_cycles() {
    let a = struct_schema(vec![("b", reference("B"))], vec![]);
    let b = struct_schema(vec![("c", reference("C")), ("a", reference("A"))], vec![]);
    let c = struct_schema(vec![("a", reference("A")), ("d", reference("Data"))], vec![]);
    let unused = struct_schema(vec![], vec![]);
    let mut pool = pool_of(vec![
        ("C", Schema::Object(c)),
        ("Unused", Schema::Object(unused)),
        ("A", Schema::Object(a)),
        ("B", Schema::Object(b)),
        ("Data", Schema::Object(struct_schema(vec![], vec![]))),
    ]);
    let graph = TypeGraph::close_over(&mut pool, names(&["B"]));
    assert_eq!(type_names(&graph), vec!["A", "B", "C"]);
    assert_eq!(graph.skipped.len(), 0);
    let mut left: Vec<&str> = pool.keys().map(|k| k.as_str()).collect();
    left.sort();
    assert_eq!(left, vec!["Data", "Unused"]);
    assert_eq!(graph.types.get("A").unwrap().name, "A");
}

#[test]
fn closure_is_the_same_on_every_run() {
    let build = || {
        let mut pool = pool_of(vec![
            ("Event", Schema::Object(union_example())),
            ("Foo", Schema::Object(struct_schema(vec![("bar", reference("Bar"))], vec![]))),
            ("Bar", Schema::Object(typed(InstanceType::Boolean))),
        ]);
        let graph = TypeGraph::close_over(&mut pool, names(&["Event", "Missing"]));
        let types: Vec<(String, String)> = (0..graph.types.len())
            .map(|i| (graph.types.key_at(i).to_string(), format!("{:?}", graph.types.value_at(i))))
            .collect();
        let skipped: Vec<(String, SkipReason)> = (0..graph.skipped.len())
            .map(|i| (graph.skipped.key_at(i).to_string(), *graph.skipped.value_at(i)))
            .collect();
        (types, skipped)
    };
    let (types, skipped) = build();
    assert_eq!(types.iter().map(|t| t.0.as_str()).collect::<Vec<_>>(), vec!["Event", "Foo"]);
    assert_eq!(
        skipped,
        vec![
            ("Bar".to_string(), SkipReason::Unsupported(SchemaError::UnsupportedType)),
            ("Missing".to_string(), SkipReason::NotFound),
        ]
    );
    assert_eq!(build(), (types, skipped));
}

#[test]
fn missing_seed_gives_no_type() {
    let mut pool = pool_of(vec![("Other", Schema::Object(struct_schema(vec![], vec![])))]);
    let graph = TypeGraph::close_over(&mut pool, names(&["Ghost"]));
    assert_eq!(graph.types.len(), 0);
    assert_eq!(graph.skipped.len(), 1);
    assert_eq!(graph.skipped.get("Ghost"), Some(&SkipReason::NotFound));
    assert_eq!(pool.len(), 1);
}

#[test]
fn boolean_component_schema_is_skipped() {
    let mut pool = pool_of(vec![("Anything", Schema::Bool(true))]);
    let graph = TypeGraph::close_over(&mut pool, names(&["Anything", "Data"]));
    assert_eq!(graph.types.len(), 0);
    assert_eq!(graph.skipped.len(), 1);
    assert_eq!(graph.skipped.get("Anything"), Some(&SkipReason::BoolSchema));
    assert!(pool.is_empty());
}
