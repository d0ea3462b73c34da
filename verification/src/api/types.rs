//! From schemas to field types and named types.

use vstd::prelude::*;
use std::sync::Arc;
use crate::api::error::SchemaError;
use crate::api::ir::{
    fields_view, lemma_integer_enum_view, lemma_string_enum_view, lemma_struct_view, named_ints_view,
    Field, FieldType, FieldTypeView, FieldView, Type, TypeData, TypeDataView, TypeView,
};
use crate::api::struct_enum::struct_enum_of;
use crate::api::{get_schema_name, schema_name_of};
use crate::json::{
    duplicate_opt_json, duplicate_opt_string, find_member, json_bool, json_i64, json_text, member_value,
    members_view, opt_json_view, opt_text, values_view, JsonValue, JsonView,
};
use crate::schema::{
    contains_name, names_contain, ArrayItems, InstanceType, ObjectValidation, Property, Schema, SchemaObject,
    SchemaTypes, SubschemaValidation,
};
use crate::text::{str_eq, texts};

verus! {

/// The sized integer type that an integer `format` names.
pub open spec fn integer_format_type(format: Option<Seq<char>>) -> Option<FieldTypeView> {
    match format {
        Some(f) => if f == "int16"@ {
            Some(FieldTypeView::Int16)
        } else if f == "uint16"@ {
            Some(FieldTypeView::UInt16)
        } else if f == "int32"@ {
            Some(FieldTypeView::Int32)
        } else if f == "uint32"@ {
            Some(FieldTypeView::UInt32)
        } else if f == "int"@ || f == "int64"@ {
            Some(FieldTypeView::Int64)
        } else if f == "uint"@ || f == "uint64"@ {
            Some(FieldTypeView::UInt64)
        } else {
            None
        },
        None => None,
    }
}

/// The field type of a string with the given `format`.
pub open spec fn string_format_type(format: Option<Seq<char>>) -> Option<FieldTypeView> {
    match format {
        None => Some(FieldTypeView::String),
        Some(f) => if f == "color"@ || f == "email"@ {
            Some(FieldTypeView::String)
        } else if f == "date-time"@ {
            Some(FieldTypeView::DateTime)
        } else if f == "uri"@ {
            Some(FieldTypeView::Uri)
        } else {
            None
        },
    }
}

/// The constant that a string schema fixes by `const` or by a one-valued
/// `enum`: `None` where it has neither keyword.
pub open spec fn string_constant(obj: SchemaObject) -> Option<Result<Seq<char>, SchemaError>> {
    match obj.const_value {
        Some(v) => Some(
            match json_text(v@) {
                Some(s) => Ok(s),
                None => Err(SchemaError::NonStringConst),
            },
        ),
        None => match obj.enum_values {
            Some(values) => Some(
                if values.len() != 1 {
                    Err(SchemaError::EnumAsFieldType)
                } else {
                    match json_text(values[0]@) {
                        Some(s) => Ok(s),
                        None => Err(SchemaError::NonStringConst),
                    }
                },
            ),
            None => None,
        },
    }
}

/// `t`, unless the schema carries a `const` or an `enum`.
pub open spec fn without_constants(obj: SchemaObject, t: FieldTypeView) -> Result<FieldTypeView, SchemaError> {
    if obj.const_value is Some {
        Err(SchemaError::ConstValue)
    } else if obj.enum_values is Some {
        Err(SchemaError::EnumValues)
    } else {
        Ok(t)
    }
}

/// The field type that a schema object describes.
pub open spec fn field_type_of(obj: SchemaObject) -> Result<FieldTypeView, SchemaError>
    decreases obj,
{
    match obj.instance_type {
        Some(SchemaTypes::Single(ty)) => match ty {
            InstanceType::Boolean => without_constants(obj, FieldTypeView::Bool),
            InstanceType::Integer => match integer_format_type(opt_text(obj.format)) {
                Some(t) => without_constants(obj, t),
                None => Err(SchemaError::UnsupportedIntegerFormat),
            },
            InstanceType::String => match string_constant(obj) {
                Some(Ok(value)) => Ok(FieldTypeView::StringConst { value }),
                Some(Err(e)) => Err(e),
                None => match string_format_type(opt_text(obj.format)) {
                    Some(t) => Ok(t),
                    None => Err(SchemaError::UnsupportedStringFormat),
                },
            },
            InstanceType::Array => match obj.array {
                None => Err(SchemaError::ArrayWithoutProps),
                Some(array) => if array.additional_items is Some {
                    Err(SchemaError::AdditionalItems)
                } else {
                    match array.items {
                        None => Err(SchemaError::ArrayWithoutItems),
                        Some(ArrayItems::Multiple(_)) => Err(SchemaError::MultiTypedArray),
                        Some(ArrayItems::Single(item)) => match *item {
                            Schema::Bool(_) => Err(SchemaError::BoolSchema),
                            Schema::Object(o) => match field_type_of(o) {
                                Err(e) => Err(e),
                                Ok(inner) => without_constants(
                                    obj,
                                    if array.unique_items == Some(true) {
                                        FieldTypeView::SetOf { inner: Box::new(inner) }
                                    } else {
                                        FieldTypeView::List { inner: Box::new(inner) }
                                    },
                                ),
                            },
                        },
                    }
                },
            },
            InstanceType::Object => match obj.object {
                None => Err(SchemaError::ObjectWithoutValidation),
                Some(object) => match object.additional_properties {
                    None => Err(SchemaError::ObjectWithoutAdditionalProperties),
                    Some(additional) => if object.max_properties is Some {
                        Err(SchemaError::MaxProperties)
                    } else if object.min_properties is Some {
                        Err(SchemaError::MinProperties)
                    } else if object.properties@.len() != 0 {
                        Err(SchemaError::PropertiesOnFieldType)
                    } else if object.pattern_properties@.len() != 0 {
                        Err(SchemaError::PatternProperties)
                    } else if object.property_names is Some {
                        Err(SchemaError::PropertyNames)
                    } else if object.required@.len() != 0 {
                        Err(SchemaError::RequiredOnFieldType)
                    } else {
                        match *additional {
                            Schema::Bool(true) => without_constants(obj, FieldTypeView::JsonObject),
                            Schema::Bool(false) => Err(SchemaError::AdditionalPropertiesFalse),
                            Schema::Object(o) => match field_type_of(o) {
                                Err(e) => Err(e),
                                Ok(value_ty) => without_constants(
                                    obj,
                                    FieldTypeView::MapOf { value_ty: Box::new(value_ty) },
                                ),
                            },
                        }
                    },
                },
            },
            _ => Err(SchemaError::UnsupportedType),
        },
        Some(SchemaTypes::Multiple(_)) => Err(SchemaError::MultipleTypes),
        None => match schema_name_of(opt_text(obj.reference)) {
            Some(name) => without_constants(obj, FieldTypeView::SchemaRef { name, inner: None }),
            None => Err(SchemaError::TypelessParameter),
        },
    }
}

/// The field type that a schema describes.
pub open spec fn field_type_of_schema(s: Schema) -> Result<FieldTypeView, SchemaError> {
    match s {
        Schema::Bool(_) => Err(SchemaError::BoolSchema),
        Schema::Object(o) => field_type_of(o),
    }
}

/// The model of a conversion's outcome.
pub open spec fn field_type_result_view(r: Result<FieldType, SchemaError>) -> Result<FieldTypeView, SchemaError> {
    match r {
        Ok(t) => Ok(t@),
        Err(e) => Err(e),
    }
}

fn integer_type_for(format: &Option<String>) -> (r: Option<FieldType>)
    ensures
        match r {
            Some(t) => integer_format_type(opt_text(*format)) == Some(t@),
            None => integer_format_type(opt_text(*format)) is None,
        },
{
    match format {
        Some(f) => {
            let f = f.as_str();
            if str_eq(f, "int16") {
                Some(FieldType::Int16)
            } else if str_eq(f, "uint16") {
                Some(FieldType::UInt16)
            } else if str_eq(f, "int32") {
                Some(FieldType::Int32)
            } else if str_eq(f, "uint32") {
                Some(FieldType::UInt32)
            } else if str_eq(f, "int") || str_eq(f, "int64") {
                Some(FieldType::Int64)
            } else if str_eq(f, "uint") || str_eq(f, "uint64") {
                Some(FieldType::UInt64)
            } else {
                None
            }
        },
        None => None,
    }
}

fn string_type_for(format: &Option<String>) -> (r: Option<FieldType>)
    ensures
        match r {
            Some(t) => string_format_type(opt_text(*format)) == Some(t@),
            None => string_format_type(opt_text(*format)) is None,
        },
{
    match format {
        None => Some(FieldType::String),
        Some(f) => {
            let f = f.as_str();
            if str_eq(f, "color") || str_eq(f, "email") {
                Some(FieldType::String)
            } else if str_eq(f, "date-time") {
                Some(FieldType::DateTime)
            } else if str_eq(f, "uri") {
                Some(FieldType::Uri)
            } else {
                None
            }
        },
    }
}

fn string_constant_of(obj: &SchemaObject) -> (r: Option<Result<String, SchemaError>>)
    ensures
        match r {
            Some(Ok(s)) => string_constant(*obj) == Some(Ok::<Seq<char>, SchemaError>(s@)),
            Some(Err(e)) => string_constant(*obj) == Some(Err::<Seq<char>, SchemaError>(e)),
            None => string_constant(*obj) is None,
        },
{
    match &obj.const_value {
        Some(v) => match v.as_str() {
            Some(s) => Some(Ok(s.to_owned())),
            None => Some(Err(SchemaError::NonStringConst)),
        },
        None => match &obj.enum_values {
            Some(values) => {
                if values.len() != 1 {
                    Some(Err(SchemaError::EnumAsFieldType))
                } else {
                    match values[0].as_str() {
                        Some(s) => Some(Ok(s.to_owned())),
                        None => Some(Err(SchemaError::NonStringConst)),
                    }
                }
            },
            None => None,
        },
    }
}

fn check_without_constants(obj: &SchemaObject, t: FieldType) -> (r: Result<FieldType, SchemaError>)
    ensures
        field_type_result_view(r) == without_constants(*obj, t@),
{
    if obj.const_value.is_some() {
        Err(SchemaError::ConstValue)
    } else if obj.enum_values.is_some() {
        Err(SchemaError::EnumValues)
    } else {
        Ok(t)
    }
}

impl FieldType {
    /// The field type that a schema describes.
    pub fn from_schema(s: &Schema) -> (r: Result<FieldType, SchemaError>)
        ensures
            field_type_result_view(r) == field_type_of_schema(*s),
    {
        match s {
            Schema::Bool(_) => Err(SchemaError::BoolSchema),
            Schema::Object(obj) => FieldType::from_schema_object(obj),
        }
    }

    /// The field type that a schema object describes.
    pub fn from_schema_object(obj: &SchemaObject) -> (r: Result<FieldType, SchemaError>)
        ensures
            field_type_result_view(r) == field_type_of(*obj),
        decreases *obj,
    {
        match &obj.instance_type {
            Some(SchemaTypes::Single(ty)) => match ty {
                InstanceType::Boolean => check_without_constants(obj, FieldType::Bool),
                InstanceType::Integer => match integer_type_for(&obj.format) {
                    Some(t) => check_without_constants(obj, t),
                    None => Err(SchemaError::UnsupportedIntegerFormat),
                },
                InstanceType::String => match string_constant_of(obj) {
                    Some(Ok(value)) => Ok(FieldType::StringConst { value }),
                    Some(Err(e)) => Err(e),
                    None => match string_type_for(&obj.format) {
                        Some(t) => Ok(t),
                        None => Err(SchemaError::UnsupportedStringFormat),
                    },
                },
                InstanceType::Array => match &obj.array {
                    None => Err(SchemaError::ArrayWithoutProps),
                    Some(array) => {
                        if array.additional_items.is_some() {
                            return Err(SchemaError::AdditionalItems);
                        }
                        match &array.items {
                            None => Err(SchemaError::ArrayWithoutItems),
                            Some(ArrayItems::Multiple(_)) => Err(SchemaError::MultiTypedArray),
                            Some(ArrayItems::Single(item)) => match &**item {
                                Schema::Bool(_) => Err(SchemaError::BoolSchema),
                                Schema::Object(o) => match FieldType::from_schema_object(o) {
                                    Err(e) => Err(e),
                                    Ok(inner) => {
                                        let unique = match array.unique_items {
                                            Some(true) => true,
                                            _ => false,
                                        };
                                        if unique {
                                            check_without_constants(
                                                obj,
                                                FieldType::SetOf { inner: Arc::new(inner) },
                                            )
                                        } else {
                                            check_without_constants(
                                                obj,
                                                FieldType::List { inner: Arc::new(inner) },
                                            )
                                        }
                                    },
                                },
                            },
                        }
                    },
                },
                InstanceType::Object => match &obj.object {
                    None => Err(SchemaError::ObjectWithoutValidation),
                    Some(object) => match &object.additional_properties {
                        None => Err(SchemaError::ObjectWithoutAdditionalProperties),
                        Some(additional) => {
                            if object.max_properties.is_some() {
                                Err(SchemaError::MaxProperties)
                            } else if object.min_properties.is_some() {
                                Err(SchemaError::MinProperties)
                            } else if object.properties.len() != 0 {
                                Err(SchemaError::PropertiesOnFieldType)
                            } else if object.pattern_properties.len() != 0 {
                                Err(SchemaError::PatternProperties)
                            } else if object.property_names.is_some() {
                                Err(SchemaError::PropertyNames)
                            } else if object.required.len() != 0 {
                                Err(SchemaError::RequiredOnFieldType)
                            } else {
                                match &**additional {
                                    Schema::Bool(true) => check_without_constants(
                                        obj,
                                        FieldType::JsonObject,
                                    ),
                                    Schema::Bool(false) => Err(
                                        SchemaError::AdditionalPropertiesFalse,
                                    ),
                                    Schema::Object(o) => match FieldType::from_schema_object(o) {
                                        Err(e) => Err(e),
                                        Ok(value_ty) => check_without_constants(
                                            obj,
                                            FieldType::MapOf { value_ty: Arc::new(value_ty) },
                                        ),
                                    },
                                }
                            }
                        },
                    },
                },
                _ => Err(SchemaError::UnsupportedType),
            },
            Some(SchemaTypes::Multiple(_)) => Err(SchemaError::MultipleTypes),
            None => {
                let reference = match &obj.reference {
                    Some(r) => Some(r.as_str()),
                    None => None,
                };
                match get_schema_name(reference) {
                    Some(name) => check_without_constants(
                        obj,
                        FieldType::SchemaRef { name, inner: None },
                    ),
                    None => Err(SchemaError::TypelessParameter),
                }
            },
        }
    }
}

/// What stands in a box, if anything does.
pub open spec fn unboxed<T>(b: Option<Box<T>>) -> Option<T> {
    match b {
        Some(x) => Some(*x),
        None => None,
    }
}

/// The description that a schema's annotations give.
pub open spec fn description_of(obj: SchemaObject) -> Option<Seq<char>> {
    match obj.metadata {
        Some(m) => opt_text(m.description),
        None => None,
    }
}

/// Whether a schema's annotations mark it as deprecated.
pub open spec fn deprecated_of(obj: SchemaObject) -> bool {
    match obj.metadata {
        Some(m) => m.deprecated,
        None => false,
    }
}

/// The default value that a schema's annotations give.
pub open spec fn default_of(obj: SchemaObject) -> Option<JsonView> {
    match obj.metadata {
        Some(m) => opt_json_view(m.default),
        None => None,
    }
}

/// Whether the `nullable` extension of a schema is the boolean `true`.
pub open spec fn nullable_of(obj: SchemaObject) -> bool {
    match member_value(members_view(obj.extensions@), "nullable"@) {
        Some(v) => match json_bool(v) {
            Some(b) => b,
            None => false,
        },
        None => false,
    }
}

/// The field that a property schema describes.
pub open spec fn field_of(name: Seq<char>, s: Schema, required: bool) -> Result<FieldView, SchemaError> {
    match s {
        Schema::Bool(_) => Err(SchemaError::BoolSchema),
        Schema::Object(obj) => match field_type_of(obj) {
            Err(e) => Err(e),
            Ok(ty) => Ok(
                FieldView {
                    name,
                    ty,
                    default: default_of(obj),
                    description: description_of(obj),
                    required,
                    nullable: nullable_of(obj),
                    deprecated: deprecated_of(obj),
                    example: member_value(members_view(obj.extensions@), "example"@),
                },
            ),
        },
    }
}

/// The fields of the first `n` properties, or the error of the first
/// property among them that has one.
pub open spec fn fields_upto(props: Seq<Property>, required: Seq<String>, n: nat) -> Result<
    Seq<FieldView>,
    SchemaError,
>
    decreases n,
{
    if n == 0 {
        Ok(Seq::empty())
    } else {
        match fields_upto(props, required, (n - 1) as nat) {
            Err(e) => Err(e),
            Ok(fields) => match field_of(
                props[n - 1].name@,
                props[n - 1].schema,
                names_contain(required, props[n - 1].name@),
            ) {
                Err(e) => Err(e),
                Ok(f) => Ok(fields.push(f)),
            },
        }
    }
}

/// The fields of a struct given by object keywords; no keywords, no fields.
pub open spec fn struct_fields_of(obj: Option<ObjectValidation>) -> Result<Seq<FieldView>, SchemaError> {
    match obj {
        None => Ok(Seq::empty()),
        Some(o) => if o.additional_properties is Some {
            Err(SchemaError::AdditionalProperties)
        } else if o.max_properties is Some {
            Err(SchemaError::MaxProperties)
        } else if o.min_properties is Some {
            Err(SchemaError::MinProperties)
        } else if o.pattern_properties@.len() != 0 {
            Err(SchemaError::PatternProperties)
        } else if o.property_names is Some {
            Err(SchemaError::PropertyNames)
        } else {
            fields_upto(o.properties@, o.required@, o.properties@.len())
        },
    }
}

/// The first of the combining keywords, other than `oneOf`, that is set.
pub open spec fn unsupported_subschema(sub: SubschemaValidation) -> Option<SchemaError> {
    if sub.all_of is Some {
        Some(SchemaError::AllOf)
    } else if sub.any_of is Some {
        Some(SchemaError::AnyOf)
    } else if sub.not is Some {
        Some(SchemaError::Not)
    } else if sub.if_schema is Some {
        Some(SchemaError::If)
    } else if sub.then_schema is Some {
        Some(SchemaError::Then)
    } else if sub.else_schema is Some {
        Some(SchemaError::Else)
    } else {
        None
    }
}

/// The data of an object type: a struct, or with `oneOf` a struct enum.
pub open spec fn object_type_data(obj: Option<ObjectValidation>, sub: Option<SubschemaValidation>) -> Result<
    TypeDataView,
    SchemaError,
> {
    match struct_fields_of(obj) {
        Err(e) => Err(e),
        Ok(fields) => match sub {
            None => Ok(TypeDataView::Struct { fields }),
            Some(s) => match unsupported_subschema(s) {
                Some(e) => Err(e),
                None => match s.one_of {
                    Some(one_of) => struct_enum_of(one_of@, fields),
                    None => Ok(TypeDataView::Struct { fields }),
                },
            },
        },
    }
}

/// The first `n` values of a string enum.
pub open spec fn string_enum_upto(values: Seq<JsonView>, n: nat) -> Result<Seq<Seq<char>>, SchemaError>
    decreases n,
{
    if n == 0 {
        Ok(Seq::empty())
    } else {
        match string_enum_upto(values, (n - 1) as nat) {
            Err(e) => Err(e),
            Ok(out) => match json_text(values[n - 1]) {
                Some(s) => Ok(out.push(s)),
                None => Err(SchemaError::EnumValueNotString),
            },
        }
    }
}

/// One variant of an integer enum: the name at the value's position, and
/// the value.
pub open spec fn integer_variant(value: JsonView, name: JsonView) -> Result<(Seq<char>, i64), SchemaError> {
    match value {
        JsonView::Number(_) => match json_i64(value) {
            None => Err(SchemaError::EnumValueNotInteger),
            Some(k) => match json_text(name) {
                None => Err(SchemaError::EnumVarnameNotString),
                Some(n) => Ok((n, k)),
            },
        },
        _ => Err(SchemaError::EnumValueNotNumber),
    }
}

/// The first `n` variants of an integer enum.
pub open spec fn integer_enum_upto(values: Seq<JsonView>, names: Seq<JsonView>, n: nat) -> Result<
    Seq<(Seq<char>, i64)>,
    SchemaError,
>
    decreases n,
{
    if n == 0 {
        Ok(Seq::empty())
    } else {
        match integer_enum_upto(values, names, (n - 1) as nat) {
            Err(e) => Err(e),
            Ok(out) => match integer_variant(values[n - 1], names[n - 1]) {
                Err(e) => Err(e),
                Ok(v) => Ok(out.push(v)),
            },
        }
    }
}

/// The data of an integer enum type.
pub open spec fn integer_type_data(s: SchemaObject) -> Result<TypeDataView, SchemaError> {
    match member_value(members_view(s.extensions@), "x-enum-varnames"@) {
        None => Err(SchemaError::IntegerWithoutVarnames),
        Some(JsonView::Array(names)) => match s.enum_values {
            None => Err(SchemaError::IntegerWithoutEnumValues),
            Some(values) => if names.len() != values@.len() {
                Err(SchemaError::VarnamesLengthMismatch)
            } else {
                match integer_enum_upto(values_view(values@), names, names.len()) {
                    Err(e) => Err(e),
                    Ok(variants) => Ok(TypeDataView::IntegerEnum { variants }),
                }
            },
        },
        Some(_) => Err(SchemaError::VarnamesNotList),
    }
}

/// The data of the named type that a schema object describes.
pub open spec fn type_data_of(s: SchemaObject) -> Result<TypeDataView, SchemaError> {
    match s.instance_type {
        Some(SchemaTypes::Single(ty)) => match ty {
            InstanceType::Object => object_type_data(unboxed(s.object), unboxed(s.subschemas)),
            InstanceType::Integer => integer_type_data(s),
            InstanceType::String => match s.enum_values {
                None => Err(SchemaError::StringWithoutEnumValues),
                Some(values) => match string_enum_upto(values_view(values@), values@.len()) {
                    Err(e) => Err(e),
                    Ok(values) => Ok(TypeDataView::StringEnum { values }),
                },
            },
            _ => Err(SchemaError::UnsupportedType),
        },
        Some(SchemaTypes::Multiple(_)) => Err(SchemaError::MultipleTypes),
        None => Err(SchemaError::NoType),
    }
}

/// The named type that a schema object describes.
pub open spec fn type_of(name: Seq<char>, s: SchemaObject) -> Result<TypeView, SchemaError> {
    match type_data_of(s) {
        Err(e) => Err(e),
        Ok(data) => Ok(
            TypeView { name, description: description_of(s), deprecated: deprecated_of(s), data },
        ),
    }
}

impl Field {
    /// The field named `name` that a property schema describes.
    pub fn from_schema(name: String, s: &Schema, required: bool) -> (r: Result<Field, SchemaError>)
        ensures
            match r {
                Ok(f) => field_of(name@, *s, required) == Ok::<FieldView, SchemaError>(f@),
                Err(e) => field_of(name@, *s, required) == Err::<FieldView, SchemaError>(e),
            },
    {
        let obj = match s {
            Schema::Bool(_) => {
                return Err(SchemaError::BoolSchema);
            },
            Schema::Object(o) => o,
        };
        let example = match find_member(&obj.extensions, "example") {
            Some(v) => Some(v.duplicate()),
            None => None,
        };
        let nullable = match find_member(&obj.extensions, "nullable") {
            Some(v) => match v.as_bool() {
                Some(b) => b,
                None => false,
            },
            None => false,
        };
        let ty = match FieldType::from_schema_object(obj) {
            Ok(t) => t,
            Err(e) => {
                return Err(e);
            },
        };
        let (default, description, deprecated) = match &obj.metadata {
            Some(m) => (duplicate_opt_json(&m.default), duplicate_opt_string(&m.description), m.deprecated),
            None => (None, None, false),
        };
        Ok(Field { name, ty, default, description, required, nullable, deprecated, example })
    }
}

/// The fields of a struct given by object keywords.
#[verifier::loop_isolation(false)]
pub fn struct_fields(obj: &ObjectValidation) -> (r: Result<Vec<Field>, SchemaError>)
    ensures
        match r {
            Ok(fields) => struct_fields_of(Some(*obj)) == Ok::<Seq<FieldView>, SchemaError>(
                fields_view(fields@),
            ),
            Err(e) => struct_fields_of(Some(*obj)) == Err::<Seq<FieldView>, SchemaError>(e),
        },
{
    if obj.additional_properties.is_some() {
        return Err(SchemaError::AdditionalProperties);
    }
    if obj.max_properties.is_some() {
        return Err(SchemaError::MaxProperties);
    }
    if obj.min_properties.is_some() {
        return Err(SchemaError::MinProperties);
    }
    if obj.pattern_properties.len() != 0 {
        return Err(SchemaError::PatternProperties);
    }
    if obj.property_names.is_some() {
        return Err(SchemaError::PropertyNames);
    }
    let mut fields: Vec<Field> = Vec::new();
    let mut i: usize = 0;
    assert(fields_view(fields@) =~= Seq::<FieldView>::empty());
    while i < obj.properties.len()
        invariant
            i <= obj.properties.len(),
            fields_upto(obj.properties@, obj.required@, i as nat) == Ok::<Seq<FieldView>, SchemaError>(
                fields_view(fields@),
            ),
        decreases obj.properties.len() - i,
    {
        let p = &obj.properties[i];
        let required = contains_name(&obj.required, p.name.as_str());
        match Field::from_schema(p.name.clone(), &p.schema, required) {
            Ok(f) => {
                proof {
                    assert(fields_view(fields@.push(f)) =~= fields_view(fields@).push(f@));
                }
                fields.push(f);
            },
            Err(e) => {
                proof {
                    lemma_fields_error_stays(
                        obj.properties@,
                        obj.required@,
                        (i + 1) as nat,
                        obj.properties@.len(),
                    );
                }
                return Err(e);
            },
        }
        i += 1;
    }
    Ok(fields)
}

/// Once a property has failed, every longer prefix fails the same way.
pub proof fn lemma_fields_error_stays(props: Seq<Property>, required: Seq<String>, n: nat, m: nat)
    requires
        n <= m,
        fields_upto(props, required, n) is Err,
    ensures
        fields_upto(props, required, m) == fields_upto(props, required, n),
    decreases m - n,
{
    if n < m {
        lemma_fields_error_stays(props, required, n, (m - 1) as nat);
    }
}

/// Once a value has failed, every longer prefix fails the same way.
pub proof fn lemma_string_enum_error_stays(values: Seq<JsonView>, n: nat, m: nat)
    requires
        n <= m,
        string_enum_upto(values, n) is Err,
    ensures
        string_enum_upto(values, m) == string_enum_upto(values, n),
    decreases m - n,
{
    if n < m {
        lemma_string_enum_error_stays(values, n, (m - 1) as nat);
    }
}

/// Once a variant has failed, every longer prefix fails the same way.
pub proof fn lemma_integer_enum_error_stays(values: Seq<JsonView>, names: Seq<JsonView>, n: nat, m: nat)
    requires
        n <= m,
        integer_enum_upto(values, names, n) is Err,
    ensures
        integer_enum_upto(values, names, m) == integer_enum_upto(values, names, n),
    decreases m - n,
{
    if n < m {
        lemma_integer_enum_error_stays(values, names, n, (m - 1) as nat);
    }
}

impl TypeData {
    /// The data of an object type: a struct, or with `oneOf` a struct enum.
    pub fn from_object_schema(obj: Option<&ObjectValidation>, subschemas: Option<&SubschemaValidation>) -> (r:
        Result<TypeData, SchemaError>)
        ensures
            match r {
                Ok(data) => object_type_data(
                    match obj {
                        Some(o) => Some(*o),
                        None => None,
                    },
                    match subschemas {
                        Some(s) => Some(*s),
                        None => None,
                    },
                ) == Ok::<TypeDataView, SchemaError>(data@),
                Err(e) => object_type_data(
                    match obj {
                        Some(o) => Some(*o),
                        None => None,
                    },
                    match subschemas {
                        Some(s) => Some(*s),
                        None => None,
                    },
                ) == Err::<TypeDataView, SchemaError>(e),
            },
    {
        let fields = match obj {
            Some(o) => match struct_fields(o) {
                Ok(fields) => fields,
                Err(e) => {
                    return Err(e);
                },
            },
            None => {
                let fields: Vec<Field> = Vec::new();
                assert(fields_view(fields@) =~= Seq::<FieldView>::empty());
                fields
            },
        };
        if let Some(sub) = subschemas {
            if sub.all_of.is_some() {
                return Err(SchemaError::AllOf);
            }
            if sub.any_of.is_some() {
                return Err(SchemaError::AnyOf);
            }
            if sub.not.is_some() {
                return Err(SchemaError::Not);
            }
            if sub.if_schema.is_some() {
                return Err(SchemaError::If);
            }
            if sub.then_schema.is_some() {
                return Err(SchemaError::Then);
            }
            if sub.else_schema.is_some() {
                return Err(SchemaError::Else);
            }
            if let Some(one_of) = &sub.one_of {
                return TypeData::inline_struct_enum(one_of, fields);
            }
        }
        proof {
            lemma_struct_view(fields);
        }
        Ok(TypeData::Struct { fields })
    }

    /// The data of a string enum with the given values.
    pub fn from_string_enum(values: &Vec<JsonValue>) -> (r: Result<TypeData, SchemaError>)
        ensures
            match r {
                Ok(data) => string_enum_upto(values_view(values@), values@.len()) is Ok && data@
                    == (TypeDataView::StringEnum {
                    values: string_enum_upto(values_view(values@), values@.len())->Ok_0,
                }),
                Err(e) => string_enum_upto(values_view(values@), values@.len()) == Err::<
                    Seq<Seq<char>>,
                    SchemaError,
                >(e),
            },
    {
        let mut out: Vec<String> = Vec::new();
        let mut i: usize = 0;
        assert(texts(out@) =~= Seq::<Seq<char>>::empty());
        while i < values.len()
            invariant
                i <= values.len(),
                string_enum_upto(values_view(values@), i as nat) == Ok::<Seq<Seq<char>>, SchemaError>(
                    texts(out@),
                ),
            decreases values.len() - i,
        {
            match values[i].as_str() {
                Some(s) => {
                    let owned = s.to_owned();
                    proof {
                        assert(texts(out@.push(owned)) =~= texts(out@).push(owned@));
                    }
                    out.push(owned);
                },
                None => {
                    proof {
                        lemma_string_enum_error_stays(
                            values_view(values@),
                            (i + 1) as nat,
                            values@.len(),
                        );
                    }
                    return Err(SchemaError::EnumValueNotString);
                },
            }
            i += 1;
        }
        proof {
            lemma_string_enum_view(out);
        }
        Ok(TypeData::StringEnum { values: out })
    }

    /// The data of an integer enum with the given values, named by the
    /// entries of `enum_varnames` at the same positions.
    pub fn from_integer_enum(values: &Vec<JsonValue>, enum_varnames: &Vec<JsonValue>) -> (r: Result<
        TypeData,
        SchemaError,
    >)
        requires
            enum_varnames@.len() == values@.len(),
        ensures
            match r {
                Ok(data) => integer_enum_upto(
                    values_view(values@),
                    values_view(enum_varnames@),
                    values@.len(),
                ) is Ok && data@ == (TypeDataView::IntegerEnum {
                    variants: integer_enum_upto(
                        values_view(values@),
                        values_view(enum_varnames@),
                        values@.len(),
                    )->Ok_0,
                }),
                Err(e) => integer_enum_upto(
                    values_view(values@),
                    values_view(enum_varnames@),
                    values@.len(),
                ) == Err::<Seq<(Seq<char>, i64)>, SchemaError>(e),
            },
    {
        let mut out: Vec<(String, i64)> = Vec::new();
        let mut i: usize = 0;
        assert(named_ints_view(out@) =~= Seq::<(Seq<char>, i64)>::empty());
        while i < values.len()
            invariant
                i <= values.len(),
                enum_varnames@.len() == values@.len(),
                integer_enum_upto(values_view(values@), values_view(enum_varnames@), i as nat) == Ok::<
                    Seq<(Seq<char>, i64)>,
                    SchemaError,
                >(named_ints_view(out@)),
            decreases values.len() - i,
        {
            let ghost vs = values_view(values@);
            let ghost ns = values_view(enum_varnames@);
            let outcome: Result<(String, i64), SchemaError> = match &values[i] {
                JsonValue::Number(num) => match num.as_i64() {
                    None => Err(SchemaError::EnumValueNotInteger),
                    Some(k) => match enum_varnames[i].as_str() {
                        None => Err(SchemaError::EnumVarnameNotString),
                        Some(n) => Ok((n.to_owned(), k)),
                    },
                },
                _ => Err(SchemaError::EnumValueNotNumber),
            };
            match outcome {
                Ok(v) => {
                    proof {
                        assert(integer_variant(vs[i as int], ns[i as int]) == Ok::<
                            (Seq<char>, i64),
                            SchemaError,
                        >((v.0@, v.1)));
                        assert(named_ints_view(out@.push(v)) =~= named_ints_view(out@).push((v.0@, v.1)));
                    }
                    out.push(v);
                },
                Err(e) => {
                    proof {
                        assert(integer_variant(vs[i as int], ns[i as int]) == Err::<
                            (Seq<char>, i64),
                            SchemaError,
                        >(e));
                        lemma_integer_enum_error_stays(vs, ns, (i + 1) as nat, values@.len());
                    }
                    return Err(e);
                },
            }
            i += 1;
        }
        proof {
            lemma_integer_enum_view(out);
        }
        Ok(TypeData::IntegerEnum { variants: out })
    }
}

impl Type {
    /// The type named `name` that a schema object describes.
    pub fn from_schema(name: String, s: &SchemaObject) -> (r: Result<Type, SchemaError>)
        ensures
            match r {
                Ok(t) => type_of(name@, *s) == Ok::<TypeView, SchemaError>(t@),
                Err(e) => type_of(name@, *s) == Err::<TypeView, SchemaError>(e),
            },
    {
        let outcome = match &s.instance_type {
            Some(SchemaTypes::Single(ty)) => match ty {
                InstanceType::Object => {
                    let obj: Option<&ObjectValidation> = match &s.object {
                        Some(o) => Some(&**o),
                        None => None,
                    };
                    let sub: Option<&SubschemaValidation> = match &s.subschemas {
                        Some(x) => Some(&**x),
                        None => None,
                    };
                    TypeData::from_object_schema(obj, sub)
                },
                InstanceType::Integer => {
                    match find_member(&s.extensions, "x-enum-varnames") {
                        None => Err(SchemaError::IntegerWithoutVarnames),
                        Some(v) => match v.as_array() {
                            None => Err(SchemaError::VarnamesNotList),
                            Some(names) => match &s.enum_values {
                                None => Err(SchemaError::IntegerWithoutEnumValues),
                                Some(values) => {
                                    if names.len() != values.len() {
                                        Err(SchemaError::VarnamesLengthMismatch)
                                    } else {
                                        TypeData::from_integer_enum(values, names)
                                    }
                                },
                            },
                        },
                    }
                },
                InstanceType::String => match &s.enum_values {
                    None => Err(SchemaError::StringWithoutEnumValues),
                    Some(values) => TypeData::from_string_enum(values),
                },
                _ => Err(SchemaError::UnsupportedType),
            },
            Some(SchemaTypes::Multiple(_)) => Err(SchemaError::MultipleTypes),
            None => Err(SchemaError::NoType),
        };
        let data = match outcome {
            Ok(d) => d,
            Err(e) => {
                return Err(e);
            },
        };
        let (description, deprecated) = match &s.metadata {
            Some(m) => (duplicate_opt_string(&m.description), m.deprecated),
            None => (None, false),
        };
        Ok(Type { name, description, deprecated, data })
    }
}

} // verus!
