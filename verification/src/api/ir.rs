//! The named types of the intermediate representation and their models.

use vstd::prelude::*;
use std::sync::Arc;
use crate::json::{duplicate_opt_json, duplicate_opt_string, opt_json_view, opt_text, JsonValue, JsonView};
use crate::text::texts;

verus! {

/// Supported field type: a scalar, a container, a reference to a named
/// schema, or the string constant that tags a union variant.
#[allow(inconsistent_fields)]
#[derive(Debug, PartialEq)]
pub enum FieldType {
    Bool,
    Int16,
    UInt16,
    Int32,
    UInt32,
    Int64,
    UInt64,
    String,
    DateTime,
    Uri,
    /// A JSON object with arbitrary field values.
    JsonObject,
    /// A regular old list.
    List { inner: Arc<FieldType> },
    /// List with unique items.
    SetOf { inner: Arc<FieldType> },
    /// A map from strings to a given value type.
    MapOf { value_ty: Arc<FieldType> },
    /// The name of another schema that defines this type.
    SchemaRef { name: String, inner: Option<Type> },
    /// A string constant, used as an enum discriminator value.
    StringConst { value: String },
}

/// A named type.
#[derive(Debug, PartialEq)]
pub struct Type {
    pub name: String,
    pub description: Option<String>,
    pub deprecated: bool,
    pub data: TypeData,
}

/// What a named type is made of.
#[derive(Debug, PartialEq)]
pub enum TypeData {
    Struct { fields: Vec<Field> },
    StringEnum { values: Vec<String> },
    IntegerEnum { variants: Vec<(String, i64)> },
    StructEnum {
        /// Name of the field that identifies the variant.
        discriminator_field: String,
        /// JSON representation of the enum variants.
        repr: StructEnumRepr,
        /// Variant-independent fields.
        fields: Vec<Field>,
    },
}

/// How the variants of a struct enum are laid out in JSON.
#[derive(Debug, PartialEq)]
pub enum StructEnumRepr {
    AdjacentlyTagged {
        /// Name of the field that contains the variant-specific fields.
        content_field: String,
        /// Enum variants, each identified by its discriminator value.
        variants: Vec<SimpleVariant>,
    },
}

/// One field of a struct.
#[derive(Debug, PartialEq)]
pub struct Field {
    pub name: String,
    pub ty: FieldType,
    pub default: Option<JsonValue>,
    pub description: Option<String>,
    pub required: bool,
    pub nullable: bool,
    pub deprecated: bool,
    pub example: Option<JsonValue>,
}

/// The payload of one enum variant.
#[derive(Debug, PartialEq)]
pub enum EnumVariantType {
    Struct { fields: Vec<Field> },
    Ref { schema_ref: Option<String>, inner: Option<Type> },
}

/// One variant of a struct enum.
#[derive(Debug, PartialEq)]
pub struct SimpleVariant {
    /// Discriminator value that identifies this variant.
    pub name: String,
    pub content: EnumVariantType,
}

/// The model of a field type: strings are texts, and what a container holds
/// is a model.
#[allow(inconsistent_fields)]
pub enum FieldTypeView {
    Bool,
    Int16,
    UInt16,
    Int32,
    UInt32,
    Int64,
    UInt64,
    String,
    DateTime,
    Uri,
    JsonObject,
    List { inner: Box<FieldTypeView> },
    SetOf { inner: Box<FieldTypeView> },
    MapOf { value_ty: Box<FieldTypeView> },
    SchemaRef { name: Seq<char>, inner: Option<TypeView> },
    StringConst { value: Seq<char> },
}

/// The model of a named type.
pub struct TypeView {
    pub name: Seq<char>,
    pub description: Option<Seq<char>>,
    pub deprecated: bool,
    pub data: TypeDataView,
}

/// The model of what a named type is made of.
pub enum TypeDataView {
    Struct { fields: Seq<FieldView> },
    StringEnum { values: Seq<Seq<char>> },
    IntegerEnum { variants: Seq<(Seq<char>, i64)> },
    StructEnum { discriminator_field: Seq<char>, repr: StructEnumReprView, fields: Seq<FieldView> },
}

/// The model of the layout of a struct enum.
pub enum StructEnumReprView {
    AdjacentlyTagged { content_field: Seq<char>, variants: Seq<SimpleVariantView> },
}

/// The model of a field.
pub struct FieldView {
    pub name: Seq<char>,
    pub ty: FieldTypeView,
    pub default: Option<JsonView>,
    pub description: Option<Seq<char>>,
    pub required: bool,
    pub nullable: bool,
    pub deprecated: bool,
    pub example: Option<JsonView>,
}

/// The model of a variant's payload.
pub enum EnumVariantTypeView {
    Struct { fields: Seq<FieldView> },
    Ref { schema_ref: Option<Seq<char>>, inner: Option<TypeView> },
}

/// The model of a variant.
pub struct SimpleVariantView {
    pub name: Seq<char>,
    pub content: EnumVariantTypeView,
}

/// A field view that stands where no field is.
pub open spec fn no_field() -> FieldView {
    FieldView {
        name: Seq::empty(),
        ty: FieldTypeView::Bool,
        default: None,
        description: None,
        required: false,
        nullable: false,
        deprecated: false,
        example: None,
    }
}

impl FieldType {
    /// The field type with every string replaced by its text.
    pub open spec fn model(&self) -> FieldTypeView
        decreases self,
    {
        match self {
            FieldType::Bool => FieldTypeView::Bool,
            FieldType::Int16 => FieldTypeView::Int16,
            FieldType::UInt16 => FieldTypeView::UInt16,
            FieldType::Int32 => FieldTypeView::Int32,
            FieldType::UInt32 => FieldTypeView::UInt32,
            FieldType::Int64 => FieldTypeView::Int64,
            FieldType::UInt64 => FieldTypeView::UInt64,
            FieldType::String => FieldTypeView::String,
            FieldType::DateTime => FieldTypeView::DateTime,
            FieldType::Uri => FieldTypeView::Uri,
            FieldType::JsonObject => FieldTypeView::JsonObject,
            FieldType::List { inner } => FieldTypeView::List { inner: Box::new((**inner).model()) },
            FieldType::SetOf { inner } => FieldTypeView::SetOf { inner: Box::new((**inner).model()) },
            FieldType::MapOf { value_ty } => FieldTypeView::MapOf {
                value_ty: Box::new((**value_ty).model()),
            },
            FieldType::SchemaRef { name, inner } => FieldTypeView::SchemaRef {
                name: name@,
                inner: match inner {
                    Some(t) => Some(t.model()),
                    None => None,
                },
            },
            FieldType::StringConst { value } => FieldTypeView::StringConst { value: value@ },
        }
    }
}

impl Type {
    /// The type with every string replaced by its text.
    pub open spec fn model(&self) -> TypeView
        decreases self,
    {
        TypeView {
            name: self.name@,
            description: opt_text(self.description),
            deprecated: self.deprecated,
            data: self.data.model(),
        }
    }
}

impl TypeData {
    /// The data with every string replaced by its text.
    pub open spec fn model(&self) -> TypeDataView
        decreases self,
    {
        match self {
            TypeData::Struct { fields } => TypeDataView::Struct {
                fields: Seq::new(
                    fields.len() as nat,
                    |i: int|
                        if 0 <= i < fields.len() {
                            fields[i].model()
                        } else {
                            no_field()
                        },
                ),
            },
            TypeData::StringEnum { values } => TypeDataView::StringEnum {
                values: Seq::new(values.len() as nat, |i: int| values[i]@),
            },
            TypeData::IntegerEnum { variants } => TypeDataView::IntegerEnum {
                variants: Seq::new(variants.len() as nat, |i: int| (variants[i].0@, variants[i].1)),
            },
            TypeData::StructEnum { discriminator_field, repr, fields } => TypeDataView::StructEnum {
                discriminator_field: discriminator_field@,
                repr: repr.model(),
                fields: Seq::new(
                    fields.len() as nat,
                    |i: int|
                        if 0 <= i < fields.len() {
                            fields[i].model()
                        } else {
                            no_field()
                        },
                ),
            },
        }
    }
}

impl StructEnumRepr {
    /// The layout with every string replaced by its text.
    pub open spec fn model(&self) -> StructEnumReprView
        decreases self,
    {
        match self {
            StructEnumRepr::AdjacentlyTagged { content_field, variants } => StructEnumReprView::AdjacentlyTagged {
                content_field: content_field@,
                variants: Seq::new(
                    variants.len() as nat,
                    |i: int|
                        if 0 <= i < variants.len() {
                            variants[i].model()
                        } else {
                            SimpleVariantView {
                                name: Seq::empty(),
                                content: EnumVariantTypeView::Ref { schema_ref: None, inner: None },
                            }
                        },
                ),
            },
        }
    }
}

impl Field {
    /// The field with every string replaced by its text.
    pub open spec fn model(&self) -> FieldView
        decreases self,
    {
        FieldView {
            name: self.name@,
            ty: self.ty.model(),
            default: opt_json_view(self.default),
            description: opt_text(self.description),
            required: self.required,
            nullable: self.nullable,
            deprecated: self.deprecated,
            example: opt_json_view(self.example),
        }
    }
}

impl EnumVariantType {
    /// The payload with every string replaced by its text.
    pub open spec fn model(&self) -> EnumVariantTypeView
        decreases self,
    {
        match self {
            EnumVariantType::Struct { fields } => EnumVariantTypeView::Struct {
                fields: Seq::new(
                    fields.len() as nat,
                    |i: int|
                        if 0 <= i < fields.len() {
                            fields[i].model()
                        } else {
                            no_field()
                        },
                ),
            },
            EnumVariantType::Ref { schema_ref, inner } => EnumVariantTypeView::Ref {
                schema_ref: opt_text(*schema_ref),
                inner: match inner {
                    Some(t) => Some(t.model()),
                    None => None,
                },
            },
        }
    }
}

impl SimpleVariant {
    /// The variant with every string replaced by its text.
    pub open spec fn model(&self) -> SimpleVariantView
        decreases self,
    {
        SimpleVariantView { name: self.name@, content: self.content.model() }
    }
}

impl View for FieldType {
    type V = FieldTypeView;

    open spec fn view(&self) -> FieldTypeView {
        self.model()
    }
}

impl View for Type {
    type V = TypeView;

    open spec fn view(&self) -> TypeView {
        self.model()
    }
}

impl View for TypeData {
    type V = TypeDataView;

    open spec fn view(&self) -> TypeDataView {
        self.model()
    }
}

impl View for StructEnumRepr {
    type V = StructEnumReprView;

    open spec fn view(&self) -> StructEnumReprView {
        self.model()
    }
}

impl View for Field {
    type V = FieldView;

    open spec fn view(&self) -> FieldView {
        self.model()
    }
}

impl View for EnumVariantType {
    type V = EnumVariantTypeView;

    open spec fn view(&self) -> EnumVariantTypeView {
        self.model()
    }
}

impl View for SimpleVariant {
    type V = SimpleVariantView;

    open spec fn view(&self) -> SimpleVariantView {
        self.model()
    }
}

/// The models of a list of fields.
pub open spec fn fields_view(fields: Seq<Field>) -> Seq<FieldView> {
    Seq::new(fields.len(), |i: int| fields[i]@)
}

/// The models of a list of variants.
pub open spec fn variants_view(variants: Seq<SimpleVariant>) -> Seq<SimpleVariantView> {
    Seq::new(variants.len(), |i: int| variants[i]@)
}

/// The model of a list of named integers.
pub open spec fn named_ints_view(variants: Seq<(String, i64)>) -> Seq<(Seq<char>, i64)> {
    Seq::new(variants.len(), |i: int| (variants[i].0@, variants[i].1))
}

/// The model of a struct holds the models of its fields.
pub proof fn lemma_struct_view(fields: Vec<Field>)
    ensures
        (TypeData::Struct { fields })@ == (TypeDataView::Struct { fields: fields_view(fields@) }),
{
    reveal_with_fuel(TypeData::model, 2);
    assert((TypeData::Struct { fields })@->Struct_fields =~= fields_view(fields@));
}

/// The model of a string enum holds the texts of its values.
pub proof fn lemma_string_enum_view(values: Vec<String>)
    ensures
        (TypeData::StringEnum { values })@ == (TypeDataView::StringEnum { values: texts(values@) }),
{
    assert((TypeData::StringEnum { values })@->StringEnum_values =~= texts(values@));
}

/// The model of an integer enum holds its variants by the texts of their
/// names.
pub proof fn lemma_integer_enum_view(variants: Vec<(String, i64)>)
    ensures
        (TypeData::IntegerEnum { variants })@ == (TypeDataView::IntegerEnum {
            variants: named_ints_view(variants@),
        }),
{
    assert((TypeData::IntegerEnum { variants })@->IntegerEnum_variants =~= named_ints_view(variants@));
}

/// The model of a struct enum holds the models of its parts.
pub proof fn lemma_struct_enum_view(discriminator_field: String, repr: StructEnumRepr, fields: Vec<Field>)
    ensures
        (TypeData::StructEnum { discriminator_field, repr, fields })@ == (TypeDataView::StructEnum {
            discriminator_field: discriminator_field@,
            repr: repr@,
            fields: fields_view(fields@),
        }),
{
    reveal_with_fuel(TypeData::model, 2);
    assert((TypeData::StructEnum { discriminator_field, repr, fields })@->StructEnum_fields =~= fields_view(
        fields@,
    ));
}

/// The model of a layout holds the models of its variants.
pub proof fn lemma_adjacently_tagged_view(content_field: String, variants: Vec<SimpleVariant>)
    ensures
        (StructEnumRepr::AdjacentlyTagged { content_field, variants })@
            == (StructEnumReprView::AdjacentlyTagged {
            content_field: content_field@,
            variants: variants_view(variants@),
        }),
{
    reveal_with_fuel(StructEnumRepr::model, 2);
    assert((StructEnumRepr::AdjacentlyTagged { content_field, variants })@->variants =~= variants_view(
        variants@,
    ));
}

/// The model of a struct payload holds the models of its fields.
pub proof fn lemma_variant_struct_view(fields: Vec<Field>)
    ensures
        (EnumVariantType::Struct { fields })@ == (EnumVariantTypeView::Struct {
            fields: fields_view(fields@),
        }),
{
    reveal_with_fuel(EnumVariantType::model, 2);
    assert((EnumVariantType::Struct { fields })@->Struct_fields =~= fields_view(fields@));
}

/// A copy of a list of fields.
pub fn duplicate_fields(fields: &Vec<Field>) -> (r: Vec<Field>)
    ensures
        fields_view(r@) == fields_view(fields@),
    decreases fields,
{
    let mut out: Vec<Field> = Vec::new();
    let mut i: usize = 0;
    while i < fields.len()
        invariant
            i <= fields.len(),
            out.len() == i,
            forall|j: int| 0 <= j < i ==> out[j]@ == fields[j]@,
        decreases fields.len() - i,
    {
        assert(decreases_to!(*fields => fields[i as int]));
        out.push(fields[i].duplicate());
        i += 1;
    }
    assert(fields_view(out@) =~= fields_view(fields@));
    out
}

impl FieldType {
    /// A copy of the field type.
    pub fn duplicate(&self) -> (r: FieldType)
        ensures
            r@ == self@,
        decreases self,
    {
        match self {
            FieldType::Bool => FieldType::Bool,
            FieldType::Int16 => FieldType::Int16,
            FieldType::UInt16 => FieldType::UInt16,
            FieldType::Int32 => FieldType::Int32,
            FieldType::UInt32 => FieldType::UInt32,
            FieldType::Int64 => FieldType::Int64,
            FieldType::UInt64 => FieldType::UInt64,
            FieldType::String => FieldType::String,
            FieldType::DateTime => FieldType::DateTime,
            FieldType::Uri => FieldType::Uri,
            FieldType::JsonObject => FieldType::JsonObject,
            FieldType::List { inner } => FieldType::List { inner: Arc::new((**inner).duplicate()) },
            FieldType::SetOf { inner } => FieldType::SetOf { inner: Arc::new((**inner).duplicate()) },
            FieldType::MapOf { value_ty } => FieldType::MapOf {
                value_ty: Arc::new((**value_ty).duplicate()),
            },
            FieldType::SchemaRef { name, inner } => FieldType::SchemaRef {
                name: name.clone(),
                inner: match inner {
                    Some(t) => Some(t.duplicate()),
                    None => None,
                },
            },
            FieldType::StringConst { value } => FieldType::StringConst { value: value.clone() },
        }
    }
}

impl Field {
    /// A copy of the field.
    pub fn duplicate(&self) -> (r: Field)
        ensures
            r@ == self@,
        decreases self,
    {
        Field {
            name: self.name.clone(),
            ty: self.ty.duplicate(),
            default: duplicate_opt_json(&self.default),
            description: duplicate_opt_string(&self.description),
            required: self.required,
            nullable: self.nullable,
            deprecated: self.deprecated,
            example: duplicate_opt_json(&self.example),
        }
    }
}

impl EnumVariantType {
    /// A copy of the variant's payload.
    pub fn duplicate(&self) -> (r: EnumVariantType)
        ensures
            r@ == self@,
        decreases self,
    {
        match self {
            EnumVariantType::Struct { fields } => {
                let copy = duplicate_fields(fields);
                proof {
                    lemma_variant_struct_view(copy);
                    lemma_variant_struct_view(*fields);
                }
                EnumVariantType::Struct { fields: copy }
            },
            EnumVariantType::Ref { schema_ref, inner } => EnumVariantType::Ref {
                schema_ref: duplicate_opt_string(schema_ref),
                inner: match inner {
                    Some(t) => Some(t.duplicate()),
                    None => None,
                },
            },
        }
    }
}

impl SimpleVariant {
    /// A copy of the variant.
    pub fn duplicate(&self) -> (r: SimpleVariant)
        ensures
            r@ == self@,
        decreases self,
    {
        SimpleVariant { name: self.name.clone(), content: self.content.duplicate() }
    }
}

impl StructEnumRepr {
    /// A copy of the representation.
    #[verifier::loop_isolation(false)]
    pub fn duplicate(&self) -> (r: StructEnumRepr)
        ensures
            r@ == self@,
        decreases self,
    {
        match self {
            StructEnumRepr::AdjacentlyTagged { content_field, variants } => {
                let mut out: Vec<SimpleVariant> = Vec::new();
                let mut i: usize = 0;
                while i < variants.len()
                    invariant
                        i <= variants.len(),
                        out.len() == i,
                        forall|j: int| 0 <= j < i ==> out[j]@ == variants[j]@,
                    decreases variants.len() - i,
                {
                    assert(decreases_to!(*variants => variants[i as int]));
                    out.push(variants[i].duplicate());
                    i += 1;
                }
                let content = content_field.clone();
                proof {
                    assert(variants_view(out@) =~= variants_view(variants@));
                    lemma_adjacently_tagged_view(content, out);
                    lemma_adjacently_tagged_view(*content_field, *variants);
                }
                StructEnumRepr::AdjacentlyTagged { content_field: content, variants: out }
            },
        }
    }
}

impl TypeData {
    /// A copy of the data.
    #[verifier::loop_isolation(false)]
    pub fn duplicate(&self) -> (r: TypeData)
        ensures
            r@ == self@,
        decreases self,
    {
        match self {
            TypeData::Struct { fields } => {
                let copy = duplicate_fields(fields);
                proof {
                    lemma_struct_view(copy);
                    lemma_struct_view(*fields);
                }
                TypeData::Struct { fields: copy }
            },
            TypeData::StringEnum { values } => {
                let mut out: Vec<String> = Vec::new();
                let mut i: usize = 0;
                while i < values.len()
                    invariant
                        i <= values.len(),
                        out.len() == i,
                        forall|j: int| 0 <= j < i ==> out[j]@ == values[j]@,
                    decreases values.len() - i,
                {
                    out.push(values[i].clone());
                    i += 1;
                }
                proof {
                    assert(texts(out@) =~= texts(values@));
                    lemma_string_enum_view(out);
                    lemma_string_enum_view(*values);
                }
                TypeData::StringEnum { values: out }
            },
            TypeData::IntegerEnum { variants } => {
                let mut out: Vec<(String, i64)> = Vec::new();
                let mut i: usize = 0;
                while i < variants.len()
                    invariant
                        i <= variants.len(),
                        out.len() == i,
                        forall|j: int| 0 <= j < i ==> out[j].0@ == variants[j].0@ && out[j].1 == variants[j].1,
                    decreases variants.len() - i,
                {
                    out.push((variants[i].0.clone(), variants[i].1));
                    i += 1;
                }
                proof {
                    assert(named_ints_view(out@) =~= named_ints_view(variants@));
                    lemma_integer_enum_view(out);
                    lemma_integer_enum_view(*variants);
                }
                TypeData::IntegerEnum { variants: out }
            },
            TypeData::StructEnum { discriminator_field, repr, fields } => {
                let copy = duplicate_fields(fields);
                let repr_copy = repr.duplicate();
                let field_copy = discriminator_field.clone();
                proof {
                    lemma_struct_enum_view(field_copy, repr_copy, copy);
                    lemma_struct_enum_view(*discriminator_field, *repr, *fields);
                }
                TypeData::StructEnum { discriminator_field: field_copy, repr: repr_copy, fields: copy }
            },
        }
    }
}

impl Type {
    /// A copy of the type.
    pub fn duplicate(&self) -> (r: Type)
        ensures
            r@ == self@,
        decreases self,
    {
        Type {
            name: self.name.clone(),
            description: duplicate_opt_string(&self.description),
            deprecated: self.deprecated,
            data: self.data.duplicate(),
        }
    }
}

} // verus!
