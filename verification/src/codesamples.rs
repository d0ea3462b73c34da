//! Code samples: the templates they are rendered from, and the samples.

use vstd::prelude::*;
use crate::api::graph::types_view;
use crate::api::ir::{
    fields_view, lemma_adjacently_tagged_view, lemma_struct_enum_view, lemma_struct_view,
    lemma_variant_struct_view, variants_view, EnumVariantType, EnumVariantTypeView, Field, FieldType,
    FieldTypeView, FieldView, SimpleVariant, SimpleVariantView, StructEnumRepr, StructEnumReprView, Type,
    TypeData, TypeDataView, TypeView,
};
use crate::json::{duplicate_opt_string, opt_text};
use crate::name_map::NameMap;
use crate::postprocessing::CodegenLanguage;
use crate::text::{chars_of, find_in, replace_all, replaced};

verus! {

/// A rendered code sample for one operation.
#[derive(Debug, PartialEq)]
pub struct CodeSample {
    pub source: String,
    pub lang: String,
    pub label: String,
    pub op_id: String,
    pub formatting_lang: CodegenLanguage,
}

/// A template from which a sample is rendered for each operation.
pub struct SampleTemplate {
    pub source: String,
    pub label: String,
    pub lang_name: String,
    pub formatting_lang: CodegenLanguage,
}

/// The model of a sample template.
pub struct SampleTemplateView {
    pub source: Seq<char>,
    pub label: Seq<char>,
    pub lang_name: Seq<char>,
    pub formatting_lang: CodegenLanguage,
}

impl View for SampleTemplate {
    type V = SampleTemplateView;

    open spec fn view(&self) -> SampleTemplateView {
        SampleTemplateView {
            source: self.source@,
            label: self.label@,
            lang_name: self.lang_name@,
            formatting_lang: self.formatting_lang,
        }
    }
}

/// The templates of the code samples, in the order in which they were added.
pub struct CodesampleTemplates {
    pub templates: Vec<SampleTemplate>,
}

impl View for CodesampleTemplates {
    type V = Seq<SampleTemplateView>;

    open spec fn view(&self) -> Seq<SampleTemplateView> {
        Seq::new(self.templates@.len(), |i: int| self.templates@[i]@)
    }
}

impl CodesampleTemplates {
    /// No templates.
    pub fn new() -> (r: CodesampleTemplates)
        ensures
            r@ == Seq::<SampleTemplateView>::empty(),
    {
        let r = CodesampleTemplates { templates: Vec::new() };
        assert(r@ =~= Seq::<SampleTemplateView>::empty());
        r
    }

    /// Adds a template after those that are there.
    pub fn add_template(&mut self, label: &str, lang_name: &str, formatting_lang: CodegenLanguage, source: &str)
        ensures
            final(self)@ == old(self)@.push(
                SampleTemplateView { source: source@, label: label@, lang_name: lang_name@, formatting_lang },
            ),
    {
        self.templates.push(
            SampleTemplate {
                formatting_lang,
                lang_name: lang_name.to_owned(),
                label: label.to_owned(),
                source: source.to_owned(),
            },
        );
        assert(self@ =~= old(self)@.push(
            SampleTemplateView { source: source@, label: label@, lang_name: lang_name@, formatting_lang },
        ));
    }
}

impl Default for CodesampleTemplates {
    fn default() -> (r: CodesampleTemplates)
        ensures
            r@ == Seq::<SampleTemplateView>::empty(),
    {
        CodesampleTemplates::new()
    }
}

/// A field type with the type behind it filled in, where it is a reference
/// to a type that the map holds.
pub open spec fn resolved_field_type(t: FieldTypeView, types: Map<Seq<char>, TypeView>) -> FieldTypeView {
    match t {
        FieldTypeView::SchemaRef { name, inner } => if types.contains_key(name) {
            FieldTypeView::SchemaRef { name, inner: Some(types[name]) }
        } else {
            t
        },
        _ => t,
    }
}

/// A field with the type behind its reference filled in.
pub open spec fn resolved_field(f: FieldView, types: Map<Seq<char>, TypeView>) -> FieldView {
    FieldView {
        name: f.name,
        ty: resolved_field_type(f.ty, types),
        default: f.default,
        description: f.description,
        required: f.required,
        nullable: f.nullable,
        deprecated: f.deprecated,
        example: f.example,
    }
}

/// Fields with the types behind their references filled in.
pub open spec fn resolved_fields(fields: Seq<FieldView>, types: Map<Seq<char>, TypeView>) -> Seq<FieldView> {
    Seq::new(fields.len(), |i: int| resolved_field(fields[i], types))
}

/// A variant with the types behind its references filled in.
pub open spec fn resolved_variant(v: SimpleVariantView, types: Map<Seq<char>, TypeView>) -> SimpleVariantView {
    SimpleVariantView {
        name: v.name,
        content: match v.content {
            EnumVariantTypeView::Struct { fields } => EnumVariantTypeView::Struct {
                fields: resolved_fields(fields, types),
            },
            EnumVariantTypeView::Ref { schema_ref: Some(r), inner } => if types.contains_key(r) {
                EnumVariantTypeView::Ref { schema_ref: Some(r), inner: Some(types[r]) }
            } else {
                v.content
            },
            EnumVariantTypeView::Ref { schema_ref: None, .. } => v.content,
        },
    }
}

/// Variants with the types behind their references filled in.
pub open spec fn resolved_variants(variants: Seq<SimpleVariantView>, types: Map<Seq<char>, TypeView>) -> Seq<
    SimpleVariantView,
> {
    Seq::new(variants.len(), |i: int| resolved_variant(variants[i], types))
}

/// A type with the types behind the references of its fields and variants
/// filled in, one level deep. Nothing else about the type changes.
pub open spec fn resolved_type(t: TypeView, types: Map<Seq<char>, TypeView>) -> TypeView {
    TypeView {
        name: t.name,
        description: t.description,
        deprecated: t.deprecated,
        data: match t.data {
            TypeDataView::Struct { fields } => TypeDataView::Struct { fields: resolved_fields(fields, types) },
            TypeDataView::StringEnum { .. } => t.data,
            TypeDataView::IntegerEnum { .. } => t.data,
            TypeDataView::StructEnum {
                discriminator_field,
                repr: StructEnumReprView::AdjacentlyTagged { content_field, variants },
                fields,
            } => TypeDataView::StructEnum {
                discriminator_field,
                repr: StructEnumReprView::AdjacentlyTagged {
                    content_field,
                    variants: resolved_variants(variants, types),
                },
                fields: resolved_fields(fields, types),
            },
        },
    }
}

/// A field type without the types behind its references.
pub open spec fn bare_field_type(t: FieldTypeView) -> FieldTypeView {
    match t {
        FieldTypeView::SchemaRef { name, .. } => FieldTypeView::SchemaRef { name, inner: None },
        _ => t,
    }
}

/// A field without the type behind its reference.
pub open spec fn bare_field(f: FieldView) -> FieldView {
    FieldView {
        name: f.name,
        ty: bare_field_type(f.ty),
        default: f.default,
        description: f.description,
        required: f.required,
        nullable: f.nullable,
        deprecated: f.deprecated,
        example: f.example,
    }
}

/// Fields without the types behind their references.
pub open spec fn bare_fields(fields: Seq<FieldView>) -> Seq<FieldView> {
    Seq::new(fields.len(), |i: int| bare_field(fields[i]))
}

/// A variant without the types behind its references.
pub open spec fn bare_variant(v: SimpleVariantView) -> SimpleVariantView {
    SimpleVariantView {
        name: v.name,
        content: match v.content {
            EnumVariantTypeView::Struct { fields } => EnumVariantTypeView::Struct { fields: bare_fields(fields) },
            EnumVariantTypeView::Ref { schema_ref, .. } => EnumVariantTypeView::Ref { schema_ref, inner: None },
        },
    }
}

/// Variants without the types behind their references.
pub open spec fn bare_variants(variants: Seq<SimpleVariantView>) -> Seq<SimpleVariantView> {
    Seq::new(variants.len(), |i: int| bare_variant(variants[i]))
}

/// A type without the types behind the references of its fields and
/// variants.
pub open spec fn bare_type(t: TypeView) -> TypeView {
    TypeView {
        name: t.name,
        description: t.description,
        deprecated: t.deprecated,
        data: match t.data {
            TypeDataView::Struct { fields } => TypeDataView::Struct { fields: bare_fields(fields) },
            TypeDataView::StringEnum { .. } => t.data,
            TypeDataView::IntegerEnum { .. } => t.data,
            TypeDataView::StructEnum {
                discriminator_field,
                repr: StructEnumReprView::AdjacentlyTagged { content_field, variants },
                fields,
            } => TypeDataView::StructEnum {
                discriminator_field,
                repr: StructEnumReprView::AdjacentlyTagged { content_field, variants: bare_variants(variants) },
                fields: bare_fields(fields),
            },
        },
    }
}

/// Filling in the types behind references adds to a type and changes
/// nothing else: without what is behind its references, the type is what it
/// was.
pub proof fn lemma_resolving_only_adds(t: TypeView, types: Map<Seq<char>, TypeView>)
    ensures
        bare_type(resolved_type(t, types)) == bare_type(t),
{
    assert forall|fields: Seq<FieldView>| #[trigger]
        bare_fields(resolved_fields(fields, types)) == bare_fields(fields) by {
        assert(bare_fields(resolved_fields(fields, types)) =~= bare_fields(fields));
    }
    assert forall|variants: Seq<SimpleVariantView>| #[trigger]
        bare_variants(resolved_variants(variants, types)) == bare_variants(variants) by {
        assert forall|i: int| 0 <= i < variants.len() implies bare_variant(
            resolved_variant(variants[i], types),
        ) == bare_variant(variants[i]) by {
            match variants[i].content {
                EnumVariantTypeView::Struct { fields } => {
                    assert(bare_fields(resolved_fields(fields, types)) == bare_fields(fields));
                },
                _ => {},
            }
        }
        assert(bare_variants(resolved_variants(variants, types)) =~= bare_variants(variants));
    }
    match t.data {
        TypeDataView::Struct { fields } => {
            assert(bare_fields(resolved_fields(fields, types)) == bare_fields(fields));
        },
        TypeDataView::StructEnum {
            repr: StructEnumReprView::AdjacentlyTagged { variants, .. },
            fields,
            ..
        } => {
            assert(bare_fields(resolved_fields(fields, types)) == bare_fields(fields));
            assert(bare_variants(resolved_variants(variants, types)) == bare_variants(variants));
        },
        _ => {},
    }
}

/// A copy of `fields` with the types behind their references filled in.
fn resolve_fields(fields: &Vec<Field>, types: &NameMap<Type>) -> (r: Vec<Field>)
    ensures
        fields_view(r@) == resolved_fields(fields_view(fields@), types_view(types.map())),
{
    let mut out: Vec<Field> = Vec::new();
    let mut i: usize = 0;
    let ghost known = types_view(types.map());
    while i < fields.len()
        invariant
            i <= fields.len(),
            known == types_view(types.map()),
            out@.len() == i,
            forall|j: int| 0 <= j < i ==> out@[j]@ == resolved_field(fields@[j]@, known),
        decreases fields.len() - i,
    {
        let f = &fields[i];
        let mut copy = f.duplicate();
        if let FieldType::SchemaRef { name, .. } = &f.ty {
            if let Some(t) = types.get(name.as_str()) {
                copy.ty = FieldType::SchemaRef { name: name.clone(), inner: Some(t.duplicate()) };
            }
        }
        out.push(copy);
        i += 1;
    }
    assert(fields_view(out@) =~= resolved_fields(fields_view(fields@), known));
    out
}

/// A copy of `variants` with the types behind their references filled in.
fn resolve_variants(variants: &Vec<SimpleVariant>, types: &NameMap<Type>) -> (r: Vec<SimpleVariant>)
    ensures
        variants_view(r@) == resolved_variants(variants_view(variants@), types_view(types.map())),
{
    let mut out: Vec<SimpleVariant> = Vec::new();
    let mut i: usize = 0;
    let ghost known = types_view(types.map());
    while i < variants.len()
        invariant
            i <= variants.len(),
            known == types_view(types.map()),
            out@.len() == i,
            forall|j: int| 0 <= j < i ==> out@[j]@ == resolved_variant(variants@[j]@, known),
        decreases variants.len() - i,
    {
        let v = &variants[i];
        let content = match &v.content {
            EnumVariantType::Struct { fields } => {
                let resolved = resolve_fields(fields, types);
                proof {
                    lemma_variant_struct_view(resolved);
                    lemma_variant_struct_view(*fields);
                }
                EnumVariantType::Struct { fields: resolved }
            },
            EnumVariantType::Ref { schema_ref, inner } => {
                let found = match schema_ref {
                    Some(r) => types.get(r.as_str()),
                    None => None,
                };
                match found {
                    Some(t) => EnumVariantType::Ref {
                        schema_ref: duplicate_opt_string(schema_ref),
                        inner: Some(t.duplicate()),
                    },
                    None => v.content.duplicate(),
                }
            },
        };
        out.push(SimpleVariant { name: v.name.clone(), content });
        i += 1;
    }
    assert(variants_view(out@) =~= resolved_variants(variants_view(variants@), known));
    out
}

/// A copy of the type named `ty_name` with the types behind the references
/// of its fields and variants filled in from `types`; `None` if there is no
/// type of that name. A reference to a type that `types` does not hold
/// stays as it is.
pub fn recursively_resolve_type(ty_name: &str, types: &NameMap<Type>) -> (r: Option<Type>)
    ensures
        match r {
            Some(t) => types.map().contains_key(ty_name@) && t@ == resolved_type(
                types.map()[ty_name@]@,
                types_view(types.map()),
            ),
            None => !types.map().contains_key(ty_name@),
        },
{
    let ty = match types.get(ty_name) {
        Some(t) => t,
        None => {
            return None;
        },
    };
    let data = match &ty.data {
        TypeData::Struct { fields } => {
            let resolved = resolve_fields(fields, types);
            proof {
                lemma_struct_view(resolved);
                lemma_struct_view(*fields);
            }
            TypeData::Struct { fields: resolved }
        },
        TypeData::StringEnum { .. } => ty.data.duplicate(),
        TypeData::IntegerEnum { .. } => ty.data.duplicate(),
        TypeData::StructEnum { discriminator_field, repr, fields } => {
            let repr_resolved = match repr {
                StructEnumRepr::AdjacentlyTagged { content_field, variants } => {
                    let resolved = resolve_variants(variants, types);
                    let content = content_field.clone();
                    proof {
                        lemma_adjacently_tagged_view(content, resolved);
                        lemma_adjacently_tagged_view(*content_field, *variants);
                    }
                    StructEnumRepr::AdjacentlyTagged { content_field: content, variants: resolved }
                },
            };
            let resolved = resolve_fields(fields, types);
            let field = discriminator_field.clone();
            proof {
                lemma_struct_enum_view(field, repr_resolved, resolved);
                lemma_struct_enum_view(*discriminator_field, *repr, *fields);
            }
            TypeData::StructEnum { discriminator_field: field, repr: repr_resolved, fields: resolved }
        },
    };
    Some(
        Type {
            name: ty.name.clone(),
            description: duplicate_opt_string(&ty.description),
            deprecated: ty.deprecated,
            data,
        },
    )
}

/// The placeholder of a path parameter in a path.
pub open spec fn path_placeholder(name: Seq<char>) -> Seq<char> {
    "{"@ + name + "}"@
}

/// A path in which the placeholders of the first `n` parameters have been
/// replaced, one parameter after the other.
pub open spec fn path_with_upto(path: Seq<char>, params: Seq<(Seq<char>, Seq<char>)>, n: nat) -> Seq<char>
    decreases n,
{
    if n == 0 || n > params.len() {
        path
    } else {
        replaced(path_with_upto(path, params, (n - 1) as nat), path_placeholder(params[n - 1].0), params[n - 1].1)
    }
}

/// The views of a list of parameters with what stands in for each.
pub open spec fn substitutions_view(params: Seq<(String, String)>) -> Seq<(Seq<char>, Seq<char>)> {
    Seq::new(params.len(), |i: int| (params[i].0@, params[i].1@))
}

/// The path with the placeholder `{name}` of each parameter replaced by
/// what is given for it.
pub fn populate_path(path: &str, params: &Vec<(String, String)>) -> (r: String)
    ensures
        r@ == path_with_upto(path@, substitutions_view(params@), params@.len()),
{
    let mut out = path.to_owned();
    let mut i: usize = 0;
    let ghost ps = substitutions_view(params@);
    while i < params.len()
        invariant
            i <= params.len(),
            ps == substitutions_view(params@),
            out@ == path_with_upto(path@, ps, i as nat),
        decreases params.len() - i,
    {
        let mut placeholder = "{".to_owned();
        placeholder.append(params[i].0.as_str());
        placeholder.append("}");
        proof {
            assert(ps[i as int] == (params@[i as int].0@, params@[i as int].1@));
        }
        out = replace_all(out.as_str(), placeholder.as_str(), params[i].1.as_str());
        i += 1;
    }
    out
}

} // verus!
