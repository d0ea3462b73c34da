//! The schema names that a type refers to.

use vstd::prelude::*;
use crate::api::ir::{
    fields_view, lemma_adjacently_tagged_view, lemma_struct_enum_view, lemma_struct_view,
    lemma_variant_struct_view, variants_view, EnumVariantType, EnumVariantTypeView, Field, FieldType,
    FieldTypeView, FieldView, SimpleVariant, SimpleVariantView, StructEnumRepr, StructEnumReprView, Type,
    TypeData, TypeDataView, TypeView,
};
use crate::name_map::NameSet;
use crate::api::{is_placeholder, placeholder_name};

verus! {

/// The schema name that a field type refers to, through any containers.
/// The placeholder for an untyped payload is no reference.
pub open spec fn referenced_schema_of(t: FieldTypeView) -> Option<Seq<char>>
    decreases t,
{
    match t {
        FieldTypeView::SchemaRef { name, .. } => if name == placeholder_name() {
            None
        } else {
            Some(name)
        },
        FieldTypeView::List { inner } => referenced_schema_of(*inner),
        FieldTypeView::SetOf { inner } => referenced_schema_of(*inner),
        FieldTypeView::MapOf { value_ty } => referenced_schema_of(*value_ty),
        _ => None,
    }
}

/// The schema names that the types of `fields` refer to.
pub open spec fn fields_refs(fields: Seq<FieldView>) -> Set<Seq<char>> {
    Set::new(
        |n: Seq<char>|
            exists|i: int| 0 <= i < fields.len() && #[trigger] referenced_schema_of(fields[i].ty) == Some(n),
    )
}

/// The schema names that a variant's content refers to.
pub open spec fn variant_refs(v: SimpleVariantView) -> Set<Seq<char>> {
    match v.content {
        EnumVariantTypeView::Struct { fields } => fields_refs(fields),
        EnumVariantTypeView::Ref { schema_ref: Some(n), .. } => Set::empty().insert(n),
        EnumVariantTypeView::Ref { schema_ref: None, .. } => Set::empty(),
    }
}

/// The schema names that the variants refer to.
pub open spec fn variants_refs(variants: Seq<SimpleVariantView>) -> Set<Seq<char>> {
    Set::new(
        |n: Seq<char>| exists|i: int| 0 <= i < variants.len() && #[trigger] variant_refs(variants[i]).contains(n),
    )
}

/// The schema names that a type refers to.
pub open spec fn type_refs(t: TypeView) -> Set<Seq<char>> {
    match t.data {
        TypeDataView::Struct { fields } => fields_refs(fields),
        TypeDataView::StringEnum { .. } => Set::empty(),
        TypeDataView::IntegerEnum { .. } => Set::empty(),
        TypeDataView::StructEnum {
            repr: StructEnumReprView::AdjacentlyTagged { variants, .. },
            fields,
            ..
        } => variants_refs(variants).union(fields_refs(fields)),
    }
}

impl FieldType {
    /// The schema name that this field type refers to, through any
    /// containers.
    pub fn referenced_schema(&self) -> (r: Option<&str>)
        ensures
            match r {
                Some(n) => referenced_schema_of(self@) == Some(n@),
                None => referenced_schema_of(self@) is None,
            },
        decreases self,
    {
        match self {
            FieldType::SchemaRef { name, .. } => {
                if is_placeholder(name.as_str()) {
                    None
                } else {
                    Some(name.as_str())
                }
            },
            FieldType::List { inner } => (**inner).referenced_schema(),
            FieldType::SetOf { inner } => (**inner).referenced_schema(),
            FieldType::MapOf { value_ty } => (**value_ty).referenced_schema(),
            _ => None,
        }
    }
}

/// Adds to `into` the schema names that the types of `fields` refer to.
pub fn fields_referenced_schemas(fields: &Vec<Field>, into: &mut NameSet)
    ensures
        final(into).names() == old(into).names().union(fields_refs(fields_view(fields@))),
{
    let mut i: usize = 0;
    let ghost fv = fields_view(fields@);
    while i < fields.len()
        invariant
            i <= fields.len(),
            fv == fields_view(fields@),
            forall|n: Seq<char>| #[trigger]
                into.names().contains(n) <==> (old(into).names().contains(n) || exists|j: int|
                    0 <= j < i && #[trigger] referenced_schema_of(fv[j].ty) == Some(n)),
        decreases fields.len() - i,
    {
        let ghost before = into.names();
        match fields[i].ty.referenced_schema() {
            Some(n) => {
                into.insert(n.to_owned());
                proof {
                    assert(referenced_schema_of(fv[i as int].ty) == Some(n@));
                }
            },
            None => {},
        }
        proof {
            assert forall|n: Seq<char>| #[trigger]
                into.names().contains(n) <==> (old(into).names().contains(n) || exists|j: int|
                    0 <= j < i + 1 && #[trigger] referenced_schema_of(fv[j].ty) == Some(n)) by {
                if exists|j: int| 0 <= j < i + 1 && #[trigger] referenced_schema_of(fv[j].ty) == Some(n) {
                    let j = choose|j: int| 0 <= j < i + 1 && #[trigger] referenced_schema_of(fv[j].ty) == Some(n);
                    if j < i {
                        assert(before.contains(n));
                    }
                }
                if before.contains(n) && !old(into).names().contains(n) {
                    let j = choose|j: int| 0 <= j < i && #[trigger] referenced_schema_of(fv[j].ty) == Some(n);
                    assert(0 <= j < i + 1);
                }
            }
        }
        i += 1;
    }
    assert(into.names() =~= old(into).names().union(fields_refs(fv)));
}

impl StructEnumRepr {
    /// Adds to `into` the schema names that the variants refer to.
    pub fn referenced_components(&self, into: &mut NameSet)
        ensures
            final(into).names() == old(into).names().union(
                match self@ {
                    StructEnumReprView::AdjacentlyTagged { variants, .. } => variants_refs(variants),
                },
            ),
    {
        match self {
            StructEnumRepr::AdjacentlyTagged { content_field, variants } => {
                proof {
                    lemma_adjacently_tagged_view(*content_field, *variants);
                }
                let ghost vv = variants_view(variants@);
                let mut i: usize = 0;
                while i < variants.len()
                    invariant
                        i <= variants.len(),
                        vv == variants_view(variants@),
                        forall|n: Seq<char>| #[trigger]
                            into.names().contains(n) <==> (old(into).names().contains(n) || exists|j: int|
                                0 <= j < i && #[trigger] variant_refs(vv[j]).contains(n)),
                    decreases variants.len() - i,
                {
                    let ghost before = into.names();
                    match &variants[i].content {
                        EnumVariantType::Struct { fields } => {
                            proof {
                                lemma_variant_struct_view(*fields);
                            }
                            fields_referenced_schemas(fields, into);
                        },
                        EnumVariantType::Ref { schema_ref, .. } => {
                            match schema_ref {
                                Some(n) => {
                                    into.insert(n.clone());
                                },
                                None => {},
                            }
                        },
                    }
                    proof {
                        assert(into.names() =~= before.union(variant_refs(vv[i as int])));
                        assert forall|n: Seq<char>| #[trigger]
                            into.names().contains(n) <==> (old(into).names().contains(n) || exists|j: int|
                                0 <= j < i + 1 && #[trigger] variant_refs(vv[j]).contains(n)) by {
                            if exists|j: int| 0 <= j < i + 1 && #[trigger] variant_refs(vv[j]).contains(n) {
                                let j = choose|j: int| 0 <= j < i + 1 && #[trigger] variant_refs(vv[j]).contains(n);
                                if j < i {
                                    assert(before.contains(n));
                                }
                            }
                            if before.contains(n) && !old(into).names().contains(n) {
                                let j = choose|j: int| 0 <= j < i && #[trigger] variant_refs(vv[j]).contains(n);
                                assert(0 <= j < i + 1);
                            }
                        }
                    }
                    i += 1;
                }
                assert(into.names() =~= old(into).names().union(variants_refs(vv)));
            },
        }
    }
}

impl Type {
    /// The schema names that this type refers to.
    pub fn referenced_components(&self) -> (r: NameSet)
        ensures
            r.names() == type_refs(self@),
    {
        let mut r = NameSet::new();
        match &self.data {
            TypeData::Struct { fields } => {
                proof {
                    lemma_struct_view(*fields);
                }
                fields_referenced_schemas(fields, &mut r);
            },
            TypeData::StringEnum { .. } => {},
            TypeData::IntegerEnum { .. } => {},
            TypeData::StructEnum { discriminator_field, repr, fields } => {
                proof {
                    lemma_struct_enum_view(*discriminator_field, *repr, *fields);
                }
                repr.referenced_components(&mut r);
                fields_referenced_schemas(fields, &mut r);
            },
        }
        assert(r.names() =~= type_refs(self@));
        r
    }
}

} // verus!
