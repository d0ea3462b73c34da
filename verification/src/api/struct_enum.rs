//! Inference of adjacently tagged unions from `oneOf`.

use vstd::prelude::*;
use crate::api::error::SchemaError;
use crate::api::ir::{
    fields_view, lemma_adjacently_tagged_view, lemma_struct_enum_view, lemma_variant_struct_view,
    variants_view, EnumVariantType, EnumVariantTypeView, Field, FieldView, SimpleVariant, SimpleVariantView,
    StructEnumRepr, StructEnumReprView, TypeData, TypeDataView,
};
use crate::api::types::{struct_fields, struct_fields_of, unboxed};
use crate::api::{get_schema_name, schema_name_of};
use crate::json::{json_text, opt_text};
use crate::schema::{ObjectValidation, Property, Schema};
use crate::text::str_eq;

verus! {

/// A string that may be set once; every later value must repeat the first.
pub struct SameString(pub Option<String>);

impl SameString {
    /// Sets the value, or checks `val` against the value already set.
    pub fn update(&mut self, val: String) -> (r: Result<(), ()>)
        ensures
            match old(self).0 {
                Some(current) => final(self).0 == old(self).0 && (r is Ok <==> current@ == val@),
                None => r is Ok && final(self).0 == Some(val),
            },
    {
        let same = match &self.0 {
            Some(current) => Some(str_eq(current.as_str(), val.as_str())),
            None => None,
        };
        match same {
            Some(true) => Ok(()),
            Some(false) => Err(()),
            None => {
                self.0 = Some(val);
                Ok(())
            },
        }
    }

    /// The value, if one was set.
    pub fn inner(self) -> (r: Option<String>)
        ensures
            r == self.0,
    {
        self.0
    }
}

/// Whether a property fixes one value by a one-valued `enum`; with `Err`
/// where that value is not a string.
pub open spec fn tag_of(p: Property) -> Result<Option<Seq<char>>, SchemaError> {
    match p.schema {
        Schema::Bool(_) => Err(SchemaError::BoolSchema),
        Schema::Object(o) => match o.enum_values {
            Some(values) => if values@.len() == 1 {
                match json_text(values@[0]@) {
                    Some(tag) => Ok(Some(tag)),
                    None => Err(SchemaError::DiscriminatorNotString),
                }
            } else {
                Ok(None)
            },
            None => Ok(None),
        },
    }
}

/// The position of the last of the first `n` properties that fixes a tag.
pub open spec fn discriminator_upto(props: Seq<Property>, n: nat) -> Result<Option<int>, SchemaError>
    decreases n,
{
    if n == 0 {
        Ok(None)
    } else {
        match discriminator_upto(props, (n - 1) as nat) {
            Err(e) => Err(e),
            Ok(previous) => match tag_of(props[n - 1]) {
                Err(e) => Err(e),
                Ok(Some(_)) => Ok(Some(n - 1)),
                Ok(None) => Ok(previous),
            },
        }
    }
}

/// The content that a property of a variant gives: its name, and a struct
/// for an inline object or a reference for a `$ref`.
pub open spec fn content_of(p: Property) -> Result<(Seq<char>, EnumVariantTypeView), SchemaError> {
    match p.schema {
        Schema::Bool(_) => Err(SchemaError::BoolSchema),
        Schema::Object(o) => match o.object {
            Some(object) => match struct_fields_of(Some(*object)) {
                Err(e) => Err(e),
                Ok(fields) => Ok((p.name@, EnumVariantTypeView::Struct { fields })),
            },
            None => match o.reference {
                Some(r) => match schema_name_of(Some(r@)) {
                    Some(name) => Ok(
                        (p.name@, EnumVariantTypeView::Ref { schema_ref: Some(name), inner: None }),
                    ),
                    None => Err(SchemaError::ForeignReference),
                },
                None => Err(SchemaError::NoContent),
            },
        },
    }
}

/// What has been inferred from the variants read so far.
pub struct Inferred {
    pub discriminator_field: Option<Seq<char>>,
    pub content_field: Option<Seq<char>>,
    pub variants: Seq<SimpleVariantView>,
}

/// What is inferred once one more variant schema has been read.
pub open spec fn with_variant(so_far: Inferred, s: Schema) -> Result<Inferred, SchemaError> {
    match s {
        Schema::Bool(_) => Err(SchemaError::BoolSchema),
        Schema::Object(o) => match o.object {
            None => Err(SchemaError::ObjectWithoutValidation),
            Some(object) => {
                let props = object.properties@;
                match discriminator_upto(props, props.len()) {
                    Err(e) => Err(e),
                    Ok(None) => Err(SchemaError::NoDiscriminator),
                    Ok(Some(d)) => {
                        let field = props[d].name@;
                        let tag = tag_of(props[d])->Ok_0->0;
                        if so_far.discriminator_field is Some && so_far.discriminator_field != Some(
                            field,
                        ) {
                            Err(SchemaError::DiscriminatorMismatch)
                        } else if props.len() > 2 {
                            Err(SchemaError::VariantPropertyCount)
                        } else if props.len() == 1 {
                            Ok(
                                Inferred {
                                    discriminator_field: Some(field),
                                    content_field: so_far.content_field,
                                    variants: so_far.variants.push(
                                        SimpleVariantView {
                                            name: tag,
                                            content: EnumVariantTypeView::Ref {
                                                schema_ref: None,
                                                inner: None,
                                            },
                                        },
                                    ),
                                },
                            )
                        } else {
                            match content_of(props[1 - d]) {
                                Err(e) => Err(e),
                                Ok((content_field, content)) => if so_far.content_field is Some
                                    && so_far.content_field != Some(content_field) {
                                    Err(SchemaError::ContentFieldMismatch)
                                } else {
                                    Ok(
                                        Inferred {
                                            discriminator_field: Some(field),
                                            content_field: Some(content_field),
                                            variants: so_far.variants.push(
                                                SimpleVariantView { name: tag, content },
                                            ),
                                        },
                                    )
                                },
                            }
                        }
                    },
                }
            },
        },
    }
}

/// What is inferred from the first `n` variant schemas.
pub open spec fn inferred_upto(one_of: Seq<Schema>, n: nat) -> Result<Inferred, SchemaError>
    decreases n,
{
    if n == 0 {
        Ok(Inferred { discriminator_field: None, content_field: None, variants: Seq::empty() })
    } else {
        match inferred_upto(one_of, (n - 1) as nat) {
            Err(e) => Err(e),
            Ok(so_far) => with_variant(so_far, one_of[n - 1]),
        }
    }
}

/// The struct enum that a `oneOf` list describes, with `fields` as the
/// fields that every variant shares.
pub open spec fn struct_enum_of(one_of: Seq<Schema>, fields: Seq<FieldView>) -> Result<TypeDataView, SchemaError> {
    match inferred_upto(one_of, one_of.len()) {
        Err(e) => Err(e),
        Ok(inferred) => match inferred.discriminator_field {
            None => Err(SchemaError::NoDiscriminatorField),
            Some(discriminator_field) => match inferred.content_field {
                None => Err(SchemaError::NoContentField),
                Some(content_field) => Ok(
                    TypeDataView::StructEnum {
                        discriminator_field,
                        repr: StructEnumReprView::AdjacentlyTagged {
                            content_field,
                            variants: inferred.variants,
                        },
                        fields,
                    },
                ),
            },
        },
    }
}

/// Once a property has failed, every longer prefix fails the same way.
pub proof fn lemma_discriminator_error_stays(props: Seq<Property>, n: nat, m: nat)
    requires
        n <= m,
        discriminator_upto(props, n) is Err,
    ensures
        discriminator_upto(props, m) == discriminator_upto(props, n),
    decreases m - n,
{
    if n < m {
        lemma_discriminator_error_stays(props, n, (m - 1) as nat);
    }
}

/// Once a variant has failed, every longer prefix fails the same way.
pub proof fn lemma_inferred_error_stays(one_of: Seq<Schema>, n: nat, m: nat)
    requires
        n <= m,
    ensures
        inferred_upto(one_of, n) is Err ==> inferred_upto(one_of, m) == inferred_upto(one_of, n),
    decreases m - n,
{
    if n < m && inferred_upto(one_of, n) is Err {
        lemma_inferred_error_stays(one_of, n, (m - 1) as nat);
    }
}

/// The schema object and object keywords of a variant's property, or why it
/// has none.
fn property_tag(p: &Property) -> (r: Result<Option<String>, SchemaError>)
    ensures
        match r {
            Ok(Some(tag)) => tag_of(*p) == Ok::<Option<Seq<char>>, SchemaError>(Some(tag@)),
            Ok(None) => tag_of(*p) == Ok::<Option<Seq<char>>, SchemaError>(None),
            Err(e) => tag_of(*p) == Err::<Option<Seq<char>>, SchemaError>(e),
        },
{
    match &p.schema {
        Schema::Bool(_) => Err(SchemaError::BoolSchema),
        Schema::Object(o) => match &o.enum_values {
            Some(values) => {
                if values.len() == 1 {
                    match values[0].as_str() {
                        Some(tag) => Ok(Some(tag.to_owned())),
                        None => Err(SchemaError::DiscriminatorNotString),
                    }
                } else {
                    Ok(None)
                }
            },
            None => Ok(None),
        },
    }
}

/// The discriminator of a variant: the position of the property that fixes
/// the tag, the property's name, and the tag.
pub fn get_discriminator(obj: &ObjectValidation) -> (r: Result<(usize, String, String), SchemaError>)
    ensures
        match r {
            Ok((d, field, tag)) => {
                &&& discriminator_upto(obj.properties@, obj.properties@.len()) == Ok::<
                    Option<int>,
                    SchemaError,
                >(Some(d as int))
                &&& d < obj.properties@.len()
                &&& field@ == obj.properties@[d as int].name@
                &&& tag_of(obj.properties@[d as int]) == Ok::<Option<Seq<char>>, SchemaError>(Some(tag@))
            },
            Err(e) => match discriminator_upto(obj.properties@, obj.properties@.len()) {
                Err(e2) => e == e2,
                Ok(None) => e == SchemaError::NoDiscriminator,
                Ok(Some(_)) => false,
            },
        },
{
    let mut found: Option<(usize, String, String)> = None;
    let mut i: usize = 0;
    while i < obj.properties.len()
        invariant
            i <= obj.properties.len(),
            match found {
                Some((d, field, tag)) => {
                    &&& discriminator_upto(obj.properties@, i as nat) == Ok::<Option<int>, SchemaError>(
                        Some(d as int),
                    )
                    &&& d < i
                    &&& field@ == obj.properties@[d as int].name@
                    &&& tag_of(obj.properties@[d as int]) == Ok::<Option<Seq<char>>, SchemaError>(
                        Some(tag@),
                    )
                },
                None => discriminator_upto(obj.properties@, i as nat) == Ok::<Option<int>, SchemaError>(
                    None,
                ),
            },
        decreases obj.properties.len() - i,
    {
        let p = &obj.properties[i];
        match property_tag(p) {
            Err(e) => {
                proof {
                    lemma_discriminator_error_stays(
                        obj.properties@,
                        (i + 1) as nat,
                        obj.properties@.len(),
                    );
                }
                return Err(e);
            },
            Ok(Some(tag)) => {
                found = Some((i, p.name.clone(), tag));
            },
            Ok(None) => {},
        }
        i += 1;
    }
    match found {
        Some(x) => Ok(x),
        None => Err(SchemaError::NoDiscriminator),
    }
}

/// The content that a property of a variant gives.
pub fn get_content(p: &Property) -> (r: Result<(String, EnumVariantType), SchemaError>)
    ensures
        match r {
            Ok((name, content)) => content_of(*p) == Ok::<(Seq<char>, EnumVariantTypeView), SchemaError>(
                (name@, content@),
            ),
            Err(e) => content_of(*p) == Err::<(Seq<char>, EnumVariantTypeView), SchemaError>(e),
        },
{
    match &p.schema {
        Schema::Bool(_) => Err(SchemaError::BoolSchema),
        Schema::Object(o) => match &o.object {
            Some(object) => match struct_fields(object) {
                Err(e) => Err(e),
                Ok(fields) => {
                    proof {
                        lemma_variant_struct_view(fields);
                    }
                    Ok((p.name.clone(), EnumVariantType::Struct { fields }))
                },
            },
            None => match &o.reference {
                Some(r) => match get_schema_name(Some(r.as_str())) {
                    Some(name) => Ok(
                        (p.name.clone(), EnumVariantType::Ref { schema_ref: Some(name), inner: None }),
                    ),
                    None => Err(SchemaError::ForeignReference),
                },
                None => Err(SchemaError::NoContent),
            },
        },
    }
}

impl TypeData {
    /// The struct enum that a `oneOf` list describes, with `fields` as the
    /// fields that every variant shares.
    #[verifier::loop_isolation(false)]
    pub fn inline_struct_enum(one_of: &Vec<Schema>, fields: Vec<Field>) -> (r: Result<TypeData, SchemaError>)
        ensures
            match r {
                Ok(data) => struct_enum_of(one_of@, fields_view(fields@)) == Ok::<
                    TypeDataView,
                    SchemaError,
                >(data@),
                Err(e) => struct_enum_of(one_of@, fields_view(fields@)) == Err::<
                    TypeDataView,
                    SchemaError,
                >(e),
            },
    {
        let mut discriminator_field = SameString(None);
        let mut content_field = SameString(None);
        let mut variants: Vec<SimpleVariant> = Vec::new();
        let mut i: usize = 0;
        assert(variants_view(variants@) =~= Seq::<SimpleVariantView>::empty());
        while i < one_of.len()
            invariant
                i <= one_of.len(),
                inferred_upto(one_of@, i as nat) == Ok::<Inferred, SchemaError>(
                    Inferred {
                        discriminator_field: opt_text(discriminator_field.0),
                        content_field: opt_text(content_field.0),
                        variants: variants_view(variants@),
                    },
                ),
            decreases one_of.len() - i,
        {
            let ghost so_far = inferred_upto(one_of@, i as nat)->Ok_0;
            proof {
                lemma_inferred_error_stays(one_of@, (i + 1) as nat, one_of@.len());
            }
            let object: &ObjectValidation = match &one_of[i] {
                Schema::Bool(_) => {
                    return Err(SchemaError::BoolSchema);
                },
                Schema::Object(o) => match &o.object {
                    None => {
                        return Err(SchemaError::ObjectWithoutValidation);
                    },
                    Some(object) => &**object,
                },
            };
            let (d, field, tag) = match get_discriminator(object) {
                Ok(found) => found,
                Err(e) => {
                    return Err(e);
                },
            };
            if discriminator_field.update(field).is_err() {
                return Err(SchemaError::DiscriminatorMismatch);
            }
            let count = object.properties.len();
            if count > 2 {
                return Err(SchemaError::VariantPropertyCount);
            }
            if count == 1 {
                let v = SimpleVariant {
                    name: tag,
                    content: EnumVariantType::Ref { schema_ref: None, inner: None },
                };
                proof {
                    assert(variants_view(variants@.push(v)) =~= variants_view(variants@).push(v@));
                }
                variants.push(v);
            } else {
                let (name, content) = match get_content(&object.properties[1 - d]) {
                    Ok(found) => found,
                    Err(e) => {
                        return Err(e);
                    },
                };
                if content_field.update(name).is_err() {
                    return Err(SchemaError::ContentFieldMismatch);
                }
                let v = SimpleVariant { name: tag, content };
                proof {
                    assert(variants_view(variants@.push(v)) =~= variants_view(variants@).push(v@));
                }
                variants.push(v);
            }
            i += 1;
        }
        let discriminator_field = match discriminator_field.inner() {
            Some(f) => f,
            None => {
                return Err(SchemaError::NoDiscriminatorField);
            },
        };
        let content_field = match content_field.inner() {
            Some(f) => f,
            None => {
                return Err(SchemaError::NoContentField);
            },
        };
        proof {
            lemma_adjacently_tagged_view(content_field, variants);
        }
        let repr = StructEnumRepr::AdjacentlyTagged { content_field, variants };
        proof {
            lemma_struct_enum_view(discriminator_field, repr, fields);
        }
        Ok(TypeData::StructEnum { discriminator_field, repr, fields })
    }
}

} // verus!
