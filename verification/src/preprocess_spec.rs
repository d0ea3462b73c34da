//! Renaming of the component schemas of a document, and of every reference
//! to them, so that the types of two documents do not clash.

use vstd::prelude::*;
use crate::json::opt_text;
use crate::openapi::{
    Components, MediaEntry, MediaType, OpenApi, Operation, Parameter, ParameterData, ParameterSchemaOrContent,
    PathEntry, PathItem, Paths, ReferenceOr, RequestBody, Response, Responses, StatusEntry,
};
use crate::pool::{lists, pool_drain, pool_insert, pool_schemas, PoolEntry, SchemaPool};
use crate::schema::{ArrayItems, ArrayValidation, ObjectValidation, Property, Schema, SchemaObject};
use crate::text::{concat, replace_all, replaced};

verus! {

/// A schema name with the prefix.
pub open spec fn prefixed_name(name: Seq<char>) -> Seq<char> {
    "Ee"@ + name
}

/// A reference in which every schema name has the prefix.
pub open spec fn prefixed_ref(reference: Seq<char>) -> Seq<char> {
    replaced(reference, "#/components/schemas/"@, "#/components/schemas/Ee"@)
}

/// A schema name with the prefix.
pub fn prefix_str(v: &str) -> (r: String)
    ensures
        r@ == prefixed_name(v@),
{
    concat("Ee", v)
}

/// A reference in which every schema name has the prefix.
pub fn prefix_ref(v: &str) -> (r: String)
    ensures
        r@ == prefixed_ref(v@),
{
    replace_all(v, "#/components/schemas/", "#/components/schemas/Ee")
}

/// Gives every schema name in the reference the prefix.
pub fn prefix_ref_in_place(v: &mut String)
    ensures
        final(v)@ == prefixed_ref(old(v)@),
{
    let r = prefix_ref(v.as_str());
    *v = r;
}

/// Whether `b` is `a` with the prefix on the schema names in its
/// reference, in the references of its properties and in those of its
/// items, and is `a` in everything else.
pub open spec fn schema_prefixed(a: Schema, b: Schema) -> bool
    decreases a,
{
    match (a, b) {
        (Schema::Bool(x), Schema::Bool(y)) => x == y,
        (Schema::Object(x), Schema::Object(y)) => object_prefixed(x, y),
        _ => false,
    }
}

/// Whether `b` is `a` with the prefix on the schema names in its
/// references.
pub open spec fn object_prefixed(a: SchemaObject, b: SchemaObject) -> bool
    decreases a,
{
    &&& b.metadata == a.metadata
    &&& b.instance_type == a.instance_type
    &&& b.format == a.format
    &&& b.enum_values == a.enum_values
    &&& b.const_value == a.const_value
    &&& b.subschemas == a.subschemas
    &&& b.extensions == a.extensions
    &&& opt_text(b.reference) == match a.reference {
        Some(r) => Some(prefixed_ref(r@)),
        None => None,
    }
    &&& match (a.array, b.array) {
        (None, None) => true,
        (Some(x), Some(y)) => {
            &&& y.additional_items == x.additional_items
            &&& y.unique_items == x.unique_items
            &&& match (x.items, y.items) {
                (None, None) => true,
                (Some(ArrayItems::Single(p)), Some(ArrayItems::Single(q))) => schema_prefixed(*p, *q),
                (Some(ArrayItems::Multiple(v)), Some(ArrayItems::Multiple(w))) => v == w,
                _ => false,
            }
        },
        _ => false,
    }
    &&& match (a.object, b.object) {
        (None, None) => true,
        (Some(x), Some(y)) => {
            &&& y.max_properties == x.max_properties
            &&& y.min_properties == x.min_properties
            &&& y.required == x.required
            &&& y.pattern_properties == x.pattern_properties
            &&& y.additional_properties == x.additional_properties
            &&& y.property_names == x.property_names
            &&& y.properties@.len() == x.properties@.len()
            &&& forall|i: int|
                0 <= i < x.properties@.len() ==> y.properties@[i].name == x.properties@[i].name
                    && schema_prefixed(#[trigger] x.properties@[i].schema, y.properties@[i].schema)
        },
        _ => false,
    }
}

/// The schema with the prefix on the schema names in its references.
pub fn add_prefix_to_schema(json_schema: Schema) -> (r: Schema)
    ensures
        schema_prefixed(json_schema, r),
    decreases json_schema,
{
    match json_schema {
        Schema::Bool(b) => Schema::Bool(b),
        Schema::Object(schema_object) => Schema::Object(add_prefix_to_schema_obj(schema_object)),
    }
}

/// The schema object with the prefix on the schema names in its reference,
/// in the references of its properties and in those of its items.
#[verifier::loop_isolation(false)]
pub fn add_prefix_to_schema_obj(schema_object: SchemaObject) -> (r: SchemaObject)
    ensures
        object_prefixed(schema_object, r),
    decreases schema_object,
{
    let SchemaObject {
        metadata,
        instance_type,
        format,
        enum_values,
        const_value,
        subschemas,
        array,
        object,
        reference,
        extensions,
    } = schema_object;
    let reference = match reference {
        Some(r) => Some(prefix_ref(r.as_str())),
        None => None,
    };
    let object = match object {
        Some(boxed) => {
            let ObjectValidation {
                max_properties,
                min_properties,
                required,
                properties,
                pattern_properties,
                additional_properties,
                property_names,
            } = *boxed;
            let mut rest = properties;
            let mut done: Vec<Property> = Vec::new();
            let ghost all = rest@;
            let total = rest.len();
            let mut i: usize = 0;
            while i < total
                invariant
                    i <= total,
                    total == all.len(),
                    rest@ == all.skip(i as int),
                    done@.len() == i,
                    forall|j: int|
                        0 <= j < i ==> done@[j].name == all[j].name && schema_prefixed(
                            #[trigger] all[j].schema,
                            done@[j].schema,
                        ),
                decreases total - i,
            {
                let Property { name, schema } = rest.remove(0);
                proof {
                    assert(all[i as int].schema == schema);
                    assert(rest@ =~= all.skip(i + 1));
                    assert(decreases_to!(all => all[i as int]));
                }
                done.push(Property { name, schema: add_prefix_to_schema(schema) });
                i += 1;
            }
            Some(
                Box::new(
                    ObjectValidation {
                        max_properties,
                        min_properties,
                        required,
                        properties: done,
                        pattern_properties,
                        additional_properties,
                        property_names,
                    },
                ),
            )
        },
        None => None,
    };
    let array = match array {
        Some(boxed) => {
            let ArrayValidation { items, additional_items, unique_items } = *boxed;
            let items = match items {
                Some(ArrayItems::Single(item)) => Some(
                    ArrayItems::Single(Box::new(add_prefix_to_schema(*item))),
                ),
                Some(ArrayItems::Multiple(list)) => Some(ArrayItems::Multiple(list)),
                None => None,
            };
            Some(Box::new(ArrayValidation { items, additional_items, unique_items }))
        },
        None => None,
    };
    SchemaObject {
        metadata,
        instance_type,
        format,
        enum_values,
        const_value,
        subschemas,
        array,
        object,
        reference,
        extensions,
    }
}

/// Whether `b` holds the schemas of `a`, each under its name with the
/// prefix and with the prefix on the schema names in its references, and
/// nothing else.
pub open spec fn pool_prefixed(a: Map<Seq<char>, Schema>, b: Map<Seq<char>, Schema>) -> bool {
    &&& forall|k: Seq<char>| #[trigger]
        a.contains_key(k) ==> b.contains_key(prefixed_name(k)) && schema_prefixed(a[k], b[prefixed_name(k)])
    &&& forall|k2: Seq<char>| #[trigger]
        b.contains_key(k2) ==> exists|k: Seq<char>| a.contains_key(k) && k2 == #[trigger] prefixed_name(k)
}

/// Different names stay different with the prefix.
pub proof fn lemma_prefixed_name_injective(a: Seq<char>, b: Seq<char>)
    requires
        prefixed_name(a) == prefixed_name(b),
    ensures
        a == b,
{
    let p = "Ee"@;
    assert((p + a).skip(p.len() as int) =~= a);
    assert((p + b).skip(p.len() as int) =~= b);
}

/// Gives every component schema the prefix on its name and on the schema
/// names in its references.
pub fn add_prefix_to_components(components: &mut Components)
    ensures
        pool_prefixed(pool_schemas(old(components).schemas), pool_schemas(final(components).schemas)),
{
    let ghost before = pool_schemas(components.schemas);
    let mut rest = pool_drain(&mut components.schemas);
    let ghost all = rest@;
    let total = rest.len();
    let mut i: usize = 0;
    while i < total
        invariant
            i <= total,
            total == all.len(),
            rest@ == all.skip(i as int),
            lists(all, before),
            forall|j: int|
                0 <= j < i ==> pool_schemas(components.schemas).contains_key(
                    #[trigger] prefixed_name(all[j].name@),
                ) && schema_prefixed(all[j].schema, pool_schemas(components.schemas)[prefixed_name(all[j].name@)]),
            forall|k2: Seq<char>| #[trigger]
                pool_schemas(components.schemas).contains_key(k2) ==> exists|j: int|
                    0 <= j < i && k2 == #[trigger] prefixed_name(all[j].name@),
        decreases total - i,
    {
        let ghost pool_before = pool_schemas(components.schemas);
        let PoolEntry { name, schema } = rest.remove(0);
        proof {
            assert(all[i as int].name == name && all[i as int].schema == schema);
            assert(rest@ =~= all.skip(i + 1));
        }
        let new_name = prefix_str(name.as_str());
        let new_schema = add_prefix_to_schema(schema);
        pool_insert(&mut components.schemas, new_name, new_schema);
        proof {
            let pool_now = pool_schemas(components.schemas);
            assert forall|j: int| 0 <= j < i + 1 implies pool_now.contains_key(
                #[trigger] prefixed_name(all[j].name@),
            ) && schema_prefixed(all[j].schema, pool_now[prefixed_name(all[j].name@)]) by {
                if j < i {
                    if prefixed_name(all[j].name@) == prefixed_name(all[i as int].name@) {
                        lemma_prefixed_name_injective(all[j].name@, all[i as int].name@);
                    }
                }
            }
            assert forall|k2: Seq<char>| #[trigger] pool_now.contains_key(k2) implies exists|j: int|
                0 <= j < i + 1 && k2 == #[trigger] prefixed_name(all[j].name@) by {
                if k2 == prefixed_name(all[i as int].name@) {
                } else {
                    assert(pool_before.contains_key(k2));
                    let j = choose|j: int| 0 <= j < i && k2 == #[trigger] prefixed_name(all[j].name@);
                    assert(0 <= j < i + 1);
                }
            }
        }
        i += 1;
    }
    proof {
        let pool_now = pool_schemas(components.schemas);
        assert forall|k: Seq<char>| #[trigger] before.contains_key(k) implies pool_now.contains_key(
            prefixed_name(k),
        ) && schema_prefixed(before[k], pool_now[prefixed_name(k)]) by {
            let j = choose|j: int| 0 <= j < all.len() && #[trigger] all[j].name@ == k;
            assert(pool_now.contains_key(prefixed_name(all[j].name@)));
        }
        assert forall|k2: Seq<char>| #[trigger] pool_now.contains_key(k2) implies exists|k: Seq<char>|
            before.contains_key(k) && k2 == #[trigger] prefixed_name(k) by {
            let j = choose|j: int| 0 <= j < total && k2 == #[trigger] prefixed_name(all[j].name@);
            assert(before.contains_key(all[j].name@));
        }
    }
}

/// Whether `b` is `a` with the prefix on the schema names in its schema.
pub open spec fn media_prefixed(a: MediaType, b: MediaType) -> bool {
    &&& b.extensions == a.extensions
    &&& match (a.schema, b.schema) {
        (None, None) => true,
        (Some(x), Some(y)) => schema_prefixed(x, y),
        _ => false,
    }
}

/// Whether `b` is `a` with the prefix on the schema names in the schema of
/// each content type.
pub open spec fn content_prefixed(a: Seq<MediaEntry>, b: Seq<MediaEntry>) -> bool {
    &&& b.len() == a.len()
    &&& forall|i: int|
        0 <= i < a.len() ==> b[i].content_type == a[i].content_type && media_prefixed(
            #[trigger] a[i].media,
            b[i].media,
        )
}

/// Whether `b` is `a` with the prefix on the schema names in its reference
/// or in its content.
pub open spec fn request_body_prefixed(a: ReferenceOr<RequestBody>, b: ReferenceOr<RequestBody>) -> bool {
    match (a, b) {
        (ReferenceOr::Reference { reference: r }, ReferenceOr::Reference { reference: p }) => p@
            == prefixed_ref(r@),
        (ReferenceOr::Item(x), ReferenceOr::Item(y)) => y.required == x.required && y.extensions
            == x.extensions && content_prefixed(x.content@, y.content@),
        _ => false,
    }
}

/// Whether `b` is `a` with the prefix on the schema names in its reference
/// or in its content.
pub open spec fn response_prefixed(a: ReferenceOr<Response>, b: ReferenceOr<Response>) -> bool {
    match (a, b) {
        (ReferenceOr::Reference { reference: r }, ReferenceOr::Reference { reference: p }) => p@
            == prefixed_ref(r@),
        (ReferenceOr::Item(x), ReferenceOr::Item(y)) => y.extensions == x.extensions && content_prefixed(
            x.content@,
            y.content@,
        ),
        _ => false,
    }
}

/// Whether `b` is `a` with the prefix on the schema names in the response
/// of each status. The default response stays as it is.
pub open spec fn responses_prefixed(a: Responses, b: Responses) -> bool {
    &&& b.default == a.default
    &&& b.extensions == a.extensions
    &&& b.responses@.len() == a.responses@.len()
    &&& forall|i: int|
        0 <= i < a.responses@.len() ==> b.responses@[i].status == a.responses@[i].status
            && response_prefixed(#[trigger] a.responses@[i].response, b.responses@[i].response)
}

/// Whether `b` is `a` with the prefix on the schema names in its schema or
/// in its content.
pub open spec fn parameter_data_prefixed(a: ParameterData, b: ParameterData) -> bool {
    &&& b.name == a.name
    &&& b.description == a.description
    &&& b.required == a.required
    &&& match (a.format, b.format) {
        (ParameterSchemaOrContent::Schema(x), ParameterSchemaOrContent::Schema(y)) => schema_prefixed(x, y),
        (ParameterSchemaOrContent::Content(x), ParameterSchemaOrContent::Content(y)) => content_prefixed(x@, y@),
        _ => false,
    }
}

/// Whether `b` is `a` with the prefix on the schema names in its reference
/// or in what describes its value.
pub open spec fn parameter_prefixed(a: ReferenceOr<Parameter>, b: ReferenceOr<Parameter>) -> bool {
    match (a, b) {
        (ReferenceOr::Reference { reference: r }, ReferenceOr::Reference { reference: p }) => p@
            == prefixed_ref(r@),
        (ReferenceOr::Item(x), ReferenceOr::Item(y)) => match (x, y) {
            (
                Parameter::Query { parameter_data: d, allow_reserved: r, style: s, allow_empty_value: e },
                Parameter::Query { parameter_data: d2, allow_reserved: r2, style: s2, allow_empty_value: e2 },
            ) => r2 == r && s2 == s && e2 == e && parameter_data_prefixed(d, d2),
            (
                Parameter::Header { parameter_data: d, style: s },
                Parameter::Header { parameter_data: d2, style: s2 },
            ) => s2 == s && parameter_data_prefixed(d, d2),
            (
                Parameter::Path { parameter_data: d, style: s },
                Parameter::Path { parameter_data: d2, style: s2 },
            ) => s2 == s && parameter_data_prefixed(d, d2),
            (
                Parameter::Cookie { parameter_data: d, style: s },
                Parameter::Cookie { parameter_data: d2, style: s2 },
            ) => s2 == s && parameter_data_prefixed(d, d2),
            _ => false,
        },
        _ => false,
    }
}

/// Whether `b` is `a` with the prefix on the schema names in its request
/// body, its responses and its parameters. The operation ID stays as it is.
pub open spec fn operation_prefixed(a: Operation, b: Operation) -> bool {
    &&& b.description == a.description
    &&& b.operation_id == a.operation_id
    &&& b.deprecated == a.deprecated
    &&& b.extensions == a.extensions
    &&& match (a.request_body, b.request_body) {
        (None, None) => true,
        (Some(x), Some(y)) => request_body_prefixed(x, y),
        _ => false,
    }
    &&& match (a.responses, b.responses) {
        (None, None) => true,
        (Some(x), Some(y)) => responses_prefixed(x, y),
        _ => false,
    }
    &&& b.parameters@.len() == a.parameters@.len()
    &&& forall|i: int|
        0 <= i < a.parameters@.len() ==> parameter_prefixed(#[trigger] a.parameters@[i], b.parameters@[i])
}

fn add_prefix_to_content(content: Vec<MediaEntry>) -> (r: Vec<MediaEntry>)
    ensures
        content_prefixed(content@, r@),
{
    let mut rest = content;
    let mut done: Vec<MediaEntry> = Vec::new();
    let total = rest.len();
    let mut i: usize = 0;
    while i < total
        invariant
            i <= total,
            total == content@.len(),
            rest@ == content@.skip(i as int),
            done@.len() == i,
            forall|j: int|
                0 <= j < i ==> done@[j].content_type == content@[j].content_type && media_prefixed(
                    #[trigger] content@[j].media,
                    done@[j].media,
                ),
        decreases total - i,
    {
        let MediaEntry { content_type, media } = rest.remove(0);
        proof {
            assert(content@[i as int].media == media);
            assert(rest@ =~= content@.skip(i + 1));
        }
        let MediaType { schema, extensions } = media;
        let schema = match schema {
            Some(s) => Some(add_prefix_to_schema(s)),
            None => None,
        };
        done.push(MediaEntry { content_type, media: MediaType { schema, extensions } });
        i += 1;
    }
    done
}

fn add_prefix_to_parameter(param: ReferenceOr<Parameter>) -> (r: ReferenceOr<Parameter>)
    ensures
        parameter_prefixed(param, r),
{
    match param {
        ReferenceOr::Reference { reference } => ReferenceOr::Reference {
            reference: prefix_ref(reference.as_str()),
        },
        ReferenceOr::Item(item) => ReferenceOr::Item(
            match item {
                Parameter::Query { parameter_data, allow_reserved, style, allow_empty_value } => Parameter::Query {
                    parameter_data: add_prefix_to_parameter_data(parameter_data),
                    allow_reserved,
                    style,
                    allow_empty_value,
                },
                Parameter::Header { parameter_data, style } => Parameter::Header {
                    parameter_data: add_prefix_to_parameter_data(parameter_data),
                    style,
                },
                Parameter::Path { parameter_data, style } => Parameter::Path {
                    parameter_data: add_prefix_to_parameter_data(parameter_data),
                    style,
                },
                Parameter::Cookie { parameter_data, style } => Parameter::Cookie {
                    parameter_data: add_prefix_to_parameter_data(parameter_data),
                    style,
                },
            },
        ),
    }
}

fn add_prefix_to_parameter_data(data: ParameterData) -> (r: ParameterData)
    ensures
        parameter_data_prefixed(data, r),
{
    let ParameterData { name, description, required, format } = data;
    let format = match format {
        ParameterSchemaOrContent::Schema(s) => ParameterSchemaOrContent::Schema(add_prefix_to_schema(s)),
        ParameterSchemaOrContent::Content(c) => ParameterSchemaOrContent::Content(add_prefix_to_content(c)),
    };
    ParameterData { name, description, required, format }
}

fn add_prefix_to_responses(responses: Responses) -> (r: Responses)
    ensures
        responses_prefixed(responses, r),
{
    let Responses { default, responses: entries, extensions } = responses;
    let ghost all = entries@;
    let mut rest = entries;
    let mut done: Vec<StatusEntry> = Vec::new();
    let total = rest.len();
    let mut i: usize = 0;
    while i < total
        invariant
            i <= total,
            total == all.len(),
            rest@ == all.skip(i as int),
            done@.len() == i,
            forall|j: int|
                0 <= j < i ==> done@[j].status == all[j].status && response_prefixed(
                    #[trigger] all[j].response,
                    done@[j].response,
                ),
        decreases total - i,
    {
        let StatusEntry { status, response } = rest.remove(0);
        proof {
            assert(all[i as int].response == response);
            assert(rest@ =~= all.skip(i + 1));
        }
        let response = match response {
            ReferenceOr::Reference { reference } => ReferenceOr::Reference {
                reference: prefix_ref(reference.as_str()),
            },
            ReferenceOr::Item(Response { content, extensions }) => ReferenceOr::Item(
                Response { content: add_prefix_to_content(content), extensions },
            ),
        };
        done.push(StatusEntry { status, response });
        i += 1;
    }
    Responses { default, responses: done, extensions }
}

/// The operation with the prefix on the schema names in its request body,
/// its responses and its parameters.
pub fn add_prefix_to_op(op: Operation) -> (r: Operation)
    ensures
        operation_prefixed(op, r),
{
    let Operation { description, operation_id, parameters, request_body, responses, deprecated, extensions } = op;
    let request_body = match request_body {
        Some(ReferenceOr::Reference { reference }) => Some(
            ReferenceOr::Reference { reference: prefix_ref(reference.as_str()) },
        ),
        Some(ReferenceOr::Item(RequestBody { content, required, extensions })) => Some(
            ReferenceOr::Item(RequestBody { content: add_prefix_to_content(content), required, extensions }),
        ),
        None => None,
    };
    let responses = match responses {
        Some(r) => Some(add_prefix_to_responses(r)),
        None => None,
    };
    let ghost all = parameters@;
    let mut rest = parameters;
    let mut done: Vec<ReferenceOr<Parameter>> = Vec::new();
    let total = rest.len();
    let mut i: usize = 0;
    while i < total
        invariant
            i <= total,
            total == all.len(),
            rest@ == all.skip(i as int),
            done@.len() == i,
            forall|j: int| 0 <= j < i ==> parameter_prefixed(#[trigger] all[j], done@[j]),
        decreases total - i,
    {
        let param = rest.remove(0);
        proof {
            assert(all[i as int] == param);
            assert(rest@ =~= all.skip(i + 1));
        }
        done.push(add_prefix_to_parameter(param));
        i += 1;
    }
    Operation { description, operation_id, parameters: done, request_body, responses, deprecated, extensions }
}

/// Whether `b` is `a` with the prefix, if there is an operation.
pub open spec fn slot_prefixed(a: Option<Operation>, b: Option<Operation>) -> bool {
    match (a, b) {
        (None, None) => true,
        (Some(x), Some(y)) => operation_prefixed(x, y),
        _ => false,
    }
}

/// Whether `b` is `a` with the prefix in every operation but the one for
/// `delete`, which stays as it is.
pub open spec fn path_item_prefixed(a: PathItem, b: PathItem) -> bool {
    &&& slot_prefixed(a.get, b.get)
    &&& slot_prefixed(a.put, b.put)
    &&& slot_prefixed(a.post, b.post)
    &&& b.delete == a.delete
    &&& slot_prefixed(a.options, b.options)
    &&& slot_prefixed(a.head, b.head)
    &&& slot_prefixed(a.patch, b.patch)
    &&& slot_prefixed(a.trace, b.trace)
    &&& b.parameters == a.parameters
}

/// Whether `b` is `a` with the prefix in its operations, or is `a` where
/// `a` is given by reference.
pub open spec fn path_prefixed(a: ReferenceOr<PathItem>, b: ReferenceOr<PathItem>) -> bool {
    match (a, b) {
        (ReferenceOr::Item(p), ReferenceOr::Item(q)) => path_item_prefixed(p, q),
        (ReferenceOr::Reference { .. }, ReferenceOr::Reference { .. }) => b == a,
        _ => false,
    }
}

/// Whether `b` is `a` with the prefix on the names of the component
/// schemas and on every reference to them in the schemas and in the
/// operations of the paths. A path that is given by reference stays as it
/// is.
pub open spec fn document_prefixed(a: OpenApi, b: OpenApi) -> bool {
    &&& b.extensions == a.extensions
    &&& match (a.components, b.components) {
        (None, None) => true,
        (Some(x), Some(y)) => pool_prefixed(pool_schemas(x.schemas), pool_schemas(y.schemas)),
        _ => false,
    }
    &&& match (a.paths, b.paths) {
        (None, None) => true,
        (Some(x), Some(y)) => {
            &&& y.paths@.len() == x.paths@.len()
            &&& forall|i: int|
                0 <= i < x.paths@.len() ==> y.paths@[i].path == x.paths@[i].path && path_prefixed(
                    #[trigger] x.paths@[i].item,
                    y.paths@[i].item,
                )
        },
        _ => false,
    }
}

fn add_prefix_to_slot(slot: Option<Operation>) -> (r: Option<Operation>)
    ensures
        slot_prefixed(slot, r),
{
    match slot {
        Some(op) => Some(add_prefix_to_op(op)),
        None => None,
    }
}

fn add_prefix_to_path_item(item: PathItem) -> (r: PathItem)
    ensures
        path_item_prefixed(item, r),
{
    let PathItem { get, put, post, delete, options, head, patch, trace, parameters } = item;
    PathItem {
        get: add_prefix_to_slot(get),
        put: add_prefix_to_slot(put),
        post: add_prefix_to_slot(post),
        delete,
        options: add_prefix_to_slot(options),
        head: add_prefix_to_slot(head),
        patch: add_prefix_to_slot(patch),
        trace: add_prefix_to_slot(trace),
        parameters,
    }
}

/// Gives the name of every component schema of the document the prefix
/// `Ee`, and with it every reference to a component schema in the schemas
/// and in the operations of the paths.
pub fn add_ee_prefix(spec: &mut OpenApi)
    ensures
        document_prefixed(*old(spec), *final(spec)),
{
    let mut components = spec.components.take();
    match &mut components {
        Some(c) => {
            add_prefix_to_components(c);
        },
        None => {},
    }
    spec.components = components;
    let paths = spec.paths.take();
    let paths = match paths {
        None => None,
        Some(Paths { paths: entries }) => {
            let ghost all = entries@;
            let mut rest = entries;
            let mut done: Vec<PathEntry> = Vec::new();
            let total = rest.len();
            let mut i: usize = 0;
            while i < total
                invariant
                    i <= total,
                    total == all.len(),
                    rest@ == all.skip(i as int),
                    done@.len() == i,
                    forall|j: int|
                        0 <= j < i ==> done@[j].path == all[j].path && path_prefixed(
                            #[trigger] all[j].item,
                            done@[j].item,
                        ),
                decreases total - i,
            {
                let PathEntry { path, item } = rest.remove(0);
                proof {
                    assert(all[i as int].item == item);
                    assert(rest@ =~= all.skip(i + 1));
                }
                let item = match item {
                    ReferenceOr::Item(p) => ReferenceOr::Item(add_prefix_to_path_item(p)),
                    other => other,
                };
                done.push(PathEntry { path, item });
                i += 1;
            }
            Some(Paths { paths: done })
        },
    };
    spec.paths = paths;
}

} // verus!
