use indexmap::IndexMap;
use openapi_codegen::api::error::SchemaError;
use openapi_codegen::api::ir::FieldType;
use openapi_codegen::api::operation::{
    HeaderParam, IncludeMode, MalformedKind, Operation, Outcome, QueryParam, SkipCause,
};
use openapi_codegen::api::resources::{
    from_openapi, merge_resources, MalformedSpec, Resource, Resources, SkippedOperation,
};
use openapi_codegen::api::{from_referenced_components, Api};
use openapi_codegen::json::{JsonMember, JsonValue};
use openapi_codegen::name_map::NameSet;
use openapi_codegen::openapi;
use openapi_codegen::openapi::{
    CookieStyle, HeaderStyle, MediaEntry, MediaType, Parameter, ParameterData, ParameterSchemaOrContent,
    PathEntry, PathItem, PathStyle, Paths, QueryStyle, ReferenceOr, RequestBody, Response, Responses,
    StatusCode, StatusEntry,
};
use openapi_codegen::pool::SchemaPool;
use openapi_codegen::schema::{InstanceType, ObjectValidation, Property, Schema, SchemaObject, SchemaTypes};

fn string_schema() -> Schema {
    let mut s = SchemaObject::empty();
    s.instance_type = Some(SchemaTypes::Single(InstanceType::String));
    Schema::Object(s)
}

fn ref_schema(name: &str) -> Schema {
    let mut s = SchemaObject::empty();
    s.reference = Some(format!("#/components/schemas/{name}"));
    Schema::Object(s)
}

fn object_schema(properties: Vec<(&str, Schema)>, required: Vec<&str>) -> Schema {
    let mut s = SchemaObject::empty();
    s.instance_type = Some(SchemaTypes::Single(InstanceType::Object));
    let mut o = ObjectValidation::empty();
    o.properties =
        properties.into_iter().map(|(name, schema)| Property { name: name.to_string(), schema }).collect();
    o.required = required.into_iter().map(|r| r.to_string()).collect();
    s.object = Some(Box::new(o));
    Schema::Object(s)
}

fn json_content(schema: Schema) -> Vec<MediaEntry> {
    vec![MediaEntry {
        content_type: "application/json".to_string(),
        media: MediaType { schema: Some(schema), extensions: vec![] },
    }]
}

fn body(name: &str) -> ReferenceOr<RequestBody> {
    ReferenceOr::Item(RequestBody { content: json_content(ref_schema(name)), required: true, extensions: vec![] })
}

fn response(name: &str) -> ReferenceOr<Response> {
    ReferenceOr::Item(Response { content: json_content(ref_schema(name)), extensions: vec![] })
}

fn empty_response() -> ReferenceOr<Response> {
    ReferenceOr::Item(Response { content: vec![], extensions: vec![] })
}

fn responses(entries: Vec<(u16, ReferenceOr<Response>)>) -> Responses {
    Responses {
        default: None,
        responses: entries
            .into_iter()
            .map(|(code, response)| StatusEntry { status: StatusCode::Code(code), response })
            .collect(),
        extensions: vec![],
    }
}

fn operation(id: &str) -> openapi::Operation {
    openapi::Operation {
        description: None,
        operation_id: Some(id.to_string()),
        parameters: vec![],
        request_body: None,
        responses: Some(responses(vec![(204, empty_response())])),
        deprecated: false,
        extensions: vec![],
    }
}

fn data(name: &str, required: bool, schema: Schema) -> ParameterData {
    ParameterData {
        name: name.to_string(),
        description: None,
        required,
        format: ParameterSchemaOrContent::Schema(schema),
    }
}

fn path_param(name: &str) -> ReferenceOr<Parameter> {
    ReferenceOr::Item(Parameter::Path { parameter_data: data(name, true, string_schema()), style: PathStyle::Simple })
}

fn query_param(name: &str, required: bool, schema: Schema) -> ReferenceOr<Parameter> {
    ReferenceOr::Item(Parameter::Query {
        parameter_data: data(name, required, schema),
        allow_reserved: false,
        style: QueryStyle::Form,
        allow_empty_value: None,
    })
}

fn header_param(name: &str, required: bool) -> ReferenceOr<Parameter> {
    ReferenceOr::Item(Parameter::Header {
        parameter_data: data(name, required, string_schema()),
        style: HeaderStyle::Simple,
    })
}

fn set_of(list: &[&str]) -> NameSet {
    let mut s = NameSet::new();
    for n in list {
        s.insert(n.to_string());
    }
    s
}

fn extract(method: &str, op: &openapi::Operation) -> Outcome<(Vec<String>, Operation)> {
    let pool: SchemaPool = IndexMap::new();
    Operation::from_openapi("/api/v1/x", method, op, &pool, IncludeMode::OnlyPublic, &set_of(&[]), &set_of(&[]))
}

fn found(outcome: Outcome<(Vec<String>, Operation)>) -> (Vec<String>, Operation) {
    match outcome {
        Outcome::Found(x) => x,
        Outcome::Skip(c) => panic!("skipped: {c:?}"),
        Outcome::Malformed(k) => panic!("malformed: {k:?}"),
    }
}

fn skipped(outcome: Outcome<(Vec<String>, Operation)>) -> SkipCause {
    match outcome {
        Outcome::Skip(c) => c,
        Outcome::Found(_) => panic!("found"),
        Outcome::Malformed(k) => panic!("malformed: {k:?}"),
    }
}

fn malformed(outcome: Outcome<(Vec<String>, Operation)>) -> MalformedKind {
    match outcome {
        Outcome::Malformed(k) => k,
        Outcome::Found(_) => panic!("found"),
        Outcome::Skip(c) => panic!("skipped: {c:?}"),
    }
}

#[test]
fn resource_path_and_name_come_from_the_operation_id() {
    let op = operation("v1.message_attempt.endpoint.resend");
    let (res_path, operation) = found(extract("post", &op));
    assert_eq!(res_path, vec!["message_attempt", "endpoint"]);
    assert_eq!(operation.id, "v1.message_attempt.endpoint.resend");
    assert_eq!(operation.name, "resend");
    assert_eq!(operation.method, "post");
    assert_eq!(operation.path, "/api/v1/x");

    let mut resources = Resources::new();
    resources.insert_operation(&res_path, operation);
    assert_eq!(resources.len(), 1);
    let top = resources.get("message_attempt").unwrap();
    assert_eq!(top.name, "message_attempt");
    assert!(top.operations.is_empty());
    let leaf = top.subresources.get("endpoint").unwrap();
    assert_eq!(leaf.name, "message_attempt-endpoint");
    assert_eq!(leaf.operations.len(), 1);
    assert_eq!(leaf.operations[0].name, "resend");
}

#[test]
fn operation_ids_that_name_no_resource_are_skipped() {
    assert_eq!(skipped(extract("get", &operation("health"))), SkipCause::NoPeriod);
    assert_eq!(skipped(extract("get", &operation("v1.health"))), SkipCause::OnePeriod);
    assert_eq!(skipped(extract("get", &operation("v2.app.list"))), SkipCause::NotV1);
    assert_eq!(skipped(extract("get", &operation("app.v1.list"))), SkipCause::NotV1);
    let mut anonymous = operation("v1.app.list");
    anonymous.operation_id = None;
    assert_eq!(skipped(extract("get", &anonymous)), SkipCause::NoOperationId);
    let (res_path, op) = found(extract("get", &operation("v1.app.")));
    assert_eq!(res_path, vec!["app"]);
    assert_eq!(op.name, "");
}

#[test]
fn include_mode_and_lists_filter_operations() {
    let pool: SchemaPool = IndexMap::new();
    let public = operation("v1.app.list");
    let mut hidden = operation("v1.app.secret");
    hidden.extensions = vec![JsonMember { key: "x-hidden".to_string(), value: JsonValue::Bool(true) }];
    let mut not_hidden = operation("v1.app.open");
    not_hidden.extensions = vec![JsonMember { key: "x-hidden".to_string(), value: JsonValue::Bool(false) }];
    let run = |op: &openapi::Operation, mode: IncludeMode, excluded: &[&str], specified: &[&str]| {
        match Operation::from_openapi("/p", "get", op, &pool, mode, &set_of(excluded), &set_of(specified)) {
            Outcome::Found(_) => None,
            Outcome::Skip(c) => Some(c),
            Outcome::Malformed(k) => panic!("{k:?}"),
        }
    };
    assert_eq!(run(&public, IncludeMode::OnlyPublic, &[], &[]), None);
    assert_eq!(run(&hidden, IncludeMode::OnlyPublic, &[], &[]), Some(SkipCause::NotIncluded));
    assert_eq!(run(&not_hidden, IncludeMode::OnlyPublic, &[], &[]), None);
    assert_eq!(run(&public, IncludeMode::PublicAndHidden, &[], &[]), None);
    assert_eq!(run(&hidden, IncludeMode::PublicAndHidden, &[], &[]), None);
    assert_eq!(run(&public, IncludeMode::OnlyHidden, &[], &[]), Some(SkipCause::NotIncluded));
    assert_eq!(run(&hidden, IncludeMode::OnlyHidden, &[], &[]), None);
    assert_eq!(run(&public, IncludeMode::OnlySpecified, &[], &[]), Some(SkipCause::NotIncluded));
    assert_eq!(run(&hidden, IncludeMode::OnlySpecified, &[], &["v1.app.secret"]), None);
    assert_eq!(run(&public, IncludeMode::OnlyPublic, &["v1.app.list"], &[]), Some(SkipCause::Excluded));
    assert_eq!(
        run(&hidden, IncludeMode::OnlySpecified, &["v1.app.secret"], &["v1.app.secret"]),
        Some(SkipCause::Excluded)
    );
}

#[test]
fn parameters_go_where_they_belong() {
    let mut op = operation("v1.app.create");
    op.parameters = vec![
        path_param("app_id"),
        query_param("limit", false, {
            let mut s = SchemaObject::empty();
            s.instance_type = Some(SchemaTypes::Single(InstanceType::Integer));
            s.format = Some("uint64".to_string());
            Schema::Object(s)
        }),
        header_param("idempotency-key", false),
        header_param("x-other", true),
        query_param("get_if_exists", false, string_schema()),
        query_param("order", true, ref_schema("Ordering")),
    ];
    let (_, got) = found(extract("post", &op));
    assert_eq!(got.path_params, vec!["app_id"]);
    assert_eq!(
        got.header_params,
        vec![
            HeaderParam { name: "idempotency-key".to_string(), required: false },
            HeaderParam { name: "x-other".to_string(), required: true },
        ]
    );
    assert_eq!(
        got.query_params,
        vec![
            QueryParam { name: "limit".to_string(), description: None, required: false, ty: FieldType::UInt64 },
            QueryParam {
                name: "order".to_string(),
                description: None,
                required: true,
                ty: FieldType::SchemaRef { name: "Ordering".to_string(), inner: None },
            },
        ]
    );
    assert!(got.has_query_or_header_params());

    let (_, on_get) = found(extract("get", &op));
    assert_eq!(on_get.query_params.len(), 3);
    assert_eq!(on_get.query_params[1].name, "get_if_exists");
}

#[test]
fn unsupported_parameters_drop_the_operation() {
    let with = |p: ReferenceOr<Parameter>| {
        let mut op = operation("v1.app.get");
        op.parameters = vec![path_param("ok"), p];
        skipped(extract("get", &op))
    };
    assert_eq!(with(ReferenceOr::Reference { reference: "#/components/parameters/P".into() }), SkipCause::RefParameter);
    assert_eq!(
        with(ReferenceOr::Item(Parameter::Path {
            parameter_data: data("id", false, string_schema()),
            style: PathStyle::Simple
        })),
        SkipCause::OptionalPathParameter
    );
    assert_eq!(
        with(ReferenceOr::Item(Parameter::Path {
            parameter_data: data("id", true, ref_schema("Id")),
            style: PathStyle::Simple
        })),
        SkipCause::UnsupportedPathParameter(SchemaError::UnsupportedType)
    );
    assert_eq!(
        with(ReferenceOr::Item(Parameter::Path {
            parameter_data: data("id", true, string_schema()),
            style: PathStyle::Label
        })),
        SkipCause::UnsupportedParameterKind
    );
    assert_eq!(
        with(ReferenceOr::Item(Parameter::Header {
            parameter_data: data("h", true, Schema::Bool(true)),
            style: HeaderStyle::Simple
        })),
        SkipCause::UnsupportedHeaderParameter(SchemaError::BoolSchema)
    );
    assert_eq!(
        with(query_param("q", true, Schema::Object(SchemaObject::empty()))),
        SkipCause::UnsupportedQueryParameter(SchemaError::TypelessParameter)
    );
    assert_eq!(
        with(ReferenceOr::Item(Parameter::Query {
            parameter_data: ParameterData {
                name: "q".into(),
                description: None,
                required: false,
                format: ParameterSchemaOrContent::Content(vec![]),
            },
            allow_reserved: false,
            style: QueryStyle::Form,
            allow_empty_value: None,
        })),
        SkipCause::UnsupportedQueryParameter(SchemaError::ContentFormat)
    );
    assert_eq!(
        with(ReferenceOr::Item(Parameter::Query {
            parameter_data: data("q", false, string_schema()),
            allow_reserved: true,
            style: QueryStyle::Form,
            allow_empty_value: None,
        })),
        SkipCause::UnsupportedParameterKind
    );
    assert_eq!(
        with(ReferenceOr::Item(Parameter::Query {
            parameter_data: data("q", false, string_schema()),
            allow_reserved: false,
            style: QueryStyle::DeepObject,
            allow_empty_value: None,
        })),
        SkipCause::UnsupportedParameterKind
    );
    assert_eq!(
        with(ReferenceOr::Item(Parameter::Query {
            parameter_data: data("q", false, string_schema()),
            allow_reserved: false,
            style: QueryStyle::Form,
            allow_empty_value: Some(false),
        })),
        SkipCause::UnsupportedParameterKind
    );
    assert_eq!(
        with(ReferenceOr::Item(Parameter::Cookie {
            parameter_data: data("c", false, string_schema()),
            style: CookieStyle::Form
        })),
        SkipCause::UnsupportedParameterKind
    );
}

#[test]
fn request_body_names_its_schema() {
    let mut pool: SchemaPool = IndexMap::new();
    pool.insert("AppIn".to_string(), object_schema(vec![("name", string_schema())], vec!["name"]));
    pool.insert("AppPatch".to_string(), object_schema(vec![("name", string_schema())], vec![]));
    pool.insert("Alias".to_string(), ref_schema("AppIn"));
    let run = |op: &openapi::Operation| {
        Operation::from_openapi("/p", "post", op, &pool, IncludeMode::OnlyPublic, &set_of(&[]), &set_of(&[]))
    };
    let mut op = operation("v1.app.create");
    op.request_body = Some(body("AppIn"));
    let (_, got) = found(run(&op));
    assert_eq!(got.request_body_schema_name, Some("AppIn".to_string()));
    assert!(!got.request_body_all_optional);

    op.request_body = Some(body("AppPatch"));
    let (_, got) = found(run(&op));
    assert_eq!(got.request_body_schema_name, Some("AppPatch".to_string()));
    assert!(got.request_body_all_optional);

    op.request_body = Some(body("Alias"));
    assert_eq!(skipped(run(&op)), SkipCause::UnresolvedRequestBody);
    op.request_body = Some(body("Missing"));
    assert_eq!(skipped(run(&op)), SkipCause::UnresolvedRequestBody);
    op.request_body = Some(ReferenceOr::Reference { reference: "#/components/requestBodies/B".into() });
    assert_eq!(skipped(run(&op)), SkipCause::RefRequestBody);

    op.request_body = Some(ReferenceOr::Item(RequestBody {
        content: json_content(object_schema(vec![], vec![])),
        required: true,
        extensions: vec![],
    }));
    let (_, got) = found(run(&op));
    assert_eq!(got.request_body_schema_name, None);
    assert!(got.request_body_all_optional);

    op.request_body = None;
    let (_, got) = found(run(&op));
    assert_eq!(got.request_body_schema_name, None);
    assert!(!got.request_body_all_optional);
}

#[test]
fn malformed_request_bodies_are_fatal() {
    let with = |b: RequestBody| {
        let mut op = operation("v1.app.create");
        op.request_body = Some(ReferenceOr::Item(b));
        malformed(extract("post", &op))
    };
    let good = || RequestBody { content: json_content(ref_schema("A")), required: true, extensions: vec![] };
    let mut b = good();
    b.required = false;
    assert_eq!(with(b), MalformedKind::OptionalRequestBody);
    let mut b = good();
    b.extensions = vec![JsonMember { key: "x".into(), value: JsonValue::Null }];
    assert_eq!(with(b), MalformedKind::RequestBodyExtensions);
    let mut b = good();
    b.content.push(MediaEntry {
        content_type: "text/plain".into(),
        media: MediaType { schema: None, extensions: vec![] },
    });
    assert_eq!(with(b), MalformedKind::RequestBodyContentCount);
    let mut b = good();
    b.content.clear();
    assert_eq!(with(b), MalformedKind::RequestBodyContentCount);
    let mut b = good();
    b.content[0].content_type = "application/xml".into();
    assert_eq!(with(b), MalformedKind::RequestBodyNotJson);
    let mut b = good();
    b.content[0].media.extensions = vec![JsonMember { key: "x".into(), value: JsonValue::Null }];
    assert_eq!(with(b), MalformedKind::RequestMediaTypeExtensions);
    let mut b = good();
    b.content[0].media.schema = None;
    assert_eq!(with(b), MalformedKind::MissingRequestSchema);
}

#[test]
fn success_responses_must_agree_on_one_schema() {
    let with = |r: Option<Responses>| {
        let mut op = operation("v1.app.get");
        op.responses = r;
        extract("get", &op)
    };
    let (_, got) = found(with(Some(responses(vec![(200, response("Foo")), (201, response("Foo"))]))));
    assert_eq!(got.response_body_schema_name, Some("Foo".to_string()));
    assert_eq!(
        malformed(with(Some(responses(vec![(200, response("Foo")), (201, response("Bar"))])))),
        MalformedKind::MismatchedResponseSchemas
    );
    assert_eq!(
        malformed(with(Some(responses(vec![(200, response("Foo")), (204, empty_response())])))),
        MalformedKind::MismatchedResponseSchemas
    );
    let (_, got) = found(with(Some(responses(vec![
        (400, response("Error")),
        (202, response("Foo")),
        (500, response("Other")),
    ]))));
    assert_eq!(got.response_body_schema_name, Some("Foo".to_string()));
    let (_, got) = found(with(Some(responses(vec![(204, empty_response())]))));
    assert_eq!(got.response_body_schema_name, None);
    let (_, got) = found(with(None));
    assert_eq!(got.response_body_schema_name, None);

    assert_eq!(malformed(with(Some(responses(vec![])))), MalformedKind::NoSuccessResponse);
    assert_eq!(malformed(with(Some(responses(vec![(404, response("E"))])))), MalformedKind::NoSuccessResponse);
    assert_eq!(
        malformed(with(Some(responses(vec![(200, response("Foo")), (302, empty_response())])))),
        MalformedKind::UnexpectedStatus
    );
    assert_eq!(
        malformed(with(Some(responses(vec![(100, empty_response()), (200, response("Foo"))])))),
        MalformedKind::UnexpectedStatus
    );
    let mut ranged = responses(vec![(200, response("Foo"))]);
    ranged.responses.push(StatusEntry { status: StatusCode::Range(2), response: response("Foo") });
    assert_eq!(malformed(with(Some(ranged))), MalformedKind::UnexpectedStatus);
    let mut defaulted = responses(vec![(200, response("Foo"))]);
    defaulted.default = Some(response("Foo"));
    assert_eq!(malformed(with(Some(defaulted))), MalformedKind::DefaultResponse);
    let mut extended = responses(vec![(200, response("Foo"))]);
    extended.extensions = vec![JsonMember { key: "x".into(), value: JsonValue::Null }];
    assert_eq!(malformed(with(Some(extended))), MalformedKind::ResponsesExtensions);
    assert_eq!(
        skipped(with(Some(responses(vec![(
            200,
            ReferenceOr::Reference { reference: "#/components/responses/R".into() }
        )])))),
        SkipCause::RefResponse
    );
    let two_types = ReferenceOr::Item(Response {
        content: vec![
            MediaEntry {
                content_type: "application/json".into(),
                media: MediaType { schema: Some(ref_schema("A")), extensions: vec![] },
            },
            MediaEntry {
                content_type: "text/plain".into(),
                media: MediaType { schema: None, extensions: vec![] },
            },
        ],
        extensions: vec![],
    });
    assert_eq!(malformed(with(Some(responses(vec![(200, two_types)])))), MalformedKind::ResponseContentCount);
    let not_json = ReferenceOr::Item(Response {
        content: vec![MediaEntry {
            content_type: "text/plain".into(),
            media: MediaType { schema: None, extensions: vec![] },
        }],
        extensions: vec![],
    });
    assert_eq!(malformed(with(Some(responses(vec![(200, not_json)])))), MalformedKind::ResponseNotJson);
}

fn item(ops: Vec<(&str, openapi::Operation)>) -> PathItem {
    let mut p = PathItem {
        get: None,
        put: None,
        post: None,
        delete: None,
        options: None,
        head: None,
        patch: None,
        trace: None,
        parameters: vec![],
    };
    for (method, op) in ops {
        match method {
            "get" => p.get = Some(op),
            "put" => p.put = Some(op),
            "post" => p.post = Some(op),
            "delete" => p.delete = Some(op),
            "patch" => p.patch = Some(op),
            other => panic!("{other}"),
        }
    }
    p
}

fn sample_paths() -> Paths {
    let mut create = operation("v1.application.create");
    create.request_body = Some(body("ApplicationIn"));
    create.responses = Some(responses(vec![(201, response("ApplicationOut"))]));
    let mut list = operation("v1.application.list");
    list.responses = Some(responses(vec![(200, response("ListResponse"))]));
    list.parameters = vec![query_param("order", false, ref_schema("Ordering"))];
    let mut resend = operation("v1.message_attempt.endpoint.resend");
    resend.parameters = vec![path_param("app_id")];
    let mut shared = item(vec![("get", operation("v1.shared.get"))]);
    shared.parameters = vec![path_param("id")];
    Paths {
        paths: vec![
            PathEntry {
                path: "/api/v1/app".into(),
                item: ReferenceOr::Item(item(vec![("post", create), ("get", list)])),
            },
            PathEntry { path: "/api/v1/shared/{id}".into(), item: ReferenceOr::Item(shared) },
            PathEntry {
                path: "/api/v1/app/{app_id}/resend".into(),
                item: ReferenceOr::Item(item(vec![
                    ("post", resend),
                    ("delete", operation("health")),
                ])),
            },
        ],
    }
}

fn sample_pool() -> SchemaPool {
    let mut pool: SchemaPool = IndexMap::new();
    pool.insert("ApplicationIn".into(), object_schema(vec![("name", string_schema())], vec!["name"]));
    pool.insert(
        "ApplicationOut".into(),
        object_schema(vec![("name", string_schema()), ("owner", ref_schema("Owner"))], vec![]),
    );
    pool.insert("ListResponse".into(), object_schema(vec![("first", ref_schema("ApplicationOut"))], vec![]));
    pool.insert("Owner".into(), object_schema(vec![], vec![]));
    pool.insert("Unused".into(), object_schema(vec![], vec![]));
    pool.insert("Hook".into(), object_schema(vec![], vec![]));
    pool
}

#[test]
fn paths_become_a_resource_tree() {
    let pool = sample_pool();
    let draft =
        from_openapi(&sample_paths(), &pool, IncludeMode::OnlyPublic, &set_of(&[]), &set_of(&[])).unwrap();
    assert_eq!(draft.resources.len(), 2);
    assert_eq!(draft.resources.key_at(0), "application");
    assert_eq!(draft.resources.key_at(1), "message_attempt");
    let application = draft.resources.get("application").unwrap();
    assert_eq!(application.name, "application");
    let names: Vec<&str> = application.operations.iter().map(|o| o.name.as_str()).collect();
    assert_eq!(names, vec!["list", "create"]);
    let methods: Vec<&str> = application.operations.iter().map(|o| o.method.as_str()).collect();
    assert_eq!(methods, vec!["get", "post"]);
    assert_eq!(
        draft.skipped,
        vec![
            SkippedOperation {
                path: "/api/v1/shared/{id}".into(),
                method: String::new(),
                operation_id: None,
                cause: SkipCause::SharedParameters,
            },
            SkippedOperation {
                path: "/api/v1/app/{app_id}/resend".into(),
                method: "delete".into(),
                operation_id: Some("health".into()),
                cause: SkipCause::NoPeriod,
            },
        ]
    );
    let mut refs = NameSet::new();
    draft.resources.referenced_components(&mut refs);
    assert_eq!(refs.to_vec(), vec!["ApplicationIn", "ApplicationOut", "ListResponse", "Ordering"]);

    let visits = draft.resources.walk(&vec![]);
    let seen: Vec<(Vec<String>, &str)> =
        visits.iter().map(|v| (v.parents.clone(), v.resource.name.as_str())).collect();
    assert_eq!(
        seen,
        vec![
            (vec!["application".to_string()], "application"),
            (vec!["message_attempt".to_string()], "message_attempt"),
            (vec!["message_attempt".to_string(), "endpoint".to_string()], "message_attempt-endpoint"),
        ]
    );
}

#[test]
fn malformed_documents_say_where() {
    let pool = sample_pool();
    let mut paths = sample_paths();
    let mut bad = operation("v1.application.get");
    bad.responses = Some(responses(vec![(200, response("A")), (201, response("B"))]));
    paths.paths.push(PathEntry {
        path: "/api/v1/app/{id}".into(),
        item: ReferenceOr::Item(item(vec![("get", bad)])),
    });
    paths.paths.push(PathEntry { path: "/never".into(), item: ReferenceOr::Reference { reference: "x".into() } });
    let err = from_openapi(&paths, &pool, IncludeMode::OnlyPublic, &set_of(&[]), &set_of(&[])).err().unwrap();
    assert_eq!(
        err,
        MalformedSpec {
            kind: MalformedKind::MismatchedResponseSchemas,
            path: "/api/v1/app/{id}".into(),
            method: "get".into(),
            operation_id: Some("v1.application.get".into()),
        }
    );
    let only_ref =
        Paths { paths: vec![PathEntry { path: "/r".into(), item: ReferenceOr::Reference { reference: "x".into() } }] };
    let err = from_openapi(&only_ref, &pool, IncludeMode::OnlyPublic, &set_of(&[]), &set_of(&[])).err().unwrap();
    assert_eq!(
        err,
        MalformedSpec { kind: MalformedKind::RefPath, path: "/r".into(), method: String::new(), operation_id: None }
    );
}

#[test]
fn api_closes_over_the_types_of_its_operations() {
    let mut pool = sample_pool();
    let (api, report) = Api::new(
        &sample_paths(),
        &mut pool,
        &vec!["Hook".to_string()],
        IncludeMode::OnlyPublic,
        &set_of(&[]),
        &set_of(&[]),
    )
    .unwrap();
    let names: Vec<&str> = (0..api.types.len()).map(|i| api.types.key_at(i)).collect();
    assert_eq!(names, vec!["ApplicationIn", "ApplicationOut", "Hook", "ListResponse", "Owner"]);
    assert_eq!(report.skipped_schemas.len(), 1);
    assert!(report.skipped_schemas.contains_key("Ordering"));
    assert_eq!(report.skipped_operations.len(), 2);
    let left: Vec<&str> = pool.keys().map(|k| k.as_str()).collect();
    assert_eq!(left, vec!["Unused"]);

    let mut pool = sample_pool();
    let (api, _) = Api::new(
        &sample_paths(),
        &mut pool,
        &vec!["Hook".to_string()],
        IncludeMode::OnlySpecified,
        &set_of(&[]),
        &set_of(&["v1.application.create"]),
    )
    .unwrap();
    let names: Vec<&str> = (0..api.types.len()).map(|i| api.types.key_at(i)).collect();
    assert_eq!(names, vec!["ApplicationIn", "ApplicationOut", "Owner"]);
    assert_eq!(api.resources.len(), 1);
}

#[test]
fn seeds_come_from_webhooks_and_operations() {
    let mut pool = sample_pool();
    let graph = from_referenced_components(
        &Resources::new(),
        &mut pool,
        &vec!["Hook".to_string(), "Data".to_string()],
        IncludeMode::PublicAndHidden,
    );
    assert_eq!(graph.types.len(), 1);
    assert!(graph.types.contains_key("Hook"));
    assert_eq!(graph.skipped.len(), 0);
    let graph =
        from_referenced_components(&Resources::new(), &mut pool, &vec!["Owner".to_string()], IncludeMode::OnlySpecified);
    assert_eq!(graph.types.len(), 0);
}

fn plain_operation(name: &str) -> Operation {
    Operation {
        id: format!("v1.x.{name}"),
        name: name.to_string(),
        description: None,
        deprecated: false,
        method: "get".into(),
        path: "/".into(),
        path_params: vec![],
        header_params: vec![],
        query_params: vec![],
        request_body_schema_name: None,
        request_body_all_optional: false,
        response_body_schema_name: None,
    }
}

fn tree(ops: Vec<(Vec<&str>, &str)>) -> Resources {
    let mut r = Resources::new();
    for (path, name) in ops {
        let path: Vec<String> = path.into_iter().map(|s| s.to_string()).collect();
        r.insert_operation(&path, plain_operation(name));
    }
    r
}

fn operation_names(r: &Resource) -> Vec<&str> {
    r.operations.iter().map(|o| o.name.as_str()).collect()
}

#[test]
fn merging_appends_operations_and_keeps_the_rest() {
    let mut dst = tree(vec![(vec!["a"], "one"), (vec!["a", "b"], "two"), (vec!["c"], "three")]);
    let src = tree(vec![(vec!["a"], "four"), (vec!["a", "b"], "five"), (vec!["a", "d"], "six"), (vec!["e"], "seven")]);
    merge_resources(&mut dst, src);
    assert_eq!(dst.len(), 3);
    let a = dst.get("a").unwrap();
    assert_eq!(a.name, "a");
    assert_eq!(operation_names(a), vec!["one", "four"]);
    assert_eq!(a.subresources.len(), 2);
    assert_eq!(operation_names(a.subresources.get("b").unwrap()), vec!["two", "five"]);
    assert_eq!(a.subresources.get("d").unwrap().name, "a-d");
    assert_eq!(operation_names(dst.get("c").unwrap()), vec!["three"]);
    assert_eq!(operation_names(dst.get("e").unwrap()), vec!["seven"]);
}

#[test]
fn partial_apis_become_one() {
    let first = Api { resources: tree(vec![(vec!["a"], "one")]), types: Default::default_types() };
    let second = Api { resources: tree(vec![(vec!["a"], "two"), (vec!["b"], "three")]), types: Default::default_types() };
    let all = Api::from_iter(vec![first, second]);
    assert_eq!(all.resources.len(), 2);
    assert_eq!(operation_names(all.resources.get("a").unwrap()), vec!["one", "two"]);
    assert_eq!(all.types.len(), 0);
    let none = Api::from_iter(vec![]);
    assert_eq!(none.resources.len(), 0);
}

struct Default;

impl Default {
    fn default_types() -> openapi_codegen::name_map::NameMap<openapi_codegen::api::ir::Type> {
        openapi_codegen::name_map::NameMap::new()
    }
}

#[test]
fn resources_are_listed_by_name() {
    let list = vec![
        Resource { name: "b".into(), operations: vec![plain_operation("x")], subresources: Resources::new() },
        Resource { name: "a".into(), operations: vec![], subresources: Resources::new() },
        Resource { name: "b".into(), operations: vec![plain_operation("y")], subresources: Resources::new() },
    ];
    let r = Resources::from_list(list);
    assert_eq!(r.len(), 2);
    assert_eq!(r.key_at(0), "a");
    assert_eq!(operation_names(r.get("b").unwrap()), vec!["y"]);
}

#[test]
fn unknown_headers_are_kept_and_listed() {
    let mut op = operation("v1.app.create");
    op.parameters =
        vec![header_param("idempotency-key", false), header_param("x-trace", true), header_param("X-Other", false)];
    let (_, got) = found(extract("post", &op));
    assert_eq!(got.header_params.len(), 3);
    let unknown: Vec<&str> = got.unknown_header_params().into_iter().map(|h| h.name.as_str()).collect();
    assert_eq!(unknown, vec!["x-trace", "X-Other"]);
}

#[test]
fn resources_are_named_by_their_paths() {
    let good = tree(vec![(vec!["a"], "one"), (vec!["a", "b", "c"], "two"), (vec!["d"], "three")]);
    assert!(good.well_named(None));
    assert!(!good.well_named(Some("x")));
    assert!(good.get("a").unwrap().named("a"));
    assert!(good.get("a").unwrap().subresources.well_named(Some("a")));
    assert!(!good.get("a").unwrap().subresources.well_named(None));
    let deep = good.get("a").unwrap().subresources.get("b").unwrap().subresources.get("c").unwrap();
    assert_eq!(deep.name, "a-b-c");

    let mut bad = Resources::new();
    bad.insert("a".into(), Resource { name: "b".into(), operations: vec![], subresources: Resources::new() });
    assert!(!bad.well_named(None));
    let mut nested = Resources::new();
    nested.insert("x".into(), Resource { name: "x".into(), operations: vec![], subresources: bad });
    assert!(!nested.well_named(None));
    assert!(Resources::new().well_named(None));
}
