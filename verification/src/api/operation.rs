//! Operations of the API, and how each is read off an OpenAPI operation.

use vstd::prelude::*;
use crate::api::error::SchemaError;
use crate::api::ir::{FieldType, FieldTypeView};
use crate::api::types::field_type_of_schema;
use crate::api::{get_schema_name, schema_name_of};
use crate::json::{duplicate_opt_string, find_member, member_value, members_view, opt_text, JsonView};
use crate::name_map::NameSet;
use crate::openapi;
use crate::openapi::{
    HeaderStyle, MediaEntry, MediaType, Parameter, ParameterData, ParameterSchemaOrContent, PathStyle,
    QueryStyle, ReferenceOr, RequestBody, Response, Responses, StatusCode, StatusEntry,
};
use crate::pool::{pool_get, pool_schemas, SchemaPool};
use crate::schema::{InstanceType, Schema, SchemaTypes};
use crate::text::{split, split_on, str_eq, texts};

verus! {

/// Which operations to take into the API.
#[derive(Debug, PartialEq, Eq, Clone, Copy)]
pub enum IncludeMode {
    /// Only operations that are not marked as hidden.
    OnlyPublic,
    /// Every operation.
    PublicAndHidden,
    /// Only operations that are marked as hidden.
    OnlyHidden,
    /// Only operations whose ID was given.
    OnlySpecified,
}

/// Why an operation is left out of the API.
#[derive(Debug, PartialEq, Eq, Clone, Copy)]
pub enum SkipCause {
    /// The path has parameters that all of its operations share.
    SharedParameters,
    NoOperationId,
    /// The ID is among the excluded ones.
    Excluded,
    /// The include mode leaves the operation out.
    NotIncluded,
    /// The ID holds no period.
    NoPeriod,
    /// The ID holds one period only, so it names no resource.
    OnePeriod,
    /// The ID does not begin with `v1`.
    NotV1,
    RefParameter,
    OptionalPathParameter,
    UnsupportedPathParameter(SchemaError),
    UnsupportedHeaderParameter(SchemaError),
    UnsupportedQueryParameter(SchemaError),
    /// A cookie parameter, or a style or flag that is not supported.
    UnsupportedParameterKind,
    RefRequestBody,
    /// The request body's `$ref` leads to no object schema.
    UnresolvedRequestBody,
    RefResponse,
}

/// How a document breaks the conventions that every operation follows.
#[derive(Debug, PartialEq, Eq, Clone, Copy)]
pub enum MalformedKind {
    /// A path given by `$ref`.
    RefPath,
    OptionalRequestBody,
    RequestBodyExtensions,
    /// A request body with no content type, or with more than one.
    RequestBodyContentCount,
    RequestBodyNotJson,
    RequestMediaTypeExtensions,
    MissingRequestSchema,
    DefaultResponse,
    ResponsesExtensions,
    /// A status range, or a status below 200 or from 300 to 399.
    UnexpectedStatus,
    NoSuccessResponse,
    ResponseExtensions,
    /// A response with more than one content type.
    ResponseContentCount,
    ResponseNotJson,
    ResponseMediaTypeExtensions,
    MissingResponseSchema,
    /// Success responses that name different schemas.
    MismatchedResponseSchemas,
}

/// What reading a part of an operation comes to: a value, a reason to leave
/// the operation out, or a reason to give up on the document.
pub enum Outcome<T> {
    Found(T),
    Skip(SkipCause),
    Malformed(MalformedKind),
}

/// A header parameter.
#[derive(Debug, PartialEq)]
pub struct HeaderParam {
    pub name: String,
    pub required: bool,
}

/// A query parameter.
#[derive(Debug, PartialEq)]
pub struct QueryParam {
    pub name: String,
    pub description: Option<String>,
    pub required: bool,
    pub ty: FieldType,
}

/// A named HTTP endpoint.
#[derive(Debug, PartialEq)]
pub struct Operation {
    /// The operation ID from the document.
    pub id: String,
    /// The name to use for the operation in code.
    pub name: String,
    pub description: Option<String>,
    pub deprecated: bool,
    /// The HTTP method, in lower case.
    pub method: String,
    pub path: String,
    pub path_params: Vec<String>,
    pub header_params: Vec<HeaderParam>,
    pub query_params: Vec<QueryParam>,
    pub request_body_schema_name: Option<String>,
    /// Whether every field of the request body is optional.
    pub request_body_all_optional: bool,
    pub response_body_schema_name: Option<String>,
}

/// The model of a header parameter.
pub struct HeaderParamView {
    pub name: Seq<char>,
    pub required: bool,
}

/// The model of a query parameter.
pub struct QueryParamView {
    pub name: Seq<char>,
    pub description: Option<Seq<char>>,
    pub required: bool,
    pub ty: FieldTypeView,
}

/// The model of an operation.
pub struct OperationView {
    pub id: Seq<char>,
    pub name: Seq<char>,
    pub description: Option<Seq<char>>,
    pub deprecated: bool,
    pub method: Seq<char>,
    pub path: Seq<char>,
    pub path_params: Seq<Seq<char>>,
    pub header_params: Seq<HeaderParamView>,
    pub query_params: Seq<QueryParamView>,
    pub request_body_schema_name: Option<Seq<char>>,
    pub request_body_all_optional: bool,
    pub response_body_schema_name: Option<Seq<char>>,
}

impl View for HeaderParam {
    type V = HeaderParamView;

    open spec fn view(&self) -> HeaderParamView {
        HeaderParamView { name: self.name@, required: self.required }
    }
}

impl View for QueryParam {
    type V = QueryParamView;

    open spec fn view(&self) -> QueryParamView {
        QueryParamView {
            name: self.name@,
            description: opt_text(self.description),
            required: self.required,
            ty: self.ty@,
        }
    }
}

/// The models of a list of header parameters.
pub open spec fn header_params_view(params: Seq<HeaderParam>) -> Seq<HeaderParamView> {
    Seq::new(params.len(), |i: int| params[i]@)
}

/// The models of a list of query parameters.
pub open spec fn query_params_view(params: Seq<QueryParam>) -> Seq<QueryParamView> {
    Seq::new(params.len(), |i: int| params[i]@)
}

impl View for Operation {
    type V = OperationView;

    open spec fn view(&self) -> OperationView {
        OperationView {
            id: self.id@,
            name: self.name@,
            description: opt_text(self.description),
            deprecated: self.deprecated,
            method: self.method@,
            path: self.path@,
            path_params: texts(self.path_params@),
            header_params: header_params_view(self.header_params@),
            query_params: query_params_view(self.query_params@),
            request_body_schema_name: opt_text(self.request_body_schema_name),
            request_body_all_optional: self.request_body_all_optional,
            response_body_schema_name: opt_text(self.response_body_schema_name),
        }
    }
}

/// The models of a list of operations.
pub open spec fn operations_view(ops: Seq<Operation>) -> Seq<OperationView> {
    Seq::new(ops.len(), |i: int| ops[i]@)
}

/// Whether an operation carries the extension `x-hidden: true`.
pub open spec fn is_hidden(op: openapi::Operation) -> bool {
    member_value(members_view(op.extensions@), "x-hidden"@) == Some(JsonView::Bool(true))
}

/// Whether the include mode takes an operation in.
pub open spec fn included(mode: IncludeMode, hidden: bool, specified: bool) -> bool {
    match mode {
        IncludeMode::OnlyPublic => !hidden,
        IncludeMode::PublicAndHidden => true,
        IncludeMode::OnlyHidden => hidden,
        IncludeMode::OnlySpecified => specified,
    }
}

/// Why a parameter is not a plain string parameter, if it is not one.
pub open spec fn string_parameter_error(data: ParameterData) -> Option<SchemaError> {
    match data.format {
        ParameterSchemaOrContent::Content(_) => Some(SchemaError::ContentFormat),
        ParameterSchemaOrContent::Schema(Schema::Bool(_)) => Some(SchemaError::BoolSchema),
        ParameterSchemaOrContent::Schema(Schema::Object(obj)) => if obj.instance_type == Some(
            SchemaTypes::Single(InstanceType::String),
        ) {
            None
        } else {
            Some(SchemaError::UnsupportedType)
        },
    }
}

/// The field type of a parameter.
pub open spec fn parameter_type_of(format: ParameterSchemaOrContent) -> Result<FieldTypeView, SchemaError> {
    match format {
        ParameterSchemaOrContent::Content(_) => Err(SchemaError::ContentFormat),
        ParameterSchemaOrContent::Schema(s) => field_type_of_schema(s),
    }
}

/// The parameters of an operation, by where they go.
pub struct ParamsView {
    pub path_params: Seq<Seq<char>>,
    pub header_params: Seq<HeaderParamView>,
    pub query_params: Seq<QueryParamView>,
}

/// The parameters once one more has been read.
pub open spec fn with_parameter(so_far: ParamsView, method: Seq<char>, p: ReferenceOr<Parameter>) -> Result<
    ParamsView,
    SkipCause,
> {
    match p {
        ReferenceOr::Reference { .. } => Err(SkipCause::RefParameter),
        ReferenceOr::Item(Parameter::Path { parameter_data, style: PathStyle::Simple }) => {
            if !parameter_data.required {
                Err(SkipCause::OptionalPathParameter)
            } else {
                match string_parameter_error(parameter_data) {
                    Some(e) => Err(SkipCause::UnsupportedPathParameter(e)),
                    None => Ok(
                        ParamsView {
                            path_params: so_far.path_params.push(parameter_data.name@),
                            header_params: so_far.header_params,
                            query_params: so_far.query_params,
                        },
                    ),
                }
            }
        },
        ReferenceOr::Item(Parameter::Header { parameter_data, style: HeaderStyle::Simple }) => {
            match string_parameter_error(parameter_data) {
                Some(e) => Err(SkipCause::UnsupportedHeaderParameter(e)),
                None => Ok(
                    ParamsView {
                        path_params: so_far.path_params,
                        header_params: so_far.header_params.push(
                            HeaderParamView {
                                name: parameter_data.name@,
                                required: parameter_data.required,
                            },
                        ),
                        query_params: so_far.query_params,
                    },
                ),
            }
        },
        ReferenceOr::Item(
            Parameter::Query {
                parameter_data,
                allow_reserved: false,
                style: QueryStyle::Form,
                allow_empty_value: None,
            },
        ) => {
            if method == "post"@ && parameter_data.name@ == "get_if_exists"@ {
                Ok(so_far)
            } else {
                match parameter_type_of(parameter_data.format) {
                    Err(e) => Err(SkipCause::UnsupportedQueryParameter(e)),
                    Ok(ty) => Ok(
                        ParamsView {
                            path_params: so_far.path_params,
                            header_params: so_far.header_params,
                            query_params: so_far.query_params.push(
                                QueryParamView {
                                    name: parameter_data.name@,
                                    description: opt_text(parameter_data.description),
                                    required: parameter_data.required,
                                    ty,
                                },
                            ),
                        },
                    ),
                }
            }
        },
        ReferenceOr::Item(_) => Err(SkipCause::UnsupportedParameterKind),
    }
}

/// The first `n` parameters, by where they go; or why the operation is left
/// out because of one of them.
pub open spec fn params_upto(params: Seq<ReferenceOr<Parameter>>, method: Seq<char>, n: nat) -> Result<
    ParamsView,
    SkipCause,
>
    decreases n,
{
    if n == 0 {
        Ok(
            ParamsView {
                path_params: Seq::empty(),
                header_params: Seq::empty(),
                query_params: Seq::empty(),
            },
        )
    } else {
        match params_upto(params, method, (n - 1) as nat) {
            Err(c) => Err(c),
            Ok(so_far) => with_parameter(so_far, method, params[n - 1]),
        }
    }
}

/// Once a parameter has failed, every longer prefix fails the same way.
pub proof fn lemma_params_error_stays(params: Seq<ReferenceOr<Parameter>>, method: Seq<char>, n: nat, m: nat)
    requires
        n <= m,
    ensures
        params_upto(params, method, n) is Err ==> params_upto(params, method, m) == params_upto(
            params,
            method,
            n,
        ),
    decreases m - n,
{
    if n < m && params_upto(params, method, n) is Err {
        lemma_params_error_stays(params, method, n, (m - 1) as nat);
    }
}

/// The position of the first entry of the given content type, from `from`
/// on.
pub open spec fn media_index_from(content: Seq<MediaEntry>, content_type: Seq<char>, from: int) -> Option<int>
    decreases content.len() - from,
{
    if from < 0 || from >= content.len() {
        None
    } else if content[from].content_type@ == content_type {
        Some(from)
    } else {
        media_index_from(content, content_type, from + 1)
    }
}

/// What a body looks like as JSON, if it is given as JSON.
pub open spec fn json_media(content: Seq<MediaEntry>) -> Option<MediaType> {
    match media_index_from(content, "application/json"@, 0) {
        Some(i) => Some(content[i].media),
        None => None,
    }
}

/// The name of the component schema that a body schema refers to.
pub open spec fn body_schema_name(s: Schema) -> Option<Seq<char>> {
    match s {
        Schema::Bool(_) => None,
        Schema::Object(o) => schema_name_of(opt_text(o.reference)),
    }
}

/// Whether the object schema that a body schema is, or refers to, requires
/// no property.
pub open spec fn all_optional_of(s: Schema, pool: Map<Seq<char>, Schema>) -> Result<bool, SkipCause> {
    match s {
        Schema::Bool(_) => Ok(false),
        Schema::Object(o) => match o.object {
            Some(object) => Ok(object.required@.len() == 0),
            None => match o.reference {
                None => Ok(false),
                Some(r) => match schema_name_of(Some(r@)) {
                    None => Err(SkipCause::UnresolvedRequestBody),
                    Some(name) => if pool.contains_key(name) {
                        match pool[name] {
                            Schema::Bool(_) => Err(SkipCause::UnresolvedRequestBody),
                            Schema::Object(target) => match target.object {
                                Some(object) => Ok(object.required@.len() == 0),
                                None => Err(SkipCause::UnresolvedRequestBody),
                            },
                        }
                    } else {
                        Err(SkipCause::UnresolvedRequestBody)
                    },
                },
            },
        },
    }
}

/// The schema name of the request body and whether all of its fields are
/// optional.
pub open spec fn request_body_of(body: Option<ReferenceOr<RequestBody>>, pool: Map<Seq<char>, Schema>) -> Outcome<
    (Option<Seq<char>>, bool),
> {
    match body {
        None => Outcome::Found((None, false)),
        Some(ReferenceOr::Reference { .. }) => Outcome::Skip(SkipCause::RefRequestBody),
        Some(ReferenceOr::Item(b)) => if !b.required {
            Outcome::Malformed(MalformedKind::OptionalRequestBody)
        } else if b.extensions@.len() != 0 {
            Outcome::Malformed(MalformedKind::RequestBodyExtensions)
        } else if b.content@.len() != 1 {
            Outcome::Malformed(MalformedKind::RequestBodyContentCount)
        } else {
            match json_media(b.content@) {
                None => Outcome::Malformed(MalformedKind::RequestBodyNotJson),
                Some(media) => if media.extensions@.len() != 0 {
                    Outcome::Malformed(MalformedKind::RequestMediaTypeExtensions)
                } else {
                    match media.schema {
                        None => Outcome::Malformed(MalformedKind::MissingRequestSchema),
                        Some(s) => match all_optional_of(s, pool) {
                            Err(c) => Outcome::Skip(c),
                            Ok(all_optional) => Outcome::Found((body_schema_name(s), all_optional)),
                        },
                    }
                },
            }
        },
    }
}

/// The schema name of one response's body.
pub open spec fn response_name_of(resp: ReferenceOr<Response>) -> Outcome<Option<Seq<char>>> {
    match resp {
        ReferenceOr::Reference { .. } => Outcome::Skip(SkipCause::RefResponse),
        ReferenceOr::Item(r) => if r.extensions@.len() != 0 {
            Outcome::Malformed(MalformedKind::ResponseExtensions)
        } else if r.content@.len() == 0 {
            Outcome::Found(None)
        } else if r.content@.len() != 1 {
            Outcome::Malformed(MalformedKind::ResponseContentCount)
        } else {
            match json_media(r.content@) {
                None => Outcome::Malformed(MalformedKind::ResponseNotJson),
                Some(media) => if media.extensions@.len() != 0 {
                    Outcome::Malformed(MalformedKind::ResponseMediaTypeExtensions)
                } else {
                    match media.schema {
                        None => Outcome::Malformed(MalformedKind::MissingResponseSchema),
                        Some(s) => Outcome::Found(body_schema_name(s)),
                    }
                },
            }
        },
    }
}

/// Whether a status stands for success.
pub open spec fn is_success(status: StatusCode) -> bool {
    status matches StatusCode::Code(c) && 200 <= c < 300
}

/// Whether a status is one that no operation is expected to declare: a
/// range, an informational status, or a redirection.
pub open spec fn is_unexpected(status: StatusCode) -> bool {
    match status {
        StatusCode::Range(_) => true,
        StatusCode::Code(c) => c < 200 || (300 <= c < 400),
    }
}

/// The schema name that the success responses among the first `n` entries
/// agree on; `None` while there is no success response among them.
pub open spec fn responses_upto(entries: Seq<StatusEntry>, n: nat) -> Outcome<Option<Option<Seq<char>>>>
    decreases n,
{
    if n == 0 {
        Outcome::Found(None)
    } else {
        match responses_upto(entries, (n - 1) as nat) {
            Outcome::Found(so_far) => {
                let entry = entries[n - 1];
                if is_unexpected(entry.status) {
                    Outcome::Malformed(MalformedKind::UnexpectedStatus)
                } else if !is_success(entry.status) {
                    Outcome::Found(so_far)
                } else {
                    match response_name_of(entry.response) {
                        Outcome::Found(name) => match so_far {
                            None => Outcome::Found(Some(name)),
                            Some(agreed) => if agreed == name {
                                Outcome::Found(so_far)
                            } else {
                                Outcome::Malformed(MalformedKind::MismatchedResponseSchemas)
                            },
                        },
                        Outcome::Skip(c) => Outcome::Skip(c),
                        Outcome::Malformed(k) => Outcome::Malformed(k),
                    }
                }
            },
            Outcome::Skip(c) => Outcome::Skip(c),
            Outcome::Malformed(k) => Outcome::Malformed(k),
        }
    }
}

/// Once a response has failed, every longer prefix fails the same way.
pub proof fn lemma_responses_failure_stays(entries: Seq<StatusEntry>, n: nat, m: nat)
    requires
        n <= m,
    ensures
        !(responses_upto(entries, n) is Found) ==> responses_upto(entries, m) == responses_upto(entries, n),
    decreases m - n,
{
    if n < m && !(responses_upto(entries, n) is Found) {
        lemma_responses_failure_stays(entries, n, (m - 1) as nat);
    }
}

/// The schema name of the response body of an operation.
pub open spec fn response_of(responses: Option<Responses>) -> Outcome<Option<Seq<char>>> {
    match responses {
        None => Outcome::Found(None),
        Some(r) => if r.default is Some {
            Outcome::Malformed(MalformedKind::DefaultResponse)
        } else if r.extensions@.len() != 0 {
            Outcome::Malformed(MalformedKind::ResponsesExtensions)
        } else {
            match responses_upto(r.responses@, r.responses@.len()) {
                Outcome::Found(None) => Outcome::Malformed(MalformedKind::NoSuccessResponse),
                Outcome::Found(Some(name)) => Outcome::Found(name),
                Outcome::Skip(c) => Outcome::Skip(c),
                Outcome::Malformed(k) => Outcome::Malformed(k),
            }
        },
    }
}

/// The resource path and the operation that an OpenAPI operation gives: the
/// ID has the form `v1.<segment>(.<segment>)*.<name>`, the segments are the
/// resource path, and the last part is the operation's name.
pub open spec fn operation_of(
    path: Seq<char>,
    method: Seq<char>,
    op: openapi::Operation,
    pool: Map<Seq<char>, Schema>,
    mode: IncludeMode,
    excluded: Set<Seq<char>>,
    specified: Set<Seq<char>>,
) -> Outcome<(Seq<Seq<char>>, OperationView)> {
    match op.operation_id {
        None => Outcome::Skip(SkipCause::NoOperationId),
        Some(id) => {
            let parts = split_on(id@, '.');
            if excluded.contains(id@) {
                Outcome::Skip(SkipCause::Excluded)
            } else if !included(mode, is_hidden(op), specified.contains(id@)) {
                Outcome::Skip(SkipCause::NotIncluded)
            } else if parts.len() < 2 {
                Outcome::Skip(SkipCause::NoPeriod)
            } else if parts.len() < 3 {
                Outcome::Skip(SkipCause::OnePeriod)
            } else if parts[0] != "v1"@ {
                Outcome::Skip(SkipCause::NotV1)
            } else {
                match params_upto(op.parameters@, method, op.parameters@.len()) {
                    Err(c) => Outcome::Skip(c),
                    Ok(params) => match request_body_of(op.request_body, pool) {
                        Outcome::Skip(c) => Outcome::Skip(c),
                        Outcome::Malformed(k) => Outcome::Malformed(k),
                        Outcome::Found((request_name, all_optional)) => match response_of(op.responses) {
                            Outcome::Skip(c) => Outcome::Skip(c),
                            Outcome::Malformed(k) => Outcome::Malformed(k),
                            Outcome::Found(response_name) => Outcome::Found(
                                (
                                    parts.subrange(1, parts.len() - 1),
                                    OperationView {
                                        id: id@,
                                        name: parts.last(),
                                        description: opt_text(op.description),
                                        deprecated: op.deprecated,
                                        method,
                                        path,
                                        path_params: params.path_params,
                                        header_params: params.header_params,
                                        query_params: params.query_params,
                                        request_body_schema_name: request_name,
                                        request_body_all_optional: all_optional,
                                        response_body_schema_name: response_name,
                                    },
                                ),
                            ),
                        },
                    },
                }
            }
        },
    }
}

/// Whether a header is one that every client knows how to send.
pub open spec fn is_known_header(name: Seq<char>) -> bool {
    name == "idempotency-key"@
}

/// What the references of a list refer to.
pub open spec fn header_referents(list: Seq<&HeaderParam>) -> Seq<HeaderParam> {
    Seq::new(list.len(), |i: int| *list[i])
}

/// Whether two optional strings hold the same text, or both hold none.
pub fn opt_str_eq(a: &Option<String>, b: &Option<String>) -> (r: bool)
    ensures
        r == (opt_text(*a) == opt_text(*b)),
{
    match (a, b) {
        (Some(x), Some(y)) => str_eq(x.as_str(), y.as_str()),
        (None, None) => true,
        _ => false,
    }
}

/// Whether an operation carries the extension `x-hidden: true`.
pub fn hidden(op: &openapi::Operation) -> (r: bool)
    ensures
        r == is_hidden(*op),
{
    match find_member(&op.extensions, "x-hidden") {
        Some(v) => match v.as_bool() {
            Some(b) => b,
            None => false,
        },
        None => false,
    }
}

/// Whether the include mode takes an operation in.
pub fn is_included(mode: IncludeMode, hidden: bool, specified: bool) -> (r: bool)
    ensures
        r == included(mode, hidden, specified),
{
    match mode {
        IncludeMode::OnlyPublic => !hidden,
        IncludeMode::PublicAndHidden => true,
        IncludeMode::OnlyHidden => hidden,
        IncludeMode::OnlySpecified => specified,
    }
}

/// Checks that a parameter is a plain string parameter.
pub fn enforce_string_parameter(parameter_data: &ParameterData) -> (r: Result<(), SchemaError>)
    ensures
        match r {
            Ok(_) => string_parameter_error(*parameter_data) is None,
            Err(e) => string_parameter_error(*parameter_data) == Some(e),
        },
{
    match &parameter_data.format {
        ParameterSchemaOrContent::Content(_) => Err(SchemaError::ContentFormat),
        ParameterSchemaOrContent::Schema(Schema::Bool(_)) => Err(SchemaError::BoolSchema),
        ParameterSchemaOrContent::Schema(Schema::Object(obj)) => match &obj.instance_type {
            Some(SchemaTypes::Single(InstanceType::String)) => Ok(()),
            _ => Err(SchemaError::UnsupportedType),
        },
    }
}

impl FieldType {
    /// The field type of a parameter.
    pub fn from_openapi(format: &ParameterSchemaOrContent) -> (r: Result<FieldType, SchemaError>)
        ensures
            match r {
                Ok(t) => parameter_type_of(*format) == Ok::<FieldTypeView, SchemaError>(t@),
                Err(e) => parameter_type_of(*format) == Err::<FieldTypeView, SchemaError>(e),
            },
    {
        match format {
            ParameterSchemaOrContent::Content(_) => Err(SchemaError::ContentFormat),
            ParameterSchemaOrContent::Schema(s) => FieldType::from_schema(s),
        }
    }
}

/// The parameters of an operation, by where they go.
pub struct Params {
    pub path_params: Vec<String>,
    pub header_params: Vec<HeaderParam>,
    pub query_params: Vec<QueryParam>,
}

impl View for Params {
    type V = ParamsView;

    open spec fn view(&self) -> ParamsView {
        ParamsView {
            path_params: texts(self.path_params@),
            header_params: header_params_view(self.header_params@),
            query_params: query_params_view(self.query_params@),
        }
    }
}

/// Puts one more parameter where it goes.
fn read_parameter(acc: &mut Params, method: &str, p: &ReferenceOr<Parameter>) -> (r: Result<(), SkipCause>)
    ensures
        match r {
            Ok(_) => with_parameter(old(acc)@, method@, *p) == Ok::<ParamsView, SkipCause>(final(acc)@),
            Err(c) => with_parameter(old(acc)@, method@, *p) == Err::<ParamsView, SkipCause>(c),
        },
{
    match p {
        ReferenceOr::Reference { .. } => Err(SkipCause::RefParameter),
        ReferenceOr::Item(Parameter::Path { parameter_data, style: PathStyle::Simple }) => {
            if !parameter_data.required {
                return Err(SkipCause::OptionalPathParameter);
            }
            match enforce_string_parameter(parameter_data) {
                Err(e) => Err(SkipCause::UnsupportedPathParameter(e)),
                Ok(_) => {
                    let name = parameter_data.name.clone();
                    proof {
                        assert(texts(acc.path_params@.push(name)) =~= texts(acc.path_params@).push(name@));
                    }
                    acc.path_params.push(name);
                    Ok(())
                },
            }
        },
        ReferenceOr::Item(Parameter::Header { parameter_data, style: HeaderStyle::Simple }) => {
            match enforce_string_parameter(parameter_data) {
                Err(e) => Err(SkipCause::UnsupportedHeaderParameter(e)),
                Ok(_) => {
                    let h = HeaderParam {
                        name: parameter_data.name.clone(),
                        required: parameter_data.required,
                    };
                    proof {
                        assert(header_params_view(acc.header_params@.push(h)) =~= header_params_view(
                            acc.header_params@,
                        ).push(h@));
                    }
                    acc.header_params.push(h);
                    Ok(())
                },
            }
        },
        ReferenceOr::Item(
            Parameter::Query {
                parameter_data,
                allow_reserved: false,
                style: QueryStyle::Form,
                allow_empty_value: None,
            },
        ) => {
            if str_eq(method, "post") && str_eq(parameter_data.name.as_str(), "get_if_exists") {
                return Ok(());
            }
            match FieldType::from_openapi(&parameter_data.format) {
                Err(e) => Err(SkipCause::UnsupportedQueryParameter(e)),
                Ok(ty) => {
                    let q = QueryParam {
                        name: parameter_data.name.clone(),
                        description: duplicate_opt_string(&parameter_data.description),
                        required: parameter_data.required,
                        ty,
                    };
                    proof {
                        assert(query_params_view(acc.query_params@.push(q)) =~= query_params_view(
                            acc.query_params@,
                        ).push(q@));
                    }
                    acc.query_params.push(q);
                    Ok(())
                },
            }
        },
        ReferenceOr::Item(_) => Err(SkipCause::UnsupportedParameterKind),
    }
}

/// The parameters of an operation, by where they go.
pub fn read_parameters(params: &Vec<ReferenceOr<Parameter>>, method: &str) -> (r: Result<Params, SkipCause>)
    ensures
        match r {
            Ok(found) => params_upto(params@, method@, params@.len()) == Ok::<ParamsView, SkipCause>(found@),
            Err(c) => params_upto(params@, method@, params@.len()) == Err::<ParamsView, SkipCause>(c),
        },
{
    let mut acc = Params {
        path_params: Vec::new(),
        header_params: Vec::new(),
        query_params: Vec::new(),
    };
    proof {
        assert(acc@.path_params =~= Seq::<Seq<char>>::empty());
        assert(acc@.header_params =~= Seq::<HeaderParamView>::empty());
        assert(acc@.query_params =~= Seq::<QueryParamView>::empty());
    }
    let mut i: usize = 0;
    while i < params.len()
        invariant
            i <= params.len(),
            params_upto(params@, method@, i as nat) == Ok::<ParamsView, SkipCause>(acc@),
        decreases params.len() - i,
    {
        proof {
            lemma_params_error_stays(params@, method@, (i + 1) as nat, params@.len());
        }
        match read_parameter(&mut acc, method, &params[i]) {
            Ok(_) => {},
            Err(c) => {
                return Err(c);
            },
        }
        i += 1;
    }
    Ok(acc)
}

/// What a body looks like in the given content type.
pub fn find_media<'a>(content: &'a Vec<MediaEntry>, content_type: &str) -> (r: Option<&'a MediaType>)
    ensures
        match r {
            Some(m) => media_index_from(content@, content_type@, 0) is Some && content@[media_index_from(
                content@,
                content_type@,
                0,
            )->0].media == *m,
            None => media_index_from(content@, content_type@, 0) is None,
        },
{
    let mut i: usize = 0;
    while i < content.len()
        invariant
            i <= content.len(),
            media_index_from(content@, content_type@, 0) == media_index_from(
                content@,
                content_type@,
                i as int,
            ),
        decreases content.len() - i,
    {
        if str_eq(content[i].content_type.as_str(), content_type) {
            return Some(&content[i].media);
        }
        i += 1;
    }
    None
}

/// The name of the component schema that a body schema refers to.
pub fn body_schema(s: &Schema) -> (r: Option<String>)
    ensures
        opt_text(r) == body_schema_name(*s),
{
    match s {
        Schema::Bool(_) => None,
        Schema::Object(o) => match &o.reference {
            Some(reference) => get_schema_name(Some(reference.as_str())),
            None => get_schema_name(None),
        },
    }
}

/// Whether the object schema that a body schema is, or refers to, requires
/// no property.
pub fn all_optional(s: &Schema, component_schemas: &SchemaPool) -> (r: Result<bool, SkipCause>)
    ensures
        r == all_optional_of(*s, pool_schemas(*component_schemas)),
{
    match s {
        Schema::Bool(_) => Ok(false),
        Schema::Object(o) => match &o.object {
            Some(object) => Ok(object.required.len() == 0),
            None => match &o.reference {
                None => Ok(false),
                Some(reference) => match get_schema_name(Some(reference.as_str())) {
                    None => Err(SkipCause::UnresolvedRequestBody),
                    Some(name) => match pool_get(component_schemas, name.as_str()) {
                        Some(Schema::Object(target)) => match &target.object {
                            Some(object) => Ok(object.required.len() == 0),
                            None => Err(SkipCause::UnresolvedRequestBody),
                        },
                        _ => Err(SkipCause::UnresolvedRequestBody),
                    },
                },
            },
        },
    }
}

/// The schema name of the request body and whether all of its fields are
/// optional.
pub fn request_body(body: &Option<ReferenceOr<RequestBody>>, component_schemas: &SchemaPool) -> (r: Outcome<
    (Option<String>, bool),
>)
    ensures
        match r {
            Outcome::Found((name, all)) => request_body_of(*body, pool_schemas(*component_schemas))
                == Outcome::Found((opt_text(name), all)),
            Outcome::Skip(c) => request_body_of(*body, pool_schemas(*component_schemas)) == Outcome::<
                (Option<Seq<char>>, bool),
            >::Skip(c),
            Outcome::Malformed(k) => request_body_of(*body, pool_schemas(*component_schemas))
                == Outcome::<(Option<Seq<char>>, bool)>::Malformed(k),
        },
{
    match body {
        None => Outcome::Found((None, false)),
        Some(ReferenceOr::Reference { .. }) => Outcome::Skip(SkipCause::RefRequestBody),
        Some(ReferenceOr::Item(b)) => {
            if !b.required {
                return Outcome::Malformed(MalformedKind::OptionalRequestBody);
            }
            if b.extensions.len() != 0 {
                return Outcome::Malformed(MalformedKind::RequestBodyExtensions);
            }
            if b.content.len() != 1 {
                return Outcome::Malformed(MalformedKind::RequestBodyContentCount);
            }
            let media = match find_media(&b.content, "application/json") {
                Some(m) => m,
                None => {
                    return Outcome::Malformed(MalformedKind::RequestBodyNotJson);
                },
            };
            if media.extensions.len() != 0 {
                return Outcome::Malformed(MalformedKind::RequestMediaTypeExtensions);
            }
            let schema = match &media.schema {
                Some(s) => s,
                None => {
                    return Outcome::Malformed(MalformedKind::MissingRequestSchema);
                },
            };
            match all_optional(schema, component_schemas) {
                Err(c) => Outcome::Skip(c),
                Ok(all) => Outcome::Found((body_schema(schema), all)),
            }
        },
    }
}

/// The schema name of one response's body.
pub fn response_body_schema_name(resp: &ReferenceOr<Response>) -> (r: Outcome<Option<String>>)
    ensures
        match r {
            Outcome::Found(name) => response_name_of(*resp) == Outcome::Found(opt_text(name)),
            Outcome::Skip(c) => response_name_of(*resp) == Outcome::<Option<Seq<char>>>::Skip(c),
            Outcome::Malformed(k) => response_name_of(*resp) == Outcome::<Option<Seq<char>>>::Malformed(k),
        },
{
    match resp {
        ReferenceOr::Reference { .. } => Outcome::Skip(SkipCause::RefResponse),
        ReferenceOr::Item(r) => {
            if r.extensions.len() != 0 {
                return Outcome::Malformed(MalformedKind::ResponseExtensions);
            }
            if r.content.len() == 0 {
                return Outcome::Found(None);
            }
            if r.content.len() != 1 {
                return Outcome::Malformed(MalformedKind::ResponseContentCount);
            }
            let media = match find_media(&r.content, "application/json") {
                Some(m) => m,
                None => {
                    return Outcome::Malformed(MalformedKind::ResponseNotJson);
                },
            };
            if media.extensions.len() != 0 {
                return Outcome::Malformed(MalformedKind::ResponseMediaTypeExtensions);
            }
            match &media.schema {
                Some(s) => Outcome::Found(body_schema(s)),
                None => Outcome::Malformed(MalformedKind::MissingResponseSchema),
            }
        },
    }
}

/// Whether a status stands for success.
pub fn status_is_success(status: &StatusCode) -> (r: bool)
    ensures
        r == is_success(*status),
{
    match status {
        StatusCode::Code(c) => 200 <= *c && *c < 300,
        StatusCode::Range(_) => false,
    }
}

/// Whether a status is one that no operation is expected to declare.
pub fn status_is_unexpected(status: &StatusCode) -> (r: bool)
    ensures
        r == is_unexpected(*status),
{
    match status {
        StatusCode::Range(_) => true,
        StatusCode::Code(c) => *c < 200 || (300 <= *c && *c < 400),
    }
}

/// The view of what the success responses read so far agree on.
pub open spec fn agreed_view(agreed: Option<Option<String>>) -> Option<Option<Seq<char>>> {
    match agreed {
        Some(name) => Some(opt_text(name)),
        None => None,
    }
}

/// The schema name of the response body of an operation.
pub fn response_body(responses: &Option<Responses>) -> (r: Outcome<Option<String>>)
    ensures
        match r {
            Outcome::Found(name) => response_of(*responses) == Outcome::Found(opt_text(name)),
            Outcome::Skip(c) => response_of(*responses) == Outcome::<Option<Seq<char>>>::Skip(c),
            Outcome::Malformed(k) => response_of(*responses) == Outcome::<Option<Seq<char>>>::Malformed(k),
        },
{
    let r = match responses {
        None => {
            return Outcome::Found(None);
        },
        Some(r) => r,
    };
    if r.default.is_some() {
        return Outcome::Malformed(MalformedKind::DefaultResponse);
    }
    if r.extensions.len() != 0 {
        return Outcome::Malformed(MalformedKind::ResponsesExtensions);
    }
    let mut agreed: Option<Option<String>> = None;
    let mut i: usize = 0;
    while i < r.responses.len()
        invariant
            i <= r.responses.len(),
            *responses == Some(*r),
            r.default is None,
            r.extensions@.len() == 0,
            responses_upto(r.responses@, i as nat) == Outcome::Found(agreed_view(agreed)),
        decreases r.responses.len() - i,
    {
        proof {
            lemma_responses_failure_stays(r.responses@, (i + 1) as nat, r.responses@.len());
        }
        let entry = &r.responses[i];
        if status_is_unexpected(&entry.status) {
            return Outcome::Malformed(MalformedKind::UnexpectedStatus);
        }
        if status_is_success(&entry.status) {
            match response_body_schema_name(&entry.response) {
                Outcome::Skip(c) => {
                    return Outcome::Skip(c);
                },
                Outcome::Malformed(k) => {
                    return Outcome::Malformed(k);
                },
                Outcome::Found(name) => {
                    let same = match &agreed {
                        None => None,
                        Some(previous) => Some(opt_str_eq(previous, &name)),
                    };
                    match same {
                        None => {
                            agreed = Some(name);
                        },
                        Some(true) => {},
                        Some(false) => {
                            return Outcome::Malformed(MalformedKind::MismatchedResponseSchemas);
                        },
                    }
                },
            }
        }
        i += 1;
    }
    match agreed {
        None => Outcome::Malformed(MalformedKind::NoSuccessResponse),
        Some(name) => Outcome::Found(name),
    }
}

/// The strings of `parts` from position `from` up to position `to`.
pub fn copy_range(parts: &Vec<String>, from: usize, to: usize) -> (r: Vec<String>)
    requires
        from <= to <= parts@.len(),
    ensures
        texts(r@) == texts(parts@).subrange(from as int, to as int),
{
    let mut out: Vec<String> = Vec::new();
    let mut i: usize = from;
    while i < to
        invariant
            from <= i <= to <= parts@.len(),
            out@.len() == i - from,
            forall|j: int| 0 <= j < out@.len() ==> out@[j]@ == parts@[from + j]@,
        decreases to - i,
    {
        out.push(parts[i].clone());
        i += 1;
    }
    assert(texts(out@) =~= texts(parts@).subrange(from as int, to as int));
    out
}

impl Operation {
    /// The resource path and the operation that an OpenAPI operation gives.
    pub fn from_openapi(
        path: &str,
        method: &str,
        op: &openapi::Operation,
        component_schemas: &SchemaPool,
        include_mode: IncludeMode,
        excluded_operations: &NameSet,
        specified_operations: &NameSet,
    ) -> (r: Outcome<(Vec<String>, Operation)>)
        ensures
            match r {
                Outcome::Found((res_path, operation)) => operation_of(
                    path@,
                    method@,
                    *op,
                    pool_schemas(*component_schemas),
                    include_mode,
                    excluded_operations.names(),
                    specified_operations.names(),
                ) == Outcome::Found((texts(res_path@), operation@)) && res_path@.len() >= 1,
                Outcome::Skip(c) => operation_of(
                    path@,
                    method@,
                    *op,
                    pool_schemas(*component_schemas),
                    include_mode,
                    excluded_operations.names(),
                    specified_operations.names(),
                ) == Outcome::<(Seq<Seq<char>>, OperationView)>::Skip(c),
                Outcome::Malformed(k) => operation_of(
                    path@,
                    method@,
                    *op,
                    pool_schemas(*component_schemas),
                    include_mode,
                    excluded_operations.names(),
                    specified_operations.names(),
                ) == Outcome::<(Seq<Seq<char>>, OperationView)>::Malformed(k),
            },
    {
        let op_id = match &op.operation_id {
            Some(id) => id,
            None => {
                return Outcome::Skip(SkipCause::NoOperationId);
            },
        };
        if excluded_operations.contains(op_id.as_str()) {
            return Outcome::Skip(SkipCause::Excluded);
        }
        if !is_included(include_mode, hidden(op), specified_operations.contains(op_id.as_str())) {
            return Outcome::Skip(SkipCause::NotIncluded);
        }
        let parts = split(op_id.as_str(), '.');
        let count = parts.len();
        if count < 2 {
            return Outcome::Skip(SkipCause::NoPeriod);
        }
        if count < 3 {
            return Outcome::Skip(SkipCause::OnePeriod);
        }
        assert(texts(parts@)[0] == parts@[0]@);
        if !str_eq(parts[0].as_str(), "v1") {
            return Outcome::Skip(SkipCause::NotV1);
        }
        let params = match read_parameters(&op.parameters, method) {
            Ok(p) => p,
            Err(c) => {
                return Outcome::Skip(c);
            },
        };
        let (request_body_schema_name, request_body_all_optional) = match request_body(
            &op.request_body,
            component_schemas,
        ) {
            Outcome::Found(found) => found,
            Outcome::Skip(c) => {
                return Outcome::Skip(c);
            },
            Outcome::Malformed(k) => {
                return Outcome::Malformed(k);
            },
        };
        let response_body_schema_name = match response_body(&op.responses) {
            Outcome::Found(found) => found,
            Outcome::Skip(c) => {
                return Outcome::Skip(c);
            },
            Outcome::Malformed(k) => {
                return Outcome::Malformed(k);
            },
        };
        let res_path = copy_range(&parts, 1, count - 1);
        assert(texts(res_path@).len() == res_path@.len());
        assert(texts(parts@).subrange(1, count - 1).len() == count - 2);
        let name = parts[count - 1].clone();
        assert(texts(parts@).last() == name@);
        let Params { path_params, header_params, query_params } = params;
        let operation = Operation {
            id: op_id.clone(),
            name,
            description: duplicate_opt_string(&op.description),
            deprecated: op.deprecated,
            method: method.to_owned(),
            path: path.to_owned(),
            path_params,
            header_params,
            query_params,
            request_body_schema_name,
            request_body_all_optional,
            response_body_schema_name,
        };
        Outcome::Found((res_path, operation))
    }

    /// The header parameters that are kept although their names are not
    /// among the known ones.
    pub fn unknown_header_params(&self) -> (r: Vec<&HeaderParam>)
        ensures
            header_referents(r@) == self.header_params@.filter(|h: HeaderParam| !is_known_header(h.name@)),
    {
        let mut out: Vec<&HeaderParam> = Vec::new();
        let mut i: usize = 0;
        let ghost unknown = |h: HeaderParam| !is_known_header(h.name@);
        proof {
            assert(self.header_params@.take(0) =~= Seq::<HeaderParam>::empty());
            assert(header_referents(out@) =~= self.header_params@.take(0).filter(unknown));
        }
        while i < self.header_params.len()
            invariant
                i <= self.header_params.len(),
                unknown == |h: HeaderParam| !is_known_header(h.name@),
                header_referents(out@) == self.header_params@.take(i as int).filter(unknown),
            decreases self.header_params.len() - i,
        {
            proof {
                let head = self.header_params@.take(i + 1);
                assert(head.drop_last() =~= self.header_params@.take(i as int));
                assert(head.last() == self.header_params@[i as int]);
                reveal(Seq::filter);
            }
            let ghost before = header_referents(out@);
            if !str_eq(self.header_params[i].name.as_str(), "idempotency-key") {
                out.push(&self.header_params[i]);
                assert(header_referents(out@) =~= before.push(self.header_params@[i as int]));
            }
            i += 1;
        }
        assert(self.header_params@.take(self.header_params@.len() as int) =~= self.header_params@);
        out
    }

    /// Whether the operation has a query parameter or a header parameter.
    pub fn has_query_or_header_params(&self) -> (r: bool)
        ensures
            r == (self@.header_params.len() != 0 || self@.query_params.len() != 0),
    {
        self.header_params.len() != 0 || self.query_params.len() != 0
    }
}

} // verus!
