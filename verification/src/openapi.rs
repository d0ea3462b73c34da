//! The part of an OpenAPI document that the generator reads: paths, their
//! operations, and the parameters, bodies and responses of each.

use vstd::prelude::*;
use crate::json::JsonMember;
use crate::pool::SchemaPool;
use crate::schema::Schema;

verus! {

/// A value given in place, or a `$ref` to one given elsewhere.
#[derive(Debug, PartialEq)]
pub enum ReferenceOr<T> {
    Reference { reference: String },
    Item(T),
}

/// How a parameter describes its value.
#[derive(Debug, PartialEq)]
pub enum ParameterSchemaOrContent {
    Schema(Schema),
    Content(Vec<MediaEntry>),
}

/// What every kind of parameter has.
#[derive(Debug, PartialEq)]
pub struct ParameterData {
    pub name: String,
    pub description: Option<String>,
    pub required: bool,
    pub format: ParameterSchemaOrContent,
}

/// How a path parameter is written into the path.
#[derive(Debug, PartialEq, Eq, Clone, Copy)]
pub enum PathStyle {
    Matrix,
    Label,
    Simple,
}

/// How a query parameter is written into the query.
#[derive(Debug, PartialEq, Eq, Clone, Copy)]
pub enum QueryStyle {
    Form,
    SpaceDelimited,
    PipeDelimited,
    DeepObject,
}

/// How a header parameter is written.
#[derive(Debug, PartialEq, Eq, Clone, Copy)]
pub enum HeaderStyle {
    Simple,
}

/// How a cookie parameter is written.
#[derive(Debug, PartialEq, Eq, Clone, Copy)]
pub enum CookieStyle {
    Form,
}

/// A parameter of an operation.
#[allow(inconsistent_fields)]
#[derive(Debug, PartialEq)]
pub enum Parameter {
    Query {
        parameter_data: ParameterData,
        allow_reserved: bool,
        style: QueryStyle,
        allow_empty_value: Option<bool>,
    },
    Header { parameter_data: ParameterData, style: HeaderStyle },
    Path { parameter_data: ParameterData, style: PathStyle },
    Cookie { parameter_data: ParameterData, style: CookieStyle },
}

/// The schema of a body in one content type.
#[derive(Debug, PartialEq)]
pub struct MediaType {
    pub schema: Option<Schema>,
    pub extensions: Vec<JsonMember>,
}

/// A content type with what a body looks like in it.
#[derive(Debug, PartialEq)]
pub struct MediaEntry {
    pub content_type: String,
    pub media: MediaType,
}

/// The body of a request, by content type.
#[derive(Debug, PartialEq)]
pub struct RequestBody {
    pub content: Vec<MediaEntry>,
    pub required: bool,
    pub extensions: Vec<JsonMember>,
}

/// The body of a response, by content type.
#[derive(Debug, PartialEq)]
pub struct Response {
    pub content: Vec<MediaEntry>,
    pub extensions: Vec<JsonMember>,
}

/// A status code, or a range of them such as `2XX`.
#[derive(Debug, PartialEq, Eq, Clone, Copy)]
pub enum StatusCode {
    Code(u16),
    Range(u16),
}

/// The response given under one status.
#[derive(Debug, PartialEq)]
pub struct StatusEntry {
    pub status: StatusCode,
    pub response: ReferenceOr<Response>,
}

/// The responses of an operation, by status.
#[derive(Debug, PartialEq)]
pub struct Responses {
    pub default: Option<ReferenceOr<Response>>,
    pub responses: Vec<StatusEntry>,
    pub extensions: Vec<JsonMember>,
}

/// One operation of a path.
#[derive(Debug, PartialEq)]
pub struct Operation {
    pub description: Option<String>,
    pub operation_id: Option<String>,
    pub parameters: Vec<ReferenceOr<Parameter>>,
    pub request_body: Option<ReferenceOr<RequestBody>>,
    pub responses: Option<Responses>,
    pub deprecated: bool,
    pub extensions: Vec<JsonMember>,
}

/// The operations of one path, by method.
#[derive(Debug, PartialEq)]
pub struct PathItem {
    pub get: Option<Operation>,
    pub put: Option<Operation>,
    pub post: Option<Operation>,
    pub delete: Option<Operation>,
    pub options: Option<Operation>,
    pub head: Option<Operation>,
    pub patch: Option<Operation>,
    pub trace: Option<Operation>,
    pub parameters: Vec<ReferenceOr<Parameter>>,
}

/// A path with its item.
#[derive(Debug, PartialEq)]
pub struct PathEntry {
    pub path: String,
    pub item: ReferenceOr<PathItem>,
}

/// The paths of a document, in the order in which it lists them.
#[derive(Debug, PartialEq)]
pub struct Paths {
    pub paths: Vec<PathEntry>,
}

/// The reusable parts of a document.
pub struct Components {
    pub schemas: SchemaPool,
}

/// A document.
pub struct OpenApi {
    pub paths: Option<Paths>,
    pub components: Option<Components>,
    pub extensions: Vec<JsonMember>,
}

/// The method names of a path item, in the order in which its operations
/// are taken.
pub open spec fn method_name(i: int) -> Seq<char> {
    if i == 0 {
        "get"@
    } else if i == 1 {
        "put"@
    } else if i == 2 {
        "post"@
    } else if i == 3 {
        "delete"@
    } else if i == 4 {
        "options"@
    } else if i == 5 {
        "head"@
    } else if i == 6 {
        "patch"@
    } else {
        "trace"@
    }
}

impl PathItem {
    /// The operation in slot `i` of the order `get`, `put`, `post`,
    /// `delete`, `options`, `head`, `patch`, `trace`.
    pub open spec fn slot(&self, i: int) -> Option<Operation> {
        if i == 0 {
            self.get
        } else if i == 1 {
            self.put
        } else if i == 2 {
            self.post
        } else if i == 3 {
            self.delete
        } else if i == 4 {
            self.options
        } else if i == 5 {
            self.head
        } else if i == 6 {
            self.patch
        } else {
            self.trace
        }
    }

    /// The operation in slot `i`, with its method name.
    pub fn operation_at(&self, i: usize) -> (r: (&'static str, Option<&Operation>))
        requires
            i < 8,
        ensures
            r.0@ == method_name(i as int),
            match r.1 {
                Some(op) => self.slot(i as int) == Some(*op),
                None => self.slot(i as int) is None,
            },
    {
        if i == 0 {
            ("get", self.get.as_ref())
        } else if i == 1 {
            ("put", self.put.as_ref())
        } else if i == 2 {
            ("post", self.post.as_ref())
        } else if i == 3 {
            ("delete", self.delete.as_ref())
        } else if i == 4 {
            ("options", self.options.as_ref())
        } else if i == 5 {
            ("head", self.head.as_ref())
        } else if i == 6 {
            ("patch", self.patch.as_ref())
        } else {
            ("trace", self.trace.as_ref())
        }
    }
}

} // verus!
