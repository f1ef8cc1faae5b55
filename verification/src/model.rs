//! The normalised representation of an API description that every parser
//! produces and the navigator displays.
use vstd::prelude::*;

verus! {

/// A single field extracted from a request-body schema.
#[derive(Debug, Clone)]
pub struct BodyField {
    pub name: String,
}

/// The kind of a schema node, used for display hints.
#[derive(Debug, Clone)]
pub enum SchemaKindHint {
    Object,
    Array,
    AllOf,
    AnyOf,
    OneOf,
    /// `"string"`, `"integer"`, `"number"`, `"boolean"`, ...
    Primitive(String),
    Unknown,
}

/// The text shown for a schema kind.
pub open spec fn kind_label(k: SchemaKindHint) -> Seq<char> {
    match k {
        SchemaKindHint::Object => "object"@,
        SchemaKindHint::Array => "array"@,
        SchemaKindHint::AllOf => "allOf"@,
        SchemaKindHint::AnyOf => "anyOf"@,
        SchemaKindHint::OneOf => "oneOf"@,
        SchemaKindHint::Primitive(s) => s@,
        SchemaKindHint::Unknown => "?"@,
    }
}

impl SchemaKindHint {
    pub fn label(&self) -> (r: &str)
        ensures
            r@ == kind_label(*self),
    {
        match self {
            SchemaKindHint::Object => "object",
            SchemaKindHint::Array => "array",
            SchemaKindHint::AllOf => "allOf",
            SchemaKindHint::AnyOf => "anyOf",
            SchemaKindHint::OneOf => "oneOf",
            SchemaKindHint::Primitive(s) => s.as_str(),
            SchemaKindHint::Unknown => "?",
        }
    }
}

/// A node in a schema tree: a named property, an array item, an
/// `allOf`/`anyOf`/`oneOf` branch.  `children` is non-empty for objects,
/// arrays and composition keywords.
#[derive(Debug)]
pub struct SchemaNode {
    /// Display label: property name, `"items"`, `"allOf[0]"`, ...
    pub label: String,
    pub kind: SchemaKindHint,
    /// Short description (first line only).
    pub description: Option<String>,
    /// Whether this field is required (meaningful for object properties).
    pub required: bool,
    pub children: Vec<SchemaNode>,
}

/// The mathematical value of a [`SchemaKindHint`].
pub enum KindV {
    Object,
    Array,
    AllOf,
    AnyOf,
    OneOf,
    Primitive(Seq<char>),
    Unknown,
}

/// The mathematical value of a [`SchemaNode`].
pub struct SchemaV {
    pub label: Seq<char>,
    pub kind: KindV,
    pub description: Option<Seq<char>>,
    pub required: bool,
    pub children: Seq<SchemaV>,
}

pub open spec fn kv(k: SchemaKindHint) -> KindV {
    match k {
        SchemaKindHint::Object => KindV::Object,
        SchemaKindHint::Array => KindV::Array,
        SchemaKindHint::AllOf => KindV::AllOf,
        SchemaKindHint::AnyOf => KindV::AnyOf,
        SchemaKindHint::OneOf => KindV::OneOf,
        SchemaKindHint::Primitive(s) => KindV::Primitive(s@),
        SchemaKindHint::Unknown => KindV::Unknown,
    }
}

pub open spec fn opt_view(o: Option<String>) -> Option<Seq<char>> {
    match o {
        Some(s) => Some(s@),
        None => None,
    }
}

pub open spec fn sv(n: SchemaNode) -> SchemaV
    decreases n,
{
    SchemaV {
        label: n.label@,
        kind: kv(n.kind),
        description: opt_view(n.description),
        required: n.required,
        children: sv_seq(n.children@),
    }
}

pub open spec fn sv_seq(s: Seq<SchemaNode>) -> Seq<SchemaV>
    decreases s,
{
    if s.len() == 0 {
        Seq::empty()
    } else {
        sv_seq(s.drop_last()).push(sv(s.last()))
    }
}

pub proof fn lemma_sv_seq(s: Seq<SchemaNode>)
    ensures
        sv_seq(s).len() == s.len(),
        forall|i: int| 0 <= i < s.len() ==> #[trigger] sv_seq(s)[i] == sv(s[i]),
    decreases s.len(),
{
    if s.len() > 0 {
        lemma_sv_seq(s.drop_last());
        assert forall|i: int| 0 <= i < s.len() - 1 implies s.drop_last()[i] == s[i] by {}
    }
}

/// Parsed request-body metadata.
#[derive(Debug)]
pub struct RequestBody {
    pub description: Option<String>,
    /// Whether the body must be sent.
    pub required: bool,
    /// Top-level fields of the body schema.
    pub fields: Vec<BodyField>,
    /// Structured schema tree for the collapsible detail view.
    pub schema_tree: Option<SchemaNode>,
}

/// A single parameter (query, path, header, cookie, ...) of an operation.
#[derive(Debug, Clone)]
pub struct Param {
    pub name: String,
    /// `query`, `path`, `header`, `cookie` (or `formData` for Swagger 2.0).
    pub location: String,
    pub required: bool,
    pub description: Option<String>,
    /// Declared type of the value (`"integer"`, `"string"`, ...).
    pub schema_type: Option<String>,
    pub deprecated: bool,
}

/// One response of an operation.
#[derive(Debug)]
pub struct Response {
    /// Status code (`"200"`, `"default"`, ...).
    pub code: String,
    pub description: Option<String>,
    /// Schema of the response body, when it has one.
    pub schema_tree: Option<SchemaNode>,
}

/// One HTTP operation (GET, POST, ...) on a path.
#[derive(Debug)]
pub struct Operation {
    /// Upper-case method, e.g. `"GET"`.
    pub method: String,
    pub summary: Option<String>,
    pub description: Option<String>,
    pub operation_id: Option<String>,
    pub tags: Vec<String>,
    pub deprecated: bool,
    pub params: Vec<Param>,
    pub request_body: Option<RequestBody>,
    pub responses: Vec<Response>,
}

/// Whether an entry is an ordinary path or a webhook.
#[derive(Debug, Clone, Copy, PartialEq, Eq, Structural)]
pub enum PathKind {
    Path,
    Webhook,
}

/// One path (or webhook) and all its operations.
#[derive(Debug)]
pub struct PathEntry {
    pub path: String,
    pub kind: PathKind,
    pub operations: Vec<Operation>,
}

/// A parsed, normalised API description.
#[derive(Debug)]
pub struct Spec {
    pub file_path: String,
    pub openapi_version: String,
    pub title: String,
    pub version: String,
    pub description: String,
    pub paths: Vec<PathEntry>,
}

// ─── Mathematical values ─────────────────────────────────────────────────────

pub struct ParamV {
    pub name: Seq<char>,
    pub location: Seq<char>,
    pub required: bool,
    pub description: Option<Seq<char>>,
    pub schema_type: Option<Seq<char>>,
    pub deprecated: bool,
}

pub struct RequestBodyV {
    pub description: Option<Seq<char>>,
    pub required: bool,
    pub fields: Seq<Seq<char>>,
    pub schema_tree: Option<SchemaV>,
}

pub struct ResponseV {
    pub code: Seq<char>,
    pub description: Option<Seq<char>>,
    pub schema_tree: Option<SchemaV>,
}

pub struct OperationV {
    pub method: Seq<char>,
    pub summary: Option<Seq<char>>,
    pub description: Option<Seq<char>>,
    pub operation_id: Option<Seq<char>>,
    pub tags: Seq<Seq<char>>,
    pub deprecated: bool,
    pub params: Seq<ParamV>,
    pub request_body: Option<RequestBodyV>,
    pub responses: Seq<ResponseV>,
}

pub struct PathEntryV {
    pub path: Seq<char>,
    pub kind: PathKind,
    pub operations: Seq<OperationV>,
}

pub struct SpecV {
    pub file_path: Seq<char>,
    pub openapi_version: Seq<char>,
    pub title: Seq<char>,
    pub version: Seq<char>,
    pub description: Seq<char>,
    pub paths: Seq<PathEntryV>,
}

pub open spec fn opt_sv(o: Option<SchemaNode>) -> Option<SchemaV> {
    match o {
        Some(n) => Some(sv(n)),
        None => None,
    }
}

pub open spec fn strs_v(v: Seq<String>) -> Seq<Seq<char>> {
    v.map_values(|s: String| s@)
}

pub open spec fn param_v(p: Param) -> ParamV {
    ParamV {
        name: p.name@,
        location: p.location@,
        required: p.required,
        description: opt_view(p.description),
        schema_type: opt_view(p.schema_type),
        deprecated: p.deprecated,
    }
}

pub open spec fn fields_v(f: Seq<BodyField>) -> Seq<Seq<char>> {
    f.map_values(|b: BodyField| b.name@)
}

pub open spec fn body_v(b: RequestBody) -> RequestBodyV {
    RequestBodyV {
        description: opt_view(b.description),
        required: b.required,
        fields: fields_v(b.fields@),
        schema_tree: opt_sv(b.schema_tree),
    }
}

pub open spec fn opt_body_v(o: Option<RequestBody>) -> Option<RequestBodyV> {
    match o {
        Some(b) => Some(body_v(b)),
        None => None,
    }
}

pub open spec fn response_v(r: Response) -> ResponseV {
    ResponseV { code: r.code@, description: opt_view(r.description), schema_tree: opt_sv(r.schema_tree) }
}

pub open spec fn operation_v(o: Operation) -> OperationV {
    OperationV {
        method: o.method@,
        summary: opt_view(o.summary),
        description: opt_view(o.description),
        operation_id: opt_view(o.operation_id),
        tags: strs_v(o.tags@),
        deprecated: o.deprecated,
        params: o.params@.map_values(|p: Param| param_v(p)),
        request_body: opt_body_v(o.request_body),
        responses: o.responses@.map_values(|r: Response| response_v(r)),
    }
}

pub open spec fn entry_v(e: PathEntry) -> PathEntryV {
    PathEntryV {
        path: e.path@,
        kind: e.kind,
        operations: e.operations@.map_values(|o: Operation| operation_v(o)),
    }
}

pub open spec fn spec_v(s: Spec) -> SpecV {
    SpecV {
        file_path: s.file_path@,
        openapi_version: s.openapi_version@,
        title: s.title@,
        version: s.version@,
        description: s.description@,
        paths: s.paths@.map_values(|e: PathEntry| entry_v(e)),
    }
}

} // verus!
