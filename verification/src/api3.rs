//! An OpenAPI 3.x document as far as the conversions read it.
//!
//! Documents are parsed by the typed OpenAPI crates; this model holds, as
//! plain values, what the conversion into a [`crate::model::Spec`] reads from
//! them.  Maps keep the iteration order of the parsed document.
use vstd::prelude::*;

use crate::yaml::Yaml;

verus! {

/// A JSON-schema type name.
#[derive(Debug, Clone, Copy, PartialEq, Eq, Structural)]
pub enum Api3Type {
    String,
    Integer,
    Number,
    Boolean,
    Array,
    Object,
    Null,
}

/// The `type` of a schema: one name or several.
#[derive(Debug, Clone, Copy, PartialEq, Eq, Structural)]
pub enum TypeSet {
    Single(Api3Type),
    Multiple,
}

/// The kind of a schema (OpenAPI 3.0 tells kinds apart; OpenAPI 3.1
/// schemas are `Other`).
#[derive(Debug)]
pub enum Shape {
    /// A typed array, with its `items` schema.
    Array(Option<SchemaRef>),
    /// A typed object: its fields are its properties.
    Object,
    /// A typed string, number, integer or boolean.
    Scalar,
    /// A `oneOf` composition.
    OneOf,
    /// An `allOf` composition.
    AllOf(Vec<SchemaRef>),
    /// An `anyOf` composition.
    AnyOf,
    /// A `not` schema.
    Not,
    /// A schema of no single kind, with its `type` text (if any) and its
    /// `items` schema.
    Untyped(Option<String>, Option<SchemaRef>),
    /// A schema whose kind the format does not give.
    Other,
}

/// A schema.
#[derive(Debug)]
pub struct Api3Schema {
    pub shape: Shape,
    pub type_set: Option<TypeSet>,
    /// Names of the properties, in order.
    pub properties: Vec<String>,
    /// The schema as a document tree; present for the schemas of request
    /// bodies, responses and components.
    pub value: Option<Yaml>,
}

/// A schema given inline or by `$ref`.
#[derive(Debug)]
pub enum SchemaRef {
    Item(Box<Api3Schema>),
    Reference(String),
}

/// Where a parameter goes.
#[derive(Debug, Clone, Copy, PartialEq, Eq, Structural)]
pub enum ParamLocation {
    Query,
    Header,
    Path,
    Cookie,
}

#[derive(Debug)]
pub struct Api3Param {
    pub name: String,
    pub location: ParamLocation,
    pub required: Option<bool>,
    pub description: Option<String>,
    pub deprecated: Option<bool>,
    pub schema: Option<SchemaRef>,
}

#[derive(Debug)]
pub enum ParamRef {
    Item(Api3Param),
    Reference(String),
}

/// A media type entry of a `content` map.
#[derive(Debug)]
pub struct MediaType {
    pub schema: Option<SchemaRef>,
}

#[derive(Debug)]
pub struct Api3Response {
    pub description: Option<String>,
    pub content: Vec<(String, MediaType)>,
}

#[derive(Debug)]
pub enum ResponseRef {
    Item(Api3Response),
    Reference(String),
}

#[derive(Debug)]
pub struct Api3Body {
    pub description: Option<String>,
    pub required: Option<bool>,
    pub content: Vec<(String, MediaType)>,
}

#[derive(Debug)]
pub enum BodyRef {
    Item(Api3Body),
    Reference(String),
}

#[derive(Debug)]
pub struct Api3Operation {
    pub summary: Option<String>,
    pub description: Option<String>,
    pub operation_id: Option<String>,
    pub tags: Vec<String>,
    pub deprecated: Option<bool>,
    pub parameters: Vec<ParamRef>,
    /// Status code (as text) and response, in document order.
    pub responses: Option<Vec<(String, ResponseRef)>>,
    pub request_body: Option<BodyRef>,
}

/// The operations of a path item, by lower-case method name, in the order
/// get, put, post, delete, options, head, patch, trace.
#[derive(Debug)]
pub struct Api3PathItem {
    pub operations: Vec<(String, Api3Operation)>,
}

#[derive(Debug)]
pub enum PathItemRef {
    Item(Api3PathItem),
    Reference(String),
}

#[derive(Debug)]
pub struct Api3Components {
    pub schemas: Vec<(String, SchemaRef)>,
    pub parameters: Vec<(String, ParamRef)>,
    pub responses: Vec<(String, ResponseRef)>,
    pub request_bodies: Vec<(String, BodyRef)>,
}

/// An OpenAPI 3.x document.
#[derive(Debug)]
pub struct Api3Document {
    pub openapi: String,
    pub title: String,
    pub version: String,
    pub description: Option<String>,
    pub paths: Vec<(String, PathItemRef)>,
    /// Webhooks by name (3.1 and later).
    pub webhooks: Vec<(String, Api3PathItem)>,
    pub components: Option<Api3Components>,
}

} // verus!
