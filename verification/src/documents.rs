//! Reading OpenAPI 3.x text with the typed models of `openapiv3` (3.0) and
//! `oas3` (3.1 and 3.2), taken over one for one into the library's
//! [`Api3Document`].
use vstd::prelude::*;

use crate::api3::{
    Api3Body, Api3Components, Api3Document, Api3Operation, Api3Param, Api3PathItem, Api3Response,
    Api3Schema, Api3Type, BodyRef, MediaType, ParamLocation, ParamRef, PathItemRef, ResponseRef,
    SchemaRef, Shape, TypeSet,
};
use crate::yaml::{yaml_tree, Yaml};
use openapiv3::{
    MediaType as Media30, Operation as Op30, RequestBody as Body30, Response as Resp30, SchemaKind as Kind30,
    Type as Type30,
};
use oas3::spec::{
    MediaType as Media31, Operation as Op31, RequestBody as Body31, Response as Resp31, Spec as Spec31,
};

verus! {

// ─── OpenAPI 3.0 (openapiv3) ─────────────────────────────────────────────────

#[verifier::external_type_specification]
#[verifier::external_body]
pub struct ExOpenApi30(openapiv3::OpenAPI);

#[verifier::external_type_specification]
#[verifier::external_body]
#[verifier::reject_recursive_types(T)]
pub struct ExReferenceOr30<T>(openapiv3::ReferenceOr<T>);

#[verifier::external_type_specification]
#[verifier::external_body]
pub struct ExPathItem30(openapiv3::PathItem);

#[verifier::external_type_specification]
#[verifier::external_body]
pub struct ExOperation30(Op30);

#[verifier::external_type_specification]
#[verifier::external_body]
pub struct ExComponents30(openapiv3::Components);

#[verifier::external_type_specification]
#[verifier::external_body]
pub struct ExSchema30(openapiv3::Schema);

#[verifier::external_type_specification]
#[verifier::external_body]
pub struct ExSchemaKind30(Kind30);

#[verifier::external_type_specification]
#[verifier::external_body]
pub struct ExType30(Type30);

#[verifier::external_type_specification]
#[verifier::external_body]
pub struct ExParameter30(openapiv3::Parameter);

#[verifier::external_type_specification]
#[verifier::external_body]
pub struct ExParameterData30(openapiv3::ParameterData);

#[verifier::external_type_specification]
#[verifier::external_body]
pub struct ExResponse30(Resp30);

#[verifier::external_type_specification]
#[verifier::external_body]
pub struct ExRequestBody30(Body30);

#[verifier::external_type_specification]
#[verifier::external_body]
pub struct ExMediaType30(Media30);

/// The OpenAPI 3.0 document that `openapiv3` reads from a text, in the
/// library's terms; `None` when it does not read one.  A function of the
/// text alone.
pub uninterp spec fn openapi30_document(content: Seq<char>) -> Option<Api3Document>;

/// Wraps `serde_yaml::from_str::<openapiv3::OpenAPI>`: the document read
/// from the text (`None` where it reports an error), taken over into the
/// library's model by the conversions below.
#[verifier::external_body]
pub fn read_openapi30(content: &str) -> (r: Option<Api3Document>)
    ensures
        r == openapi30_document(content@),
{
    serde_yaml::from_str::<openapiv3::OpenAPI>(content).ok().map(|a| doc30(&a))
}

/// Takes an `openapiv3::OpenAPI` over field for field.
#[verifier::external_body]
fn doc30(a: &openapiv3::OpenAPI) -> Api3Document {
    Api3Document {
        openapi: a.openapi.clone(),
        title: a.info.title.clone(),
        version: a.info.version.clone(),
        description: a.info.description.clone(),
        paths: a.paths.iter().map(|(p, item)| (p.clone(), item30(item))).collect(),
        webhooks: Vec::new(),
        components: a.components.as_ref().map(comps30),
    }
}

/// Takes a path item (or its `$ref`) over, its operations as
/// `PathItem::iter` lists them.
#[verifier::external_body]
fn item30(item: &openapiv3::ReferenceOr<openapiv3::PathItem>) -> PathItemRef {
    match item {
        openapiv3::ReferenceOr::Item(it) => PathItemRef::Item(Api3PathItem {
            operations: it.iter().map(|(m, op)| (m.to_string(), op30(op))).collect(),
        }),
        openapiv3::ReferenceOr::Reference { reference } => PathItemRef::Reference(reference.clone()),
    }
}

/// Takes an operation over field for field (status codes by their text).
#[verifier::external_body]
fn op30(op: &Op30) -> Api3Operation {
    Api3Operation {
        summary: op.summary.clone(),
        description: op.description.clone(),
        operation_id: op.operation_id.clone(),
        tags: op.tags.clone(),
        deprecated: Some(op.deprecated),
        parameters: op.parameters.iter().map(pref30).collect(),
        responses: Some(op.responses.responses.iter().map(|(c, r)| (c.to_string(), resp30(r))).collect()),
        request_body: op.request_body.as_ref().map(body30),
    }
}

/// Takes the components over, map by map, in order.
#[verifier::external_body]
fn comps30(c: &openapiv3::Components) -> Api3Components {
    Api3Components {
        schemas: c.schemas.iter().map(|(k, s)| (k.clone(), sref30(s, true))).collect(),
        parameters: c.parameters.iter().map(|(k, p)| (k.clone(), pref30(p))).collect(),
        responses: c.responses.iter().map(|(k, r)| (k.clone(), resp30(r))).collect(),
        request_bodies: c.request_bodies.iter().map(|(k, b)| (k.clone(), body30(b))).collect(),
    }
}

/// Takes a schema (or its `$ref`) over; `tree` keeps its document tree.
#[verifier::external_body]
fn sref30(r: &openapiv3::ReferenceOr<openapiv3::Schema>, tree: bool) -> SchemaRef {
    match r {
        openapiv3::ReferenceOr::Item(s) => SchemaRef::Item(Box::new(schema30(s, tree))),
        openapiv3::ReferenceOr::Reference { reference } => SchemaRef::Reference(reference.clone()),
    }
}

/// Takes a boxed schema (or its `$ref`) over, without its tree.
#[verifier::external_body]
fn bref30(r: &openapiv3::ReferenceOr<Box<openapiv3::Schema>>) -> SchemaRef {
    match r {
        openapiv3::ReferenceOr::Item(s) => SchemaRef::Item(Box::new(schema30(s, false))),
        openapiv3::ReferenceOr::Reference { reference } => SchemaRef::Reference(reference.clone()),
    }
}

/// Takes a schema over: its kind, and its document tree when `tree`.
#[verifier::external_body]
fn schema30(s: &openapiv3::Schema, tree: bool) -> Api3Schema {
    let (shape, type_set, properties) = kind30(&s.schema_kind);
    Api3Schema { shape, type_set, properties, value: if tree { tree30(s) } else { None } }
}

/// Takes a schema kind over variant by variant: its shape, its type and
/// its property names.
#[verifier::external_body]
fn kind30(k: &Kind30) -> (Shape, Option<TypeSet>, Vec<String>) {
    match k {
        Kind30::Type(t) => {
            let (s, ty, p) = type30(t);
            (s, Some(TypeSet::Single(ty)), p)
        },
        Kind30::OneOf { .. } => (Shape::OneOf, None, Vec::new()),
        Kind30::AllOf { all_of } => (Shape::AllOf(all30(all_of)), None, Vec::new()),
        Kind30::AnyOf { .. } => (Shape::AnyOf, None, Vec::new()),
        Kind30::Not { .. } => (Shape::Not, None, Vec::new()),
        Kind30::Any(a) => (Shape::Untyped(a.typ.clone(), a.items.as_ref().map(bref30)), None, a.properties.keys().cloned().collect()),
    }
}

/// Takes the parts of an `allOf` over, in order, without their trees.
#[verifier::external_body]
fn all30(v: &Vec<openapiv3::ReferenceOr<openapiv3::Schema>>) -> Vec<SchemaRef> {
    v.iter().map(|r| sref30(r, false)).collect()
}

/// Takes a typed schema kind over variant by variant.
#[verifier::external_body]
fn type30(t: &Type30) -> (Shape, Api3Type, Vec<String>) {
    match t {
        Type30::String(_) => (Shape::Scalar, Api3Type::String, Vec::new()),
        Type30::Number(_) => (Shape::Scalar, Api3Type::Number, Vec::new()),
        Type30::Integer(_) => (Shape::Scalar, Api3Type::Integer, Vec::new()),
        Type30::Object(o) => (Shape::Object, Api3Type::Object, o.properties.keys().cloned().collect()),
        Type30::Array(a) => (Shape::Array(a.items.as_ref().map(bref30)), Api3Type::Array, Vec::new()),
        Type30::Boolean(_) => (Shape::Scalar, Api3Type::Boolean, Vec::new()),
    }
}

/// The document tree of a schema, as `serde_yaml::to_value` writes it.
#[verifier::external_body]
fn tree30(s: &openapiv3::Schema) -> Option<Yaml> {
    serde_yaml::to_value(s).ok().map(|v| yaml_tree(&v))
}

/// Takes a parameter (or its `$ref`) over.
#[verifier::external_body]
fn pref30(r: &openapiv3::ReferenceOr<openapiv3::Parameter>) -> ParamRef {
    match r {
        openapiv3::ReferenceOr::Item(p) => ParamRef::Item(param30(p)),
        openapiv3::ReferenceOr::Reference { reference } => ParamRef::Reference(reference.clone()),
    }
}

/// Takes a parameter over: its location from its variant, its data.
#[verifier::external_body]
fn param30(p: &openapiv3::Parameter) -> Api3Param {
    match p {
        openapiv3::Parameter::Query { parameter_data, .. } => pdata30(parameter_data, ParamLocation::Query),
        openapiv3::Parameter::Header { parameter_data, .. } => pdata30(parameter_data, ParamLocation::Header),
        openapiv3::Parameter::Path { parameter_data, .. } => pdata30(parameter_data, ParamLocation::Path),
        openapiv3::Parameter::Cookie { parameter_data, .. } => pdata30(parameter_data, ParamLocation::Cookie),
    }
}

/// Takes parameter data over field for field (a `content` form has no
/// schema).
#[verifier::external_body]
fn pdata30(d: &openapiv3::ParameterData, location: ParamLocation) -> Api3Param {
    Api3Param {
        name: d.name.clone(),
        location,
        required: Some(d.required),
        description: d.description.clone(),
        deprecated: d.deprecated,
        schema: match &d.format {
            openapiv3::ParameterSchemaOrContent::Schema(s) => Some(sref30(s, false)),
            openapiv3::ParameterSchemaOrContent::Content(_) => None,
        },
    }
}

/// Takes a response (or its `$ref`) over field for field.
#[verifier::external_body]
fn resp30(r: &openapiv3::ReferenceOr<Resp30>) -> ResponseRef {
    match r {
        openapiv3::ReferenceOr::Item(x) => ResponseRef::Item(Api3Response {
            description: Some(x.description.clone()),
            content: x.content.iter().map(|(k, m)| (k.clone(), media30(m))).collect(),
        }),
        openapiv3::ReferenceOr::Reference { reference } => ResponseRef::Reference(reference.clone()),
    }
}

/// Takes a request body (or its `$ref`) over field for field.
#[verifier::external_body]
fn body30(r: &openapiv3::ReferenceOr<Body30>) -> BodyRef {
    match r {
        openapiv3::ReferenceOr::Item(b) => BodyRef::Item(Api3Body {
            description: b.description.clone(),
            required: Some(b.required),
            content: b.content.iter().map(|(k, m)| (k.clone(), media30(m))).collect(),
        }),
        openapiv3::ReferenceOr::Reference { reference } => BodyRef::Reference(reference.clone()),
    }
}

/// Takes a media type over: its schema, with its tree.
#[verifier::external_body]
fn media30(m: &Media30) -> MediaType {
    MediaType { schema: m.schema.as_ref().map(|s| sref30(s, true)) }
}

// ─── OpenAPI 3.1 and 3.2 (oas3) ──────────────────────────────────────────────

#[verifier::external_type_specification]
#[verifier::external_body]
pub struct ExSpec31(Spec31);

#[verifier::external_type_specification]
#[verifier::external_body]
pub struct ExPathItem31(oas3::spec::PathItem);

#[verifier::external_type_specification]
#[verifier::external_body]
pub struct ExOperation31(Op31);

#[verifier::external_type_specification]
#[verifier::external_body]
pub struct ExComponents31(oas3::spec::Components);

#[verifier::external_type_specification]
#[verifier::external_body]
pub struct ExSchema31(oas3::spec::Schema);

#[verifier::external_type_specification]
#[verifier::external_body]
pub struct ExObjectSchema31(oas3::spec::ObjectSchema);

#[verifier::external_type_specification]
#[verifier::external_body]
pub struct ExSchemaType31(oas3::spec::SchemaType);

#[verifier::external_type_specification]
#[verifier::external_body]
pub struct ExParameter31(oas3::spec::Parameter);

#[verifier::external_type_specification]
#[verifier::external_body]
pub struct ExParameterIn31(oas3::spec::ParameterIn);

#[verifier::external_type_specification]
#[verifier::external_body]
pub struct ExResponse31(Resp31);

#[verifier::external_type_specification]
#[verifier::external_body]
pub struct ExRequestBody31(Body31);

#[verifier::external_type_specification]
#[verifier::external_body]
pub struct ExMediaType31(Media31);

#[verifier::external_type_specification]
#[verifier::external_body]
#[verifier::reject_recursive_types(T)]
pub struct ExObjectOrReference31<T>(oas3::spec::ObjectOrReference<T>);

/// The OpenAPI 3.1 (or 3.2) document that `oas3` reads from a text, in
/// the library's terms; `None` when it does not read one.  A function of
/// the text alone.
pub uninterp spec fn openapi31_document(content: Seq<char>) -> Option<Api3Document>;

/// Wraps `serde_yaml::from_str::<Spec31>`: the document read from
/// the text (`None` where it reports an error), taken over into the
/// library's model by the conversions below.
#[verifier::external_body]
pub fn read_openapi31(content: &str) -> (r: Option<Api3Document>)
    ensures
        r == openapi31_document(content@),
{
    serde_yaml::from_str::<Spec31>(content).ok().map(|a| doc31(&a))
}

/// Takes an `oas3` spec over field for field (no paths when it has none).
#[verifier::external_body]
fn doc31(a: &Spec31) -> Api3Document {
    Api3Document {
        openapi: a.openapi.clone(),
        title: a.info.title.clone(),
        version: a.info.version.clone(),
        description: a.info.description.clone(),
        paths: a.paths.iter().flatten().map(|(p, item)| (p.clone(), PathItemRef::Item(item31(item)))).collect(),
        webhooks: a.webhooks.iter().map(|(k, item)| (k.clone(), item31(item))).collect(),
        components: a.components.as_ref().map(comps31),
    }
}

/// The operations present among a path item's fixed operation fields, in
/// order, each with its method name.
pub open spec fn present(fields: Seq<(String, Option<Api3Operation>)>) -> Seq<(String, Api3Operation)>
    decreases fields.len(),
{
    if fields.len() == 0 {
        Seq::empty()
    } else {
        let rest = present(fields.drop_first());
        match fields[0].1 {
            Some(o) => seq![(fields[0].0, o)] + rest,
            None => rest,
        }
    }
}

/// A path item from its fixed operation fields in order: the operations
/// that are present.
pub fn present_ops(fields: Vec<(String, Option<Api3Operation>)>) -> (r: Api3PathItem)
    ensures
        r.operations@ == present(fields@),
{
    let mut operations: Vec<(String, Api3Operation)> = Vec::new();
    let mut rest = fields;
    let ghost all = rest@;
    while rest.len() > 0
        invariant
            present(all) == operations@ + present(rest@),
        decreases rest@.len(),
    {
        let ghost before = rest@;
        let (m, op) = rest.remove(0);
        proof {
            assert(rest@ =~= before.drop_first());
        }
        match op {
            Some(o) => {
                let ghost prev = operations@;
                operations.push((m, o));
                proof {
                    let head = (before[0].0, before[0].1->0);
                    assert(present(before) == seq![head] + present(rest@));
                    assert(prev + present(before) =~= operations@ + present(rest@));
                }
            },
            None => {},
        }
    }
    proof {
        assert(operations@ + present(rest@) =~= operations@);
    }
    Api3PathItem { operations }
}

/// Takes a path item over: its eight fixed operation fields, in the order
/// of the fields; `present_ops` keeps those that are present.
#[verifier::external_body]
fn item31(it: &oas3::spec::PathItem) -> Api3PathItem {
    present_ops(vec![
        ("get".to_string(), it.get.as_ref().map(op31)), ("put".to_string(), it.put.as_ref().map(op31)),
        ("post".to_string(), it.post.as_ref().map(op31)), ("delete".to_string(), it.delete.as_ref().map(op31)),
        ("options".to_string(), it.options.as_ref().map(op31)), ("head".to_string(), it.head.as_ref().map(op31)),
        ("patch".to_string(), it.patch.as_ref().map(op31)), ("trace".to_string(), it.trace.as_ref().map(op31)),
    ])
}

/// Takes an operation over field for field.
#[verifier::external_body]
fn op31(op: &Op31) -> Api3Operation {
    Api3Operation {
        summary: op.summary.clone(),
        description: op.description.clone(),
        operation_id: op.operation_id.clone(),
        tags: op.tags.clone(),
        deprecated: op.deprecated,
        parameters: op.parameters.iter().map(pref31).collect(),
        responses: op.responses.as_ref().map(|rs| rs.iter().map(|(c, r)| (c.clone(), resp31(r))).collect()),
        request_body: op.request_body.as_ref().map(body31),
    }
}

/// Takes the components over, map by map, in order.
#[verifier::external_body]
fn comps31(c: &oas3::spec::Components) -> Api3Components {
    Api3Components {
        schemas: c.schemas.iter().map(|(k, s)| (k.clone(), sref31(s, true))).collect(),
        parameters: c.parameters.iter().map(|(k, p)| (k.clone(), pref31(p))).collect(),
        responses: c.responses.iter().map(|(k, r)| (k.clone(), resp31(r))).collect(),
        request_bodies: c.request_bodies.iter().map(|(k, b)| (k.clone(), body31(b))).collect(),
    }
}

/// Takes a schema over: an object schema (or its `$ref`), or a boolean
/// schema, whose kind the format leaves open.
#[verifier::external_body]
fn sref31(s: &oas3::spec::Schema, tree: bool) -> SchemaRef {
    match s {
        oas3::spec::Schema::Object(o) => match o.as_ref() {
            oas3::spec::ObjectOrReference::Object(x) => SchemaRef::Item(Box::new(object31(x, tree))),
            oas3::spec::ObjectOrReference::Ref { ref_path, .. } => SchemaRef::Reference(ref_path.clone()),
        },
        oas3::spec::Schema::Boolean(_) => SchemaRef::Item(Box::new(Api3Schema {
            shape: Shape::Other,
            type_set: None,
            properties: Vec::new(),
            value: if tree { serde_yaml::to_value(s).ok().map(|v| yaml_tree(&v)) } else { None },
        })),
    }
}

/// Takes an object schema over: its type and property names, and its
/// document tree when `tree`; the format gives no single kind.
#[verifier::external_body]
fn object31(o: &oas3::spec::ObjectSchema, tree: bool) -> Api3Schema {
    Api3Schema {
        shape: Shape::Other,
        type_set: o.schema_type.as_ref().map(|ts| match ts {
            oas3::spec::SchemaTypeSet::Single(t) => TypeSet::Single(type31(t)),
            oas3::spec::SchemaTypeSet::Multiple(_) => TypeSet::Multiple,
        }),
        properties: o.properties.keys().cloned().collect(),
        value: if tree { serde_yaml::to_value(o).ok().map(|v| yaml_tree(&v)) } else { None },
    }
}

/// Takes a type name over variant by variant.
#[verifier::external_body]
fn type31(t: &oas3::spec::SchemaType) -> Api3Type {
    match t {
        oas3::spec::SchemaType::Boolean => Api3Type::Boolean,
        oas3::spec::SchemaType::Integer => Api3Type::Integer,
        oas3::spec::SchemaType::Number => Api3Type::Number,
        oas3::spec::SchemaType::String => Api3Type::String,
        oas3::spec::SchemaType::Array => Api3Type::Array,
        oas3::spec::SchemaType::Object => Api3Type::Object,
        oas3::spec::SchemaType::Null => Api3Type::Null,
    }
}

/// Takes a parameter (or its `$ref`) over field for field.
#[verifier::external_body]
fn pref31(r: &oas3::spec::ObjectOrReference<oas3::spec::Parameter>) -> ParamRef {
    match r {
        oas3::spec::ObjectOrReference::Object(p) => ParamRef::Item(Api3Param {
            name: p.name.clone(),
            location: location31(&p.location),
            required: p.required,
            description: p.description.clone(),
            deprecated: p.deprecated,
            schema: p.schema.as_ref().map(|s| sref31(s, false)),
        }),
        oas3::spec::ObjectOrReference::Ref { ref_path, .. } => ParamRef::Reference(ref_path.clone()),
    }
}

/// Takes a parameter location over variant by variant.
#[verifier::external_body]
fn location31(l: &oas3::spec::ParameterIn) -> ParamLocation {
    match l {
        oas3::spec::ParameterIn::Path => ParamLocation::Path,
        oas3::spec::ParameterIn::Query => ParamLocation::Query,
        oas3::spec::ParameterIn::Header => ParamLocation::Header,
        oas3::spec::ParameterIn::Cookie => ParamLocation::Cookie,
    }
}

/// Takes a response (or its `$ref`) over field for field.
#[verifier::external_body]
fn resp31(r: &oas3::spec::ObjectOrReference<Resp31>) -> ResponseRef {
    match r {
        oas3::spec::ObjectOrReference::Object(x) => ResponseRef::Item(Api3Response {
            description: x.description.clone(),
            content: x.content.iter().map(|(k, m)| (k.clone(), media31(m))).collect(),
        }),
        oas3::spec::ObjectOrReference::Ref { ref_path, .. } => ResponseRef::Reference(ref_path.clone()),
    }
}

/// Takes a request body (or its `$ref`) over field for field.
#[verifier::external_body]
fn body31(r: &oas3::spec::ObjectOrReference<Body31>) -> BodyRef {
    match r {
        oas3::spec::ObjectOrReference::Object(b) => BodyRef::Item(Api3Body {
            description: b.description.clone(),
            required: b.required,
            content: b.content.iter().map(|(k, m)| (k.clone(), media31(m))).collect(),
        }),
        oas3::spec::ObjectOrReference::Ref { ref_path, .. } => BodyRef::Reference(ref_path.clone()),
    }
}

/// Takes a media type over: its schema, with its tree.
#[verifier::external_body]
fn media31(m: &Media31) -> MediaType {
    MediaType { schema: m.schema.as_ref().map(|s| sref31(s, true)) }
}

} // verus!
