use apin::api3::{
    Api3Body, Api3Components, Api3Document, Api3Operation, Api3Param, Api3PathItem, Api3Response,
    Api3Schema, Api3Type, BodyRef, MediaType, ParamLocation, ParamRef, PathItemRef, ResponseRef,
    SchemaRef, Shape, TypeSet,
};
use apin::model::{PathKind, SchemaKindHint, SchemaNode, Spec};
use apin::schema::{noise_list, resolve_refs_in_value, strip_noise_keys, value_to_schema_node};
use apin::yaml::Yaml;

fn yaml(v: &serde_yaml::Value) -> Yaml {
    match v {
        serde_yaml::Value::Null => Yaml::Null,
        serde_yaml::Value::Bool(b) => Yaml::Bool(*b),
        serde_yaml::Value::Number(n) => Yaml::Number(n.to_string()),
        serde_yaml::Value::String(s) => Yaml::Str(s.clone()),
        serde_yaml::Value::Sequence(s) => Yaml::Sequence(s.iter().map(yaml).collect()),
        serde_yaml::Value::Mapping(m) => Yaml::Mapping(m.iter().map(|(k, v)| (yaml(k), yaml(v))).collect()),
        serde_yaml::Value::Tagged(t) => Yaml::Tagged(t.tag.to_string(), Box::new(yaml(&t.value))),
    }
}

fn tree(text: &str) -> Yaml {
    yaml(&serde_yaml::from_str::<serde_yaml::Value>(text).unwrap())
}

fn child<'a>(n: &'a SchemaNode, label: &str) -> &'a SchemaNode {
    n.children.iter().find(|c| c.label == label).unwrap()
}

const SWAGGER: &str = r##"
swagger: "2.0"
info:
  title: Petstore
  version: 1.0.0
  description: A pet store
parameters:
  Limit:
    name: limit
    in: query
    type: integer
definitions:
  Pet:
    type: object
    required: [id, name]
    properties:
      id: {type: integer, format: int64}
      name: {type: string, description: "The name\nmore"}
      owner: {$ref: "#/definitions/Owner"}
  Owner:
    type: object
    properties:
      pets: {type: array, items: {$ref: "#/definitions/Pet"}}
paths:
  /pets:
    parameters:
      - {$ref: "#/parameters/Limit"}
    get:
      summary: List pets
      operationId: listPets
      tags: [pets]
      parameters:
        - {name: limit, in: query, type: string, required: true}
      responses:
        "200":
          description: A list
          schema: {type: array, items: {$ref: "#/definitions/Pet"}}
        default:
          description: Error
    post:
      deprecated: true
      parameters:
        - {name: body, in: body, required: true, schema: {$ref: "#/definitions/Pet"}}
      responses:
        "201": {description: Created}
  /pets/{petId}/photo:
    post:
      parameters:
        - {name: petId, in: path, required: true, type: string}
        - {name: file, in: formData, type: file}
      responses: {}
"##;

fn swagger() -> Spec {
    apin::swagger::parse("pets.yaml".to_string(), &tree(SWAGGER))
}

#[test]
fn swagger_document_metadata() {
    let s = swagger();
    assert_eq!(s.openapi_version, "2.0");
    assert_eq!(s.title, "Petstore");
    assert_eq!(s.version, "1.0.0");
    assert_eq!(s.description, "A pet store");
    assert_eq!(s.file_path, "pets.yaml");
    let paths: Vec<&str> = s.paths.iter().map(|p| p.path.as_str()).collect();
    assert_eq!(paths, vec!["/pets", "/pets/{petId}/photo"]);
    assert!(s.paths.iter().all(|p| p.kind == PathKind::Path));
}

#[test]
fn swagger_operation_params_override_path_params() {
    let s = swagger();
    let get = &s.paths[0].operations[0];
    assert_eq!(get.method, "GET");
    assert_eq!(get.summary.as_deref(), Some("List pets"));
    assert_eq!(get.operation_id.as_deref(), Some("listPets"));
    assert_eq!(get.tags, vec!["pets".to_string()]);
    assert_eq!(get.params.len(), 1);
    assert_eq!(get.params[0].name, "limit");
    assert_eq!(get.params[0].schema_type.as_deref(), Some("string"));
    assert!(get.params[0].required);
}

#[test]
fn swagger_responses_with_schema_trees() {
    let s = swagger();
    let get = &s.paths[0].operations[0];
    let codes: Vec<&str> = get.responses.iter().map(|r| r.code.as_str()).collect();
    assert_eq!(codes, vec!["200", "default"]);
    let t = get.responses[0].schema_tree.as_ref().unwrap();
    assert!(matches!(t.kind, SchemaKindHint::Array));
    let items = child(t, "items");
    assert!(matches!(items.kind, SchemaKindHint::Object));
    let name = child(items, "name");
    assert!(name.required);
    assert_eq!(name.description.as_deref(), Some("The name"));
    assert!(get.responses[1].schema_tree.is_none());
}

#[test]
fn swagger_body_parameter_becomes_request_body() {
    let s = swagger();
    let post = &s.paths[0].operations[1];
    assert_eq!(post.method, "POST");
    assert!(post.deprecated);
    let rb = post.request_body.as_ref().unwrap();
    assert!(rb.required);
    let names: Vec<&str> = rb.fields.iter().map(|f| f.name.as_str()).collect();
    assert_eq!(names, vec!["id", "name", "owner"]);
    let t = rb.schema_tree.as_ref().unwrap();
    assert_eq!(t.label, "body");
    // The cycle Pet -> Owner -> Pet stops at the second Pet.
    let owner = child(t, "owner");
    let pets = child(owner, "pets");
    let again = child(pets, "items");
    assert!(again.children.is_empty());
}

#[test]
fn swagger_form_parameters_become_fields() {
    let s = swagger();
    let upload = &s.paths[1].operations[0];
    assert_eq!(upload.params.len(), 1);
    assert_eq!(upload.params[0].location, "path");
    let rb = upload.request_body.as_ref().unwrap();
    let names: Vec<&str> = rb.fields.iter().map(|f| f.name.as_str()).collect();
    assert_eq!(names, vec!["file"]);
    assert!(upload.responses.is_empty());
}

#[test]
fn schema_tree_from_a_value() {
    let v = tree("type: object\nrequired: [a]\nproperties:\n  a: {type: string}\n  b:\n    allOf:\n      - {type: object}\n      - {type: integer}\n");
    let node = value_to_schema_node("body".to_string(), &v, &vec![]);
    assert_eq!(node.label, "body");
    assert!(matches!(node.kind, SchemaKindHint::Object));
    let a = child(&node, "a");
    assert!(a.required);
    assert!(matches!(&a.kind, SchemaKindHint::Primitive(k) if k == "string"));
    let b = child(&node, "b");
    assert!(matches!(b.kind, SchemaKindHint::AllOf));
    assert_eq!(b.children[0].label, "allOf[0]");
    assert_eq!(b.children[1].label, "allOf[1]");
}

#[test]
fn noise_keys_are_dropped() {
    let v = tree("type: string\nformat: date\nexample: x\ndescription: kept\n");
    let clean = strip_noise_keys(&v, &noise_list(false));
    assert_eq!(clean_keys(&clean), vec!["type", "description"]);
}

fn clean_keys(v: &Yaml) -> Vec<String> {
    match v {
        Yaml::Mapping(m) => m
            .iter()
            .filter_map(|(k, _)| match k {
                Yaml::Str(s) => Some(s.clone()),
                _ => None,
            })
            .collect(),
        _ => vec![],
    }
}

#[test]
fn refs_are_inlined_and_cycles_left_named() {
    let schemas = tree("A: {type: object, properties: {b: {$ref: '#/components/schemas/B'}}}\nB: {type: object, properties: {a: {$ref: '#/components/schemas/A'}}}\n");
    let v = tree("$ref: '#/components/schemas/A'\n");
    let r = resolve_refs_in_value(&v, Some(&schemas), "#/components/schemas/", &vec![]);
    let node = value_to_schema_node("A".to_string(), &r, &vec![]);
    let b = child(&node, "b");
    let a = child(b, "a");
    // The second A is not expanded again: its type names the schema.
    assert!(matches!(&a.kind, SchemaKindHint::Primitive(k) if k == "A"));
}

// ─── OpenAPI 3.x documents built by hand ─────────────────────────────────────

fn object_schema(props: &[&str], value: Option<Yaml>) -> Api3Schema {
    Api3Schema {
        shape: Shape::Object,
        type_set: Some(TypeSet::Single(Api3Type::Object)),
        properties: props.iter().map(|p| p.to_string()).collect(),
        value,
    }
}

fn op(summary: &str, params: Vec<ParamRef>, body: Option<BodyRef>) -> Api3Operation {
    Api3Operation {
        summary: Some(summary.to_string()),
        description: None,
        operation_id: Some(format!("{}Id", summary)),
        tags: vec![],
        deprecated: None,
        parameters: params,
        responses: Some(vec![(
            "200".to_string(),
            ResponseRef::Item(Api3Response {
                description: Some("  ok  ".to_string()),
                content: vec![(
                    "application/json".to_string(),
                    MediaType { schema: Some(SchemaRef::Reference("#/components/schemas/Thing".to_string())) },
                )],
            }),
        )]),
        request_body: body,
    }
}

fn document(openapi: &str) -> (Api3Document, Yaml) {
    let root = tree(
        "components:\n  schemas:\n    Thing:\n      type: object\n      properties:\n        name: {type: string}\n        size: {type: integer}\npaths:\n  /things:\n    additionalOperations:\n      copy:\n        summary: Copy things\n        operationId: copyThings\n        deprecated: true\n        parameters:\n          - {name: destination, in: query}\n",
    );
    let thing_value = tree("type: object\nproperties:\n  name: {type: string}\n  size: {type: integer}\n");
    let comps = Api3Components {
        schemas: vec![(
            "Thing".to_string(),
            SchemaRef::Item(Box::new(object_schema(&["name", "size"], Some(thing_value)))),
        )],
        parameters: vec![(
            "Limit".to_string(),
            ParamRef::Item(Api3Param {
                name: "limit".to_string(),
                location: ParamLocation::Query,
                required: None,
                description: None,
                deprecated: Some(true),
                schema: Some(SchemaRef::Item(Box::new(Api3Schema {
                    shape: Shape::Other,
                    type_set: Some(TypeSet::Single(Api3Type::Integer)),
                    properties: vec![],
                    value: None,
                }))),
            }),
        )],
        responses: vec![],
        request_bodies: vec![],
    };
    let body = BodyRef::Item(Api3Body {
        description: Some("a thing".to_string()),
        required: Some(true),
        content: vec![(
            "application/json".to_string(),
            MediaType { schema: Some(SchemaRef::Reference("#/components/schemas/Thing".to_string())) },
        )],
    });
    let doc = Api3Document {
        openapi: openapi.to_string(),
        title: "Things".to_string(),
        version: "2".to_string(),
        description: None,
        paths: vec![(
            "/things".to_string(),
            PathItemRef::Item(Api3PathItem {
                operations: vec![
                    ("get".to_string(), op("List", vec![ParamRef::Reference("#/components/parameters/Limit".to_string())], None)),
                    ("post".to_string(), op("Create", vec![], Some(body))),
                ],
            }),
        )],
        webhooks: vec![(
            "thing.created".to_string(),
            Api3PathItem { operations: vec![("post".to_string(), op("Created", vec![], None))] },
        )],
        components: Some(comps),
    };
    (doc, root)
}

#[test]
fn openapi31_paths_webhooks_and_additional_operations() {
    let (doc, root) = document("3.2.0");
    let s = apin::openapi31::parse("t.yaml".to_string(), &doc, &root);
    assert_eq!(s.openapi_version, "3.2.0");
    assert_eq!(s.description, "");
    assert_eq!(s.paths.len(), 2);
    let things = &s.paths[0];
    let methods: Vec<&str> = things.operations.iter().map(|o| o.method.as_str()).collect();
    assert_eq!(methods, vec!["GET", "POST", "COPY"]);
    let copy = &things.operations[2];
    assert_eq!(copy.operation_id.as_deref(), Some("copyThings"));
    assert!(copy.deprecated);
    assert_eq!(copy.params[0].name, "destination");
    let hook = &s.paths[1];
    assert_eq!(hook.path, "thing.created");
    assert_eq!(hook.kind, PathKind::Webhook);
    assert_eq!(hook.operations[0].method, "POST");
}

#[test]
fn openapi32_query_field_is_a_query_operation() {
    let (doc, _) = document("3.2.0");
    let root = tree(
        "paths:\n  /things:\n    query:\n      summary: Search things\n      operationId: queryThings\n    additionalOperations:\n      copy:\n        summary: Copy things\n",
    );
    let s = apin::openapi31::parse("t.yaml".to_string(), &doc, &root);
    let methods: Vec<&str> = s.paths[0].operations.iter().map(|o| o.method.as_str()).collect();
    assert_eq!(methods, vec!["GET", "POST", "COPY", "QUERY"]);
    let q = &s.paths[0].operations[3];
    assert_eq!(q.summary.as_deref(), Some("Search things"));
    assert_eq!(q.operation_id.as_deref(), Some("queryThings"));
}

#[test]
fn openapi31_resolves_component_references() {
    let (doc, root) = document("3.1.0");
    let s = apin::openapi31::parse("t.yaml".to_string(), &doc, &root);
    let get = &s.paths[0].operations[0];
    assert_eq!(get.params[0].name, "limit");
    assert_eq!(get.params[0].schema_type.as_deref(), Some("integer"));
    assert!(get.params[0].deprecated);
    assert_eq!(get.responses[0].description.as_deref(), Some("ok"));
    let t = get.responses[0].schema_tree.as_ref().unwrap();
    assert_eq!(t.label, "Thing");
    let post = &s.paths[0].operations[1];
    let rb = post.request_body.as_ref().unwrap();
    assert!(rb.required);
    assert_eq!(rb.description.as_deref(), Some("a thing"));
    let names: Vec<&str> = rb.fields.iter().map(|f| f.name.as_str()).collect();
    assert_eq!(names, vec!["name", "size"]);
    assert_eq!(rb.schema_tree.as_ref().unwrap().children.len(), 2);
}

#[test]
fn openapi30_ignores_parameter_references() {
    let (doc, root) = document("3.0.3");
    let s = apin::openapi30::parse_checked("t.yaml".to_string(), &doc, &root).unwrap();
    assert_eq!(s.paths.len(), 1);
    let get = &s.paths[0].operations[0];
    assert!(get.params.is_empty());
    let post = &s.paths[0].operations[1];
    let names: Vec<&str> = post.request_body.as_ref().unwrap().fields.iter().map(|f| f.name.as_str()).collect();
    assert_eq!(names, vec!["name", "size"]);
}

#[test]
fn openapi30_refuses_self_referencing_body_schemas() {
    let (mut doc, root) = document("3.0.3");
    if let Some(c) = doc.components.as_mut() {
        c.schemas = vec![(
            "Thing".to_string(),
            SchemaRef::Item(Box::new(Api3Schema {
                shape: Shape::AllOf(vec![SchemaRef::Reference("#/components/schemas/Thing".to_string())]),
                type_set: None,
                properties: vec![],
                value: None,
            })),
        )];
    }
    assert!(apin::openapi30::parse_checked("t.yaml".to_string(), &doc, &root).is_none());
}

#[test]
fn openapi30_untyped_schemas_are_arrays_only_when_they_say_so() {
    for (typ, expected) in [(Some("array"), vec!["[]name", "[]size"]), (Some("object"), vec!["id"]), (None, vec!["id"])] {
        let (mut doc, root) = document("3.0.3");
        if let Some(c) = doc.components.as_mut() {
            c.schemas.push((
                "List".to_string(),
                SchemaRef::Item(Box::new(Api3Schema {
                    shape: Shape::Untyped(
                        typ.map(|t| t.to_string()),
                        Some(SchemaRef::Reference("#/components/schemas/Thing".to_string())),
                    ),
                    type_set: None,
                    properties: vec!["id".to_string()],
                    value: None,
                })),
            ));
        }
        if let PathItemRef::Item(item) = &mut doc.paths[0].1 {
            if let Some(BodyRef::Item(b)) = item.operations[1].1.request_body.as_mut() {
                b.content[0].1.schema = Some(SchemaRef::Reference("#/components/schemas/List".to_string()));
            }
        }
        let s = apin::openapi30::parse_checked("t.yaml".to_string(), &doc, &root).unwrap();
        let post = &s.paths[0].operations[1];
        let names: Vec<&str> = post.request_body.as_ref().unwrap().fields.iter().map(|f| f.name.as_str()).collect();
        assert_eq!(names, expected);
    }
}
