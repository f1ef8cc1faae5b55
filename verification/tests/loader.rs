use apin::loader::{dialect_of, parse_spec, sniff_swagger_version, sniff_version, Dialect, LoadError, VersionError};

#[test]
fn sniff_reads_yaml_version_with_or_without_quotes() {
    assert_eq!(sniff_version("openapi: \"3.1.0\"\ninfo: {}"), Some("3.1.0".to_string()));
    assert_eq!(sniff_version("info:\n  title: x\nopenapi: 3.0.3\n"), Some("3.0.3".to_string()));
    assert_eq!(sniff_version("  openapi: '3.2.0'"), Some("3.2.0".to_string()));
}

#[test]
fn sniff_reads_json_version() {
    assert_eq!(sniff_version("{\n  \"openapi\": \"3.0.3\",\n  \"info\": {}\n}"), Some("3.0.3".to_string()));
    assert_eq!(sniff_version("{\n  \"info\": {},\n  \"openapi\": \"3.1.0\"\n}"), Some("3.1.0".to_string()));
}

#[test]
fn sniff_finds_nothing_without_the_key() {
    assert_eq!(sniff_version("info:\n  title: x\n"), None);
    assert_eq!(sniff_version(""), None);
    assert_eq!(sniff_version("openapi:\n"), None);
}

#[test]
fn sniff_swagger_reads_its_own_key() {
    assert_eq!(sniff_swagger_version("swagger: \"2.0\"\n"), Some("2.0".to_string()));
    assert_eq!(sniff_swagger_version("openapi: 3.0.0\n"), None);
}

#[test]
fn dialects_by_declared_version() {
    assert_eq!(dialect_of("swagger: '2.0'\n"), Ok(Dialect::Swagger2));
    assert_eq!(dialect_of("openapi: 3.0.1\n"), Ok(Dialect::OpenApi30));
    assert_eq!(dialect_of("openapi: 3.1.0\n"), Ok(Dialect::OpenApi31));
    assert_eq!(dialect_of("openapi: 3.2.0\n"), Ok(Dialect::OpenApi31));
}

#[test]
fn unsupported_versions_are_named() {
    assert_eq!(dialect_of("openapi: 4.0.0\n"), Err(VersionError::Unsupported("4.0.0".to_string())));
    assert_eq!(dialect_of("swagger: 1.2\n"), Err(VersionError::Unsupported("1.2".to_string())));
}

#[test]
fn documents_without_a_version_are_not_openapi() {
    assert_eq!(dialect_of("title: nothing here\n"), Err(VersionError::NotOpenApi));
}

#[test]
fn openapi_key_wins_over_swagger_key() {
    assert_eq!(dialect_of("swagger: '2.0'\nopenapi: 3.1.0\n"), Ok(Dialect::OpenApi31));
}

#[test]
fn parse_spec_reads_swagger_content() {
    let content = "swagger: \"2.0\"\ninfo:\n  title: Pets\n  version: \"1.2\"\npaths:\n  /pets:\n    get:\n      summary: List pets\n";
    let s = parse_spec("pets.yaml".to_string(), content).unwrap();
    assert_eq!(s.openapi_version, "2.0");
    assert_eq!(s.title, "Pets");
    assert_eq!(s.version, "1.2");
    assert_eq!(s.paths.len(), 1);
    assert_eq!(s.paths[0].path, "/pets");
    assert_eq!(s.paths[0].operations[0].method, "GET");
}

#[test]
fn parse_spec_errors() {
    assert_eq!(parse_spec("a".to_string(), "title: x\n").err(), Some(LoadError::NotOpenApi));
    assert_eq!(
        parse_spec("a".to_string(), "openapi: 4.0.0\n").err(),
        Some(LoadError::Unsupported("4.0.0".to_string()))
    );
    assert_eq!(parse_spec("a".to_string(), "swagger: '2.0'\n  - [\n").err(), Some(LoadError::NotYaml));
    assert_eq!(parse_spec("a".to_string(), "openapi: 3.1.0\ninfo: {}\n").err(), Some(LoadError::NotADocument));
}

#[test]
fn parse_spec_reads_openapi30_content() {
    let content = "openapi: 3.0.3\ninfo:\n  title: Store\n  version: '1'\npaths:\n  /orders:\n    post:\n      summary: Place an order\n      requestBody:\n        required: true\n        content:\n          application/json:\n            schema:\n              type: array\n              items:\n                type: object\n                properties:\n                  sku: {type: string}\n                  qty: {type: integer}\n      responses:\n        '201':\n          description: placed\n";
    let s = parse_spec("store.yaml".to_string(), content).unwrap();
    assert_eq!(s.openapi_version, "3.0.3");
    assert_eq!(s.title, "Store");
    let op = &s.paths[0].operations[0];
    assert_eq!(op.method, "POST");
    assert_eq!(op.summary.as_deref(), Some("Place an order"));
    let body = op.request_body.as_ref().unwrap();
    assert!(body.required);
    let names: Vec<&str> = body.fields.iter().map(|f| f.name.as_str()).collect();
    assert_eq!(names, vec!["[]sku", "[]qty"]);
    assert_eq!(op.responses[0].code, "201");
}

#[test]
fn parse_spec_reads_openapi31_content_with_webhooks() {
    let content = "openapi: 3.1.0\ninfo:\n  title: Hooks\n  version: '2'\npaths:\n  /things:\n    get:\n      operationId: listThings\n      responses:\n        '200':\n          description: ok\nwebhooks:\n  thing.created:\n    post:\n      summary: Created\n";
    let s = parse_spec("hooks.yaml".to_string(), content).unwrap();
    assert_eq!(s.openapi_version, "3.1.0");
    assert_eq!(s.paths.len(), 2);
    assert_eq!(s.paths[0].path, "/things");
    assert_eq!(s.paths[0].operations[0].operation_id.as_deref(), Some("listThings"));
    assert_eq!(s.paths[1].path, "thing.created");
    assert_eq!(s.paths[1].operations[0].method, "POST");
}
