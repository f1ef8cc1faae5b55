use apin::inputs::is_supported_format;

#[test]
fn test_is_supported_format() {
    assert!(is_supported_format("spec.yaml"));
    assert!(is_supported_format("spec.yml"));
    assert!(is_supported_format("SPEC.YAML"));
    assert!(is_supported_format("spec.json"));
    assert!(!is_supported_format("spec.txt"));
}

use apin::inputs::{
    base_url, is_openapi_content, is_openapi_line, looks_like_direct_spec_url, probe_prefixes, probe_urls,
    url_cache_name,
};
use std::collections::hash_map::DefaultHasher;
use std::hash::{Hash, Hasher};

fn hash_of(s: &str) -> u64 {
    let mut h = DefaultHasher::new();
    s.hash(&mut h);
    h.finish()
}

#[test]
fn base_url_keeps_scheme_and_host() {
    assert_eq!(base_url("https://api.example.com/v2/stuff"), "https://api.example.com");
    assert_eq!(base_url("http://localhost:8080"), "http://localhost:8080");
    assert_eq!(base_url("example.com/a/b"), "example.com");
}

#[test]
fn probe_prefixes_try_the_url_then_its_origin() {
    assert_eq!(
        probe_prefixes("https://host/api/v3/"),
        vec!["https://host/api/v3".to_string(), "https://host".to_string()]
    );
    assert_eq!(probe_prefixes("https://host"), vec!["https://host".to_string()]);
    assert_eq!(probe_prefixes("https://host/"), vec!["https://host".to_string()]);
}

#[test]
fn probe_urls_list_every_candidate_in_order() {
    let urls = probe_urls("https://host/api");
    assert_eq!(urls.len(), 16);
    assert_eq!(urls[0], "https://host/api/openapi.yaml");
    assert_eq!(urls[5], "https://host/api/api-docs");
    assert_eq!(urls[7], "https://host/api/api/openapi.json");
    assert_eq!(urls[8], "https://host/openapi.yaml");
    assert_eq!(urls[15], "https://host/api/openapi.json");
}

#[test]
fn direct_spec_urls_by_extension() {
    assert!(looks_like_direct_spec_url("https://x/spec.YAML?token=1"));
    assert!(looks_like_direct_spec_url("https://x/openapi.json"));
    assert!(!looks_like_direct_spec_url("https://x/api"));
    assert!(!looks_like_direct_spec_url("https://x/api?f=a.yaml"));
}

#[test]
fn openapi_lines_yaml_and_json() {
    assert!(is_openapi_line("openapi: 3.0.0"));
    assert!(is_openapi_line("   swagger: '2.0'"));
    assert!(is_openapi_line("  \"openapi\": \"3.1.0\","));
    assert!(is_openapi_line("\"swagger\": \"2.0\""));
    assert!(!is_openapi_line("title: openapi: no"));
    assert!(!is_openapi_line("info:"));
}

#[test]
fn openapi_content_looks_at_the_first_thirty_lines() {
    let mut text = String::new();
    for i in 0..29 {
        text.push_str(&format!("x{}: 1\n", i));
    }
    let within = format!("{}openapi: 3.0.0\n", text);
    assert!(is_openapi_content(&within));
    let beyond = format!("{}x29: 1\nopenapi: 3.0.0\n", text);
    assert!(!is_openapi_content(&beyond));
}

#[test]
fn cache_name_for_a_spec_file_keeps_its_base_name() {
    let url = "https://example.com/v1/petstore.yaml?x=1";
    assert_eq!(url_cache_name(url), format!("apin-{:x}-petstore.yaml", hash_of(url)));
}

#[test]
fn cache_name_for_a_bare_url_is_a_hash() {
    let url = "https://example.com/api";
    assert_eq!(url_cache_name(url), format!("apin-{:x}.yaml", hash_of(url)));
    assert_ne!(url_cache_name(url), url_cache_name("https://example.com/api2"));
}

#[test]
fn urls_are_told_from_paths() {
    assert!(apin::inputs::is_url("https://petstore.example/v3"));
    assert!(apin::inputs::is_url("http://localhost:8080/openapi.json"));
    assert!(!apin::inputs::is_url("specs/http://x"));
    assert!(!apin::inputs::is_url("HTTP://upper.example"));
    assert!(!apin::inputs::is_url("ftp://example.org/spec.yaml"));
    assert!(!apin::inputs::is_url("./api.yaml"));
}

#[test]
fn cache_name_is_stable_per_url() {
    let u = "https://example.org/specs/petstore.yaml?v=2";
    let a = apin::inputs::url_cache_name(u);
    assert_eq!(a, apin::inputs::url_cache_name(u));
    assert!(a.starts_with("apin-") && a.ends_with("-petstore.yaml"));
    let b = apin::inputs::url_cache_name("https://example.org/specs/petstore.yaml?v=3");
    assert_ne!(a, b);
}

#[test]
fn file_heads_are_scanned_to_the_end() {
    let mut head = String::new();
    for i in 0..40 {
        head.push_str(&format!("# comment {}\n", i));
    }
    head.push_str("openapi: 3.1.0\n");
    assert!(apin::inputs::head_declares_root_key(&head));
    assert!(!apin::inputs::is_openapi_content(&head));
    assert!(!apin::inputs::head_declares_root_key("title: x\n"));
}
