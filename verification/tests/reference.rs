use wash::error::CommandError;
use wash::reference::Reference;

fn parsed(text: &str) -> Reference {
    match Reference::parse(text) {
        Ok(reference) => reference,
        Err(e) => panic!("{} should parse, got {:?}", text, e),
    }
}

fn rejected(text: &str) {
    assert_eq!(Reference::parse(text), Err(CommandError::ReferenceParseError), "{}", text);
}

#[test]
fn parse_keeps_the_text() {
    let reference = parsed("registry.example/ns/comp:1.0");
    assert_eq!(reference.as_str(), "registry.example/ns/comp:1.0");
}

#[test]
fn parse_splits_a_tagged_reference() {
    let reference = parsed("registry.example/ns/comp:1.0");
    assert_eq!(reference.registry(), "registry.example");
    assert_eq!(reference.repository(), "ns/comp");
    assert_eq!(reference.namespace(), Some("ns".to_string()));
    assert_eq!(reference.name(), "comp");
    assert_eq!(reference.tag(), Some("1.0".to_string()));
    assert_eq!(reference.digest(), None);
}

#[test]
fn parse_splits_a_digest_reference() {
    let reference = parsed("ghcr.io/wasmcloud/components/http-hello@sha256:0123abcdef");
    assert_eq!(reference.registry(), "ghcr.io");
    assert_eq!(reference.repository(), "wasmcloud/components/http-hello");
    assert_eq!(reference.namespace(), Some("wasmcloud/components".to_string()));
    assert_eq!(reference.name(), "http-hello");
    assert_eq!(reference.tag(), None);
    assert_eq!(reference.digest(), Some("sha256:0123abcdef".to_string()));
}

#[test]
fn parse_accepts_a_registry_with_a_port() {
    let reference = parsed("localhost:5000/comp:latest");
    assert_eq!(reference.registry(), "localhost:5000");
    assert_eq!(reference.repository(), "comp");
    assert_eq!(reference.namespace(), None);
    assert_eq!(reference.name(), "comp");
    assert_eq!(reference.tag(), Some("latest".to_string()));
}

#[test]
fn parse_accepts_upper_case_in_tags_only() {
    parsed("registry.example/comp:V1_0-RC.1");
    rejected("registry.example/Comp:1.0");
}

#[test]
fn parse_rejects_the_empty_text() {
    rejected("");
}

#[test]
fn parse_rejects_a_missing_registry() {
    rejected("comp:1.0");
    rejected("/ns/comp:1.0");
}

#[test]
fn parse_rejects_a_missing_version() {
    rejected("registry.example/ns/comp");
    rejected("registry.example/ns/comp:");
    rejected("registry.example/ns/comp@");
}

#[test]
fn parse_rejects_a_malformed_repository() {
    rejected("registry.example/:1.0");
    rejected("registry.example//comp:1.0");
    rejected("registry.example/ns//comp:1.0");
    rejected("registry.example/ns/:1.0");
    rejected("registry.example/ns/co mp:1.0");
}

#[test]
fn parse_rejects_a_malformed_registry() {
    rejected("registry example/comp:1.0");
    rejected("registry_example/comp:1.0");
    rejected("reg@istry/comp:1.0");
}

#[test]
fn parse_rejects_a_malformed_tag() {
    rejected("registry.example/comp:1.0:2");
    rejected("registry.example/comp:1/0");
    rejected("registry.example/comp:1.0@sha256:abc");
}

#[test]
fn parse_rejects_a_malformed_digest() {
    rejected("registry.example/comp@sha256");
    rejected("registry.example/comp@sha256:");
    rejected("registry.example/comp@:abcdef");
    rejected("registry.example/comp@SHA256:abcdef");
    rejected("registry.example/comp@sha256:abc:def");
}

#[test]
fn parse_rejects_text_outside_ascii() {
    rejected("registry.example/ns/cömp:1.0");
    rejected("régistry.example/ns/comp:1.0");
}

#[test]
fn a_clone_is_the_same_reference() {
    let reference = parsed("registry.example/ns/comp:1.0");
    let copy = reference.clone();
    assert_eq!(copy, reference);
    assert_eq!(copy.as_str(), "registry.example/ns/comp:1.0");
}
