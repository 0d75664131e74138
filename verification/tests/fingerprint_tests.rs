use crypto::digest::Digest;
use crypto::sha1::Sha1;
use mdbook_plantuml_renderer::fingerprint::fingerprint;

fn reference_sha1_hex(s: &str) -> String {
    let mut hasher = Sha1::new();
    hasher.input_str(s);
    hasher.result_str()
}

#[test]
fn fingerprint_known_vector_abc() {
    assert_eq!(fingerprint("abc"), "a9993e364706816aba3e25717850c26c9cd0d89d");
}

#[test]
fn fingerprint_known_vector_empty() {
    assert_eq!(fingerprint(""), "da39a3ee5e6b4b0d3255bfef95601890afd80709");
}

#[test]
fn fingerprint_matches_reference_digest() {
    for s in ["FOO", "@startuml\nA -> B\n@enduml\n", "x"] {
        assert_eq!(fingerprint(s), reference_sha1_hex(s));
    }
}

#[test]
fn fingerprint_deterministic() {
    let a = String::from("@startuml\nA -> B\n@enduml\n");
    let b = a.clone();
    assert_eq!(fingerprint(&a), fingerprint(&b));
}

#[test]
fn fingerprint_distinct_fixtures() {
    let fixtures = ["", "a", "b", "FOO", "foo", "FOO\n", " FOO", "F OO"];
    let digests: Vec<String> = fixtures.iter().map(|s| fingerprint(s)).collect();
    for i in 0..digests.len() {
        for j in 0..digests.len() {
            if i != j {
                assert_ne!(digests[i], digests[j], "collision between fixtures {} and {}", i, j);
            }
        }
    }
}

#[test]
fn fingerprint_is_forty_lowercase_hex_chars() {
    let d = fingerprint("anything at all");
    assert_eq!(d.len(), 40);
    assert!(d.chars().all(|c| c.is_ascii_hexdigit() && !c.is_ascii_uppercase()));
}
