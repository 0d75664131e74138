use mdbook_plantuml_renderer::cache::{make_render_request, resolve_action, CacheAction};

#[test]
fn make_render_request_builds_both_paths() {
    let request = make_render_request(String::from("abc"), "out");
    assert_eq!(request.source, "abc");
    assert_eq!(request.fingerprint, "a9993e364706816aba3e25717850c26c9cd0d89d");
    assert_eq!(request.source_path, "out/a9993e364706816aba3e25717850c26c9cd0d89d.puml");
    assert_eq!(request.artifact_path, "out/a9993e364706816aba3e25717850c26c9cd0d89d.svg");
}

#[test]
fn resolve_action_hit_skips_render() {
    assert_eq!(resolve_action(true), CacheAction::UseExisting);
}

#[test]
fn resolve_action_miss_renders() {
    assert_eq!(resolve_action(false), CacheAction::Render);
}

/// Resolving the same diagram source twice against the same output
/// directory invokes the renderer at most once: the second resolution is a
/// pure cache hit.  The renderer and durable storage are simulated by a
/// call counter and a list of artifact paths.
#[test]
fn resolve_twice_renders_once() {
    let mut existing_artifacts: Vec<String> = Vec::new();
    let mut render_invocations: usize = 0;

    for _ in 0..2 {
        let request = make_render_request(String::from("@startuml\nA -> B\n@enduml\n"), "out");
        let exists = existing_artifacts.contains(&request.artifact_path);
        match resolve_action(exists) {
            CacheAction::Render => {
                render_invocations += 1;
                existing_artifacts.push(request.artifact_path.clone());
            }
            CacheAction::UseExisting => {}
        }
    }

    assert_eq!(render_invocations, 1);
}

/// A failed render leaves no artifact behind, so a later resolution tries
/// to render again instead of reporting a false hit.
#[test]
fn failed_render_is_retried_not_cached() {
    let existing_artifacts: Vec<String> = Vec::new();
    let mut render_invocations: usize = 0;

    for _ in 0..2 {
        let request = make_render_request(String::from("broken diagram"), "out");
        let exists = existing_artifacts.contains(&request.artifact_path);
        if resolve_action(exists) == CacheAction::Render {
            render_invocations += 1;
            // The renderer exits non-zero: no artifact is published.
        }
    }

    assert_eq!(render_invocations, 2);
}
