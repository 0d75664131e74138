use mdbook_plantuml_renderer::cache::{resolve_action, CacheAction};
use mdbook_plantuml_renderer::pipeline::{
    determine_build_directory, determine_plantuml_output_directory, render_failure_message,
    Diagnostics, LogLevel, PlantumlRendererPreprocessor,
};
use mdbook_plantuml_renderer::rewriter::RewriteError;
use mdbook_plantuml_renderer::token::{
    plantuml_renderable_language, renderable_plantuml_end, renderable_plantuml_start, Token,
};

fn preprocessor() -> PlantumlRendererPreprocessor {
    PlantumlRendererPreprocessor::default()
}

fn renderable_block(source: &str) -> Vec<Token> {
    vec![
        Token::BlockStart(String::from(plantuml_renderable_language())),
        Token::Text(String::from(source)),
        Token::BlockEnd(String::from(plantuml_renderable_language())),
    ]
}

#[test]
fn preprocessor_name() {
    assert_eq!(preprocessor().name(), "plantuml-renderer");
}

#[test]
fn supports_every_renderer() {
    assert!(preprocessor().supports_renderer("html"));
    assert!(preprocessor().supports_renderer("anything"));
}

#[test]
fn marker_predicates_match_exactly() {
    let start = Token::BlockStart(String::from("plantuml,render"));
    let end = Token::BlockEnd(String::from("plantuml,render"));
    let wrong = Token::BlockStart(String::from("plantuml"));
    assert!(renderable_plantuml_start(&start));
    assert!(renderable_plantuml_end(&end));
    assert!(!renderable_plantuml_start(&wrong));
    assert!(!renderable_plantuml_start(&end));
    assert!(!renderable_plantuml_end(&start));
}

#[test]
fn build_directory_is_joined_under_root() {
    assert_eq!(determine_build_directory("/book", "build"), "/book/build");
}

#[test]
fn plantuml_output_directory_is_under_build_directory() {
    assert_eq!(
        determine_plantuml_output_directory("/book", "build"),
        "/book/build/plantuml-renderer"
    );
}

#[test]
fn diagnostics_record_in_order() {
    let mut diagnostics = Diagnostics::new();
    diagnostics.info(String::from("first"));
    diagnostics.debug(String::from("second"));
    diagnostics.trace(String::from("third"));
    diagnostics.warn(String::from("fourth"));
    let levels: Vec<LogLevel> = diagnostics.entries.iter().map(|e| e.level).collect();
    let messages: Vec<&str> = diagnostics.entries.iter().map(|e| e.message.as_str()).collect();
    assert_eq!(
        levels,
        vec![LogLevel::Info, LogLevel::Debug, LogLevel::Trace, LogLevel::Warn]
    );
    assert_eq!(messages, vec!["first", "second", "third", "fourth"]);
}

#[test]
fn rewrite_error_describes_itself() {
    assert_eq!(
        RewriteError::UnterminatedRegion.describe(),
        "unterminated renderable region at end of document"
    );
}

/// Processing the same chapter twice against the same output directory
/// produces identical output, and the renderer is invoked zero times on the
/// second run: every artifact already exists.
#[test]
fn second_run_is_byte_identical_and_renders_nothing() {
    let chapter = || {
        let mut tokens = vec![Token::Text(String::from("intro "))];
        tokens.extend(renderable_block("A -> B"));
        tokens.push(Token::Text(String::from(" outro")));
        tokens
    };

    let mut existing_artifacts: Vec<String> = Vec::new();
    let mut render_invocations_per_run: Vec<usize> = Vec::new();
    let mut outputs: Vec<Vec<Token>> = Vec::new();

    for _ in 0..2 {
        let mut diagnostics = Diagnostics::new();
        let outcome = preprocessor().run_chapter(chapter(), "out", &mut diagnostics).unwrap();
        let mut invocations: usize = 0;
        for request in &outcome.requests {
            let exists = existing_artifacts.contains(&request.artifact_path);
            if resolve_action(exists) == CacheAction::Render {
                invocations += 1;
                existing_artifacts.push(request.artifact_path.clone());
            }
        }
        render_invocations_per_run.push(invocations);
        outputs.push(outcome.tokens);
    }

    assert_eq!(outputs[0], outputs[1]);
    assert_eq!(render_invocations_per_run, vec![1, 0]);
}

/// A failing renderer does not block the document: the image reference for
/// the broken diagram is still emitted, the rest of the document is intact,
/// and the failure is reported through the diagnostics sink.
#[test]
fn renderer_failure_still_emits_reference_and_is_reported() {
    let mut tokens = vec![Token::Text(String::from("before "))];
    tokens.extend(renderable_block("broken"));
    tokens.push(Token::Text(String::from(" after")));

    let mut diagnostics = Diagnostics::new();
    let outcome = preprocessor().run_chapter(tokens, "out", &mut diagnostics).unwrap();
    assert_eq!(outcome.requests.len(), 1);
    let request = &outcome.requests[0];
    let recorded_before_render = diagnostics.entries.len();

    // The renderer exits non-zero; the host reports it and moves on.
    if resolve_action(false) == CacheAction::Render {
        diagnostics.warn(render_failure_message(request));
    }

    let has_reference = outcome
        .tokens
        .iter()
        .any(|t| matches!(t, Token::ImageStart(path) if *path == request.artifact_path));
    assert!(has_reference);
    assert_eq!(outcome.tokens.first(), Some(&Token::Text(String::from("before "))));
    assert_eq!(outcome.tokens.last(), Some(&Token::Text(String::from(" after"))));
    assert_eq!(diagnostics.entries.len(), recorded_before_render + 1);
    let failure_entry = diagnostics.entries.last().unwrap();
    assert_eq!(failure_entry.level, LogLevel::Warn);
    assert!(failure_entry.message.contains(request.artifact_path.as_str()));
}

/// Each matched diagram is recorded in the diagnostics sink: the source
/// found, the hash computed, and the filename chosen, in document order.
#[test]
fn run_chapter_records_what_it_found() {
    let mut diagnostics = Diagnostics::new();
    let outcome = preprocessor()
        .run_chapter(renderable_block("A -> B"), "out", &mut diagnostics)
        .unwrap();
    let request = &outcome.requests[0];

    let recorded: Vec<(LogLevel, String)> = diagnostics
        .entries
        .iter()
        .map(|e| (e.level, e.message.clone()))
        .collect();
    assert_eq!(
        recorded,
        vec![
            (LogLevel::Trace, format!("found plantuml diagram:\n{}", request.source)),
            (LogLevel::Debug, format!("plantuml SHA1 hash sum: {}", request.fingerprint)),
            (LogLevel::Debug, format!("filename: {}", request.artifact_path)),
        ]
    );
}
