//! The pipeline driver: per-document orchestration of the rewriter and the
//! cache, the derivation of the output directory, and an explicitly
//! constructed, passed-down diagnostics sink.
//!
//! The host program owns the edges: it parses a chapter into tokens, hands
//! them to [`PlantumlRendererPreprocessor::run_chapter`], performs the
//! returned render requests against durable storage, and re-serializes the
//! rewritten tokens.

use vstd::prelude::*;
use vstd::string::StringExecFns;
use crate::cache::RenderRequest;
use crate::rewriter::{rewrite_between, request_sources, spec_rewrite, RewriteError, RewriteOutcome};
use crate::token::{spec_renderable_language, views_of, Token};

verus! {

/// The severity of one diagnostic message.
#[derive(Debug, Clone, Copy, PartialEq, Eq, Structural)]
pub enum LogLevel {
    Info,
    Debug,
    Trace,
    Warn,
}

/// One recorded diagnostic message.
#[derive(Debug)]
pub struct LogEntry {
    pub level: LogLevel,
    pub message: String,
}

/// An explicitly constructed, passed-down diagnostics sink: the stage
/// records what it did and what failed here, and the host decides what to
/// do with the record.
#[derive(Debug)]
pub struct Diagnostics {
    pub entries: Vec<LogEntry>,
}

impl View for Diagnostics {
    type V = Seq<(LogLevel, Seq<char>)>;

    open spec fn view(&self) -> Seq<(LogLevel, Seq<char>)> {
        self.entries@.map_values(|e: LogEntry| (e.level, e.message@))
    }
}

impl Diagnostics {
    /// An empty sink.
    pub fn new() -> (d: Diagnostics)
        ensures
            d@ == Seq::<(LogLevel, Seq<char>)>::empty(),
    {
        let d = Diagnostics { entries: Vec::new() };
        proof {
            assert(d@ =~= Seq::<(LogLevel, Seq<char>)>::empty());
        }
        d
    }

    /// Record one message at the given severity; everything recorded before
    /// is kept, in order.
    pub fn record(&mut self, level: LogLevel, message: String)
        ensures
            final(self)@ == old(self)@.push((level, message@)),
    {
        self.entries.push(LogEntry { level, message });
        proof {
            assert(self@ =~= old(self)@.push((level, message@)));
        }
    }

    /// Record an informational message.
    pub fn info(&mut self, message: String)
        ensures
            final(self)@ == old(self)@.push((LogLevel::Info, message@)),
    {
        self.record(LogLevel::Info, message);
    }

    /// Record a debugging message.
    pub fn debug(&mut self, message: String)
        ensures
            final(self)@ == old(self)@.push((LogLevel::Debug, message@)),
    {
        self.record(LogLevel::Debug, message);
    }

    /// Record a tracing message.
    pub fn trace(&mut self, message: String)
        ensures
            final(self)@ == old(self)@.push((LogLevel::Trace, message@)),
    {
        self.record(LogLevel::Trace, message);
    }

    /// Record a warning.
    pub fn warn(&mut self, message: String)
        ensures
            final(self)@ == old(self)@.push((LogLevel::Warn, message@)),
    {
        self.record(LogLevel::Warn, message);
    }
}

/// What the stage records about one matched diagram: the diagram source it
/// found, the hash it computed, and the artifact filename it chose.
pub open spec fn request_log(request: RenderRequest) -> Seq<(LogLevel, Seq<char>)> {
    seq![
        (LogLevel::Trace, "found plantuml diagram:\n"@ + request.source@),
        (LogLevel::Debug, "plantuml SHA1 hash sum: "@ + request.fingerprint@),
        (LogLevel::Debug, "filename: "@ + request.artifact_path@),
    ]
}

/// What the stage records about a sequence of matched diagrams, in document
/// order.
pub open spec fn requests_log(requests: Seq<RenderRequest>) -> Seq<(LogLevel, Seq<char>)>
    decreases requests.len(),
{
    if requests.len() == 0 {
        Seq::<(LogLevel, Seq<char>)>::empty()
    } else {
        request_log(requests.first()) + requests_log(requests.drop_first())
    }
}

proof fn lemma_requests_log_push(requests: Seq<RenderRequest>, request: RenderRequest)
    ensures
        requests_log(requests.push(request)) == requests_log(requests) + request_log(request),
    decreases requests.len(),
{
    let pushed = requests.push(request);
    if requests.len() == 0 {
        assert(pushed.first() == request);
        assert(pushed.drop_first() =~= Seq::<RenderRequest>::empty());
        assert(requests_log(pushed) == request_log(request) + requests_log(
            Seq::<RenderRequest>::empty(),
        ));
        assert(request_log(request) + Seq::<(LogLevel, Seq<char>)>::empty() =~= request_log(
            request,
        ));
        assert(Seq::<(LogLevel, Seq<char>)>::empty() + request_log(request) =~= request_log(
            request,
        ));
    } else {
        assert(pushed.first() == requests.first());
        assert(pushed.drop_first() =~= requests.drop_first().push(request));
        assert(requests_log(pushed) == request_log(requests.first()) + requests_log(
            requests.drop_first().push(request),
        ));
        lemma_requests_log_push(requests.drop_first(), request);
        assert(request_log(requests.first()) + (requests_log(requests.drop_first()) + request_log(
            request,
        )) =~= (request_log(requests.first()) + requests_log(requests.drop_first())) + request_log(
            request,
        ));
        assert(requests_log(requests) == request_log(requests.first()) + requests_log(
            requests.drop_first(),
        ));
    }
}

/// The message reported through the diagnostics sink when the external
/// renderer fails for one diagram: it names the artifact path the document
/// now references, so the operator can diagnose the broken render.
pub fn render_failure_message(request: &RenderRequest) -> (r: String)
    ensures
        r@ == "PlantUML render failed for "@ + request.artifact_path@,
{
    let mut message = String::from_str("PlantUML render failed for ");
    message.append(request.artifact_path.as_str());
    message
}

/// The build directory of the book: the configured build directory joined
/// under the project root.  Paths are joined with a fixed `/` separator.
pub open spec fn build_directory_of(root: Seq<char>, build_dir: Seq<char>) -> Seq<char> {
    root + "/"@ + build_dir
}

/// The directory this stage writes under: `plantuml-renderer` inside the
/// build directory.
pub open spec fn plantuml_output_directory_of(root: Seq<char>, build_dir: Seq<char>) -> Seq<char> {
    build_directory_of(root, build_dir) + "/"@ + "plantuml-renderer"@
}

/// Takes the root of the book and concatenates the build directory.  This
/// works because the build directory is configured relative to the project
/// root.
pub fn determine_build_directory(root: &str, build_dir: &str) -> (r: String)
    ensures
        r@ == build_directory_of(root@, build_dir@),
{
    let mut directory = String::from_str(root);
    directory.append("/");
    directory.append(build_dir);
    directory
}

/// The output directory for rendered diagrams and intermediate sources.
pub fn determine_plantuml_output_directory(root: &str, build_dir: &str) -> (r: String)
    ensures
        r@ == plantuml_output_directory_of(root@, build_dir@),
{
    let mut directory = determine_build_directory(root, build_dir);
    directory.append("/");
    directory.append("plantuml-renderer");
    directory
}

/// The document-transformation stage itself.
#[derive(Debug)]
pub struct PlantumlRendererPreprocessor {}

impl Default for PlantumlRendererPreprocessor {
    /// The stage carries no configuration.
    fn default() -> (r: Self)
        ensures
            r == (PlantumlRendererPreprocessor {  }),
    {
        PlantumlRendererPreprocessor {  }
    }
}

impl PlantumlRendererPreprocessor {
    /// The stage's name, as the host addresses it.
    pub fn name(&self) -> (r: &'static str)
        ensures
            r@ == "plantuml-renderer"@,
    {
        "plantuml-renderer"
    }

    /// The stage does not depend on any particular output renderer of the
    /// host: it supports them all.
    pub fn supports_renderer(&self, _renderer: &str) -> (r: bool)
        ensures
            r == true,
    {
        true
    }

    /// Transform one chapter: rewrite its token sequence, replacing every
    /// renderable span with an image reference, and return the rewritten
    /// tokens together with one render request per matched span.  What was
    /// found, hashed and chosen as a filename is recorded in the
    /// diagnostics sink, per span and in document order.  The host performs
    /// the requests and re-serializes the tokens.
    pub fn run_chapter(
        &self,
        tokens: Vec<Token>,
        output_directory: &str,
        diagnostics: &mut Diagnostics,
    ) -> (r: Result<RewriteOutcome, RewriteError>)
        ensures
            match r {
                Result::Ok(outcome) => {
                    &&& spec_rewrite(
                        views_of(tokens@),
                        spec_renderable_language(),
                        output_directory@,
                    ) == Option::Some(
                        (views_of(outcome.tokens@), request_sources(outcome.requests@)),
                    )
                    &&& forall|k: int|
                        0 <= k < outcome.requests@.len() ==> (#[trigger] outcome.requests@[k]).wf(
                            output_directory@,
                        )
                    &&& final(diagnostics)@ == old(diagnostics)@ + requests_log(outcome.requests@)
                },
                Result::Err(e) => {
                    &&& spec_rewrite(
                        views_of(tokens@),
                        spec_renderable_language(),
                        output_directory@,
                    ) is None
                    &&& e == RewriteError::UnterminatedRegion
                    &&& final(diagnostics)@ == old(diagnostics)@
                },
            },
    {
        let result = rewrite_between(tokens, output_directory);
        match result {
            Result::Ok(outcome) => {
                let ghost recorded = diagnostics@;
                let mut i: usize = 0;
                proof {
                    assert(outcome.requests@.take(0) =~= Seq::<RenderRequest>::empty());
                    assert(recorded + requests_log(outcome.requests@.take(0)) =~= recorded);
                }
                while i < outcome.requests.len()
                    invariant
                        i <= outcome.requests@.len(),
                        diagnostics@ == recorded + requests_log(outcome.requests@.take(i as int)),
                    decreases outcome.requests@.len() - i,
                {
                    let ghost before = diagnostics@;
                    let request = &outcome.requests[i];
                    let mut found_message = String::from_str("found plantuml diagram:\n");
                    found_message.append(request.source.as_str());
                    diagnostics.trace(found_message);
                    let mut hash_message = String::from_str("plantuml SHA1 hash sum: ");
                    hash_message.append(request.fingerprint.as_str());
                    diagnostics.debug(hash_message);
                    let mut filename_message = String::from_str("filename: ");
                    filename_message.append(request.artifact_path.as_str());
                    diagnostics.debug(filename_message);
                    proof {
                        lemma_requests_log_push(
                            outcome.requests@.take(i as int),
                            outcome.requests@[i as int],
                        );
                        assert(outcome.requests@.take(i as int + 1) =~= outcome.requests@.take(
                            i as int,
                        ).push(outcome.requests@[i as int]));
                        assert(diagnostics@ =~= before + request_log(outcome.requests@[i as int]));
                        assert(recorded + (requests_log(outcome.requests@.take(i as int))
                            + request_log(outcome.requests@[i as int])) =~= (recorded
                            + requests_log(outcome.requests@.take(i as int))) + request_log(
                            outcome.requests@[i as int],
                        ));
                    }
                    i = i + 1;
                }
                proof {
                    assert(outcome.requests@.take(i as int) =~= outcome.requests@);
                }
                Result::Ok(outcome)
            },
            Result::Err(e) => Result::Err(e),
        }
    }
}

} // verus!
