//! The content-addressed artifact cache: per diagram, decide whether a fresh
//! render is needed or an existing artifact can be referenced, keyed by the
//! fingerprint of the diagram source.
//!
//! The decision logic and the path arithmetic live here, verified.  The two
//! effects they steer — probing durable storage for the artifact and running
//! the external renderer — are performed by the host program, which feeds the
//! outcome of the probe back into [`resolve_action`].

use vstd::prelude::*;
use vstd::string::StringExecFns;
use crate::fingerprint::{fingerprint, fingerprint_shaped, sha1_hex_of};

verus! {

/// The path of the rendered artifact for a diagram source: the fingerprint
/// with the image extension, under the output directory.
pub open spec fn artifact_path_of(source: Seq<char>, output_directory: Seq<char>) -> Seq<char> {
    output_directory + "/"@ + sha1_hex_of(source) + ".svg"@
}

/// The path of the intermediate source file for a diagram source: the
/// fingerprint with the source extension, under the output directory.
pub open spec fn source_path_of(source: Seq<char>, output_directory: Seq<char>) -> Seq<char> {
    output_directory + "/"@ + sha1_hex_of(source) + ".puml"@
}

/// Everything the host needs in order to materialize one diagram's artifact:
/// the diagram source, its fingerprint, and the two derived paths.
#[derive(Debug, PartialEq, Eq)]
pub struct RenderRequest {
    /// The diagram source text, exactly as carried by the matched span.
    pub source: String,
    /// The fingerprint of `source`, in lowercase hexadecimal.
    pub fingerprint: String,
    /// Where the intermediate source file is to be written on a cache miss.
    pub source_path: String,
    /// Where the rendered artifact is expected to appear.
    pub artifact_path: String,
}

impl RenderRequest {
    /// The request's fields agree with one another and with the output
    /// directory: the fingerprint is the hash of the source, and both paths
    /// are built from it.
    pub open spec fn wf(self, output_directory: Seq<char>) -> bool {
        &&& self.fingerprint@ == sha1_hex_of(self.source@)
        &&& fingerprint_shaped(self.fingerprint@)
        &&& self.source_path@ == source_path_of(self.source@, output_directory)
        &&& self.artifact_path@ == artifact_path_of(self.source@, output_directory)
    }
}

/// Build the render request for one diagram source: fingerprint it and
/// derive the candidate artifact and intermediate-source paths under the
/// output directory.
pub fn make_render_request(source: String, output_directory: &str) -> (r: RenderRequest)
    ensures
        r.wf(output_directory@),
        r.source@ == source@,
{
    let digest = fingerprint(source.as_str());

    let mut source_path = String::from_str(output_directory);
    source_path.append("/");
    source_path.append(digest.as_str());
    source_path.append(".puml");

    let mut artifact_path = String::from_str(output_directory);
    artifact_path.append("/");
    artifact_path.append(digest.as_str());
    artifact_path.append(".svg");

    RenderRequest { source, fingerprint: digest, source_path, artifact_path }
}

/// What the cache tells the host to do for one diagram, after the host has
/// probed durable storage for the artifact.
#[derive(Debug, Clone, Copy, PartialEq, Eq, Structural)]
pub enum CacheAction {
    /// Cache hit: the artifact already exists; reference it, write nothing,
    /// run nothing.
    UseExisting,
    /// Cache miss: write the intermediate source file and invoke the
    /// external renderer.
    Render,
}

/// The cache-hit decision: render exactly when the artifact does not already
/// exist.
pub fn resolve_action(artifact_exists: bool) -> (a: CacheAction)
    ensures
        a == CacheAction::Render <==> !artifact_exists,
        a == CacheAction::UseExisting <==> artifact_exists,
{
    if artifact_exists {
        CacheAction::UseExisting
    } else {
        CacheAction::Render
    }
}

/// A model of the output directory as the cache sees it: the set of
/// fingerprints whose artifact exists on durable storage.
pub ghost struct CacheState {
    pub artifacts: Set<Seq<char>>,
}

/// One resolution step for the diagram with fingerprint `fp`: on a hit
/// nothing changes and the renderer is not invoked; on a miss the renderer
/// is invoked, and the artifact appears exactly when the renderer succeeds.
/// Returns the state afterwards and whether the renderer was invoked.
pub open spec fn resolve_transition(s: CacheState, fp: Seq<char>, render_succeeds: bool) -> (
    CacheState,
    bool,
) {
    if s.artifacts.contains(fp) {
        (s, false)
    } else if render_succeeds {
        (CacheState { artifacts: s.artifacts.insert(fp) }, true)
    } else {
        (s, true)
    }
}

/// Law: resolving the same diagram source twice against the same output
/// directory invokes the external renderer at most once — after the first
/// resolution (a hit, or a miss whose render succeeded) the second
/// resolution is a pure cache hit and changes nothing.
pub proof fn lemma_resolve_idempotent(s: CacheState, fp: Seq<char>)
    ensures
        resolve_transition(resolve_transition(s, fp, true).0, fp, true).1 == false,
        resolve_transition(resolve_transition(s, fp, true).0, fp, true).0 == resolve_transition(
            s,
            fp,
            true,
        ).0,
{
}

/// Law: a failed render leaves the cache exactly as it was — the artifact
/// does not appear, and a later resolution of the same fingerprint will try
/// to render again rather than report a false hit.
pub proof fn lemma_failed_render_changes_nothing(s: CacheState, fp: Seq<char>)
    requires
        !s.artifacts.contains(fp),
    ensures
        resolve_transition(s, fp, false).0 == s,
        resolve_transition(s, fp, false).1 == true,
{
}

} // verus!
