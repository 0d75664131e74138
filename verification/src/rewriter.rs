//! The streaming rewriter: one left-to-right pass over a token sequence
//! that replaces every matched renderable span with image-reference tokens
//! and passes every other token through unchanged, in order.

use vstd::prelude::*;
use crate::cache::{artifact_path_of, make_render_request, RenderRequest};
use crate::matcher::{matcher_step, MatchState, StepEffect};
use crate::token::{
    renderable_plantuml_end, renderable_plantuml_start, span_source, spec_renderable_language,
    text_of, views_of, Token, TokenView,
};
use vstd::string::StringExecFns;

verus! {

/// The tokens that replace a matched span: an image reference pointing at
/// the span's artifact path, followed by a soft line break.
pub open spec fn replacement_views(source: Seq<char>, output_directory: Seq<char>) -> Seq<
    TokenView,
> {
    seq![
        TokenView::ImageStart { path: artifact_path_of(source, output_directory) },
        TokenView::ImageEnd { path: artifact_path_of(source, output_directory) },
        TokenView::SoftBreak,
    ]
}

/// Prepend already-produced output tokens and diagram sources to the result
/// of rewriting the remaining input; a failure of the remainder is a failure
/// of the whole.
pub open spec fn prepend_output(
    out: Seq<TokenView>,
    sources: Seq<Seq<char>>,
    rest: Option<(Seq<TokenView>, Seq<Seq<char>>)>,
) -> Option<(Seq<TokenView>, Seq<Seq<char>>)> {
    match rest {
        Option::None => Option::None,
        Option::Some(p) => Option::Some((out + p.0, sources + p.1)),
    }
}

/// What rewriting the remaining tokens from a given matcher state yields:
/// the rewritten token sequence together with the diagram sources of the
/// matched spans, in document order — or nothing, when the input ends while
/// a renderable region is still open (an unterminated region).
pub open spec fn spec_run(
    state: MatchState,
    rest: Seq<TokenView>,
    marker: Seq<char>,
    output_directory: Seq<char>,
) -> Option<(Seq<TokenView>, Seq<Seq<char>>)>
    decreases rest.len(),
{
    if rest.len() == 0 {
        match state {
            MatchState::Outside => Option::Some((Seq::<TokenView>::empty(), Seq::<Seq<char>>::empty())),
            MatchState::Inside { .. } => Option::None,
        }
    } else {
        let step = matcher_step(state, rest.first(), marker);
        let tail = spec_run(step.0, rest.drop_first(), marker, output_directory);
        match step.1 {
            StepEffect::Pass { t } => prepend_output(seq![t], Seq::<Seq<char>>::empty(), tail),
            StepEffect::Open => tail,
            StepEffect::Buffer => tail,
            StepEffect::Complete { span } => prepend_output(
                replacement_views(span_source(span), output_directory),
                seq![span_source(span)],
                tail,
            ),
        }
    }
}

/// What rewriting a whole document yields, starting outside any region.
pub open spec fn spec_rewrite(
    tokens: Seq<TokenView>,
    marker: Seq<char>,
    output_directory: Seq<char>,
) -> Option<(Seq<TokenView>, Seq<Seq<char>>)> {
    spec_run(MatchState::Outside, tokens, marker, output_directory)
}

/// Why rewriting a document failed.
#[derive(Debug, Clone, Copy, PartialEq, Eq, Structural)]
pub enum RewriteError {
    /// The document ended while a renderable region was still open.
    UnterminatedRegion,
}

impl RewriteError {
    /// A human-readable description of the failure.
    pub fn describe(&self) -> (r: String)
        ensures
            r@ == "unterminated renderable region at end of document"@,
    {
        String::from_str("unterminated renderable region at end of document")
    }
}

/// The result of rewriting one document: the rewritten token sequence, and
/// one render request per matched span, in document order.
#[derive(Debug)]
pub struct RewriteOutcome {
    pub tokens: Vec<Token>,
    pub requests: Vec<RenderRequest>,
}

/// The diagram sources of a sequence of render requests, in order.
pub open spec fn request_sources(requests: Seq<RenderRequest>) -> Seq<Seq<char>> {
    requests.map_values(|r: RenderRequest| r.source@)
}

/// The diagram source a buffered span carries: the concatenation of its
/// text tokens, with fence markers and every other token discarded.
fn span_text(span: &Vec<Token>) -> (r: String)
    ensures
        r@ == span_source(views_of(span@)),
{
    let mut text = String::new();
    let mut i: usize = 0;
    proof {
        assert(views_of(span@).skip(0) =~= views_of(span@));
        assert(text@ + span_source(views_of(span@)) =~= span_source(views_of(span@)));
    }
    while i < span.len()
        invariant
            i <= span@.len(),
            text@ + span_source(views_of(span@).skip(i as int)) == span_source(views_of(span@)),
        decreases span@.len() - i,
    {
        proof {
            assert(views_of(span@).skip(i as int).first() == span@[i as int]@);
            assert(views_of(span@).skip(i as int).drop_first() =~= views_of(span@).skip(
                i as int + 1,
            ));
        }
        match &span[i] {
            Token::Text(t) => {
                text.append(t.as_str());
            },
            _ => {
                proof {
                    assert(text_of(span@[i as int]@) =~= Seq::<char>::empty());
                }
            },
        }
        proof {
            assert(text@ + span_source(views_of(span@).skip(i as int + 1)) =~= span_source(
                views_of(span@),
            ));
        }
        i = i + 1;
    }
    proof {
        assert(views_of(span@).skip(i as int) =~= Seq::<TokenView>::empty());
        assert(text@ + Seq::<char>::empty() =~= text@);
    }
    text
}

/// Prepending in two steps is prepending the concatenations at once.
pub proof fn lemma_prepend_assoc(
    out: Seq<TokenView>,
    sources: Seq<Seq<char>>,
    mid_out: Seq<TokenView>,
    mid_sources: Seq<Seq<char>>,
    rest: Option<(Seq<TokenView>, Seq<Seq<char>>)>,
)
    ensures
        prepend_output(out, sources, prepend_output(mid_out, mid_sources, rest)) == prepend_output(
            out + mid_out,
            sources + mid_sources,
            rest,
        ),
{
    match rest {
        Option::None => {},
        Option::Some(p) => {
            assert(out + (mid_out + p.0) =~= (out + mid_out) + p.0);
            assert(sources + (mid_sources + p.1) =~= (sources + mid_sources) + p.1);
        },
    }
}

/// The matcher state the rewrite loop is in, as a function of its executable
/// state: the `inside` flag and the buffered tokens.
pub open spec fn loop_state(inside: bool, buffered: Seq<TokenView>) -> MatchState {
    if inside {
        MatchState::Inside { buffered }
    } else {
        MatchState::Outside
    }
}

/// Rewrite one document's token sequence in a single left-to-right pass:
/// every matched renderable span is replaced by an image reference pointing
/// at the span's artifact path, every other token passes through unchanged
/// and in order, and one render request per matched span is returned in
/// document order.  A document that ends while a renderable region is still
/// open fails with an explicit unterminated-region error.
pub fn rewrite_between(tokens: Vec<Token>, output_directory: &str) -> (r: Result<
    RewriteOutcome,
    RewriteError,
>)
    ensures
        match r {
            Result::Ok(outcome) => {
                &&& spec_rewrite(views_of(tokens@), spec_renderable_language(), output_directory@)
                    == Option::Some(
                    (views_of(outcome.tokens@), request_sources(outcome.requests@)),
                )
                &&& forall|k: int|
                    0 <= k < outcome.requests@.len() ==> (#[trigger] outcome.requests@[k]).wf(
                        output_directory@,
                    )
            },
            Result::Err(e) => {
                &&& spec_rewrite(views_of(tokens@), spec_renderable_language(), output_directory@)
                    is None
                &&& e == RewriteError::UnterminatedRegion
            },
        },
{
    let ghost marker = spec_renderable_language();
    let ghost outdir = output_directory@;
    let ghost all = views_of(tokens@);
    let mut out: Vec<Token> = Vec::new();
    let mut requests: Vec<RenderRequest> = Vec::new();
    let mut buffer: Vec<Token> = Vec::new();
    let mut inside: bool = false;
    let mut i: usize = 0;
    proof {
        assert(all.skip(0) =~= all);
        match spec_run(MatchState::Outside, all, marker, outdir) {
            Option::None => {},
            Option::Some(p) => {
                assert(views_of(out@) =~= Seq::<TokenView>::empty());
                assert(request_sources(requests@) =~= Seq::<Seq<char>>::empty());
                assert(views_of(out@) + p.0 =~= p.0);
                assert(request_sources(requests@) + p.1 =~= p.1);
            },
        }
    }
    while i < tokens.len()
        invariant
            i <= tokens@.len(),
            all == views_of(tokens@),
            marker == spec_renderable_language(),
            outdir == output_directory@,
            prepend_output(
                views_of(out@),
                request_sources(requests@),
                spec_run(
                    loop_state(inside, views_of(buffer@)),
                    all.skip(i as int),
                    marker,
                    outdir,
                ),
            ) == spec_run(MatchState::Outside, all, marker, outdir),
            !inside ==> buffer@.len() == 0,
            forall|k: int| 0 <= k < requests@.len() ==> (#[trigger] requests@[k]).wf(outdir),
        decreases tokens@.len() - i,
    {
        let ghost st = loop_state(inside, views_of(buffer@));
        let ghost rest = all.skip(i as int);
        let ghost tv = tokens@[i as int]@;
        let ghost o0 = views_of(out@);
        let ghost q0 = request_sources(requests@);
        let ghost b0 = views_of(buffer@);
        proof {
            assert(rest.first() == all[i as int]);
            assert(all[i as int] == tv);
            assert(rest.drop_first() =~= all.skip(i as int + 1));
        }
        let ghost tail = spec_run(
            matcher_step(st, tv, marker).0,
            all.skip(i as int + 1),
            marker,
            outdir,
        );
        proof {
            assert(spec_run(st, rest, marker, outdir) == match matcher_step(st, tv, marker).1 {
                StepEffect::Pass { t } => prepend_output(seq![t], Seq::<Seq<char>>::empty(), tail),
                StepEffect::Open => tail,
                StepEffect::Buffer => tail,
                StepEffect::Complete { span } => prepend_output(
                    replacement_views(span_source(span), outdir),
                    seq![span_source(span)],
                    tail,
                ),
            });
        }
        let t = &tokens[i];
        if !inside {
            if renderable_plantuml_start(t) {
                buffer.push(t.clone());
                inside = true;
                proof {
                    assert(views_of(buffer@) =~= seq![tv]);
                    assert(loop_state(inside, views_of(buffer@)) == matcher_step(st, tv, marker).0);
                }
            } else {
                out.push(t.clone());
                proof {
                    assert(matcher_step(st, tv, marker).1 == (StepEffect::Pass { t: tv }));
                    lemma_prepend_assoc(o0, q0, seq![tv], Seq::<Seq<char>>::empty(), tail);
                    assert(views_of(out@) =~= o0 + seq![tv]);
                    assert(request_sources(requests@) =~= q0 + Seq::<Seq<char>>::empty());
                }
            }
        } else {
            if renderable_plantuml_end(t) {
                buffer.push(t.clone());
                let ghost span = views_of(buffer@);
                proof {
                    assert(span =~= b0.push(tv));
                    assert(matcher_step(st, tv, marker).1 == (StepEffect::Complete {
                        span: b0.push(tv),
                    }));
                }
                let source = span_text(&buffer);
                let request = make_render_request(source, output_directory);
                let path_for_start = request.artifact_path.clone();
                let path_for_end = request.artifact_path.clone();
                out.push(Token::ImageStart(path_for_start));
                out.push(Token::ImageEnd(path_for_end));
                out.push(Token::SoftBreak);
                requests.push(request);
                buffer.clear();
                inside = false;
                proof {
                    let src = span_source(span);
                    lemma_prepend_assoc(o0, q0, replacement_views(src, outdir), seq![src], tail);
                    assert(views_of(out@) =~= o0 + replacement_views(src, outdir));
                    assert(request_sources(requests@) =~= q0 + seq![src]);
                    assert(views_of(buffer@) =~= Seq::<TokenView>::empty());
                }
            } else {
                buffer.push(t.clone());
                proof {
                    assert(views_of(buffer@) =~= b0.push(tv));
                    assert(loop_state(inside, views_of(buffer@)) == matcher_step(st, tv, marker).0);
                }
            }
        }
        i = i + 1;
    }
    proof {
        assert(all.skip(i as int) =~= Seq::<TokenView>::empty());
    }
    if inside {
        Result::Err(RewriteError::UnterminatedRegion)
    } else {
        proof {
            match spec_run(MatchState::Outside, all, marker, outdir) {
                Option::None => {},
                Option::Some(p) => {
                    assert(views_of(out@) + Seq::<TokenView>::empty() =~= views_of(out@));
                    assert(request_sources(requests@) + Seq::<Seq<char>>::empty()
                        =~= request_sources(requests@));
                },
            }
        }
        Result::Ok(RewriteOutcome { tokens: out, requests })
    }
}

} // verus!

