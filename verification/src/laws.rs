//! Laws of the rewriter: order preservation for span-free documents, and
//! the independence of separate matched spans.

use vstd::prelude::*;
use crate::matcher::MatchState;
use crate::rewriter::{
    lemma_prepend_assoc, prepend_output, replacement_views, spec_rewrite, spec_run,
};
use crate::token::{is_renderable_end, is_renderable_start, span_source, TokenView};

verus! {

/// No token of `tokens` opens a renderable region.
pub open spec fn span_free(tokens: Seq<TokenView>, marker: Seq<char>) -> bool {
    forall|k: int| 0 <= k < tokens.len() ==> !is_renderable_start(#[trigger] tokens[k], marker)
}

/// A well-formed matched span: it opens with a start marker, closes with an
/// end marker, and no token strictly between the two is an end marker.
pub open spec fn wf_span(span: Seq<TokenView>, marker: Seq<char>) -> bool {
    &&& span.len() >= 2
    &&& is_renderable_start(span.first(), marker)
    &&& is_renderable_end(span.last(), marker)
    &&& forall|k: int| 0 < k < span.len() - 1 ==> !is_renderable_end(#[trigger] span[k], marker)
}

/// Law (order preservation): a document containing no renderable span
/// rewrites to exactly itself — every token passes through unchanged and in
/// its original position, and no render request arises.  Re-serializing
/// such a rewritten sequence therefore starts from the very token sequence
/// the document was parsed into.
pub proof fn lemma_rewrite_span_free_identity(
    tokens: Seq<TokenView>,
    marker: Seq<char>,
    output_directory: Seq<char>,
)
    requires
        span_free(tokens, marker),
    ensures
        spec_rewrite(tokens, marker, output_directory) == Option::Some(
            (tokens, Seq::<Seq<char>>::empty()),
        ),
    decreases tokens.len(),
{
    if tokens.len() == 0 {
        assert(tokens =~= Seq::<TokenView>::empty());
    } else {
        let t = tokens.first();
        assert(!is_renderable_start(t, marker));
        assert forall|k: int| 0 <= k < tokens.drop_first().len() implies !is_renderable_start(
            #[trigger] tokens.drop_first()[k],
            marker,
        ) by {
            assert(tokens.drop_first()[k] == tokens[k + 1]);
        }
        lemma_rewrite_span_free_identity(tokens.drop_first(), marker, output_directory);
        assert(seq![t] + tokens.drop_first() =~= tokens);
        assert(Seq::<Seq<char>>::empty() + Seq::<Seq<char>>::empty() =~= Seq::<
            Seq<char>,
        >::empty());
    }
}

/// A span-free prefix passes through unchanged, and what follows it is
/// rewritten exactly as it would be on its own.
pub proof fn lemma_run_span_free_prefix(
    prefix: Seq<TokenView>,
    rest: Seq<TokenView>,
    marker: Seq<char>,
    output_directory: Seq<char>,
)
    requires
        span_free(prefix, marker),
    ensures
        spec_run(MatchState::Outside, prefix + rest, marker, output_directory) == prepend_output(
            prefix,
            Seq::<Seq<char>>::empty(),
            spec_run(MatchState::Outside, rest, marker, output_directory),
        ),
    decreases prefix.len(),
{
    if prefix.len() == 0 {
        assert(prefix + rest =~= rest);
        match spec_run(MatchState::Outside, rest, marker, output_directory) {
            Option::None => {},
            Option::Some(p) => {
                assert(prefix + p.0 =~= p.0);
                assert(Seq::<Seq<char>>::empty() + p.1 =~= p.1);
            },
        }
    } else {
        let t = prefix.first();
        let whole = prefix + rest;
        assert(whole.first() == t);
        assert(!is_renderable_start(t, marker));
        assert(whole.drop_first() =~= prefix.drop_first() + rest);
        assert forall|k: int| 0 <= k < prefix.drop_first().len() implies !is_renderable_start(
            #[trigger] prefix.drop_first()[k],
            marker,
        ) by {
            assert(prefix.drop_first()[k] == prefix[k + 1]);
        }
        lemma_run_span_free_prefix(prefix.drop_first(), rest, marker, output_directory);
        lemma_prepend_assoc(
            seq![t],
            Seq::<Seq<char>>::empty(),
            prefix.drop_first(),
            Seq::<Seq<char>>::empty(),
            spec_run(MatchState::Outside, rest, marker, output_directory),
        );
        assert(seq![t] + prefix.drop_first() =~= prefix);
        assert(Seq::<Seq<char>>::empty() + Seq::<Seq<char>>::empty() =~= Seq::<
            Seq<char>,
        >::empty());
    }
}

/// While the matcher is inside a region, every token up to the first end
/// marker is buffered into the span, and the end marker completes it.
proof fn lemma_run_inside(
    buffered: Seq<TokenView>,
    body: Seq<TokenView>,
    end_token: TokenView,
    rest: Seq<TokenView>,
    marker: Seq<char>,
    output_directory: Seq<char>,
)
    requires
        forall|k: int| 0 <= k < body.len() ==> !is_renderable_end(#[trigger] body[k], marker),
        is_renderable_end(end_token, marker),
    ensures
        spec_run(
            MatchState::Inside { buffered },
            body + seq![end_token] + rest,
            marker,
            output_directory,
        ) == prepend_output(
            replacement_views(span_source(buffered + body + seq![end_token]), output_directory),
            seq![span_source(buffered + body + seq![end_token])],
            spec_run(MatchState::Outside, rest, marker, output_directory),
        ),
    decreases body.len(),
{
    if body.len() == 0 {
        let whole = body + seq![end_token] + rest;
        assert(whole.first() == end_token);
        assert(whole.drop_first() =~= rest);
        assert(buffered.push(end_token) =~= buffered + body + seq![end_token]);
    } else {
        let t = body.first();
        let whole = body + seq![end_token] + rest;
        assert(whole.first() == t);
        assert(!is_renderable_end(t, marker));
        assert(whole.drop_first() =~= body.drop_first() + seq![end_token] + rest);
        assert forall|k: int| 0 <= k < body.drop_first().len() implies !is_renderable_end(
            #[trigger] body.drop_first()[k],
            marker,
        ) by {
            assert(body.drop_first()[k] == body[k + 1]);
        }
        lemma_run_inside(
            buffered.push(t),
            body.drop_first(),
            end_token,
            rest,
            marker,
            output_directory,
        );
        assert(buffered.push(t) + body.drop_first() =~= buffered + body);
    }
}

/// A well-formed span at the head of the input is replaced by its image
/// reference, and what follows it is rewritten exactly as it would be on
/// its own.
pub proof fn lemma_run_span(
    span: Seq<TokenView>,
    rest: Seq<TokenView>,
    marker: Seq<char>,
    output_directory: Seq<char>,
)
    requires
        wf_span(span, marker),
    ensures
        spec_run(MatchState::Outside, span + rest, marker, output_directory) == prepend_output(
            replacement_views(span_source(span), output_directory),
            seq![span_source(span)],
            spec_run(MatchState::Outside, rest, marker, output_directory),
        ),
{
    let start = span.first();
    let body = span.subrange(1, span.len() - 1);
    let end_token = span.last();
    let whole = span + rest;
    assert(whole.first() == start);
    assert(whole.drop_first() =~= body + seq![end_token] + rest);
    assert forall|k: int| 0 <= k < body.len() implies !is_renderable_end(
        #[trigger] body[k],
        marker,
    ) by {
        assert(body[k] == span[k + 1]);
    }
    lemma_run_inside(seq![start], body, end_token, rest, marker, output_directory);
    assert(seq![start] + body + seq![end_token] =~= span);
}

/// Law (single span): a document holding exactly one renderable span,
/// surrounded by span-free segments, rewrites to the surrounding segments
/// unchanged with the span replaced by an image reference whose path stem
/// is the fingerprint of the span's diagram source; that source is the one
/// render request.
pub proof fn theorem_single_span(
    pre: Seq<TokenView>,
    span: Seq<TokenView>,
    post: Seq<TokenView>,
    marker: Seq<char>,
    output_directory: Seq<char>,
)
    requires
        span_free(pre, marker),
        wf_span(span, marker),
        span_free(post, marker),
    ensures
        spec_rewrite(pre + span + post, marker, output_directory) == Option::Some(
            (
                pre + replacement_views(span_source(span), output_directory) + post,
                seq![span_source(span)],
            ),
        ),
{
    let repl = replacement_views(span_source(span), output_directory);
    lemma_rewrite_span_free_identity(post, marker, output_directory);
    lemma_run_span(span, post, marker, output_directory);
    lemma_run_span_free_prefix(pre, span + post, marker, output_directory);
    assert(pre + (span + post) =~= pre + span + post);
    assert(seq![span_source(span)] + Seq::<Seq<char>>::empty() =~= seq![span_source(span)]);
    assert(pre + (repl + post) =~= pre + repl + post);
    assert(Seq::<Seq<char>>::empty() + (seq![span_source(span)] + Seq::<Seq<char>>::empty())
        =~= seq![span_source(span)]);
}

/// Law (span isolation): in a document holding two renderable spans
/// separated and surrounded by span-free segments, each span is replaced
/// independently — the replacement of the first does not alter the segments
/// around the second, nor the second span's replacement or diagram source —
/// and the two render requests arise in document order.
pub proof fn theorem_span_isolation(
    pre: Seq<TokenView>,
    span1: Seq<TokenView>,
    mid: Seq<TokenView>,
    span2: Seq<TokenView>,
    post: Seq<TokenView>,
    marker: Seq<char>,
    output_directory: Seq<char>,
)
    requires
        span_free(pre, marker),
        wf_span(span1, marker),
        span_free(mid, marker),
        wf_span(span2, marker),
        span_free(post, marker),
    ensures
        spec_rewrite(pre + span1 + mid + span2 + post, marker, output_directory) == Option::Some(
            (
                pre + replacement_views(span_source(span1), output_directory) + mid
                    + replacement_views(span_source(span2), output_directory) + post,
                seq![span_source(span1), span_source(span2)],
            ),
        ),
{
    let repl1 = replacement_views(span_source(span1), output_directory);
    let repl2 = replacement_views(span_source(span2), output_directory);
    lemma_rewrite_span_free_identity(post, marker, output_directory);
    lemma_run_span(span2, post, marker, output_directory);
    lemma_run_span_free_prefix(mid, span2 + post, marker, output_directory);
    lemma_run_span(span1, mid + (span2 + post), marker, output_directory);
    lemma_run_span_free_prefix(pre, span1 + (mid + (span2 + post)), marker, output_directory);
    assert(pre + (span1 + (mid + (span2 + post))) =~= pre + span1 + mid + span2 + post);
    assert(spec_run(MatchState::Outside, span2 + post, marker, output_directory) == Option::Some(
        (repl2 + post, seq![span_source(span2)] + Seq::<Seq<char>>::empty()),
    ));
    assert(seq![span_source(span2)] + Seq::<Seq<char>>::empty() =~= seq![span_source(span2)]);
    assert(pre + (repl1 + (mid + (repl2 + post))) =~= pre + repl1 + mid + repl2 + post);
    assert(Seq::<Seq<char>>::empty() + (seq![span_source(span1)] + (Seq::<Seq<char>>::empty() + (
    seq![span_source(span2)]))) =~= seq![span_source(span1), span_source(span2)]);
}

} // verus!
