//! The span matcher: a two-state machine that recognizes the start and the
//! end of a renderable region within an arbitrary token stream.

use vstd::prelude::*;
use crate::token::{TokenView, is_renderable_end, is_renderable_start};

verus! {

/// The matcher's state: outside any renderable region, or inside one,
/// carrying the tokens buffered so far (the opening marker included).
/// Exactly one open region is tracked at a time.
pub ghost enum MatchState {
    Outside,
    Inside { buffered: Seq<TokenView> },
}

/// What one matcher step decided about the current token.
pub ghost enum StepEffect {
    /// Outside, and not a start marker: the token passes through untouched.
    Pass { t: TokenView },
    /// Outside to inside: a start marker opened a region; buffering begins
    /// with the marker itself.
    Open,
    /// Inside, and not an end marker: the token is buffered as part of the
    /// span, not yet emitted.
    Buffer,
    /// Inside to outside: an end marker closed the region; `span` is the
    /// whole matched span, opening and closing markers included.
    Complete { span: Seq<TokenView> },
}

/// One transition of the span matcher.  A start marker seen while already
/// inside a region is buffered like any other token: a nested renderable
/// region is flattened into the enclosing one, which ends at the first
/// subsequent end marker.
pub open spec fn matcher_step(state: MatchState, t: TokenView, marker: Seq<char>) -> (
    MatchState,
    StepEffect,
) {
    match state {
        MatchState::Outside => {
            if is_renderable_start(t, marker) {
                (MatchState::Inside { buffered: seq![t] }, StepEffect::Open)
            } else {
                (MatchState::Outside, StepEffect::Pass { t })
            }
        },
        MatchState::Inside { buffered } => {
            if is_renderable_end(t, marker) {
                (MatchState::Outside, StepEffect::Complete { span: buffered.push(t) })
            } else {
                (MatchState::Inside { buffered: buffered.push(t) }, StepEffect::Buffer)
            }
        },
    }
}

} // verus!
