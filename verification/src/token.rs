//! The token model: the unit of the host document's structured
//! representation, as far as this stage interprets it.

use vstd::prelude::*;

verus! {

/// One unit of the host document's structured representation.
///
/// The core interprets a token only as far as: does it open a fenced code
/// block with a language tag, does it close one, does it carry literal text,
/// or is it part of an image reference produced by this stage.  Every other
/// token is carried through `Other`, whose payload lets the host round-trip
/// whatever the token stood for.
#[derive(Debug, PartialEq, Eq)]
pub enum Token {
    /// Start of a fenced code block; the payload is the language tag.
    BlockStart(String),
    /// End of a fenced code block; the payload is the language tag.
    BlockEnd(String),
    /// A run of literal text.
    Text(String),
    /// Start of an inline image reference; the payload is the image path.
    ImageStart(String),
    /// End of an inline image reference; the payload is the image path.
    ImageEnd(String),
    /// A soft line break.
    SoftBreak,
    /// Any other token, carried through unchanged.
    Other(String),
}

/// The mathematical value of a [`Token`]: the same shape over sequences of
/// characters.
pub ghost enum TokenView {
    BlockStart { tag: Seq<char> },
    BlockEnd { tag: Seq<char> },
    Text { text: Seq<char> },
    ImageStart { path: Seq<char> },
    ImageEnd { path: Seq<char> },
    SoftBreak,
    Other { raw: Seq<char> },
}

impl Clone for Token {
    fn clone(&self) -> (r: Self)
        ensures
            r == *self,
    {
        match self {
            Token::BlockStart(tag) => Token::BlockStart(tag.clone()),
            Token::BlockEnd(tag) => Token::BlockEnd(tag.clone()),
            Token::Text(text) => Token::Text(text.clone()),
            Token::ImageStart(path) => Token::ImageStart(path.clone()),
            Token::ImageEnd(path) => Token::ImageEnd(path.clone()),
            Token::SoftBreak => Token::SoftBreak,
            Token::Other(raw) => Token::Other(raw.clone()),
        }
    }
}

impl View for Token {
    type V = TokenView;

    open spec fn view(&self) -> TokenView {
        match self {
            Token::BlockStart(tag) => TokenView::BlockStart { tag: tag@ },
            Token::BlockEnd(tag) => TokenView::BlockEnd { tag: tag@ },
            Token::Text(text) => TokenView::Text { text: text@ },
            Token::ImageStart(path) => TokenView::ImageStart { path: path@ },
            Token::ImageEnd(path) => TokenView::ImageEnd { path: path@ },
            Token::SoftBreak => TokenView::SoftBreak,
            Token::Other(raw) => TokenView::Other { raw: raw@ },
        }
    }
}

/// The views of a whole token sequence.
pub open spec fn views_of(tokens: Seq<Token>) -> Seq<TokenView> {
    tokens.map_values(|t: Token| t@)
}

/// The exact language tag that marks a fenced code block as renderable.
pub open spec fn spec_renderable_language() -> Seq<char> {
    "plantuml,render"@
}

/// The exact language tag that marks a fenced code block as renderable.
pub fn plantuml_renderable_language() -> (r: &'static str)
    ensures
        r@ == spec_renderable_language(),
{
    "plantuml,render"
}

/// Does this token open a renderable region?  Tag comparison is exact
/// equality: no partial and no case-insensitive matching.
pub open spec fn is_renderable_start(t: TokenView, marker: Seq<char>) -> bool {
    match t {
        TokenView::BlockStart { tag } => tag == marker,
        _ => false,
    }
}

/// Does this token close a renderable region?  Tag comparison is exact
/// equality: no partial and no case-insensitive matching.
pub open spec fn is_renderable_end(t: TokenView, marker: Seq<char>) -> bool {
    match t {
        TokenView::BlockEnd { tag } => tag == marker,
        _ => false,
    }
}

/// The literal text a token carries: the payload of a `Text` token, nothing
/// for every other token.
pub open spec fn text_of(t: TokenView) -> Seq<char> {
    match t {
        TokenView::Text { text } => text,
        _ => Seq::<char>::empty(),
    }
}

/// The concatenation of all literal text carried by the tokens of a span,
/// with every non-text token contributing nothing.  This is the diagram
/// source a matched span denotes, and the preimage of the cache key.
pub open spec fn span_source(span: Seq<TokenView>) -> Seq<char>
    decreases span.len(),
{
    if span.len() == 0 {
        Seq::<char>::empty()
    } else {
        text_of(span.first()) + span_source(span.drop_first())
    }
}

/// Is this token the start of a renderable PlantUML region?
pub fn renderable_plantuml_start(event: &Token) -> (r: bool)
    ensures
        r == is_renderable_start(event@, spec_renderable_language()),
{
    match event {
        Token::BlockStart(language) => {
            let marker = String::from_str(plantuml_renderable_language());
            *language == marker
        },
        _ => false,
    }
}

/// Is this token the end of a renderable PlantUML region?
pub fn renderable_plantuml_end(event: &Token) -> (r: bool)
    ensures
        r == is_renderable_end(event@, spec_renderable_language()),
{
    match event {
        Token::BlockEnd(language) => {
            let marker = String::from_str(plantuml_renderable_language());
            *language == marker
        },
        _ => false,
    }
}

} // verus!
