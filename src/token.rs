//! Tokens: a classification of source text, each with its span.
use vstd::prelude::*;

verus! {

/// A stretch of source text and where it starts.
pub struct Span {
    pub line: usize,
    pub col: usize,
    pub fragment: String,
}

/// A token of source text.
pub enum Token {
    Capitalize(Span),
    Char(Span),
    Comment(Span),
    Float(Span),
    Int(Span),
    String(Span),
    Symbol(Span),
    Identifier(Span),
    Keyword(Span),
}

impl Token {
    /// The span that the token carries, whatever its kind.
    pub open spec fn span_spec(&self) -> Span {
        match self {
            Token::Capitalize(s) => *s,
            Token::Char(s) => *s,
            Token::Comment(s) => *s,
            Token::Float(s) => *s,
            Token::Identifier(s) => *s,
            Token::Int(s) => *s,
            Token::Keyword(s) => *s,
            Token::String(s) => *s,
            Token::Symbol(s) => *s,
        }
    }

    /// A copy of the token's span.
    pub fn span(&self) -> (r: Span)
        ensures
            r.line == self.span_spec().line,
            r.col == self.span_spec().col,
            r.fragment@ == self.span_spec().fragment@,
    {
        let s = match self {
            Token::Capitalize(s) => s,
            Token::Char(s) => s,
            Token::Comment(s) => s,
            Token::Float(s) => s,
            Token::Identifier(s) => s,
            Token::Int(s) => s,
            Token::Keyword(s) => s,
            Token::String(s) => s,
            Token::Symbol(s) => s,
        };
        Span { line: s.line, col: s.col, fragment: s.fragment.clone() }
    }
}

} // verus!
