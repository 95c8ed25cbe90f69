use vstd::prelude::*;

verus! {

/// A character range `(start, end)` within a row, or `None` when no precise location is known.
pub type Span = Option<(usize, usize)>;

#[derive(Clone, Debug, PartialEq)]
/// Why a parse failed: a specific character, or a described construct, was expected.
pub enum ParseError {
    Expected { character: char, row: usize, span: Span },
    ExpectedMsg { msg: String, row: usize, span: Span },
}

/// The mathematical value of a `ParseError`: the message is a sequence of characters.
pub enum Failure {
    Char { character: char, row: usize, span: Span },
    Msg { msg: Seq<char>, row: usize, span: Span },
}

/// A parse result with the error replaced by its value.
pub open spec fn rv<T: View>(r: Result<T, ParseError>) -> Result<T::V, Failure> {
    match r {
        Ok(v) => Ok(v@),
        Err(e) => Err(e@),
    }
}

impl View for ParseError {
    type V = Failure;

    open spec fn view(&self) -> Failure {
        match self {
            ParseError::Expected { character, row, span } => Failure::Char {
                character: *character,
                row: *row,
                span: *span,
            },
            ParseError::ExpectedMsg { msg, row, span } => Failure::Msg {
                msg: msg@,
                row: *row,
                span: *span,
            },
        }
    }
}

/// Something that can be turned into a span.
pub trait IntoSpan: Sized {
    spec fn span_of(self) -> Span;

    fn into_span(self) -> (r: Span)
        ensures
            r == self.span_of(),
    ;
}

/// A single column `c` is the span `(c, c)`.
impl IntoSpan for usize {
    open spec fn span_of(self) -> Span {
        Some((self, self))
    }

    fn into_span(self) -> (r: Span) {
        Some((self, self))
    }
}

impl IntoSpan for (usize, usize) {
    open spec fn span_of(self) -> Span {
        Some(self)
    }

    fn into_span(self) -> (r: Span) {
        Some(self)
    }
}

/// No location at all.
impl IntoSpan for Option<()> {
    open spec fn span_of(self) -> Span {
        None
    }

    fn into_span(self) -> (r: Span) {
        None
    }
}

impl ParseError {
    /// A described construct `msg` was expected at `row`, `span`.
    pub fn expected<Sp: IntoSpan>(msg: &str, row: usize, span: Sp) -> (r: ParseError)
        ensures
            r@ == (Failure::Msg { msg: msg@, row, span: span.span_of() }),
    {
        ParseError::ExpectedMsg { msg: msg.to_owned(), row, span: span.into_span() }
    }

    /// The character `character` was expected at `row`, `span`.
    pub fn expected_char<Sp: IntoSpan>(character: char, row: usize, span: Sp) -> (r: ParseError)
        ensures
            r@ == (Failure::Char { character, row, span: span.span_of() }),
    {
        ParseError::Expected { character, row, span: span.into_span() }
    }

    /// Like `expected`, taking the message as an owned string.
    pub fn expected_string(msg: String, row: usize, span: Span) -> (r: ParseError)
        ensures
            r@ == (Failure::Msg { msg: msg@, row, span }),
    {
        ParseError::ExpectedMsg { msg, row, span }
    }
}

} // verus!
