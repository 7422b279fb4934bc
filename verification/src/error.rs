//! Errors of the library.
use crate::source::{bytes_of, text_at};
use crate::span::ShortSpan;
use pest::error::{Error as PestError, ErrorVariant};
use pest::Span;
use vstd::prelude::*;

verus! {

/// The report that pest writes for a message about a span of a file: the path, the line
/// and column of the span, the line of the source with the span underlined, and the
/// message.
pub uninterp spec fn pest_report(
    path: Seq<char>,
    contents: Seq<char>,
    start: usize,
    end: usize,
    message: Seq<char>,
) -> Seq<char>;

/// `pest::Span::new` on `contents`, then `pest::error::Error::new_from_span` with a custom
/// message, `with_path`, and the error's text. The contract claims that there is a report
/// exactly if `start` and `end` delimit a part of `contents` and cut no character in two,
/// which is when `Span::new` gives a span, and that the report depends on the arguments
/// alone.
#[verifier::external_body]
pub(crate) fn render_report(path: &str, contents: &str, start: usize, end: usize, message: &str) -> (report:
    Option<String>)
    ensures
        report is Some <==> text_at(bytes_of(contents@), start as int, end as int) is Some,
        report matches Some(text) ==> text@ == pest_report(
            path@,
            contents@,
            start,
            end,
            message@,
        ),
{
    let span = Span::new(contents, start, end)?;
    let variant = ErrorVariant::<()>::CustomError { message: message.to_owned() };
    Some(PestError::new_from_span(variant, span).with_path(path).to_string())
}

/// An error with a message, and for some with the span that the message is about.
#[derive(Debug)]
pub enum Error {
    /// An error with a message that is ready to be shown.
    Generic(String),
    /// An error at a span of a source text; the location has not been put into the
    /// message yet.
    Spanned(ShortSpan, String),
}

impl Error {
    /// The message of the error.
    pub open spec fn message(&self) -> Seq<char> {
        match self {
            Error::Generic(message) => message@,
            Error::Spanned(_, message) => message@,
        }
    }

    /// The span of a spanned error.
    pub open spec fn span(&self) -> Option<ShortSpan> {
        match self {
            Error::Generic(_) => None,
            Error::Spanned(span, _) => Some(*span),
        }
    }

    /// A generic error with the given message.
    pub fn generic(message: &str) -> (error: Error)
        ensures
            error.span() is None,
            error.message() == message@,
    {
        Error::Generic(message.to_owned())
    }

    /// An error with the given message at `span`.
    pub fn spanned(span: ShortSpan, message: &str) -> (error: Error)
        ensures
            error.span() == Some(span),
            error.message() == message@,
    {
        Error::Spanned(span, message.to_owned())
    }

    /// The error with its location put into the message. A generic error stays as it
    /// is. A spanned error becomes a generic error whose message is the report on its
    /// span in the file; where the span does not fit the file, the message stays as it is.
    pub open spec fn resolved_message(&self, file_name: Seq<char>, file_contents: Seq<char>) -> Seq<
        char,
    > {
        match self {
            Error::Generic(message) => message@,
            Error::Spanned(span, message) => if text_at(
                bytes_of(file_contents),
                span.start as int,
                span.end as int,
            ) is Some {
                pest_report(file_name, file_contents, span.start, span.end, message@)
            } else {
                message@
            },
        }
    }

    /// Converts a spanned error into a generic error
    pub fn resolve_spanned(self, file_name: &str, file_contents: &str) -> (error: Error)
        ensures
            error.span() is None,
            error.message() == self.resolved_message(file_name@, file_contents@),
    {
        match self {
            Error::Generic(msg) => Error::Generic(msg),
            Error::Spanned(span, msg) => {
                match render_report(file_name, file_contents, span.start, span.end, msg.as_str()) {
                    Some(report) => Error::Generic(report),
                    None => Error::Generic(msg),
                }
            },
        }
    }

    /// The message of the error.
    pub fn to_string(&self) -> (text: String)
        ensures
            text@ == self.message(),
    {
        match self {
            Error::Generic(message) => message.clone(),
            Error::Spanned(_, message) => message.clone(),
        }
    }
}

impl Clone for Error {
    fn clone(&self) -> (out: Self)
        ensures
            out.span() == self.span(),
            out.message() == self.message(),
    {
        match self {
            Error::Generic(message) => Error::Generic(message.clone()),
            Error::Spanned(span, message) => Error::Spanned(*span, message.clone()),
        }
    }
}

} // verus!
