//! The errors that a check has found in one file.
use crate::check::rules::{Context, Provided, UNBOUND};
use crate::error::{render_report, Error};
use crate::span::ShortSpan;
use vstd::prelude::*;

verus! {

/// Collects the errors of one file, each with its place in the file.
pub struct ErrorTracker {
    file_name: String,
    file_contents: String,
    errors: Vec<Error>,
}

impl ErrorTracker {
    /// The name of the file.
    pub closed spec fn file_name(&self) -> Seq<char> {
        self.file_name@
    }

    /// The text of the file.
    pub closed spec fn contents(&self) -> Seq<char> {
        self.file_contents@
    }

    /// The messages of the errors found so far.
    pub closed spec fn messages(&self) -> Seq<Seq<char>> {
        self.errors@.map_values(|e: Error| e.message())
    }

    /// The file as the rules see it, among the modules `modules`.
    pub open spec fn context(&self, modules: Seq<Provided>) -> Context {
        Context { file_name: self.file_name(), contents: self.contents(), modules }
    }

    pub fn new(file_name: &str, file_contents: &str) -> (tracker: ErrorTracker)
        ensures
            tracker.file_name() == file_name@,
            tracker.contents() == file_contents@,
            tracker.messages() == Seq::<Seq<char>>::empty(),
    {
        let tracker = ErrorTracker {
            file_name: file_name.to_owned(),
            file_contents: file_contents.to_owned(),
            errors: Vec::new(),
        };
        assert(tracker.messages() =~= Seq::<Seq<char>>::empty());
        tracker
    }

    /// Goes on with another file; the errors found so far stay.
    pub fn switch_file(&mut self, file_name: &str, file_contents: &str)
        ensures
            final(self).file_name() == file_name@,
            final(self).contents() == file_contents@,
            final(self).messages() == old(self).messages(),
    {
        self.file_name = file_name.to_owned();
        self.file_contents = file_contents.to_owned();
    }

    /// Records that `name` is used at `span` without being bound.
    pub fn unbound_ident(&mut self, name: &str, span: ShortSpan)
        ensures
            final(self).file_name() == old(self).file_name(),
            final(self).contents() == old(self).contents(),
            final(self).messages() == old(self).messages().push(
                old(self).context(Seq::empty()).message_at(span, UNBOUND@ + name@),
            ),
    {
        let mut message = UNBOUND.to_owned();
        message.append(name);
        self.custom_error(message.as_str(), span);
    }

    /// Records an error with the given message about `span`.
    pub fn custom_error(&mut self, message: &str, span: ShortSpan)
        ensures
            final(self).file_name() == old(self).file_name(),
            final(self).contents() == old(self).contents(),
            final(self).messages() == old(self).messages().push(
                old(self).context(Seq::empty()).message_at(span, message@),
            ),
    {
        let text = match render_report(
            self.file_name.as_str(),
            self.file_contents.as_str(),
            span.start,
            span.end,
            message,
        ) {
            Some(report) => report,
            None => message.to_owned(),
        };
        self.errors.push(Error::Generic(text));
        assert(self.messages() =~= old(self).messages().push(
            old(self).context(Seq::empty()).message_at(span, message@),
        ));
    }

    /// The name and the text of the file; the errors are dropped.
    pub fn into_file(self) -> (file: (String, String))
        ensures
            file.0@ == self.file_name(),
            file.1@ == self.contents(),
    {
        (self.file_name, self.file_contents)
    }

    /// The errors found, in the order in which they were found. None of them has a span
    /// left to resolve.
    pub fn into_errors(self) -> (errors: Vec<Error>)
        ensures
            errors@.map_values(|e: Error| e.message()) == self.messages(),
    {
        self.errors
    }
}

} // verus!
