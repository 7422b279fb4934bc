//! Source files and their trees.
use crate::ast::{node_views, Expr};
use crate::config::FusionConfig;
use crate::error::Error;
use crate::grammar::file;

use crate::parser::{failure_message, parse};
use crate::source::bytes_of;
use vstd::prelude::*;

verus! {

/// A source file with its concrete syntax tree.
#[derive(Debug)]
pub struct FusionFile {
    pub file_name: String,
    pub contents: String,
    pub ast: Vec<Expr>,
}

/// The name of the file that stands for no file.
pub const EMPTY_FILE_NAME: &'static str = "empty";

/// What the error for a file that does not parse starts with.
pub const PARSE_ERROR_PREFIX: &'static str = "Failed to parse ";

/// What stands between the name of a file and the reason in an error.
pub const PARSE_ERROR_SEPARATOR: &'static str = ": ";

impl FusionFile {
    pub fn new(file_name: String, contents: String, ast: Vec<Expr>) -> (file: FusionFile)
        ensures
            file.file_name@ == file_name@,
            file.contents@ == contents@,
            file.ast@ == ast@,
    {
        FusionFile { file_name, contents, ast }
    }

    /// A file without text and without nodes.
    pub fn empty_file() -> (file: FusionFile)
        ensures
            file.file_name@ == EMPTY_FILE_NAME@,
            file.contents@ == Seq::<char>::empty(),
            file.ast@ == Seq::<Expr>::empty(),
    {
        FusionFile { file_name: EMPTY_FILE_NAME.to_owned(), contents: String::new(), ast: Vec::new() }
    }
}

/// The name and the text of a source file.
pub struct FusionFileContent {
    pub file_name: String,
    pub contents: String,
}

impl FusionFileContent {
    pub fn new(file_name: String, contents: String) -> (content: FusionFileContent)
        ensures
            content.file_name@ == file_name@,
            content.contents@ == contents@,
    {
        FusionFileContent { file_name, contents }
    }

    /// The file with its tree. Fails exactly if the text does not match the grammar; the
    /// error names the file and the position at which parsing stopped.
    pub fn parse(self, fusion_config: &FusionConfig) -> (result: Result<FusionFile, Error>)
        ensures
            match result {
                Ok(parsed) => parsed.file_name@ == self.file_name@ && parsed.contents@
                    == self.contents@ && file(bytes_of(self.contents@)) == Some(
                    node_views(parsed.ast@),
                ),
                Err(error) => file(bytes_of(self.contents@)) is None && error.span() is None
                    && error.message() == PARSE_ERROR_PREFIX@ + self.file_name@
                    + PARSE_ERROR_SEPARATOR@ + failure_message(
                    self.file_name@,
                    self.contents@,
                ),
            },
    {
        match parse(self.file_name.as_str(), self.contents.as_str(), fusion_config) {
            Ok(ast) => Ok(FusionFile::new(self.file_name, self.contents, ast)),
            Err(error) => {
                let mut message = PARSE_ERROR_PREFIX.to_owned();
                message.append(self.file_name.as_str());
                message.append(PARSE_ERROR_SEPARATOR);
                message.append(error.to_string().as_str());
                Err(Error::Generic(message))
            },
        }
    }
}

} // verus!
