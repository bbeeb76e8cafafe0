//! Error types shared by the parser and the extraction driver.

use vstd::prelude::*;

verus! {

/// An enum containing all kinds of game framework errors.
#[derive(Debug)]
pub enum GameError {
    /// An error in the filesystem layout
    FilesystemError(String),
    /// An error trying to load a resource, such as getting an invalid image file.
    ResourceLoadError(String),
    /// Unable to find a resource; the list holds each path searched and the
    /// error met there.
    ResourceNotFound(String, Vec<(String, GameError)>),
    /// Something went wrong trying to read from a file; holds the message of
    /// the underlying failure.
    IOError(String),
    /// Something went wrong while parsing something.
    ParseError(String),
}

/// A convenient result type consisting of a return type and a `GameError`
pub type GameResult<T = ()> = Result<T, GameError>;

/// The text that `message` returns for each error kind.
pub open spec fn spec_message(e: GameError) -> Seq<char> {
    match e {
        GameError::FilesystemError(s) => "Filesystem error: "@ + s@,
        GameError::ResourceLoadError(s) => "Error loading resource: "@ + s@,
        GameError::ResourceNotFound(s, _) => "Resource not found: "@ + s@,
        GameError::IOError(s) => "IO error: "@ + s@,
        GameError::ParseError(s) => "Parse error: "@ + s@,
    }
}

impl GameError {
    /// A short human-readable description of the error.
    pub fn message(&self) -> (r: String)
        ensures
            r@ == spec_message(*self),
    {
        match self {
            GameError::FilesystemError(s) => {
                String::from_str("Filesystem error: ").concat(s.as_str())
            },
            GameError::ResourceLoadError(s) => {
                String::from_str("Error loading resource: ").concat(s.as_str())
            },
            GameError::ResourceNotFound(s, _) => {
                String::from_str("Resource not found: ").concat(s.as_str())
            },
            GameError::IOError(s) => String::from_str("IO error: ").concat(s.as_str()),
            GameError::ParseError(s) => String::from_str("Parse error: ").concat(s.as_str()),
        }
    }
}

} // verus!
