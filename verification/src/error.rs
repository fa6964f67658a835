//! The one error type of the library.

use vstd::prelude::*;

verus! {

/// Why a request could not be served.
#[derive(Debug, PartialEq, Eq)]
pub enum AppError {
    /// The caller handed in something that can never be accepted.
    InvalidInput(String),
    /// A file on disk does not have the shape that it must have.
    Config(String),
    /// The file on disk no longer holds what the caller believes it holds.
    Conflict(String),
    /// A document could not be turned into JSON text.
    JsonSerialize(String),
    /// The operating system refused to read or write a path.
    Io { path: String, message: String },
}

/// What an [`AppError`] says.
pub enum ErrorModel {
    InvalidInput(Seq<char>),
    Config(Seq<char>),
    Conflict(Seq<char>),
    JsonSerialize(Seq<char>),
    Io { path: Seq<char>, message: Seq<char> },
}

impl View for AppError {
    type V = ErrorModel;

    open spec fn view(&self) -> ErrorModel {
        match self {
            AppError::InvalidInput(m) => ErrorModel::InvalidInput(m@),
            AppError::Config(m) => ErrorModel::Config(m@),
            AppError::Conflict(m) => ErrorModel::Conflict(m@),
            AppError::JsonSerialize(m) => ErrorModel::JsonSerialize(m@),
            AppError::Io { path, message } => ErrorModel::Io { path: path@, message: message@ },
        }
    }
}

impl ErrorModel {
    /// The words of the error, whatever its kind.
    pub open spec fn message(self) -> Seq<char> {
        match self {
            ErrorModel::InvalidInput(m) => m,
            ErrorModel::Config(m) => m,
            ErrorModel::Conflict(m) => m,
            ErrorModel::JsonSerialize(m) => m,
            ErrorModel::Io { path: _, message } => message,
        }
    }
}

impl AppError {
    /// The words of the error, whatever its kind.
    pub fn message(&self) -> (words: &str)
        ensures
            words@ == self@.message(),
    {
        match self {
            AppError::InvalidInput(m) => m.as_str(),
            AppError::Config(m) => m.as_str(),
            AppError::Conflict(m) => m.as_str(),
            AppError::JsonSerialize(m) => m.as_str(),
            AppError::Io { path: _, message } => message.as_str(),
        }
    }
}

} // verus!
