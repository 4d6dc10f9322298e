//! The failures that the node reports to a caller.

use vstd::prelude::*;
use crate::bytes::copy_of;

verus! {

/// Every way in which an upload or an invocation can fail.
#[derive(Clone, Debug, PartialEq, Eq)]
pub enum ErrorKind {
    /// The content type is not multipart form data, or carries no usable boundary.
    MalformedContentType,
    /// No part of the body is a form-data part.
    NoFilePart,
    /// Form-data parts exist, but none names a file.
    MissingFilename,
    /// The file name is not a plain `<name>.<extension>` inside the upload directory.
    InvalidFilename,
    /// The store could not be read or written.
    IoError,
    /// No artifact is stored under the requested name.
    ArtifactNotFound,
    /// The artifact could not be loaded as a module.
    LoadError,
    /// The loaded module does not export the entry point.
    SymbolNotFound,
    /// The entry point ran and reported a failure of its own.
    InvocationFailure(Vec<u8>),
    /// The invocation path lacks a name or an argument segment.
    InvalidPath,
}

/// What an error is, with the message of a failed invocation as plain bytes.
pub enum ErrorModel {
    MalformedContentType,
    NoFilePart,
    MissingFilename,
    InvalidFilename,
    IoError,
    ArtifactNotFound,
    LoadError,
    SymbolNotFound,
    InvocationFailure(Seq<u8>),
    InvalidPath,
}

impl View for ErrorKind {
    type V = ErrorModel;

    open spec fn view(&self) -> ErrorModel {
        match self {
            ErrorKind::MalformedContentType => ErrorModel::MalformedContentType,
            ErrorKind::NoFilePart => ErrorModel::NoFilePart,
            ErrorKind::MissingFilename => ErrorModel::MissingFilename,
            ErrorKind::InvalidFilename => ErrorModel::InvalidFilename,
            ErrorKind::IoError => ErrorModel::IoError,
            ErrorKind::ArtifactNotFound => ErrorModel::ArtifactNotFound,
            ErrorKind::LoadError => ErrorModel::LoadError,
            ErrorKind::SymbolNotFound => ErrorModel::SymbolNotFound,
            ErrorKind::InvocationFailure(message) => ErrorModel::InvocationFailure(message@),
            ErrorKind::InvalidPath => ErrorModel::InvalidPath,
        }
    }
}

impl ErrorKind {
    /// A copy of this error, message included.
    pub fn copy(&self) -> (same: ErrorKind)
        ensures
            same@ == self@,
    {
        match self {
            ErrorKind::MalformedContentType => ErrorKind::MalformedContentType,
            ErrorKind::NoFilePart => ErrorKind::NoFilePart,
            ErrorKind::MissingFilename => ErrorKind::MissingFilename,
            ErrorKind::InvalidFilename => ErrorKind::InvalidFilename,
            ErrorKind::IoError => ErrorKind::IoError,
            ErrorKind::ArtifactNotFound => ErrorKind::ArtifactNotFound,
            ErrorKind::LoadError => ErrorKind::LoadError,
            ErrorKind::SymbolNotFound => ErrorKind::SymbolNotFound,
            ErrorKind::InvocationFailure(message) => ErrorKind::InvocationFailure(
                copy_of(message.as_slice()),
            ),
            ErrorKind::InvalidPath => ErrorKind::InvalidPath,
        }
    }
}

} // verus!
