//! The ways in which a query can fail.

use vstd::prelude::*;

verus! {

/// The text of an optional string.
pub open spec fn text_of(text: Option<String>) -> Option<Seq<char>> {
    match text {
        Some(text) => Some(text@),
        None => None,
    }
}

/// Why a query produced no result.
#[derive(Debug, Clone, PartialEq, Eq)]
pub enum Error {
    /// The registry or the constraint solver failed, or the version
    /// requirement could not be read. Holds the message of the failure.
    CargoError(String),
    /// The registry knows no version of the package that meets the requirement.
    PackageNotFound { name: String, version: Option<String> },
}

/// An [`Error`] as specifications see it.
pub enum ErrorView {
    CargoError(Seq<char>),
    PackageNotFound { name: Seq<char>, version: Option<Seq<char>> },
}

impl View for Error {
    type V = ErrorView;

    open spec fn view(&self) -> ErrorView {
        match *self {
            Error::CargoError(message) => ErrorView::CargoError(message@),
            Error::PackageNotFound { name, version } => ErrorView::PackageNotFound {
                name: name@,
                version: text_of(version),
            },
        }
    }
}

} // verus!
