//! Reading the version requirement of a query.

use crate::error::{Error, ErrorView};
use vstd::prelude::*;

verus! {

/// What `semver::VersionReq::parse` makes of the text: the requirement as
/// `semver` writes it out again, or the message of the error it gave.
pub uninterp spec fn parsed_requirement(text: Seq<char>) -> Result<Seq<char>, Seq<char>>;

/// The texts inside the answer of the parser.
pub open spec fn parsed_view(parsed: Result<String, String>) -> Result<Seq<char>, Seq<char>> {
    match parsed {
        Ok(written) => Ok(written@),
        Err(message) => Err(message@),
    }
}

/// Calls `semver::VersionReq::parse`. An accepted requirement is handed back
/// in the form in which `semver` displays it, a refused one as the text of
/// semver's error. Nothing is claimed of either text but that it depends on
/// the input alone.
#[verifier::external_body]
fn parse_requirement(text: &str) -> (parsed: Result<String, String>)
    ensures
        parsed_view(parsed) == parsed_requirement(text@),
{
    match semver::VersionReq::parse(text) {
        Ok(requirement) => Ok(requirement.to_string()),
        Err(error) => Err(error.to_string()),
    }
}

/// The requirement of a query, given what the parser made of its text: none
/// where no text was given, the parsed requirement where the text was
/// accepted, and an error with the parser's message where it was not.
pub open spec fn requirement_from(parsed: Option<Result<Seq<char>, Seq<char>>>) -> Result<
    Option<Seq<char>>,
    ErrorView,
> {
    match parsed {
        None => Ok(None),
        Some(Ok(written)) => Ok(Some(written)),
        Some(Err(message)) => Err(ErrorView::CargoError(message)),
    }
}

/// The requirement of a query with the given version text.
pub open spec fn requirement_of(version: Option<Seq<char>>) -> Result<
    Option<Seq<char>>,
    ErrorView,
> {
    match version {
        None => requirement_from(None),
        Some(text) => requirement_from(Some(parsed_requirement(text))),
    }
}

/// The texts inside an outcome of reading a requirement.
pub open spec fn requirement_view(outcome: Result<Option<String>, Error>) -> Result<
    Option<Seq<char>>,
    ErrorView,
> {
    match outcome {
        Ok(Some(written)) => Ok(Some(written@)),
        Ok(None) => Ok(None),
        Err(error) => Err(error@),
    }
}

/// Turns the answer of the parser into the requirement of the query.
pub fn requirement_from_parsed(parsed: Option<Result<String, String>>) -> (outcome: Result<
    Option<String>,
    Error,
>)
    ensures
        requirement_view(outcome) == requirement_from(
            match parsed {
                Some(answer) => Some(parsed_view(answer)),
                None => None,
            },
        ),
{
    match parsed {
        None => Ok(None),
        Some(Ok(written)) => Ok(Some(written)),
        Some(Err(message)) => Err(Error::CargoError(message)),
    }
}

/// Reads the version requirement of a query. Without a version any version
/// will do. A text that is no requirement is an error.
pub fn read_requirement(version: Option<&str>) -> (outcome: Result<Option<String>, Error>)
    ensures
        requirement_view(outcome) == requirement_of(
            match version {
                Some(text) => Some(text@),
                None => None,
            },
        ),
{
    match version {
        None => requirement_from_parsed(None),
        Some(text) => requirement_from_parsed(Some(parse_requirement(text))),
    }
}

} // verus!
