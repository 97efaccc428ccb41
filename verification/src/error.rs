//! The error of the operations around the parsers that touch the outside
//! world. The parsers themselves never fail with it: they answer `None`.

use vstd::prelude::*;
use vstd::std_specs::convert::FromSpecImpl;

verus! {

/// `std::io::Error`, carried through as it is; nothing is known of what it
/// holds.
#[verifier::external_type_specification]
#[verifier::external_body]
pub struct ExIoError(std::io::Error);

/// What can go wrong.
#[derive(Debug)]
pub enum Error {
    /// Reading or writing failed.
    Io(std::io::Error),
}

impl From<std::io::Error> for Error {
    fn from(err: std::io::Error) -> (error: Error) {
        Error::Io(err)
    }
}

impl FromSpecImpl<std::io::Error> for Error {
    open spec fn obeys_from_spec() -> bool {
        true
    }

    open spec fn from_spec(err: std::io::Error) -> Error {
        Error::Io(err)
    }
}

/// The text that `std::error::Error::description` gives for the I/O error
/// `err`.
pub uninterp spec fn io_description(err: std::io::Error) -> Seq<char>;

/// `std::error::Error::description` of an I/O error: the text is the one
/// that std keeps for this error, borrowed from it. Which characters it
/// holds is std's matter and is not claimed.
#[verifier::external_body]
#[allow(deprecated)]
pub(crate) fn io_description_of<'a>(err: &'a std::io::Error) -> (text: &'a str)
    ensures
        text@ == io_description(*err),
{
    std::error::Error::description(err)
}

impl Error {
    /// A short text that says what went wrong: for an I/O failure, the
    /// description that the failure itself carries, as it is.
    pub fn description<'a>(&'a self) -> (text: &'a str)
        ensures
            match self {
                Error::Io(inner) => text@ == io_description(*inner),
            },
    {
        match self {
            Error::Io(inner) => io_description_of(inner),
        }
    }
}

} // verus!
