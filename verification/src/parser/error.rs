use vstd::prelude::*;

verus! {

/// Different kinds of parsing error; this is not meant to be exhaustive.
#[derive(Debug, Clone, Copy, PartialEq, Eq, Hash, Structural)]
#[non_exhaustive]
pub enum ErrorKind {
    InvalidUnitType,
    UnknownCommand,
    BadCoast,
    /// The order was recognized as a move, but the destination could not be parsed.
    /// Move commands must use the one-word destination code and may include "via convoy".
    MalformedMove,
    MalformedRegion,
    MalformedSupport,
    MalformedConvoy,
    TooFewWords(usize),
}

/// The error type for order parsing.
#[derive(Debug, Clone, PartialEq, Eq)]
pub struct Error {
    kind: ErrorKind,
    input: String,
}

impl Error {
    /// Creates a new error of the given `kind` for the relevant input string.
    /// `input` should be the smallest part of the string where the error was
    /// found, not the entire order.
    pub fn new(kind: ErrorKind, input: &str) -> (r: Error)
        ensures
            r.spec_kind() == kind,
            r.spec_input() == input@,
    {
        Error { kind, input: String::from_str(input) }
    }

    /// The kind of error observed.
    pub closed spec fn spec_kind(&self) -> ErrorKind {
        self.kind
    }

    /// The input where the error was found.
    pub closed spec fn spec_input(&self) -> Seq<char> {
        self.input@
    }

    /// Gets the kind of error observed.
    pub fn kind(&self) -> (r: &ErrorKind)
        ensures
            *r == self.spec_kind(),
    {
        &self.kind
    }

    /// The part of the input where the error was found.
    pub fn input(&self) -> (r: String)
        ensures
            r@ == self.spec_input(),
    {
        self.input.clone()
    }
}

} // verus!
