use vstd::prelude::*;

verus! {

/// Everything that can go wrong while tokenizing an argument list or
/// dispatching its names to option handlers. Every error aborts the
/// current parse; none is retryable.
#[derive(Debug)]
pub enum Error {
    /// A token was a lone dash, with no characters after it.
    MalformedToken,
    /// A name was requested while a pending inline value was still unread.
    LeftoverMismatch,
    /// No registered handler recognizes the named option.
    UnrecognizedOption(String),
    /// A value-carrying option could not parse the supplied text, or was
    /// given no text at all.
    ArgumentParseFailure(String),
    /// A flag was fed a value, fed twice, or fed a name outside its aliases.
    FlagMisuse,
    /// A positional word was found; subcommand routing is not supported.
    UnsupportedConstruct(String),
}

/// The mathematical image of an [`Error`], with text as character sequences.
pub enum ErrorV {
    MalformedToken,
    LeftoverMismatch,
    UnrecognizedOption(Seq<char>),
    ArgumentParseFailure(Seq<char>),
    FlagMisuse,
    UnsupportedConstruct(Seq<char>),
}

impl View for Error {
    type V = ErrorV;

    open spec fn view(&self) -> ErrorV {
        match self {
            Error::MalformedToken => ErrorV::MalformedToken,
            Error::LeftoverMismatch => ErrorV::LeftoverMismatch,
            Error::UnrecognizedOption(s) => ErrorV::UnrecognizedOption(s@),
            Error::ArgumentParseFailure(s) => ErrorV::ArgumentParseFailure(s@),
            Error::FlagMisuse => ErrorV::FlagMisuse,
            Error::UnsupportedConstruct(s) => ErrorV::UnsupportedConstruct(s@),
        }
    }
}

impl Error {
    /// Which variant this error is, so callers and tests can tell them apart.
    pub fn is_malformed_token(&self) -> (r: bool)
        ensures
            r == (self@ is MalformedToken),
    {
        matches!(self, Error::MalformedToken)
    }

    pub fn is_leftover_mismatch(&self) -> (r: bool)
        ensures
            r == (self@ is LeftoverMismatch),
    {
        matches!(self, Error::LeftoverMismatch)
    }

    pub fn is_unrecognized_option(&self) -> (r: bool)
        ensures
            r == (self@ is UnrecognizedOption),
    {
        matches!(self, Error::UnrecognizedOption(_))
    }

    pub fn is_argument_parse_failure(&self) -> (r: bool)
        ensures
            r == (self@ is ArgumentParseFailure),
    {
        matches!(self, Error::ArgumentParseFailure(_))
    }

    pub fn is_flag_misuse(&self) -> (r: bool)
        ensures
            r == (self@ is FlagMisuse),
    {
        matches!(self, Error::FlagMisuse)
    }

    pub fn is_unsupported_construct(&self) -> (r: bool)
        ensures
            r == (self@ is UnsupportedConstruct),
    {
        matches!(self, Error::UnsupportedConstruct(_))
    }
}

} // verus!
