//! What can go wrong, by the stage that reports it.

use vstd::prelude::*;

verus! {

/// `std::io::Error`, carried through as it is.
#[verifier::external_type_specification]
#[verifier::external_body]
pub struct ExIoError(std::io::Error);

/// `std::string::FromUtf8Error`, carried through as it is.
#[verifier::external_type_specification]
#[verifier::external_body]
pub struct ExFromUtf8Error(std::string::FromUtf8Error);

/// `std::fmt::Error`, carried through as it is.
#[verifier::external_type_specification]
#[verifier::external_body]
pub struct ExFmtError(std::fmt::Error);

/// What a header lacks.
#[derive(Debug, Clone, Copy, PartialEq, Eq, Structural)]
pub enum HeaderFault {
    /// A header line holds no colon.
    MissingKey,
    /// A header line holds no space after its first colon.
    MissingValue,
    /// No line of the input holds the sentinel.
    MissingSentinel,
}

/// A header that does not follow the pattern of `KEY: VALUE` lines closed by
/// a sentinel line.
#[derive(Debug, Clone, Copy, PartialEq, Eq, Structural)]
pub struct RegexError {
    pub fault: HeaderFault,
}

/// Failure of the header stage.
#[derive(Debug)]
pub enum SnippitError {
    /// The header could not be read.
    IoError(std::io::Error),
    /// The header was read and is not well formed.
    Regex(RegexError),
}

/// Failure of the body stage: substitution and rendering.
#[derive(Debug)]
pub enum ConvertError {
    /// The renderer could not write its output.
    FormatError(std::fmt::Error),
    /// A text node holds bytes that are not UTF-8.
    FromUtfError(std::string::FromUtf8Error),
}

/// Failure of a whole conversion, tagged with the stage it came from.
#[derive(Debug)]
pub enum ToHtmlError {
    /// The header stage failed.
    Snippet(SnippitError),
    /// The template could not be read.
    IoError(std::io::Error),
    /// The body stage failed.
    Convert(ConvertError),
}

/// The words for `fault`. A line that lacks its key and one that lacks its
/// value read the same in words; the fault itself tells them apart.
pub open spec fn fault_message(fault: HeaderFault) -> Seq<char> {
    match fault {
        HeaderFault::MissingKey => "Failed to find item in regex"@,
        HeaderFault::MissingValue => "Failed to find item in regex"@,
        HeaderFault::MissingSentinel => "Failed to find the line that ends the header"@,
    }
}

impl RegexError {
    /// The error in words.
    pub fn message(&self) -> (text: String)
        ensures
            text@ == fault_message(self.fault),
    {
        match self.fault {
            HeaderFault::MissingKey => "Failed to find item in regex".to_owned(),
            HeaderFault::MissingValue => "Failed to find item in regex".to_owned(),
            HeaderFault::MissingSentinel => "Failed to find the line that ends the header".to_owned(),
        }
    }
}

impl SnippitError {
    /// The error in words: those of the cause.
    pub fn message(&self) -> (text: String)
        ensures
            shows_header_cause(*self, text),
    {
        match self {
            SnippitError::IoError(e) => e.to_string(),
            SnippitError::Regex(e) => e.message(),
        }
    }
}

impl ConvertError {
    /// The error in words: those of the cause.
    pub fn message(&self) -> (text: String)
        ensures
            shows_cause(*self, text),
    {
        match self {
            ConvertError::FormatError(e) => e.to_string(),
            ConvertError::FromUtfError(e) => e.to_string(),
        }
    }
}

impl ToHtmlError {
    /// The error in words: those of the cause.
    pub fn message(&self) -> (text: String)
        ensures
            match *self {
                ToHtmlError::Snippet(e) => shows_header_cause(e, text),
                ToHtmlError::IoError(e) => vstd::string::to_string_from_display_ensures::<
                    std::io::Error,
                >(&e, text),
                ToHtmlError::Convert(e) => shows_cause(e, text),
            },
    {
        match self {
            ToHtmlError::IoError(e) => e.to_string(),
            ToHtmlError::Snippet(e) => e.message(),
            ToHtmlError::Convert(e) => e.message(),
        }
    }
}

impl From<std::io::Error> for SnippitError {
    fn from(error: std::io::Error) -> (wrapped: SnippitError) {
        SnippitError::IoError(error)
    }
}

impl vstd::std_specs::convert::FromSpecImpl<std::io::Error> for SnippitError {
    open spec fn obeys_from_spec() -> bool {
        true
    }

    open spec fn from_spec(error: std::io::Error) -> SnippitError {
        SnippitError::IoError(error)
    }
}

impl From<RegexError> for SnippitError {
    fn from(error: RegexError) -> (wrapped: SnippitError) {
        SnippitError::Regex(error)
    }
}

impl vstd::std_specs::convert::FromSpecImpl<RegexError> for SnippitError {
    open spec fn obeys_from_spec() -> bool {
        true
    }

    open spec fn from_spec(error: RegexError) -> SnippitError {
        SnippitError::Regex(error)
    }
}

impl From<std::fmt::Error> for ConvertError {
    fn from(error: std::fmt::Error) -> (wrapped: ConvertError) {
        ConvertError::FormatError(error)
    }
}

impl vstd::std_specs::convert::FromSpecImpl<std::fmt::Error> for ConvertError {
    open spec fn obeys_from_spec() -> bool {
        true
    }

    open spec fn from_spec(error: std::fmt::Error) -> ConvertError {
        ConvertError::FormatError(error)
    }
}

impl From<std::string::FromUtf8Error> for ConvertError {
    fn from(error: std::string::FromUtf8Error) -> (wrapped: ConvertError) {
        ConvertError::FromUtfError(error)
    }
}

impl vstd::std_specs::convert::FromSpecImpl<std::string::FromUtf8Error> for ConvertError {
    open spec fn obeys_from_spec() -> bool {
        true
    }

    open spec fn from_spec(error: std::string::FromUtf8Error) -> ConvertError {
        ConvertError::FromUtfError(error)
    }
}

impl From<std::io::Error> for ToHtmlError {
    fn from(error: std::io::Error) -> (wrapped: ToHtmlError) {
        ToHtmlError::IoError(error)
    }
}

impl vstd::std_specs::convert::FromSpecImpl<std::io::Error> for ToHtmlError {
    open spec fn obeys_from_spec() -> bool {
        true
    }

    open spec fn from_spec(error: std::io::Error) -> ToHtmlError {
        ToHtmlError::IoError(error)
    }
}

/// Whether `text` is what the cause of `error` displays as: the text that
/// `to_string` gives for the error that the renderer or the decoder handed
/// over.
pub open spec fn shows_cause(error: ConvertError, text: String) -> bool {
    match error {
        ConvertError::FormatError(e) => vstd::string::to_string_from_display_ensures::<
            std::fmt::Error,
        >(&e, text),
        ConvertError::FromUtfError(e) => vstd::string::to_string_from_display_ensures::<
            std::string::FromUtf8Error,
        >(&e, text),
    }
}

/// Whether `text` says what `error` is: for a header that is not well
/// formed the words for its fault, for a header that could not be read the
/// text that `to_string` gives for the cause.
pub open spec fn shows_header_cause(error: SnippitError, text: String) -> bool {
    match error {
        SnippitError::Regex(e) => text@ == fault_message(e.fault),
        SnippitError::IoError(e) => vstd::string::to_string_from_display_ensures::<std::io::Error>(
            &e,
            text,
        ),
    }
}

} // verus!
