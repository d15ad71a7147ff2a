//! The errors of argument parsing and of body assembly, and their messages.

use vstd::prelude::*;
use vstd::string::*;
use crate::text::join;

verus! {

/// Why an argument vector was rejected.
#[derive(Debug, Clone, Copy, PartialEq, Eq, Structural)]
pub enum ParseErrorKind {
    /// An option token names a flag that does not exist.
    UnknownOption,
    /// A token after the URL is neither an option nor a request item.
    InvalidArgument,
    /// The arguments ask for a request and name no URL.
    MissingUrl,
    /// The key of a header item is no valid header name.
    HeaderName,
    /// The value of a header item is no valid header value.
    HeaderValue,
    /// The header map took no further header.
    TooManyHeaders,
}

/// A rejected argument vector: the kind of fault and the text it was found in.
/// For `MissingUrl` the text is empty, for a header fault it is the item's key,
/// otherwise it is the offending token.
#[derive(Debug)]
pub struct ParseError {
    pub kind: ParseErrorKind,
    pub ctx: String,
}

/// A parse error over character sequences.
pub type Failure = (ParseErrorKind, Seq<char>);

impl View for ParseError {
    type V = Failure;

    open spec fn view(&self) -> Failure {
        (self.kind, self.ctx@)
    }
}

/// The words that introduce the offending text in the message of each kind.
pub open spec fn message_lead(kind: ParseErrorKind) -> Seq<char> {
    match kind {
        ParseErrorKind::UnknownOption => "unknown option: "@,
        ParseErrorKind::InvalidArgument => "invalid argument: "@,
        ParseErrorKind::MissingUrl => "missing url, run with -h to get help"@,
        ParseErrorKind::HeaderName => "invalid header name: "@,
        ParseErrorKind::HeaderValue => "invalid value for header: "@,
        ParseErrorKind::TooManyHeaders => "too many headers, refused: "@,
    }
}

/// The message of a parse error: the lead of its kind, then the offending text.
pub open spec fn message_text(failure: Failure) -> Seq<char> {
    message_lead(failure.0) + failure.1
}

impl ParseError {
    /// An error of the given kind about the given text.
    pub fn new(kind: ParseErrorKind, ctx: String) -> (e: ParseError)
        ensures
            e.kind == kind,
            e.ctx == ctx,
            e@ == (kind, ctx@),
    {
        ParseError { kind, ctx }
    }

    /// The diagnostic shown to the user.
    pub fn message(&self) -> (text: String)
        ensures
            text@ == message_text(self@),
    {
        let lead = match self.kind {
            ParseErrorKind::UnknownOption => "unknown option: ",
            ParseErrorKind::InvalidArgument => "invalid argument: ",
            ParseErrorKind::MissingUrl => "missing url, run with -h to get help",
            ParseErrorKind::HeaderName => "invalid header name: ",
            ParseErrorKind::HeaderValue => "invalid value for header: ",
            ParseErrorKind::TooManyHeaders => "too many headers, refused: ",
        };
        join(lead, self.ctx.as_str())
    }
}

/// Why a body could not be assembled.
#[derive(Debug)]
pub enum BuildError {
    /// The raw value of a JSON field is no JSON text. `message` is the
    /// parser's own account of what is wrong with it.
    JsonFragment { key: String, message: String },
    /// A JSON field was given for a form body that takes string fields only.
    RawJsonInForm { key: String },
}

/// A build error over character sequences.
pub enum BuildFailure {
    JsonFragment { key: Seq<char>, message: Seq<char> },
    RawJsonInForm { key: Seq<char> },
}

impl View for BuildError {
    type V = BuildFailure;

    open spec fn view(&self) -> BuildFailure {
        match self {
            BuildError::JsonFragment { key, message } => BuildFailure::JsonFragment {
                key: key@,
                message: message@,
            },
            BuildError::RawJsonInForm { key } => BuildFailure::RawJsonInForm { key: key@ },
        }
    }
}

/// The message of a build error. It names the key of the offending item.
pub open spec fn build_message_text(failure: BuildFailure) -> Seq<char> {
    match failure {
        BuildFailure::JsonFragment { key, message } => "error parsing json in "@ + key + ": "@
            + message,
        BuildFailure::RawJsonInForm { key } => "json field in a form body: "@ + key,
    }
}

impl BuildError {
    /// The diagnostic shown to the user.
    pub fn message(&self) -> (text: String)
        ensures
            text@ == build_message_text(self@),
    {
        match self {
            BuildError::JsonFragment { key, message } => {
                let mut text = join("error parsing json in ", key.as_str());
                text.append(": ");
                text.append(message.as_str());
                text
            },
            BuildError::RawJsonInForm { key } => join("json field in a form body: ", key.as_str()),
        }
    }
}

} // verus!
