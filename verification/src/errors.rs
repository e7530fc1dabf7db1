//! Error taxonomy of the engine.
//!
//! Configuration errors are fatal to the step that carries them; extraction
//! misses and shape errors are local to one branch of the pipeline;
//! authentication errors abort the owning job's construction; transport and
//! sink errors abandon one unit's branch and leave siblings alone.

use vstd::prelude::*;

verus! {

/// Every failure the engine can report. Payload strings carry a
/// human-readable description of the failing input.
#[derive(Debug, Clone, PartialEq, Eq)]
pub enum ProcessorError {
    /// A selector string that the markup engine refuses.
    HtmlParserBuildError(String),
    /// An extraction step matched nothing: the branch is skipped.
    NothingToCaptureError,
    /// A pattern string that the pattern engine refuses.
    RegexBuildError(String),
    /// The transport failed to send a request or receive a response.
    HTTPRequestError(String),
    /// A response body could not be materialized in the requested form.
    ResponseAdoptionError(String),
    /// A storage sink failed.
    IOError(String),
    /// Text that should denote a URL does not parse or resolve as one.
    UrlParseError(String),
    /// A step of the authentication chain got a non-success status.
    AuthenticationError(String),
    /// A structured-value lookup met a value of the wrong shape, or a
    /// missing field or index.
    ExtractionShapeError(String),
    /// A document that should hold a structured value does not parse.
    JsonParseError(String),
    /// A result value was paired with a continuation that cannot accept it.
    PairingError(String),
    /// A declarative spec that cannot generate values, such as a zero step.
    ConfigError(String),
}

impl ProcessorError {
    /// A short label naming the error kind, for logs.
    pub fn kind_label(&self) -> (r: &'static str)
        ensures
            r@.len() > 0,
    {
        proof {
            reveal_strlit("selector rejected");
            reveal_strlit("nothing captured");
            reveal_strlit("pattern rejected");
            reveal_strlit("request failed");
            reveal_strlit("response adoption failed");
            reveal_strlit("storage failed");
            reveal_strlit("bad url");
            reveal_strlit("authentication failed");
            reveal_strlit("value shape mismatch");
            reveal_strlit("document rejected");
            reveal_strlit("invalid pairing");
            reveal_strlit("invalid configuration");
        }
        match self {
            ProcessorError::HtmlParserBuildError(_) => "selector rejected",
            ProcessorError::NothingToCaptureError => "nothing captured",
            ProcessorError::RegexBuildError(_) => "pattern rejected",
            ProcessorError::HTTPRequestError(_) => "request failed",
            ProcessorError::ResponseAdoptionError(_) => "response adoption failed",
            ProcessorError::IOError(_) => "storage failed",
            ProcessorError::UrlParseError(_) => "bad url",
            ProcessorError::AuthenticationError(_) => "authentication failed",
            ProcessorError::ExtractionShapeError(_) => "value shape mismatch",
            ProcessorError::JsonParseError(_) => "document rejected",
            ProcessorError::PairingError(_) => "invalid pairing",
            ProcessorError::ConfigError(_) => "invalid configuration",
        }
    }
}

} // verus!
