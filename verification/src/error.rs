//! Protocol error types.
//!
//! [`ProtocolError`] sorts every failure into an actionable category:
//! incomplete data (wait and retry), invalid data (close the connection),
//! oversized data (potential attack), and underlying I/O errors.
//!
//! In contracts an error is seen through its [`ErrorClass`], the category a
//! specification of a parser or encoder predicts.

use vstd::prelude::*;

use crate::text::{decimal_string, usize_decimal};

verus! {

/// The kind of an I/O failure, as far as the protocol layer distinguishes it.
#[derive(Debug, Clone, Copy, PartialEq, Eq, Structural)]
pub enum IoErrorKind {
    /// The operation would block; retry later.
    WouldBlock,
    /// The stream ended before the expected number of bytes.
    UnexpectedEof,
    /// Any other I/O failure.
    Other,
}

/// An I/O failure: its kind and a human-readable message.
#[derive(Debug, Clone)]
pub struct IoError {
    pub kind: IoErrorKind,
    pub message: String,
}

impl IoError {
    /// Creates an I/O error of the given kind with a message.
    pub fn new(kind: IoErrorKind, message: &str) -> (e: IoError)
        ensures
            e.kind == kind,
            e.message@ == message@,
    {
        IoError { kind, message: message.to_string() }
    }

    /// The error that a read past the end of a byte slice produces.
    pub fn unexpected_eof() -> (e: IoError)
        ensures
            e.kind == IoErrorKind::UnexpectedEof,
    {
        IoError::new(IoErrorKind::UnexpectedEof, "failed to fill whole buffer")
    }
}

/// Unified error type for all protocol operations.
///
/// - [`Incomplete`](ProtocolError::Incomplete): not enough data yet, wait and retry.
/// - [`Invalid`](ProtocolError::Invalid): corrupted or unexpected data, close the connection.
/// - [`TooLarge`](ProtocolError::TooLarge): size exceeds limits, potential attack.
/// - [`Io`](ProtocolError::Io): underlying I/O error.
#[allow(inconsistent_fields)]
#[derive(Debug)]
pub enum ProtocolError {
    /// Not enough data to complete decoding. Non-fatal.
    Incomplete {
        /// Static description of what was being decoded.
        context: &'static str,
    },
    /// Invalid or corrupted data. The connection should be closed.
    Invalid {
        /// Description of what was invalid.
        context: String,
    },
    /// Size exceeds a protocol limit.
    TooLarge { max: usize, actual: usize },
    /// Underlying I/O error.
    Io(IoError),
}

/// The category of an error, as specifications predict it.
#[derive(Debug, Clone, Copy, PartialEq, Eq, Structural)]
pub enum ErrorClass {
    Incomplete,
    Invalid,
    TooLarge,
    Io(IoErrorKind),
}

/// The class of the error that a read past the end of a byte slice produces.
pub open spec fn eof() -> ErrorClass {
    ErrorClass::Io(IoErrorKind::UnexpectedEof)
}

/// Whether an I/O failure of this kind ends the connection.
pub open spec fn io_kind_is_fatal(kind: IoErrorKind) -> bool {
    !(kind == IoErrorKind::WouldBlock || kind == IoErrorKind::UnexpectedEof)
}

/// Whether an error of this class ends the connection.
pub open spec fn class_is_fatal(c: ErrorClass) -> bool {
    match c {
        ErrorClass::Incomplete => false,
        ErrorClass::Invalid => true,
        ErrorClass::TooLarge => true,
        ErrorClass::Io(kind) => io_kind_is_fatal(kind),
    }
}

impl ProtocolError {
    /// The class of this error.
    pub open spec fn class(&self) -> ErrorClass {
        match self {
            ProtocolError::Incomplete { .. } => ErrorClass::Incomplete,
            ProtocolError::Invalid { .. } => ErrorClass::Invalid,
            ProtocolError::TooLarge { .. } => ErrorClass::TooLarge,
            ProtocolError::Io(e) => ErrorClass::Io(e.kind),
        }
    }

    /// Creates an [`Invalid`](ProtocolError::Invalid) error with the given context.
    pub fn invalid(context: &str) -> (e: ProtocolError)
        ensures
            e.class() == ErrorClass::Invalid,
            e matches ProtocolError::Invalid { context: c } && c@ == context@,
    {
        ProtocolError::Invalid { context: context.to_string() }
    }

    /// Creates a [`TooLarge`](ProtocolError::TooLarge) error.
    pub fn too_large(max: usize, actual: usize) -> (e: ProtocolError)
        ensures
            e == (ProtocolError::TooLarge { max, actual }),
    {
        ProtocolError::TooLarge { max, actual }
    }

    /// Creates an [`Incomplete`](ProtocolError::Incomplete) error.
    pub fn incomplete(context: &'static str) -> (e: ProtocolError)
        ensures
            e == (ProtocolError::Incomplete { context }),
    {
        ProtocolError::Incomplete { context }
    }

    /// The error that a read past the end of a byte slice produces.
    pub fn eof() -> (e: ProtocolError)
        ensures
            e.class() == eof(),
    {
        ProtocolError::Io(IoError::unexpected_eof())
    }

    /// Returns `true` if this error indicates incomplete data (non-fatal).
    pub fn is_incomplete(&self) -> (b: bool)
        ensures
            b <==> self.class() == ErrorClass::Incomplete,
    {
        match self {
            ProtocolError::Incomplete { .. } => true,
            _ => false,
        }
    }

    /// Returns `true` if this error is fatal and the connection should be closed.
    ///
    /// `Incomplete` is non-fatal; `Invalid` and `TooLarge` are always fatal;
    /// `Io` is non-fatal for `WouldBlock` and `UnexpectedEof`, fatal otherwise.
    pub fn is_fatal(&self) -> (b: bool)
        ensures
            b == class_is_fatal(self.class()),
    {
        match self {
            ProtocolError::Incomplete { .. } => false,
            ProtocolError::Invalid { .. } => true,
            ProtocolError::TooLarge { .. } => true,
            ProtocolError::Io(e) => match e.kind {
                IoErrorKind::WouldBlock => false,
                IoErrorKind::UnexpectedEof => false,
                IoErrorKind::Other => true,
            },
        }
    }

    /// A human-readable description of the error.
    ///
    /// `incomplete: {context}`, `invalid: {context}`,
    /// `too large: {actual} bytes exceeds maximum of {max}`, or the I/O message.
    pub fn message(&self) -> (m: String)
        ensures
            self matches ProtocolError::Incomplete { context } ==> m@ == "incomplete: "@
                + context@,
            self matches ProtocolError::Invalid { context } ==> m@ == "invalid: "@ + context@,
            self matches ProtocolError::TooLarge { max, actual } ==> m@ == "too large: "@
                + usize_decimal(*actual) + " bytes exceeds maximum of "@ + usize_decimal(*max),
            self matches ProtocolError::Io(e) ==> m@ == e.message@,
    {
        match self {
            ProtocolError::Incomplete { context } => {
                let mut m = String::from_str("incomplete: ");
                m.append(context);
                m
            },
            ProtocolError::Invalid { context } => {
                let mut m = String::from_str("invalid: ");
                m.append(context.as_str());
                m
            },
            ProtocolError::TooLarge { max, actual } => {
                let mut m = String::from_str("too large: ");
                let a = decimal_string(*actual as u64);
                m.append(a.as_str());
                m.append(" bytes exceeds maximum of ");
                let b = decimal_string(*max as u64);
                m.append(b.as_str());
                m
            },
            ProtocolError::Io(e) => e.message.clone(),
        }
    }
}

/// Reads the kind of a standard I/O error.
///
/// Wraps `std::io::Error::kind`; each of the two kinds the protocol layer
/// distinguishes maps to its own variant, every other kind to `Other`.
/// Nothing is stated of the result: the kind lives inside the opaque error.
#[verifier::external_body]
fn std_io_error_kind(e: &std::io::Error) -> IoErrorKind {
    match e.kind() {
        std::io::ErrorKind::WouldBlock => IoErrorKind::WouldBlock,
        std::io::ErrorKind::UnexpectedEof => IoErrorKind::UnexpectedEof,
        _ => IoErrorKind::Other,
    }
}

/// Renders a standard I/O error as text.
///
/// Wraps `<std::io::Error as Display>::to_string`; nothing is stated of the text.
#[verifier::external_body]
fn std_io_error_text(e: &std::io::Error) -> String {
    e.to_string()
}

#[verifier::external_type_specification]
#[verifier::external_body]
pub struct ExStdIoError(std::io::Error);

impl From<std::io::Error> for ProtocolError {
    /// Wraps a standard I/O error, keeping its kind and message.
    fn from(e: std::io::Error) -> (r: ProtocolError) {
        let kind = std_io_error_kind(&e);
        let message = std_io_error_text(&e);
        ProtocolError::Io(IoError { kind, message })
    }
}

impl vstd::std_specs::convert::FromSpecImpl<std::io::Error> for ProtocolError {
    open spec fn obeys_from_spec() -> bool {
        false
    }

    open spec fn from_spec(v: std::io::Error) -> ProtocolError {
        arbitrary()
    }
}

/// Convenience result type for protocol operations.
pub type ProtocolResult<T> = Result<T, ProtocolError>;

} // verus!
