//! The error taxonomy of a run, and the flattening of any error into one
//! human-readable message for the host-runtime boundary.

use vstd::prelude::*;

verus! {

/// The kind of an error, with the payload stripped. Contracts that must not
/// depend on a message's exact wording speak of kinds.
#[derive(Clone, Copy, Debug, PartialEq, Eq, Structural)]
pub enum ErrKind {
    Connection,
    QueryExecution,
    SchemaMismatch,
    UnsupportedType,
    FileNotFound,
    Parse,
    UnknownType,
    Other,
}

/// Errors that can be raised from this library. Each variant carries a
/// human-readable payload; the payload never decides control flow.
#[derive(Debug)]
pub enum CxError {
    /// The source was unreachable or refused authentication.
    ConnectionError(String),
    /// The driver rejected the query.
    QueryExecutionError(String),
    /// The declared or probed schema is incompatible with the data.
    SchemaError(String),
    /// The transport lacks a conversion for a schema type; detected at
    /// construction, before any connection is attempted.
    UnsupportedTypeError(String),
    /// A resource of the federated rewriter is missing.
    FileNotFoundError(String),
    /// A connection URL could not be parsed.
    ParseError(String),
    /// An external type name was not recognized.
    UnknownPandasType(String),
    /// Catch-all wrapping any other originating error, message preserved.
    Other(String),
}

impl CxError {
    pub open spec fn kind(self) -> ErrKind {
        match self {
            CxError::ConnectionError(_) => ErrKind::Connection,
            CxError::QueryExecutionError(_) => ErrKind::QueryExecution,
            CxError::SchemaError(_) => ErrKind::SchemaMismatch,
            CxError::UnsupportedTypeError(_) => ErrKind::UnsupportedType,
            CxError::FileNotFoundError(_) => ErrKind::FileNotFound,
            CxError::ParseError(_) => ErrKind::Parse,
            CxError::UnknownPandasType(_) => ErrKind::UnknownType,
            CxError::Other(_) => ErrKind::Other,
        }
    }

    pub open spec fn payload(self) -> Seq<char> {
        match self {
            CxError::ConnectionError(s) => s@,
            CxError::QueryExecutionError(s) => s@,
            CxError::SchemaError(s) => s@,
            CxError::UnsupportedTypeError(s) => s@,
            CxError::FileNotFoundError(s) => s@,
            CxError::ParseError(s) => s@,
            CxError::UnknownPandasType(s) => s@,
            CxError::Other(s) => s@,
        }
    }

    pub fn kind_exec(&self) -> (k: ErrKind)
        ensures
            k == self.kind(),
    {
        match self {
            CxError::ConnectionError(_) => ErrKind::Connection,
            CxError::QueryExecutionError(_) => ErrKind::QueryExecution,
            CxError::SchemaError(_) => ErrKind::SchemaMismatch,
            CxError::UnsupportedTypeError(_) => ErrKind::UnsupportedType,
            CxError::FileNotFoundError(_) => ErrKind::FileNotFound,
            CxError::ParseError(_) => ErrKind::Parse,
            CxError::UnknownPandasType(_) => ErrKind::UnknownType,
            CxError::Other(_) => ErrKind::Other,
        }
    }

    /// The prefix that `message` puts before the payload of an error of
    /// kind `k`.
    pub open spec fn kind_prefix(k: ErrKind) -> Seq<char> {
        match k {
            ErrKind::Connection => "connection error: "@,
            ErrKind::QueryExecution => "query execution error: "@,
            ErrKind::SchemaMismatch => "schema error: "@,
            ErrKind::UnsupportedType => "unsupported type: "@,
            ErrKind::FileNotFound => "file not found: "@,
            ErrKind::Parse => "url parse error: "@,
            ErrKind::UnknownType => "unknown pandas data type: "@,
            ErrKind::Other => "error: "@,
        }
    }

    pub open spec fn message_spec(self) -> Seq<char> {
        Self::kind_prefix(self.kind()) + self.payload()
    }

    /// One generic, human-readable message: the form in which any internal
    /// error crosses the host-runtime boundary.
    pub fn message(&self) -> (r: String)
        ensures
            r@ == self.message_spec(),
    {
        match self {
            CxError::ConnectionError(s) => String::from_str("connection error: ").concat(s.as_str()),
            CxError::QueryExecutionError(s) => String::from_str("query execution error: ").concat(
                s.as_str(),
            ),
            CxError::SchemaError(s) => String::from_str("schema error: ").concat(s.as_str()),
            CxError::UnsupportedTypeError(s) => String::from_str("unsupported type: ").concat(
                s.as_str(),
            ),
            CxError::FileNotFoundError(s) => String::from_str("file not found: ").concat(
                s.as_str(),
            ),
            CxError::ParseError(s) => String::from_str("url parse error: ").concat(s.as_str()),
            CxError::UnknownPandasType(s) => String::from_str("unknown pandas data type: ").concat(
                s.as_str(),
            ),
            CxError::Other(s) => String::from_str("error: ").concat(s.as_str()),
        }
    }
}

} // verus!
