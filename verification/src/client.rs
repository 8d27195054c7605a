//! Errors a database client reports, and which of them are worth retrying.

use vstd::prelude::*;

use crate::header::ErrorInfoHeader;
use crate::status::StatusCode;
use crate::strings::concat_str;

verus! {

/// Transport status codes, as the RPC layer reports them.
#[derive(Debug, Clone, Copy, PartialEq, Eq, Structural)]
pub enum Code {
    Okay,
    Cancelled,
    Unknown,
    InvalidArgument,
    DeadlineExceeded,
    NotFound,
    AlreadyExists,
    PermissionDenied,
    ResourceExhausted,
    FailedPrecondition,
    Aborted,
    OutOfRange,
    Unimplemented,
    Internal,
    Unavailable,
    DataLoss,
    Unauthenticated,
}

/// A client-side error.  Wrapped causes are carried as the status code they
/// map to.
#[derive(Debug, PartialEq, Eq)]
pub enum Error {
    IllegalFlightMessages { reason: String },
    FlightGet { addr: String, tonic_code: Code, source_code: StatusCode },
    ConvertFlightData { source_code: StatusCode },
    IllegalGrpcClientState { err_msg: String },
    MissingField { field: String },
    CreateChannel { addr: String, source_code: StatusCode },
    CreateTlsChannel { source_code: StatusCode },
    RegionServer { addr: String, code: Code, source_code: StatusCode },
    FlowServer { addr: String, code: Code, source_code: StatusCode },
    Server { code: StatusCode, msg: String },
    IllegalDatabaseResponse { err_msg: String },
    InvalidAscii { value: String },
}

impl Error {
    /// The status code each error maps to.
    pub open spec fn spec_status_code(self) -> StatusCode {
        match self {
            Error::IllegalFlightMessages { .. } => StatusCode::Internal,
            Error::MissingField { .. } => StatusCode::Internal,
            Error::IllegalDatabaseResponse { .. } => StatusCode::Internal,
            Error::Server { code, .. } => code,
            Error::FlightGet { source_code, .. } => source_code,
            Error::RegionServer { source_code, .. } => source_code,
            Error::FlowServer { source_code, .. } => source_code,
            Error::CreateChannel { source_code, .. } => source_code,
            Error::ConvertFlightData { source_code, .. } => source_code,
            Error::CreateTlsChannel { source_code, .. } => source_code,
            Error::IllegalGrpcClientState { .. } => StatusCode::Unexpected,
            Error::InvalidAscii { .. } => StatusCode::InvalidArguments,
        }
    }

    pub fn status_code(&self) -> (r: StatusCode)
        ensures
            r == self.spec_status_code(),
    {
        match self {
            Error::IllegalFlightMessages { .. } => StatusCode::Internal,
            Error::MissingField { .. } => StatusCode::Internal,
            Error::IllegalDatabaseResponse { .. } => StatusCode::Internal,
            Error::Server { code, .. } => *code,
            Error::FlightGet { source_code, .. } => *source_code,
            Error::RegionServer { source_code, .. } => *source_code,
            Error::FlowServer { source_code, .. } => *source_code,
            Error::CreateChannel { source_code, .. } => *source_code,
            Error::ConvertFlightData { source_code, .. } => *source_code,
            Error::CreateTlsChannel { source_code, .. } => *source_code,
            Error::IllegalGrpcClientState { .. } => StatusCode::Unexpected,
            Error::InvalidAscii { .. } => StatusCode::InvalidArguments,
        }
    }

    /// Whether a transport code marks a transient failure.
    pub open spec fn spec_transient_code(code: Code) -> bool {
        code == Code::Cancelled || code == Code::DeadlineExceeded || code == Code::Unavailable
            || code == Code::Unknown
    }

    /// An error is retriable exactly when it comes from a region or flow
    /// server with a transient transport code.
    pub open spec fn spec_should_retry(self) -> bool {
        match self {
            Error::RegionServer { code, .. } => Self::spec_transient_code(code),
            Error::FlowServer { code, .. } => Self::spec_transient_code(code),
            _ => false,
        }
    }

    /// Retry exactly the transient region- and flow-server failures; every
    /// other error is terminal.
    pub fn should_retry(&self) -> (r: bool)
        ensures
            r == self.spec_should_retry(),
    {
        match self {
            Error::RegionServer { code, .. } | Error::FlowServer { code, .. } => {
                matches!(
                    code,
                    Code::Cancelled | Code::DeadlineExceeded | Code::Unavailable | Code::Unknown
                )
            },
            _ => false,
        }
    }

    /// The error a transport status decodes to: a server error with the
    /// envelope's code and message when the header decodes (unknown numeric
    /// codes map to `Unknown`), and an internal server error naming the
    /// transport message otherwise.
    pub fn from_status_parts(info: Option<ErrorInfoHeader>, tonic_message: &str) -> (r: Error)
        ensures
            match info {
                Some(h) => r matches Error::Server { code, msg } && code == (
                match StatusCode::spec_from_u32(h.code) {
                    Some(c) => c,
                    None => StatusCode::Unknown,
                }) && msg@ == h.msg@,
                None => r matches Error::Server { code, msg } && code == StatusCode::Internal
                    && msg@ == "Failed to decode error info header, tonic message: "@.add(
                    tonic_message@,
                ),
            },
    {
        match info {
            Some(h) => {
                let code = match StatusCode::from_u32(h.code) {
                    Some(c) => c,
                    None => StatusCode::Unknown,
                };
                Error::Server { code, msg: h.msg }
            },
            None => Error::Server {
                code: StatusCode::Internal,
                msg: concat_str(
                    "Failed to decode error info header, tonic message: ",
                    tonic_message,
                ),
            },
        }
    }
}

} // verus!
