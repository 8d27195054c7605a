//! Errors a metadata-server client reports.

use vstd::prelude::*;

use crate::client::Code;
use crate::header::ErrorInfoHeader;
use crate::status::StatusCode;
use crate::strings::concat_str;

verus! {

/// A metadata-client error.  Wrapped causes are carried as the status code
/// they map to.
#[derive(Debug, PartialEq, Eq)]
pub enum Error {
    IllegalGrpcClientState { err_msg: String },
    MetaServer { code: StatusCode, msg: String, stack_errors: Vec<String>, tonic_code: Code },
    NoLeader,
    AskLeaderTimeout,
    CreateChannel { source_code: StatusCode },
    NotStarted { name: String },
    SendHeartbeat { err_msg: String },
    CreateHeartbeatStream,
    InvalidResponseHeader { source_code: StatusCode },
    ConvertMetaRequest { source_code: StatusCode },
    ConvertMetaResponse { source_code: StatusCode },
    RetryTimesExceeded { times: usize, msg: String },
}

impl Error {
    pub open spec fn spec_status_code(self) -> StatusCode {
        match self {
            Error::MetaServer { code, .. } => code,
            Error::InvalidResponseHeader { source_code, .. } => source_code,
            Error::ConvertMetaRequest { source_code, .. } => source_code,
            Error::ConvertMetaResponse { source_code, .. } => source_code,
            _ => StatusCode::Internal,
        }
    }

    pub fn status_code(&self) -> (r: StatusCode)
        ensures
            r == self.spec_status_code(),
    {
        match self {
            Error::MetaServer { code, .. } => *code,
            Error::InvalidResponseHeader { source_code, .. } => *source_code,
            Error::ConvertMetaRequest { source_code, .. } => *source_code,
            Error::ConvertMetaResponse { source_code, .. } => *source_code,
            _ => StatusCode::Internal,
        }
    }

    /// True exactly for a server reply whose transport code reports an
    /// out-of-range payload.
    pub fn is_exceeded_size_limit(&self) -> (r: bool)
        ensures
            r == (self matches Error::MetaServer { tonic_code: Code::OutOfRange, .. }),
    {
        matches!(self, Error::MetaServer { tonic_code: Code::OutOfRange, .. })
    }

    /// The error a transport status decodes to: the envelope's code,
    /// message and frames when the header decodes (unknown numeric codes
    /// map to `Internal`), and an internal server error naming the
    /// transport message otherwise.
    pub fn from_status_parts(info: Option<ErrorInfoHeader>, tonic_code: Code, tonic_message: &str) -> (r:
        Error)
        ensures
            match info {
                Some(h) => r matches Error::MetaServer { code, msg, stack_errors, tonic_code: tc }
                    && code == (match StatusCode::spec_from_u32(h.code) {
                    Some(c) => c,
                    None => StatusCode::Internal,
                }) && msg@ == h.msg@ && stack_errors.deep_view() == h.stack_errors.deep_view()
                    && tc == tonic_code,
                None => r matches Error::MetaServer { code, msg, stack_errors, tonic_code: tc }
                    && code == StatusCode::Internal && msg@
                    == "Failed to decode error info header, tonic message: "@.add(tonic_message@)
                    && stack_errors.deep_view() == Seq::<Seq<char>>::empty() && tc == tonic_code,
            },
    {
        match info {
            Some(h) => {
                let code = match StatusCode::from_u32(h.code) {
                    Some(c) => c,
                    None => StatusCode::Internal,
                };
                Error::MetaServer { code, msg: h.msg, stack_errors: h.stack_errors, tonic_code }
            },
            None => {
                let stack_errors: Vec<String> = Vec::new();
                proof {
                    assert(stack_errors.deep_view() =~= Seq::<Seq<char>>::empty());
                }
                Error::MetaServer {
                    code: StatusCode::Internal,
                    msg: concat_str(
                        "Failed to decode error info header, tonic message: ",
                        tonic_message,
                    ),
                    stack_errors,
                    tonic_code,
                }
            },
        }
    }
}

} // verus!
