//! Status codes carried in error envelopes.

use vstd::prelude::*;

verus! {

/// Closed set of status codes a server can report.
#[derive(Debug, Clone, Copy, PartialEq, Eq, Structural)]
pub enum StatusCode {
    Success,
    Unknown,
    Unexpected,
    Internal,
    InvalidArguments,
    Cancelled,
    DeadlineExceeded,
    Unavailable,
}

impl StatusCode {
    /// Numeric wire value of a status code.
    pub open spec fn spec_as_u32(self) -> u32 {
        match self {
            StatusCode::Success => 0,
            StatusCode::Unknown => 1000,
            StatusCode::Unexpected => 1002,
            StatusCode::Internal => 1003,
            StatusCode::InvalidArguments => 1004,
            StatusCode::Cancelled => 1005,
            StatusCode::DeadlineExceeded => 1006,
            StatusCode::Unavailable => 1007,
        }
    }

    pub fn as_u32(self) -> (r: u32)
        ensures
            r == self.spec_as_u32(),
    {
        match self {
            StatusCode::Success => 0,
            StatusCode::Unknown => 1000,
            StatusCode::Unexpected => 1002,
            StatusCode::Internal => 1003,
            StatusCode::InvalidArguments => 1004,
            StatusCode::Cancelled => 1005,
            StatusCode::DeadlineExceeded => 1006,
            StatusCode::Unavailable => 1007,
        }
    }

    pub open spec fn spec_from_u32(v: u32) -> Option<StatusCode> {
        if v == 0 {
            Some(StatusCode::Success)
        } else if v == 1000 {
            Some(StatusCode::Unknown)
        } else if v == 1002 {
            Some(StatusCode::Unexpected)
        } else if v == 1003 {
            Some(StatusCode::Internal)
        } else if v == 1004 {
            Some(StatusCode::InvalidArguments)
        } else if v == 1005 {
            Some(StatusCode::Cancelled)
        } else if v == 1006 {
            Some(StatusCode::DeadlineExceeded)
        } else if v == 1007 {
            Some(StatusCode::Unavailable)
        } else {
            None
        }
    }

    /// Decode a numeric wire value; unknown numbers yield `None`.
    pub fn from_u32(v: u32) -> (r: Option<StatusCode>)
        ensures
            r == Self::spec_from_u32(v),
    {
        if v == 0 {
            Some(StatusCode::Success)
        } else if v == 1000 {
            Some(StatusCode::Unknown)
        } else if v == 1002 {
            Some(StatusCode::Unexpected)
        } else if v == 1003 {
            Some(StatusCode::Internal)
        } else if v == 1004 {
            Some(StatusCode::InvalidArguments)
        } else if v == 1005 {
            Some(StatusCode::Cancelled)
        } else if v == 1006 {
            Some(StatusCode::DeadlineExceeded)
        } else if v == 1007 {
            Some(StatusCode::Unavailable)
        } else {
            None
        }
    }
}

/// The numeric value of a status code decodes back to that code.
pub proof fn lemma_status_code_round_trip(c: StatusCode)
    ensures
        StatusCode::spec_from_u32(c.spec_as_u32()) == Some(c),
{
}

} // verus!
