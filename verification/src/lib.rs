//! Verified core of a small media-streaming service: request validation,
//! filter-graph escaping, start-time parsing, path containment, encoder
//! argument construction, directory-listing order, and the per-request
//! orchestration state machine.
use vstd::prelude::*;

pub mod command;
pub mod escape;
pub mod listing;
pub mod params;
pub mod pathres;
pub mod session;
pub mod strutil;
pub mod timecode;

verus! {

/// The failure classes a request can end in. Pre-streaming failures are
/// reported as clean error responses; `ProcessRuntimeFailed` can only be
/// logged once streaming has begun; `ClientDisconnected` is not a fault,
/// it merely triggers cleanup.
#[derive(Clone, Copy, Debug, PartialEq, Eq, Structural)]
pub enum ErrorKind {
    InvalidPath,
    NotFound,
    InvalidParameter,
    SubtitleConversionFailed,
    ProcessSpawnFailed,
    ProcessRuntimeFailed,
    ClientDisconnected,
}

impl ErrorKind {
    /// A short, stable description of the failure class.
    pub fn describe(&self) -> (r: &'static str)
        ensures
            r@.len() > 0,
    {
        proof {
            reveal_strlit("invalid path");
            reveal_strlit("not found");
            reveal_strlit("invalid parameter");
            reveal_strlit("subtitle conversion failed");
            reveal_strlit("cannot spawn encoder");
            reveal_strlit("encoder failed during streaming");
            reveal_strlit("client disconnected");
        }
        match self {
            ErrorKind::InvalidPath => "invalid path",
            ErrorKind::NotFound => "not found",
            ErrorKind::InvalidParameter => "invalid parameter",
            ErrorKind::SubtitleConversionFailed => "subtitle conversion failed",
            ErrorKind::ProcessSpawnFailed => "cannot spawn encoder",
            ErrorKind::ProcessRuntimeFailed => "encoder failed during streaming",
            ErrorKind::ClientDisconnected => "client disconnected",
        }
    }
}

} // verus!
