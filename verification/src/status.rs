//! The errors that the service reports to its clients.

use vstd::prelude::*;

verus! {

/// The kind of an error reported to a client.
#[derive(Clone, Copy, Debug, PartialEq, Eq, Structural)]
pub enum StatusCode {
    InvalidArgument,
    FailedPrecondition,
    NotFound,
    Internal,
}

/// An error reported to a client: its kind and what it says.
#[derive(Clone, Copy, Debug)]
pub struct Status {
    pub code: StatusCode,
    pub message: &'static str,
}

pub const BAD_REQUEST: &'static str = "Bad request";

pub const FAR_FUTURE_VERSION: &'static str =
    "starting_version cannot be set to a far future version";

pub const DATA_TOO_OLD: &'static str = "Requested data is too old.";

pub const FILE_STORE_FAILURE: &'static str =
    "Failed to fetch transactions from filestore, either filestore is not available, or data is corrupted.";

impl Status {
    /// The request lacks something that it has to hold.
    pub fn invalid_argument() -> (s: Status)
        ensures
            s.code == StatusCode::InvalidArgument,
            s.message@ == BAD_REQUEST@,
    {
        Status { code: StatusCode::InvalidArgument, message: BAD_REQUEST }
    }

    /// The stream would begin too far beyond what is known to exist.
    pub fn far_future_version() -> (s: Status)
        ensures
            s.code == StatusCode::FailedPrecondition,
            s.message@ == FAR_FUTURE_VERSION@,
    {
        Status { code: StatusCode::FailedPrecondition, message: FAR_FUTURE_VERSION }
    }

    /// The data asked for has left the cache.
    pub fn data_too_old() -> (s: Status)
        ensures
            s.code == StatusCode::NotFound,
            s.message@ == DATA_TOO_OLD@,
    {
        Status { code: StatusCode::NotFound, message: DATA_TOO_OLD }
    }

    /// The file store did not deliver.
    pub fn file_store_failure() -> (s: Status)
        ensures
            s.code == StatusCode::Internal,
            s.message@ == FILE_STORE_FAILURE@,
    {
        Status { code: StatusCode::Internal, message: FILE_STORE_FAILURE }
    }
}

} // verus!
