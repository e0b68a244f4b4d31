//! A coarse classification of frame-reading failures, for callers that do
//! not need the detail a `FrameError` carries.

use vstd::prelude::*;

use crate::protocol::FrameError;

verus! {

/// The coarse failure classes of reading one protocol value.
#[derive(Debug, PartialEq, Eq, Structural, Clone, Copy)]
pub enum RespError {
    /// The buffer ended before the value did.
    EmptyData,
    /// Malformed grammar, or a length out of bounds.
    InvalidFormat,
    /// A lead byte that selects no known value type.
    UnsupportedType,
    /// A header that should carry a decimal number but does not.
    ParseIntError,
}

impl RespError {
    /// Classifies a detailed frame error.
    pub fn of_frame_error(e: &FrameError) -> (r: RespError)
        ensures
            r == match *e {
                FrameError::InvalidFormat => RespError::InvalidFormat,
                FrameError::UnsupportedType(_) => RespError::UnsupportedType,
                FrameError::IncompleteData { .. } => RespError::EmptyData,
                FrameError::ValueTooLong { .. } => RespError::InvalidFormat,
                FrameError::ParseIntError => RespError::ParseIntError,
            },
    {
        match e {
            FrameError::InvalidFormat => RespError::InvalidFormat,
            FrameError::UnsupportedType(_) => RespError::UnsupportedType,
            FrameError::IncompleteData { .. } => RespError::EmptyData,
            FrameError::ValueTooLong { .. } => RespError::InvalidFormat,
            FrameError::ParseIntError => RespError::ParseIntError,
        }
    }
}

} // verus!
