//! The streaming endpoint's per-tick decision: push the freshly computed
//! entries, or push an error payload (message plus status) in their place
//! rather than closing the connection.

use vstd::prelude::*;

use crate::dtos::{AppErrorDto, FeedEntryDto};
use crate::error::AppError;

verus! {

/// What one tick pushes to a connected screen.
#[derive(Debug, PartialEq, Eq)]
pub enum FeedMessage {
    /// The screen's programme, as computed on this tick.
    Entries(Vec<FeedEntryDto>),
    /// An error payload with its HTTP-style status; the connection stays
    /// open and the client keeps showing its last good feed.
    Error(AppErrorDto, u16),
}

/// Turns a tick's outcome into the message to push: computed entries pass
/// through unchanged, and any failure becomes an in-band error payload
/// carrying the error's message and status.
pub fn tick_message(result: Result<Vec<FeedEntryDto>, AppError>) -> (m: FeedMessage)
    ensures
        match result {
            Ok(entries) => m == FeedMessage::Entries(entries),
            Err(e) => match m {
                FeedMessage::Error(dto, status) => dto.msg@ == e.spec_message() && status
                    == e.spec_status(),
                _ => false,
            },
        },
{
    match result {
        Ok(entries) => FeedMessage::Entries(entries),
        Err(e) => {
            let status = e.status();
            let dto = e.to_dto();
            FeedMessage::Error(dto, status)
        },
    }
}

/// Whether a failed tick deserves a server-side log line: only internal
/// failures (status 500 and up) are logged; domain-rule rejections are
/// expected and stay quiet.
pub fn should_log_error(status: u16) -> (r: bool)
    ensures
        r == (status >= 500),
{
    status >= 500
}

} // verus!
