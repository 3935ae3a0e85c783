//! The service's error taxonomy: domain-rule violations are typed and
//! recoverable, infrastructure failures collapse to an opaque message.

use vstd::prelude::*;

use crate::dtos::AppErrorDto;
use crate::text::{decimal_digits, push_decimal_u64};

verus! {

/// Everything a request handler can fail with.
#[derive(Clone, Debug, PartialEq, Eq)]
pub enum AppError {
    Unauthenticated,
    /// The upload exceeded the configured cap; carries the allowed size in bytes.
    FileTooBig(u64),
    ScreenNotFound,
    SlideGroupNotFound,
    SlideGroupArchived,
    SlideNotFound,
    SlideArchived,
    /// A storage failure, collapsed to its message.
    DatabaseError(String),
    /// An I/O failure, collapsed to its message.
    IoError(String),
    InternalError(String),
    LoginUnauthorized,
    AuthenticationFlowExpired,
}

impl AppError {
    /// The HTTP status code each error kind maps to: 404 for not-found kinds,
    /// 403 for forbidden states, 410 for an expired flow, 413 for oversized
    /// uploads, 500 for internal failures.
    pub open spec fn spec_status(self) -> u16 {
        match self {
            AppError::Unauthenticated => 401,
            AppError::FileTooBig(_) => 413,
            AppError::ScreenNotFound => 404,
            AppError::SlideGroupNotFound => 404,
            AppError::SlideGroupArchived => 403,
            AppError::SlideNotFound => 404,
            AppError::SlideArchived => 403,
            AppError::DatabaseError(_) => 500,
            AppError::IoError(_) => 500,
            AppError::InternalError(_) => 500,
            AppError::LoginUnauthorized => 403,
            AppError::AuthenticationFlowExpired => 410,
        }
    }

    pub fn status(&self) -> (s: u16)
        ensures
            s == self.spec_status(),
    {
        match self {
            AppError::Unauthenticated => 401,
            AppError::FileTooBig(_) => 413,
            AppError::ScreenNotFound => 404,
            AppError::SlideGroupNotFound => 404,
            AppError::SlideGroupArchived => 403,
            AppError::SlideNotFound => 404,
            AppError::SlideArchived => 403,
            AppError::DatabaseError(_) => 500,
            AppError::IoError(_) => 500,
            AppError::InternalError(_) => 500,
            AppError::LoginUnauthorized => 403,
            AppError::AuthenticationFlowExpired => 410,
        }
    }

    /// The user-facing message of each error kind.
    pub open spec fn spec_message(self) -> Seq<char> {
        match self {
            AppError::Unauthenticated => "you must login to perform this action"@,
            AppError::FileTooBig(n) => "uploaded file exceeds maximum allowed size (max is "@
                + decimal_digits(n as nat) + " bytes)"@,
            AppError::ScreenNotFound => "screen not found"@,
            AppError::SlideGroupNotFound => "slide group not found"@,
            AppError::SlideGroupArchived => "slide group is archived and can't be edited"@,
            AppError::SlideNotFound => "slide not found"@,
            AppError::SlideArchived => "slide is archived and can't be edited"@,
            AppError::DatabaseError(s) => "database error: "@ + s@,
            AppError::IoError(s) => "io error: "@ + s@,
            AppError::InternalError(s) => "internal error: "@ + s@,
            AppError::LoginUnauthorized => "you do not have permission to login"@,
            AppError::AuthenticationFlowExpired => "authentication flow expired and can no longer be completed"@,
        }
    }

    pub fn message(&self) -> (m: String)
        ensures
            m@ == self.spec_message(),
    {
        match self {
            AppError::Unauthenticated => String::from_str(
                "you must login to perform this action",
            ),
            AppError::FileTooBig(n) => {
                let mut s = String::from_str(
                    "uploaded file exceeds maximum allowed size (max is ",
                );
                push_decimal_u64(*n, &mut s);
                s.append(" bytes)");
                proof {
                    assert(s@ =~= self.spec_message());
                }
                s
            },
            AppError::ScreenNotFound => String::from_str("screen not found"),
            AppError::SlideGroupNotFound => String::from_str("slide group not found"),
            AppError::SlideGroupArchived => String::from_str(
                "slide group is archived and can't be edited",
            ),
            AppError::SlideNotFound => String::from_str("slide not found"),
            AppError::SlideArchived => String::from_str("slide is archived and can't be edited"),
            AppError::DatabaseError(msg) => {
                let mut s = String::from_str("database error: ");
                s.append(msg.as_str());
                s
            },
            AppError::IoError(msg) => {
                let mut s = String::from_str("io error: ");
                s.append(msg.as_str());
                s
            },
            AppError::InternalError(msg) => {
                let mut s = String::from_str("internal error: ");
                s.append(msg.as_str());
                s
            },
            AppError::LoginUnauthorized => String::from_str(
                "you do not have permission to login",
            ),
            AppError::AuthenticationFlowExpired => String::from_str(
                "authentication flow expired and can no longer be completed",
            ),
        }
    }

    /// The payload a client sees: only the message, never internal detail.
    pub fn to_dto(&self) -> (d: AppErrorDto)
        ensures
            d.deep_view().msg == self.spec_message(),
    {
        AppErrorDto { msg: self.message() }
    }
}

} // verus!
