//! Errors of the application, as shown to the user.

use vstd::prelude::*;

use crate::text::joined;

verus! {

/// An error of the application.
#[derive(Debug)]
pub enum AppError {
    TestError,
    ChannelClosed,
    ChannelReceiveError,
    ChannelSendError,
    InternalError(String),
}

/// The text shown for an error.
pub open spec fn app_error_text(e: AppError) -> Seq<char> {
    match e {
        AppError::TestError => "just a test error, nothing anormal"@,
        AppError::ChannelClosed => "channel closed"@,
        AppError::ChannelReceiveError => "channel receive error"@,
        AppError::ChannelSendError => "channel send error"@,
        AppError::InternalError(s) => "internal error: "@ + s@,
    }
}

impl AppError {
    /// The text shown for the error (what `to_string` gives).
    pub fn message(&self) -> (r: String)
        ensures
            r@ == app_error_text(*self),
    {
        match self {
            AppError::TestError => String::from_str("just a test error, nothing anormal"),
            AppError::ChannelClosed => String::from_str("channel closed"),
            AppError::ChannelReceiveError => String::from_str("channel receive error"),
            AppError::ChannelSendError => String::from_str("channel send error"),
            AppError::InternalError(s) => joined("internal error: ", s.as_str()),
        }
    }

    /// A copy of the error.
    pub fn duplicate(&self) -> (r: AppError)
        ensures
            r == *self,
    {
        match self {
            AppError::TestError => AppError::TestError,
            AppError::ChannelClosed => AppError::ChannelClosed,
            AppError::ChannelReceiveError => AppError::ChannelReceiveError,
            AppError::ChannelSendError => AppError::ChannelSendError,
            AppError::InternalError(s) => AppError::InternalError(s.clone()),
        }
    }
}

} // verus!
