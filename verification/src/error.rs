use vstd::prelude::*;

verus! {

/// Errors of the server, each with the message that describes it and, where
/// the caller chooses it, the HTTP status that answers the request.
#[derive(Debug)]
pub enum MioInnerError {
    NotFound(String),
    DbError(String),
    Panicked(String),
    UserChallengedFail(String, u16),
    UserCreationFail(String, u16),
    TrackProcessingError(String, u16),
    ExtIoError(String, u16),
    IntIoError(String),
    Conflict(String),
}

/// The severity with which a server error is logged.
#[derive(PartialEq, Eq, Structural, Clone, Copy, Debug)]
pub enum LogLevel {
    Debug,
    Info,
    Warn,
    Error,
}

/// Text shown in place of an internal filesystem error.
pub open spec fn int_io_text() -> Seq<char> {
    "The server encountered an filesystem io error. Please check the server log."@
}

/// Text shown in place of a failed internal task.
pub open spec fn panicked_text() -> Seq<char> {
    "The server encountered an error it could not handle. Please check the server log."@
}

/// Text shown in place of a database error.
pub open spec fn db_text() -> Seq<char> {
    "The server encountered an internal database error. Please check server log."@
}

/// The message a client is shown for an error: the error's own message where
/// it is safe to show, a fixed text for errors that could leak server details.
pub open spec fn spec_msg(e: MioInnerError) -> Seq<char> {
    match e {
        MioInnerError::NotFound(m) => m@,
        MioInnerError::Conflict(m) => m@,
        MioInnerError::UserChallengedFail(m, _) => m@,
        MioInnerError::UserCreationFail(m, _) => m@,
        MioInnerError::TrackProcessingError(m, _) => m@,
        MioInnerError::ExtIoError(m, _) => m@,
        MioInnerError::IntIoError(_) => int_io_text(),
        MioInnerError::Panicked(_) => panicked_text(),
        MioInnerError::DbError(_) => db_text(),
    }
}

/// The HTTP status that answers a request that failed with `e`.
pub open spec fn spec_status(e: MioInnerError) -> u16 {
    match e {
        MioInnerError::NotFound(_) => 404,
        MioInnerError::Conflict(_) => 409,
        MioInnerError::IntIoError(_) => 500,
        MioInnerError::DbError(_) => 500,
        MioInnerError::Panicked(_) => 500,
        MioInnerError::UserChallengedFail(_, c) => c,
        MioInnerError::UserCreationFail(_, c) => c,
        MioInnerError::TrackProcessingError(_, c) => c,
        MioInnerError::ExtIoError(_, c) => c,
    }
}

/// The level at which `e` is logged.
pub open spec fn spec_log_level(e: MioInnerError) -> LogLevel {
    match e {
        MioInnerError::NotFound(_) => LogLevel::Debug,
        MioInnerError::Conflict(_) => LogLevel::Debug,
        MioInnerError::ExtIoError(_, _) => LogLevel::Debug,
        MioInnerError::UserChallengedFail(_, _) => LogLevel::Info,
        MioInnerError::TrackProcessingError(_, _) => LogLevel::Warn,
        MioInnerError::DbError(_) => LogLevel::Error,
        MioInnerError::UserCreationFail(_, _) => LogLevel::Error,
        MioInnerError::IntIoError(_) => LogLevel::Error,
        MioInnerError::Panicked(_) => LogLevel::Error,
    }
}

impl MioInnerError {
    /// The message shown to the client.
    pub fn msg(self) -> (s: String)
        ensures
            s@ == spec_msg(self),
    {
        match self {
            MioInnerError::NotFound(e) => e,
            MioInnerError::Conflict(e) => e,
            MioInnerError::UserChallengedFail(e, _) => e,
            MioInnerError::UserCreationFail(e, _) => e,
            MioInnerError::TrackProcessingError(e, _) => e,
            MioInnerError::ExtIoError(e, _) => e,
            MioInnerError::IntIoError(_) => String::from_str(
                "The server encountered an filesystem io error. Please check the server log.",
            ),
            MioInnerError::Panicked(_) => String::from_str(
                "The server encountered an error it could not handle. Please check the server log.",
            ),
            MioInnerError::DbError(_) => String::from_str(
                "The server encountered an internal database error. Please check server log.",
            ),
        }
    }

    /// The HTTP status of the response for this error.
    pub fn status_code(&self) -> (c: u16)
        ensures
            c == spec_status(*self),
    {
        match self {
            MioInnerError::NotFound(_) => 404,
            MioInnerError::Conflict(_) => 409,
            MioInnerError::IntIoError(_) => 500,
            MioInnerError::DbError(_) => 500,
            MioInnerError::Panicked(_) => 500,
            MioInnerError::UserChallengedFail(_, c) => *c,
            MioInnerError::UserCreationFail(_, c) => *c,
            MioInnerError::TrackProcessingError(_, c) => *c,
            MioInnerError::ExtIoError(_, c) => *c,
        }
    }

    /// The level at which this error is logged.
    pub fn log_level(&self) -> (l: LogLevel)
        ensures
            l == spec_log_level(*self),
    {
        match self {
            MioInnerError::NotFound(_) => LogLevel::Debug,
            MioInnerError::Conflict(_) => LogLevel::Debug,
            MioInnerError::ExtIoError(_, _) => LogLevel::Debug,
            MioInnerError::UserChallengedFail(_, _) => LogLevel::Info,
            MioInnerError::TrackProcessingError(_, _) => LogLevel::Warn,
            MioInnerError::DbError(_) => LogLevel::Error,
            MioInnerError::UserCreationFail(_, _) => LogLevel::Error,
            MioInnerError::IntIoError(_) => LogLevel::Error,
            MioInnerError::Panicked(_) => LogLevel::Error,
        }
    }
}

} // verus!
