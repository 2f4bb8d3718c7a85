//! How a run ends, what can end it early, and how each cause is put to the
//! user.

use vstd::prelude::*;

verus! {

/// How a run ends.
#[derive(Clone, Copy, Debug, PartialEq, Eq)]
pub enum ExitStatus {
    /// The run went through: every update that was started was made.
    Success,
    /// The run failed: it could not be planned, or an update failed.
    Fatal,
}

impl ExitStatus {
    /// The exit code of the process: 0 for success, 1 for a fatal failure.
    pub fn code(&self) -> (code: i32)
        ensures
            code == match *self {
                ExitStatus::Success => 0i32,
                ExitStatus::Fatal => 1i32,
            },
    {
        match self {
            ExitStatus::Success => 0,
            ExitStatus::Fatal => 1,
        }
    }
}

/// A condition that ends the run with a failing exit status.
#[derive(Debug, Clone, PartialEq, Eq)]
pub enum RunError {
    /// A time field of the stream or of a record is not a valid RFC 3339
    /// timestamp.
    MalformedTimestamp,
    /// No record of either kind started while the stream was live.
    NoMatches,
    /// The update of the record with this id failed.
    UpdateFailed(String),
    /// The stream's metadata or one of the record logs could not be fetched.
    FetchFailed,
    /// The video id names no stream.
    NotFound,
}

/// What `RunError::message` says for each cause.
pub open spec fn message_of(error: RunError) -> Seq<char> {
    match error {
        RunError::MalformedTimestamp => "A timestamp could not be read. Check that the stream has ended and that the record logs are intact."@,
        RunError::NoMatches => "Found no battles to modify! Check that the stream is the one you played on."@,
        RunError::UpdateFailed(id) => "Unable to update record "@ + id@
            + ". Is your identity cookie expired? Check your credentials and try again."@,
        RunError::FetchFailed => "Unable to fetch the stream or the record logs. Are you connected to the internet?"@,
        RunError::NotFound => "Livestream ID not found! Did you copy the correct ID?"@,
    }
}

impl RunError {
    /// The status with which the run ends: every one of these conditions is
    /// fatal.
    pub fn exit_status(&self) -> (status: ExitStatus)
        ensures
            status == ExitStatus::Fatal,
    {
        ExitStatus::Fatal
    }

    /// The cause of the failure and what the user can do about it.
    pub fn message(&self) -> (text: String)
        ensures
            text@ == message_of(*self),
    {
        match self {
            RunError::MalformedTimestamp => String::from_str(
                "A timestamp could not be read. Check that the stream has ended and that the record logs are intact.",
            ),
            RunError::NoMatches => String::from_str(
                "Found no battles to modify! Check that the stream is the one you played on.",
            ),
            RunError::UpdateFailed(id) => {
                let mut text = String::from_str("Unable to update record ");
                text.append(id.as_str());
                text.append(
                    ". Is your identity cookie expired? Check your credentials and try again.",
                );
                text
            },
            RunError::FetchFailed => String::from_str(
                "Unable to fetch the stream or the record logs. Are you connected to the internet?",
            ),
            RunError::NotFound => String::from_str(
                "Livestream ID not found! Did you copy the correct ID?",
            ),
        }
    }
}

} // verus!
