//! Errors of the monitor and their rendering as a uniform envelope.

use vstd::prelude::*;
use vstd::string::StringExecFns;

verus! {

/// Everything that can go wrong while serving a request or running a check.
///
/// The four infrastructure variants carry the description of the failure
/// that the collaborator reported.
#[derive(Debug, Clone)]
pub enum Error {
    /// An HTTP probe could not be carried out.
    HttpError(String),
    /// No connection could be borrowed from the pool.
    PoolError(String),
    /// The schema could not be brought up to date.
    MigrationError(String),
    /// The storage engine refused a statement.
    MysqlError(String),
    /// The addressed resource does not exist.
    NotFound,
    /// The command was completed before.
    CommandAlreadyCompleted,
    /// No route matches the request.
    UnknownRoute,
    /// A monitor definition is inconsistent with its type.
    InvalidMonitoring(String),
}

/// The body that is sent for every failed request.
#[derive(Debug, Clone)]
pub struct ErrorMessage {
    pub code: u16,
    pub error: String,
    pub message: String,
}

/// What an [`ErrorMessage`] holds.
pub struct ErrorMessageView {
    pub code: u16,
    pub error: Seq<char>,
    pub message: Seq<char>,
}

impl View for ErrorMessage {
    type V = ErrorMessageView;

    open spec fn view(&self) -> ErrorMessageView {
        ErrorMessageView { code: self.code, error: self.error@, message: self.message@ }
    }
}

impl Error {
    /// The coarse category of the error.
    pub open spec fn category(&self) -> Seq<char> {
        match self {
            Error::NotFound | Error::UnknownRoute => "Not found"@,
            Error::InvalidMonitoring(_) => "Bad request"@,
            Error::CommandAlreadyCompleted => "Conflict"@,
            _ => "Internal server error"@,
        }
    }

    /// The HTTP status that answers a request failing with this error.
    pub open spec fn code(&self) -> u16 {
        match self {
            Error::NotFound | Error::UnknownRoute => 404,
            Error::CommandAlreadyCompleted => 409,
            Error::InvalidMonitoring(_) => 400,
            _ => 500,
        }
    }

    /// The human-readable description of the error.
    pub open spec fn description(&self) -> Seq<char> {
        match self {
            Error::HttpError(e) => e@,
            Error::PoolError(e) => e@,
            Error::MigrationError(e) => e@,
            Error::MysqlError(e) => e@,
            Error::NotFound => "Resource not found"@,
            Error::CommandAlreadyCompleted => "Command is already completed"@,
            Error::UnknownRoute => "Unknown API route"@,
            Error::InvalidMonitoring(reason) => "Invalid monitoring: "@ + reason@,
        }
    }

    /// The envelope sent for this error.
    pub open spec fn envelope(&self) -> ErrorMessageView {
        ErrorMessageView {
            code: self.code(),
            error: self.category(),
            message: self.description(),
        }
    }

    /// The coarse category of the error.
    pub fn name(&self) -> (name: String)
        ensures
            name@ == self.category(),
    {
        match self {
            Error::NotFound | Error::UnknownRoute => String::from_str("Not found"),
            Error::InvalidMonitoring(_) => String::from_str("Bad request"),
            Error::CommandAlreadyCompleted => String::from_str("Conflict"),
            _ => String::from_str("Internal server error"),
        }
    }

    /// The HTTP status that answers a request failing with this error.
    pub fn status_code(&self) -> (code: u16)
        ensures
            code == self.code(),
            400 <= code < 600,
    {
        match self {
            Error::NotFound | Error::UnknownRoute => 404,
            Error::CommandAlreadyCompleted => 409,
            Error::InvalidMonitoring(_) => 400,
            _ => 500,
        }
    }

    /// The human-readable description of the error.
    pub fn to_string(&self) -> (text: String)
        ensures
            text@ == self.description(),
    {
        match self {
            Error::HttpError(e) => e.clone(),
            Error::PoolError(e) => e.clone(),
            Error::MigrationError(e) => e.clone(),
            Error::MysqlError(e) => e.clone(),
            Error::NotFound => String::from_str("Resource not found"),
            Error::CommandAlreadyCompleted => String::from_str("Command is already completed"),
            Error::UnknownRoute => String::from_str("Unknown API route"),
            Error::InvalidMonitoring(reason) => String::from_str("Invalid monitoring: ").concat(
                reason.as_str(),
            ),
        }
    }

    /// The envelope sent for this error.
    pub fn error_response(&self) -> (body: ErrorMessage)
        ensures
            body@ == self.envelope(),
    {
        ErrorMessage { code: self.status_code(), error: self.name(), message: self.to_string() }
    }
}

} // verus!
