//! The library's error type and the messages shown for it.

use vstd::prelude::*;

verus! {

/// Everything that can go wrong in the backend, in categories the UI can act on.
#[derive(Debug)]
pub enum AppError {
    EmptyName,
    EmptyHost,
    EmptyDatabase,
    EmptyUsername,
    EmptyPassword,
    InvalidPort,
    NotFound,
    CredentialStorage(String),
    Database(String),
}

/// The user-facing message of an error.
pub open spec fn error_message(e: AppError) -> Seq<char> {
    match e {
        AppError::EmptyName => "connection name must not be empty"@,
        AppError::EmptyHost => "host must not be empty"@,
        AppError::EmptyDatabase => "database must not be empty"@,
        AppError::EmptyUsername => "username must not be empty"@,
        AppError::EmptyPassword => "password must not be empty when creating a connection"@,
        AppError::InvalidPort => "port must be between 1 and 65535"@,
        AppError::NotFound => "saved connection was not found"@,
        AppError::CredentialStorage(detail) => "credential storage error: "@ + detail@,
        AppError::Database(detail) => "database connection failed: "@ + detail@,
    }
}

impl AppError {
    /// The message shown to the user for this error.
    pub fn message(&self) -> (r: String)
        ensures
            r@ == error_message(*self),
    {
        match self {
            AppError::EmptyName => String::from_str("connection name must not be empty"),
            AppError::EmptyHost => String::from_str("host must not be empty"),
            AppError::EmptyDatabase => String::from_str("database must not be empty"),
            AppError::EmptyUsername => String::from_str("username must not be empty"),
            AppError::EmptyPassword => String::from_str(
                "password must not be empty when creating a connection",
            ),
            AppError::InvalidPort => String::from_str("port must be between 1 and 65535"),
            AppError::NotFound => String::from_str("saved connection was not found"),
            AppError::CredentialStorage(detail) => {
                let mut r = String::from_str("credential storage error: ");
                r.append(detail.as_str());
                r
            },
            AppError::Database(detail) => {
                let mut r = String::from_str("database connection failed: ");
                r.append(detail.as_str());
                r
            },
        }
    }
}

} // verus!
