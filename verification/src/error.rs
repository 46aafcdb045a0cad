//! The error type of the service.

use vstd::prelude::*;

verus! {

/// Everything that can go wrong while fetching, storing or playing.
#[derive(Debug)]
pub enum PopisError {
    /// The government site did not answer, or answered something unexpected.
    WebRequest(String),
    /// A fetched page does not have the expected structure.
    HtmlParsing(String),
    /// The database could not be reached.
    DbConnectionError(String),
    /// The database refused or failed a statement.
    DbCommunicationError(String),
    /// An internal inconsistency.
    LogicError(String),
    /// The HTTP server could not start.
    ServerStart(String),
    /// A player's request could not be understood.
    GameplayError(String),
}

/// The HTTP status with which a request that failed with `e` is answered.
pub open spec fn status_code_spec(e: PopisError) -> u16 {
    match e {
        PopisError::WebRequest(_) => 424,
        PopisError::HtmlParsing(_) => 424,
        PopisError::DbConnectionError(_) => 503,
        PopisError::DbCommunicationError(_) => 503,
        PopisError::LogicError(_) => 500,
        PopisError::ServerStart(_) => 503,
        PopisError::GameplayError(_) => 400,
    }
}

impl PopisError {
    /// The HTTP status code of the answer to a request that failed with this error:
    /// 424 (failed dependency) for the government site, 503 (service unavailable)
    /// for the database and the server, 500 for internal errors and 400 (bad request)
    /// for gameplay errors.
    pub fn status_code(&self) -> (code: u16)
        ensures
            code == status_code_spec(*self),
    {
        match self {
            PopisError::WebRequest(_) => 424,
            PopisError::HtmlParsing(_) => 424,
            PopisError::DbConnectionError(_) => 503,
            PopisError::DbCommunicationError(_) => 503,
            PopisError::LogicError(_) => 500,
            PopisError::ServerStart(_) => 503,
            PopisError::GameplayError(_) => 400,
        }
    }
}

} // verus!
