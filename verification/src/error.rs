use vstd::prelude::*;

verus! {

/// What can go wrong, by kind. The text says what happened.
#[derive(Debug, Clone, PartialEq, Eq)]
pub enum AppError {
    /// A required variable of the environment is not set; the text is its name.
    MissingEnv(String),
    /// The user has no usable credentials.
    MissingCredentials(String),
    /// There is no instrument to subscribe to.
    NoSubscription,
    /// The websocket could not be opened.
    WsHandshake(String),
    /// The websocket failed while reading or writing.
    WsIo(String),
    /// The access token did not pass the REST check; reported, never fatal.
    PreflightFailed(String),
    /// The Kite API answered with an error.
    KiteApi(String),
    /// An event arrived that the session cannot be in a state to take.
    Internal(String),
}

} // verus!
