use vstd::prelude::*;
use crate::error::AppError;
use crate::text::same_text;

verus! {

/// The profile of a user, as the API gives it.
#[derive(Debug, Clone, PartialEq, Eq)]
pub struct UserProfile {
    pub user_id: Option<String>,
    pub user_name: Option<String>,
    pub email: Option<String>,
    pub broker: Option<String>,
    pub exchanges: Option<Vec<String>>,
    pub products: Option<Vec<String>>,
}

/// The tokens of a session, as the API gives them.
#[derive(Debug, Clone, PartialEq, Eq)]
pub struct SessionToken {
    pub access_token: String,
    pub public_token: Option<String>,
    pub user_id: Option<String>,
}

/// The envelope of every answer of the API, around data of kind `T`.
#[derive(Debug, Clone, PartialEq, Eq)]
pub struct KiteEnvelope<T> {
    pub status: String,
    pub data: Option<T>,
    pub message: Option<String>,
    pub error_type: Option<String>,
}

impl<T> KiteEnvelope<T> {
    /// What an envelope amounts to: its data where the status is `success`
    /// and data is there; an error that says data is missing where it is
    /// not; with any other status an error with the message of the
    /// envelope, or a message that says the error is unknown.
    pub fn into_result(self) -> (r: Result<T, AppError>)
        ensures
            match r {
                Ok(data) => self.status@ == "success"@ && self.data == Some(data),
                Err(error) => {
                    &&& error matches AppError::KiteApi(text)
                    &&& self.status@ == "success"@ ==> self.data is None && text@
                        == "Missing data in response"@
                    &&& self.status@ != "success"@ ==> text@ == match self.message {
                        Some(message) => message@,
                        None => "Unknown Kite error"@,
                    }
                },
            },
    {
        if same_text(self.status.as_str(), "success") {
            match self.data {
                Some(data) => Ok(data),
                None => Err(AppError::KiteApi("Missing data in response".to_owned())),
            }
        } else {
            match self.message {
                Some(message) => Err(AppError::KiteApi(message)),
                None => Err(AppError::KiteApi("Unknown Kite error".to_owned())),
            }
        }
    }
}

/// The error for an answer whose HTTP status is no success: `HTTP`, the
/// status, a colon and the body.
pub fn http_failure(status: &str, body: &str) -> (error: AppError)
    ensures
        error matches AppError::KiteApi(text) && text@ == "HTTP "@ + status@ + ": "@ + body@,
{
    let mut out = "HTTP ".to_owned();
    out.append(status);
    out.append(": ");
    out.append(body);
    AppError::KiteApi(out)
}

} // verus!
