use vstd::prelude::*;

verus! {

/// The query of a login or callback request.
#[derive(Debug, Clone, PartialEq, Eq)]
pub struct CallbackQuery {
    pub user_id: Option<String>,
    pub userid: Option<String>,
    pub request_token: Option<String>,
    pub status: Option<String>,
    pub error: Option<String>,
}

/// What a callback asks for: to exchange the request token of a user.
#[derive(Debug, Clone, PartialEq, Eq)]
pub struct CallbackRequest {
    pub user_id: String,
    pub request_token: String,
}

/// Why a query cannot be served. Each is a bad request.
#[derive(Debug, Clone, PartialEq, Eq)]
pub enum BadQuery {
    /// Kite reported an error; this is its text.
    KiteError(String),
    /// Kite reported a status other than `success`; this is the status.
    StatusNotSuccess(String),
    MissingUserId,
    MissingRequestToken,
}

impl CallbackQuery {
    /// The user that the query names: `user_id`, or `userid` where that is missing.
    pub open spec fn named_user(self) -> Option<String> {
        match self.user_id {
            Some(id) => Some(id),
            None => self.userid,
        }
    }

    /// What is wrong with the query as a callback, if anything: first an
    /// error, then a status other than `success`, then a missing user, then
    /// a missing request token.
    pub open spec fn fault(self) -> Option<BadQuery> {
        if self.error is Some {
            Some(BadQuery::KiteError(self.error->0))
        } else if self.status is Some && self.status->0@ != "success"@ {
            Some(BadQuery::StatusNotSuccess(self.status->0))
        } else if self.named_user() is None {
            Some(BadQuery::MissingUserId)
        } else if self.request_token is None {
            Some(BadQuery::MissingRequestToken)
        } else {
            None
        }
    }

    /// The user that the query names.
    pub fn user(self) -> (r: Result<String, BadQuery>)
        ensures
            match r {
                Ok(id) => self.named_user() == Some(id),
                Err(bad) => self.named_user() is None && bad == BadQuery::MissingUserId,
            },
    {
        match self.user_id {
            Some(id) => Ok(id),
            None => match self.userid {
                Some(id) => Ok(id),
                None => Err(BadQuery::MissingUserId),
            },
        }
    }

    /// Checks the query of a callback and takes from it what is to be done.
    pub fn callback(self) -> (r: Result<CallbackRequest, BadQuery>)
        ensures
            match r {
                Ok(request) => {
                    &&& self.fault() is None
                    &&& self.named_user() == Some(request.user_id)
                    &&& self.request_token == Some(request.request_token)
                },
                Err(bad) => self.fault() == Some(bad),
            },
    {
        match self.error {
            Some(error) => {
                return Err(BadQuery::KiteError(error));
            },
            None => {},
        }
        match self.status {
            Some(status) => {
                if !crate::text::same_text(status.as_str(), "success") {
                    return Err(BadQuery::StatusNotSuccess(status));
                }
            },
            None => {},
        }
        let user_id = match self.user_id {
            Some(id) => id,
            None => match self.userid {
                Some(id) => id,
                None => {
                    return Err(BadQuery::MissingUserId);
                },
            },
        };
        match self.request_token {
            Some(request_token) => Ok(CallbackRequest { user_id, request_token }),
            None => Err(BadQuery::MissingRequestToken),
        }
    }
}

} // verus!
