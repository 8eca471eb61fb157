use vstd::prelude::*;
use crate::text::{trim, trimmed};

verus! {

/// The Kite credentials of a user.
#[derive(Debug, Clone, PartialEq, Eq)]
pub struct UserKiteCreds {
    pub api_key: String,
    pub api_secret: String,
    pub access_token: Option<String>,
}

/// What is kept of a user for logging in through the browser.
#[derive(Debug, Clone, PartialEq, Eq)]
pub struct UserZerodhaLogin {
    pub api_key: String,
    pub api_secret: String,
    pub access_token: Option<String>,
    pub zerodha_password: Option<String>,
    pub zerodha_pin: Option<String>,
    pub totp_secret: Option<String>,
    pub os_type: Option<String>,
    pub chrome_binary_path: Option<String>,
    pub chromedriver_path: Option<String>,
}

/// The access token that can be used: the stored one without the white
/// space around it, where that leaves anything.
pub open spec fn usable_token(stored: Option<String>) -> Option<Seq<char>> {
    match stored {
        Some(token) => if trimmed(token@).len() > 0 {
            Some(trimmed(token@))
        } else {
            None
        },
        None => None,
    }
}

/// Whether a token is stored at all, blank or not.
pub open spec fn has_token(stored: Option<String>) -> bool {
    stored matches Some(token) && token@.len() > 0
}

impl UserKiteCreds {
    /// The access token to connect with, if there is one.
    pub fn usable_access_token(&self) -> (r: Option<String>)
        ensures
            match r {
                Some(token) => usable_token(self.access_token) == Some(token@),
                None => usable_token(self.access_token) is None,
            },
    {
        match &self.access_token {
            Some(token) => {
                let cut = trim(token.as_str());
                if cut.unicode_len() > 0 {
                    Some(cut.to_owned())
                } else {
                    None
                }
            },
            None => None,
        }
    }

    /// Whether an access token is stored.
    pub fn has_access_token(&self) -> (b: bool)
        ensures
            b == has_token(self.access_token),
    {
        match &self.access_token {
            Some(token) => token.as_str().unicode_len() > 0,
            None => false,
        }
    }
}

impl UserZerodhaLogin {
    /// Whether an access token is stored.
    pub fn has_access_token(&self) -> (b: bool)
        ensures
            b == has_token(self.access_token),
    {
        match &self.access_token {
            Some(token) => token.as_str().unicode_len() > 0,
            None => false,
        }
    }
}

} // verus!
