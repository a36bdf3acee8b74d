//! The errors that talking to Twitch can end in.
use vstd::prelude::*;

verus! {

/// What can go wrong while obtaining an access token.
#[derive(Clone, Copy, Debug, PartialEq, Eq, Structural)]
pub enum AuthError {
    /// The token could not be written to disk.
    SaveError,
    /// The HTTP request could not be sent, or was refused.
    RequestError,
    /// The HTTP response could not be read.
    ParseError,
}

/// What can go wrong while calling the Twitch API.
#[derive(Clone, Copy, Debug, PartialEq, Eq, Structural)]
pub enum TwitchAPIError {
    /// Authentication failed.
    AuthError(AuthError),
    /// The HTTP request could not be sent.
    RequestError,
    /// The response was not the expected one.
    ResponseError,
    /// The response could not be parsed.
    ParseError,
    /// Twitch refused the request for its rate.
    RateLimited,
    /// The bot may not do what it asked for.
    PermissionError,
}

impl AuthError {
    /// The text that describes the error.
    pub open spec fn message_spec(self) -> Seq<char> {
        match self {
            AuthError::SaveError => "Couldn't save token"@,
            AuthError::RequestError => "Couldn't send http request"@,
            AuthError::ParseError => "Couldn't parse http response"@,
        }
    }

    /// The text that describes the error.
    pub fn message(&self) -> (r: &'static str)
        ensures
            r@ == self.message_spec(),
    {
        match self {
            AuthError::SaveError => "Couldn't save token",
            AuthError::RequestError => "Couldn't send http request",
            AuthError::ParseError => "Couldn't parse http response",
        }
    }
}

impl TwitchAPIError {
    /// The text that describes the error.
    pub open spec fn message_spec(self) -> Seq<char> {
        match self {
            TwitchAPIError::AuthError(_) => "Error while authenticating"@,
            TwitchAPIError::RequestError => "Couldn't send http request"@,
            TwitchAPIError::ResponseError => "Unexpected response"@,
            TwitchAPIError::ParseError => "Error while parsing response"@,
            TwitchAPIError::RateLimited => "Rate limited"@,
            TwitchAPIError::PermissionError => "Insufficient permissions"@,
        }
    }

    /// The text that describes the error.
    pub fn message(&self) -> (r: &'static str)
        ensures
            r@ == self.message_spec(),
    {
        match self {
            TwitchAPIError::AuthError(_) => "Error while authenticating",
            TwitchAPIError::RequestError => "Couldn't send http request",
            TwitchAPIError::ResponseError => "Unexpected response",
            TwitchAPIError::ParseError => "Error while parsing response",
            TwitchAPIError::RateLimited => "Rate limited",
            TwitchAPIError::PermissionError => "Insufficient permissions",
        }
    }
}

impl From<AuthError> for TwitchAPIError {
    fn from(e: AuthError) -> (r: TwitchAPIError) {
        TwitchAPIError::AuthError(e)
    }
}

impl vstd::std_specs::convert::FromSpecImpl<AuthError> for TwitchAPIError {
    open spec fn obeys_from_spec() -> bool {
        true
    }

    open spec fn from_spec(e: AuthError) -> TwitchAPIError {
        TwitchAPIError::AuthError(e)
    }
}

/// Converting an authentication error keeps it, wrapped.
pub proof fn lemma_auth_error_converts(e: AuthError)
    ensures
        <TwitchAPIError as vstd::std_specs::convert::FromSpec<AuthError>>::from_spec(e)
            == TwitchAPIError::AuthError(e),
{
}

} // verus!
