//! The access token.

use std::time::Duration;
use vstd::prelude::*;
use vstd::string::*;

verus! {

/// What an access token holds, as plain values.
pub struct AccessTokenView {
    pub access_token: Seq<char>,
    pub expires_in: u64,
    pub user_id: Seq<char>,
}

/// A token, the time in seconds for which it is valid, and the user it
/// was issued to.
#[derive(Debug, Clone)]
pub struct AccessToken {
    access_token: String,
    expires_in: u64,
    user_id: String,
}

/// The whole seconds of a span of time.
pub uninterp spec fn duration_secs(span: Duration) -> u64;

/// `Duration::from_secs` of std: a span of `secs` whole seconds.
#[verifier::external_body]
fn duration_of_secs(secs: u64) -> (span: Duration)
    ensures
        duration_secs(span) == secs,
{
    Duration::from_secs(secs)
}

impl View for AccessToken {
    type V = AccessTokenView;

    closed spec fn view(&self) -> AccessTokenView {
        AccessTokenView {
            access_token: self.access_token@,
            expires_in: self.expires_in,
            user_id: self.user_id@,
        }
    }
}

impl AccessToken {
    /// A token of the given parts.
    pub fn new(access_token: String, expires_in: u64, user_id: String) -> (token: AccessToken)
        ensures
            token@ == (AccessTokenView {
                access_token: access_token@,
                expires_in,
                user_id: user_id@,
            }),
    {
        AccessToken { access_token, expires_in, user_id }
    }

    /// The token itself.
    pub fn access_token(&self) -> (text: &str)
        ensures
            text@ == self@.access_token,
    {
        self.access_token.as_str()
    }

    /// The time for which the token is valid.
    pub fn expires_in(&self) -> (span: Duration)
        ensures
            duration_secs(span) == self@.expires_in,
    {
        duration_of_secs(self.expires_in)
    }

    /// The time for which the token is valid, in seconds.
    pub fn expires_in_secs(&self) -> (secs: u64)
        ensures
            secs == self@.expires_in,
    {
        self.expires_in
    }

    /// The user to whom the token was issued.
    pub fn user_id(&self) -> (text: &str)
        ensures
            text@ == self@.user_id,
    {
        self.user_id.as_str()
    }
}

} // verus!
