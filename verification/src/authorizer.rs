//! The authorizer and its builder: which HTTP session a login runs in.

use reqwest::Client;
use vstd::prelude::*;

verus! {

/// The HTTP client of the outside crate: a session with its cookies and
/// its connections. Nothing is read from it here: it is handed to the
/// caller who sends the requests.
#[verifier::external_type_specification]
#[verifier::external_body]
pub struct ExClient(reqwest::Client);

/// The outside crate's reason for making no client.
#[verifier::external_type_specification]
#[verifier::external_body]
pub struct ExClientError(reqwest::Error);

/// `Clone::clone` of `reqwest::Client`: another handle to the client.
/// Nothing is said of it.
pub assume_specification[ <reqwest::Client as Clone>::clone ](client: &reqwest::Client) -> (copy:
    reqwest::Client);

/// `reqwest::Client::builder`, `ClientBuilder::cookie_store` with `true`
/// and `ClientBuilder::build`: a client that keeps cookies, or the reason
/// why none could be made. Which of the two depends on the machine, so
/// nothing is said of the outcome.
#[verifier::external_body]
fn cookie_client() -> (made: Result<Client, reqwest::Error>) {
    Client::builder().cookie_store(true).build()
}

/// Runs logins in one HTTP session.
#[derive(Debug, Clone)]
pub struct Authorizer {
    client: Client,
}

/// Chooses the session of an authorizer: one of the caller's, whose cookie
/// store must be enabled, or one made for the purpose.
#[derive(Debug, Clone)]
pub struct AuthorizerBuilder {
    client: Option<Client>,
}

impl AuthorizerBuilder {
    /// The session that the caller chose, if any.
    pub closed spec fn chosen(&self) -> Option<Client> {
        self.client
    }

    /// A builder for which no session was chosen.
    pub fn new() -> (builder: AuthorizerBuilder)
        ensures
            builder.chosen() is None,
    {
        AuthorizerBuilder { client: None }
    }

    /// Chooses `client` as the session, in place of any chosen before. Its
    /// cookie store must be enabled.
    pub fn with_client(self, client: Client) -> (builder: AuthorizerBuilder)
        ensures
            builder.chosen() == Some(client),
    {
        AuthorizerBuilder { client: Some(client) }
    }

    /// The authorizer of the chosen session. Where none was chosen, one
    /// that keeps cookies is made, which may fail; with a chosen session
    /// the authorizer is always made.
    pub fn build(self) -> (built: Result<Authorizer, reqwest::Error>)
        ensures
            self.chosen() is Some ==> built is Ok,
            built is Ok && self.chosen() is Some ==> built->Ok_0.session() == self.chosen()->0,
    {
        match self.client {
            Some(client) => Ok(Authorizer { client }),
            None => built_with(cookie_client()),
        }
    }
}

/// The authorizer of a session that was made for the purpose, or the
/// reason why none was made.
pub fn built_with(made: Result<Client, reqwest::Error>) -> (built: Result<
    Authorizer,
    reqwest::Error,
>)
    ensures
        match made {
            Ok(client) => built is Ok && built->Ok_0.session() == client,
            Err(why) => built == Err::<Authorizer, reqwest::Error>(why),
        },
{
    match made {
        Ok(client) => Ok(Authorizer { client }),
        Err(why) => Err(why),
    }
}

impl Default for AuthorizerBuilder {
    fn default() -> (builder: AuthorizerBuilder)
        ensures
            builder.chosen() is None,
    {
        AuthorizerBuilder::new()
    }
}

impl Authorizer {
    /// The session that the logins run in.
    pub closed spec fn session(&self) -> Client {
        self.client
    }

    /// A builder for which no session was chosen.
    pub fn builder() -> (builder: AuthorizerBuilder)
        ensures
            builder.chosen() is None,
    {
        AuthorizerBuilder::new()
    }

    /// The session that the logins run in.
    pub fn client(&self) -> (client: &Client)
        ensures
            *client == self.session(),
    {
        &self.client
    }
}

} // verus!
