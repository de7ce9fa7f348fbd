//! The ways in which reading a page can fail.

use vstd::prelude::*;
use vstd::string::*;

verus! {

/// What was missing on a page.
#[derive(Debug, Clone, Copy, PartialEq, Eq, Structural)]
pub enum ParseError {
    /// The authorization page holds no form.
    NoLoginForm,
    /// The login form names no address to submit to.
    NoFormAction,
    /// A hidden input of the login form lacks its name or its value.
    InvalidFormInputField,
    /// The answering page does not embed the expected redirect.
    InvalidRedirectData,
    /// The credentials were rejected.
    AuthorizationFailed,
}

impl ParseError {
    /// The text that describes this error.
    pub open spec fn message_text(self) -> Seq<char> {
        match self {
            ParseError::NoLoginForm => "NoLoginForm"@,
            ParseError::NoFormAction => "NoFormAction"@,
            ParseError::InvalidFormInputField => "InvalidFormInputField"@,
            ParseError::InvalidRedirectData => "InvalidRedirectData: expected data not found on page"@,
            ParseError::AuthorizationFailed => "AuthorizationFailed: invalid authorization data"@,
        }
    }

    /// Describes this error in words.
    pub fn message(&self) -> (text: String)
        ensures
            text@ == self.message_text(),
    {
        match self {
            ParseError::NoLoginForm => String::from_str("NoLoginForm"),
            ParseError::NoFormAction => String::from_str("NoFormAction"),
            ParseError::InvalidFormInputField => String::from_str("InvalidFormInputField"),
            ParseError::InvalidRedirectData => String::from_str(
                "InvalidRedirectData: expected data not found on page",
            ),
            ParseError::AuthorizationFailed => String::from_str(
                "AuthorizationFailed: invalid authorization data",
            ),
        }
    }
}

/// Why no token came out of an answering page.
#[derive(Debug, Clone)]
pub enum TokenError {
    /// The page has not the expected shape.
    Page(ParseError),
    /// The redirect that the page embeds is no address; the text says why.
    MalformedUrl(String),
    /// The time to live, which is the text held here, is no count of
    /// seconds.
    MalformedExpiry(String),
}

/// Why no token came out of an answering page, as plain values.
pub enum TokenErrorModel {
    Page(ParseError),
    MalformedUrl(Seq<char>),
    MalformedExpiry(Seq<char>),
}

impl View for TokenError {
    type V = TokenErrorModel;

    open spec fn view(&self) -> TokenErrorModel {
        match *self {
            TokenError::Page(e) => TokenErrorModel::Page(e),
            TokenError::MalformedUrl(why) => TokenErrorModel::MalformedUrl(why@),
            TokenError::MalformedExpiry(text) => TokenErrorModel::MalformedExpiry(text@),
        }
    }
}

/// The error after the authorization page was looked at again: where it is
/// `InvalidRedirectData` and that page held the form of a second login, it
/// becomes `AuthorizationFailed`; every other error stays as it is.
pub open spec fn reclassified(error: TokenErrorModel, second_login: bool) -> TokenErrorModel {
    if error == TokenErrorModel::Page(ParseError::InvalidRedirectData) && second_login {
        TokenErrorModel::Page(ParseError::AuthorizationFailed)
    } else {
        error
    }
}

/// Tells a rejected login from a page of unexpected shape, given whether
/// the authorization page held the form of a second login.
pub fn reclassify(error: TokenError, second_login: bool) -> (out: TokenError)
    ensures
        out@ == reclassified(error@, second_login),
        out@ == error@ ==> out == error,
{
    match error {
        TokenError::Page(ParseError::InvalidRedirectData) => {
            if second_login {
                TokenError::Page(ParseError::AuthorizationFailed)
            } else {
                TokenError::Page(ParseError::InvalidRedirectData)
            }
        },
        other => other,
    }
}

} // verus!
