//! The walk through the login: the address to fetch, the form to submit,
//! and the reading of the answer.

use crate::error::{reclassified, reclassify, ParseError, TokenError, TokenErrorModel};
use crate::fields::{credential_fields, submitted_fields, FormFieldSet};
use crate::form::{extract_form, has_second_login, login_form, second_login_on, ParsedFormModel};
use crate::html::parsed_forms;
use crate::redirect::{get_token_from_page, token_of_page, token_result, unexpected_shape};
use crate::token::{AccessToken, AccessTokenView};
use vstd::prelude::*;
use vstd::string::*;

verus! {

/// The address of the authorization page for the client `client_id`.
pub open spec fn authorize_address(client_id: Seq<char>) -> Seq<char> {
    "https://oauth.vk.com/oauth/authorize?client_id="@ + client_id
        + "&scope=0&response_type=token"@
}

/// The address to fetch first: the authorization page for the client
/// `client_id`.
pub fn authorize_url(client_id: &str) -> (url: String)
    ensures
        url@ == authorize_address(client_id@),
{
    let head = String::from_str("https://oauth.vk.com/oauth/authorize?client_id=");
    head.concat(client_id).concat("&scope=0&response_type=token")
}

/// What is posted with the credentials: the address and the fields.
#[derive(Debug, Clone)]
pub struct Submission {
    pub action: String,
    pub fields: FormFieldSet,
}

/// What is to be posted for a login form, as plain values.
pub open spec fn submission_of(
    form: Result<ParsedFormModel, ParseError>,
    identifier: Seq<char>,
    secret: Seq<char>,
) -> Result<(Seq<char>, Map<Seq<char>, Seq<char>>), ParseError> {
    match form {
        Ok(f) => Ok((f.action, submitted_fields(f.hidden, identifier, secret))),
        Err(e) => Err(e),
    }
}

/// The outcome of preparing a submission, as plain values.
pub open spec fn submission_result(r: Result<Submission, ParseError>) -> Result<
    (Seq<char>, Map<Seq<char>, Seq<char>>),
    ParseError,
> {
    match r {
        Ok(s) => Ok((s.action@, s.fields@)),
        Err(e) => Err(e),
    }
}

/// Reads the login form of the authorization page and merges its hidden
/// fields with the credentials. Nothing is prepared where the form cannot
/// be read.
pub fn prepare_submission(authorize_page: &str, identifier: &str, secret: &str) -> (r: Result<
    Submission,
    ParseError,
>)
    ensures
        submission_result(r) == submission_of(
            login_form(parsed_forms(authorize_page@)),
            identifier@,
            secret@,
        ),
{
    match extract_form(authorize_page) {
        Ok(form) => {
            let fields = credential_fields(&form, identifier, secret);
            Ok(Submission { action: form.action, fields })
        },
        Err(e) => Err(e),
    }
}

/// The outcome of the login, given what the answering page holds and
/// whether the authorization page held the form of a second login.
pub open spec fn final_outcome(
    extracted: Result<AccessTokenView, TokenErrorModel>,
    second_login: bool,
) -> Result<AccessTokenView, TokenErrorModel> {
    match extracted {
        Ok(token) => Ok(token),
        Err(e) => Err(reclassified(e, second_login)),
    }
}

/// Settles the outcome of reading the answering page, given whether the
/// authorization page held the form of a second login.
pub fn settle(extracted: Result<AccessToken, TokenError>, second_login: bool) -> (r: Result<
    AccessToken,
    TokenError,
>)
    ensures
        token_result(r) == final_outcome(token_result(extracted), second_login),
{
    match extracted {
        Ok(token) => Ok(token),
        Err(e) => Err(reclassify(e, second_login)),
    }
}

/// Reads the token from the page that answered the submitted form. Where
/// that page has not the expected shape, the authorization page tells a
/// rejected login from a page that changed.
pub fn classify_response(authorize_page: &str, response_page: &str) -> (r: Result<
    AccessToken,
    TokenError,
>)
    ensures
        token_result(r) == final_outcome(
            token_of_page(response_page@),
            has_second_login(parsed_forms(authorize_page@)),
        ),
{
    let extracted = get_token_from_page(response_page);
    match extracted {
        Err(TokenError::Page(ParseError::InvalidRedirectData)) => {
            let second_login = second_login_on(authorize_page);
            settle(extracted, second_login)
        },
        settled => settled,
    }
}

/// A page of unexpected shape is reported as a rejected login exactly
/// where the authorization page held the form of a second login.
pub proof fn lemma_ambiguous_outcome(second_login: bool)
    ensures
        final_outcome(unexpected_shape(), second_login) == (if second_login {
            Err::<AccessTokenView, TokenErrorModel>(
                TokenErrorModel::Page(ParseError::AuthorizationFailed),
            )
        } else {
            unexpected_shape()
        }),
{
}

/// Whatever else reading the answering page gave stays as it is.
pub proof fn lemma_settled_outcome(
    extracted: Result<AccessTokenView, TokenErrorModel>,
    second_login: bool,
)
    requires
        extracted != unexpected_shape(),
    ensures
        final_outcome(extracted, second_login) == extracted,
{
}

} // verus!
