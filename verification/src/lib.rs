//! Browser-less login against an implicit-flow authorization endpoint: the
//! login form of the authorization page is read, the credentials are merged
//! with its hidden fields, and the access token is taken from the redirect
//! that the answering page embeds.

pub mod authorizer;
pub mod error;
pub mod fields;
pub mod flow;
pub mod form;
pub mod html;
pub mod number;
pub mod redirect;
pub mod text;
pub mod token;

pub use authorizer::{Authorizer, AuthorizerBuilder};
pub use error::{ParseError, TokenError};
pub use token::AccessToken;
pub use fields::FormFieldSet;
pub use flow::{authorize_url, classify_response, prepare_submission, settle, Submission};
pub use form::{extract_form, ParsedForm};
pub use redirect::get_token_from_page;
