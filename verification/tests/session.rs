use vk_auth::authorizer::built_with;
use vk_auth::{Authorizer, AuthorizerBuilder};

#[test]
fn builder_makes_a_session_of_its_own() {
    assert!(AuthorizerBuilder::new().build().is_ok());
    assert!(Authorizer::builder().build().is_ok());
    assert!(AuthorizerBuilder::default().build().is_ok());
}

#[test]
fn builder_takes_the_session_of_the_caller() {
    let client = reqwest::Client::builder().cookie_store(true).build().unwrap();
    let authorizer = Authorizer::builder().with_client(client).build().unwrap();
    let again = authorizer.clone();
    assert_eq!(format!("{:?}", authorizer.client()), format!("{:?}", again.client()));
}

#[test]
fn no_authorizer_without_a_session() {
    let refused = reqwest::Client::builder().user_agent("line\nbreak").build();
    assert!(refused.is_err());
    assert!(built_with(refused).is_err());
    assert!(built_with(reqwest::Client::builder().build()).is_ok());
}
