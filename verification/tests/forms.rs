use vk_auth::fields::{credential_fields, put, FormFieldSet};
use vk_auth::flow::{authorize_url, prepare_submission};
use vk_auth::form::{
    extract_form, form_from_elements, second_login_among, second_login_on, ParsedForm,
};
use vk_auth::html::{ChildElement, FormElement};
use vk_auth::ParseError;

fn sorted(set: &FormFieldSet) -> Vec<(String, String)> {
    let mut pairs = set.entries().clone();
    pairs.sort();
    pairs
}

fn pair(name: &str, value: &str) -> (String, String) {
    (name.to_string(), value.to_string())
}

#[test]
fn page_without_form_has_no_login_form() {
    let r = extract_form("<html><body><p>nothing here</p></body></html>");
    assert_eq!(r.err(), Some(ParseError::NoLoginForm));
    assert_eq!(extract_form("").err(), Some(ParseError::NoLoginForm));
}

#[test]
fn form_without_action_is_refused() {
    let page = "<html><body><form method=\"post\"><input type=\"hidden\" name=\"a\" value=\"b\"></form></body></html>";
    assert_eq!(extract_form(page).err(), Some(ParseError::NoFormAction));
}

#[test]
fn hidden_input_without_value_is_refused() {
    let page = "<form action=\"/login\"><input type=\"hidden\" name=\"a\"></form>";
    assert_eq!(extract_form(page).err(), Some(ParseError::InvalidFormInputField));
}

#[test]
fn hidden_input_without_name_is_refused() {
    let page = "<form action=\"/login\"><input type=\"hidden\" value=\"b\"></form>";
    assert_eq!(extract_form(page).err(), Some(ParseError::InvalidFormInputField));
}

#[test]
fn other_inputs_need_neither_name_nor_value() {
    let page = "<form action=\"/login\"><input type=\"text\"><input><input type=\"submit\" value=\"Go\">\
                <input type=\"hidden\" name=\"ip_h\" value=\"abc\"></form>";
    let form = extract_form(page).unwrap();
    assert_eq!(form.action, "/login");
    assert_eq!(form.hidden, vec![pair("ip_h", "abc")]);
}

#[test]
fn hidden_fields_keep_their_order() {
    let page = "<html><body><form action=\"https://login.example/?act=login\">\n\
                <input type=\"hidden\" name=\"_origin\" value=\"https://oauth.example\">\n\
                <input type=\"hidden\" name=\"ip_h\" value=\"1f\">\n\
                text <b>bold</b> <!-- a comment -->\n\
                <input type=\"hidden\" name=\"to\" value=\"\">\n\
                </form></body></html>";
    let form = extract_form(page).unwrap();
    assert_eq!(form.action, "https://login.example/?act=login");
    assert_eq!(
        form.hidden,
        vec![pair("_origin", "https://oauth.example"), pair("ip_h", "1f"), pair("to", "")]
    );
}

#[test]
fn only_direct_children_are_scanned() {
    let page = "<form action=\"/login\"><div><input type=\"hidden\" name=\"deep\"></div>\
                <input type=\"hidden\" name=\"top\" value=\"1\"></form>";
    let form = extract_form(page).unwrap();
    assert_eq!(form.hidden, vec![pair("top", "1")]);
}

#[test]
fn the_first_form_is_the_login_form() {
    let page = "<form action=\"/first\"></form><form><input type=\"hidden\"></form>";
    let form = extract_form(page).unwrap();
    assert_eq!(form.action, "/first");
    assert!(form.hidden.is_empty());
}

#[test]
fn form_from_elements_reads_plain_values() {
    let child = |tag: &str, kind: Option<&str>, name: Option<&str>, value: Option<&str>| {
        Some(ChildElement {
            tag: tag.to_string(),
            kind: kind.map(String::from),
            name: name.map(String::from),
            value: value.map(String::from),
        })
    };
    let forms = vec![FormElement {
        action: Some("/a".to_string()),
        children: vec![
            None,
            child("input", Some("hidden"), Some("k"), Some("v")),
            child("select", Some("hidden"), None, None),
            child("input", Some("Hidden"), None, None),
            child("input", None, None, None),
        ],
    }];
    let form = form_from_elements(&forms).unwrap();
    assert_eq!(form.action, "/a");
    assert_eq!(form.hidden, vec![pair("k", "v")]);

    let broken = vec![FormElement {
        action: Some("/a".to_string()),
        children: vec![child("input", Some("hidden"), Some("k"), None)],
    }];
    assert_eq!(form_from_elements(&broken).err(), Some(ParseError::InvalidFormInputField));
    let none: Vec<FormElement> = Vec::new();
    assert_eq!(form_from_elements(&none).err(), Some(ParseError::NoLoginForm));
    let bare = vec![FormElement { action: None, children: vec![] }];
    assert_eq!(form_from_elements(&bare).err(), Some(ParseError::NoFormAction));
}

#[test]
fn credentials_merge_with_hidden_fields() {
    let page = "<html><body><form action=\"/login\"><input type=\"hidden\" name=\"_origin\" value=\"1\">\
                <input type=\"text\" name=\"email\"><input type=\"password\" name=\"pass\"></form></body></html>";
    let submission = prepare_submission(page, "user@example.com", "s3cret").unwrap();
    assert_eq!(submission.action, "/login");
    assert_eq!(
        sorted(&submission.fields),
        vec![
            pair("_origin", "1"),
            pair("email", "user@example.com"),
            pair("expire", "0"),
            pair("pass", "s3cret"),
        ]
    );
}

#[test]
fn credentials_replace_hidden_fields_of_their_names() {
    let form = ParsedForm {
        action: "/login".to_string(),
        hidden: vec![pair("email", "x"), pair("a", "1"), pair("expire", "1"), pair("a", "2")],
    };
    let set = credential_fields(&form, "me", "pw");
    assert_eq!(
        sorted(&set),
        vec![pair("a", "2"), pair("email", "me"), pair("expire", "0"), pair("pass", "pw")]
    );
}

#[test]
fn nothing_is_prepared_without_a_form() {
    assert_eq!(prepare_submission("<p></p>", "a", "b").err(), Some(ParseError::NoLoginForm));
    assert_eq!(
        prepare_submission("<form></form>", "a", "b").err(),
        Some(ParseError::NoFormAction)
    );
}

#[test]
fn put_keeps_each_name_once() {
    let mut entries: Vec<(String, String)> = Vec::new();
    put(&mut entries, "a".to_string(), "1".to_string());
    put(&mut entries, "b".to_string(), "2".to_string());
    put(&mut entries, "a".to_string(), "3".to_string());
    assert_eq!(entries, vec![pair("a", "3"), pair("b", "2")]);
}

#[test]
fn authorize_url_names_the_client() {
    assert_eq!(
        authorize_url("12345"),
        "https://oauth.vk.com/oauth/authorize?client_id=12345&scope=0&response_type=token"
    );
}

#[test]
fn error_messages() {
    assert_eq!(ParseError::NoLoginForm.message(), "NoLoginForm");
    assert_eq!(ParseError::NoFormAction.message(), "NoFormAction");
    assert_eq!(ParseError::InvalidFormInputField.message(), "InvalidFormInputField");
    assert_eq!(
        ParseError::InvalidRedirectData.message(),
        "InvalidRedirectData: expected data not found on page"
    );
    assert_eq!(
        ParseError::AuthorizationFailed.message(),
        "AuthorizationFailed: invalid authorization data"
    );
}

#[test]
fn field_set_looks_up_by_name() {
    let form = ParsedForm {
        action: "/login".to_string(),
        hidden: vec![pair("a", "1"), pair("b", "2"), pair("a", "3"), pair("pass", "x")],
    };
    let set = credential_fields(&form, "me", "pw");
    assert_eq!(set.get("a"), Some(&"3".to_string()));
    assert_eq!(set.get("b"), Some(&"2".to_string()));
    assert_eq!(set.get("email"), Some(&"me".to_string()));
    assert_eq!(set.get("pass"), Some(&"pw".to_string()));
    assert_eq!(set.get("expire"), Some(&"0".to_string()));
    assert_eq!(set.get("c"), None);
    assert_eq!(set.entries().len(), 5);
    let copy = set.clone();
    assert_eq!(copy.entries(), set.entries());
}

#[test]
fn a_form_without_hidden_fields_submits_the_credentials() {
    let form = ParsedForm { action: "/login".to_string(), hidden: Vec::new() };
    let set = credential_fields(&form, "", "");
    assert_eq!(sorted(&set), vec![pair("email", ""), pair("expire", "0"), pair("pass", "")]);
}

#[test]
fn second_login_is_known_by_its_address() {
    assert!(second_login_on("<form action=\"https://login.vk.com/?act=login\"></form>"));
    assert!(second_login_on(
        "<form action=\"/a\"></form><div><form method=\"post\" action=\"x https://login.vk.com\"></form></div>"
    ));
    assert!(!second_login_on("<form action=\"https://login.vk.co\"></form>"));
    assert!(!second_login_on("<form action=\"HTTPS://LOGIN.VK.COM/\"></form>"));
    assert!(!second_login_on("<form data-action=\"https://login.vk.com\"></form>"));
    assert!(!second_login_on("<a href=\"https://login.vk.com\">login</a><form></form>"));
    assert!(!second_login_on(""));
    let forms = vec![
        FormElement { action: None, children: vec![] },
        FormElement { action: Some("see https://login.vk.com/".to_string()), children: vec![] },
    ];
    assert!(second_login_among(&forms));
    assert!(!second_login_among(&forms[..1].to_vec()));
}
