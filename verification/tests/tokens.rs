use std::time::Duration;
use vk_auth::error::reclassify;
use vk_auth::flow::{classify_response, settle};
use vk_auth::number::parse_seconds;
use vk_auth::redirect::{get_token_from_page, redirect_candidate, token_from_fragment, token_from_pairs};
use vk_auth::text::{chars_of, contains_text, find_first, find_last};
use vk_auth::{AccessToken, ParseError, TokenError};

fn page_with(url: &str) -> String {
    format!("<html><head><script type=\"text/javascript\">location.href='{}';</script></head></html>", url)
}

fn chars(s: &str) -> Vec<char> {
    s.chars().collect()
}

fn is_page_error(r: &Result<AccessToken, TokenError>, kind: ParseError) -> bool {
    matches!(r, Err(TokenError::Page(e)) if *e == kind)
}

#[test]
fn token_round_trip() {
    let page = page_with("https://oauth.vk.com/blank.html#access_token=abc123DEF&expires_in=86400&user_id=4242");
    let token = get_token_from_page(&page).unwrap();
    assert_eq!(token.access_token(), "abc123DEF");
    assert_eq!(token.expires_in(), Duration::from_secs(86400));
    assert_eq!(token.expires_in_secs(), 86400);
    assert_eq!(token.user_id(), "4242");
}

#[test]
fn token_with_zero_time_to_live() {
    let page = page_with("https://host.example/#user_id=u&expires_in=0&access_token=t");
    let token = get_token_from_page(&page).unwrap();
    assert_eq!(token.access_token(), "t");
    assert_eq!(token.expires_in(), Duration::from_secs(0));
    assert_eq!(token.user_id(), "u");
}

#[test]
fn fragment_values_are_decoded() {
    let page = page_with("https://host.example/x#access_token=a%20b+c&expires_in=7&user_id=%D1%8F");
    let token = get_token_from_page(&page).unwrap();
    assert_eq!(token.access_token(), "a b c");
    assert_eq!(token.expires_in_secs(), 7);
    assert_eq!(token.user_id(), "я");
}

#[test]
fn last_of_two_equal_keys_wins() {
    let page = page_with("https://host.example/#access_token=one&expires_in=1&user_id=u&access_token=two");
    let token = get_token_from_page(&page).unwrap();
    assert_eq!(token.access_token(), "two");
}

#[test]
fn page_without_start_marker() {
    let r = get_token_from_page("<html>https://h.example/#access_token=t&expires_in=1&user_id=u';</script></html>");
    assert!(is_page_error(&r, ParseError::InvalidRedirectData));
}

#[test]
fn page_without_end_marker() {
    let r = get_token_from_page("<script>location.href='https://h.example/#access_token=t&expires_in=1&user_id=u'</script>");
    assert!(is_page_error(&r, ParseError::InvalidRedirectData));
    assert!(is_page_error(&get_token_from_page(""), ParseError::InvalidRedirectData));
}

#[test]
fn end_marker_before_start_marker() {
    let r = get_token_from_page("<script>x';</script><script>location.href='https://h.example/#a=b");
    assert!(is_page_error(&r, ParseError::InvalidRedirectData));
    let overlapping = "location.href=';</script>";
    assert!(is_page_error(&get_token_from_page(overlapping), ParseError::InvalidRedirectData));
}

#[test]
fn markers_with_nothing_between() {
    let r = get_token_from_page("location.href='';</script>");
    assert!(matches!(r, Err(TokenError::MalformedUrl(_))));
}

#[test]
fn redirect_that_is_no_address() {
    let r = get_token_from_page(&page_with("/blank.html#access_token=t&expires_in=1&user_id=u"));
    match r {
        Err(TokenError::MalformedUrl(why)) => assert_eq!(why, "relative URL without a base"),
        other => panic!("unexpected outcome: {:?}", other),
    }
}

#[test]
fn redirect_without_fragment() {
    let r = get_token_from_page(&page_with("https://oauth.vk.com/blank.html?access_token=t"));
    assert!(is_page_error(&r, ParseError::InvalidRedirectData));
}

#[test]
fn fragment_without_a_required_key() {
    let base = "https://oauth.vk.com/blank.html#";
    for fragment in [
        "expires_in=1&user_id=u",
        "access_token=t&user_id=u",
        "access_token=t&expires_in=1",
        "access_token=t&expires_in=soon",
        "",
        "error=access_denied",
    ] {
        let r = get_token_from_page(&page_with(&format!("{}{}", base, fragment)));
        assert!(is_page_error(&r, ParseError::InvalidRedirectData), "{}", fragment);
    }
}

#[test]
fn time_to_live_that_is_no_number() {
    let base = "https://oauth.vk.com/blank.html#access_token=t&user_id=u&expires_in=";
    for expiry in ["soon", "", "-1", "1.5", " 1", "18446744073709551616", "12a"] {
        let r = get_token_from_page(&page_with(&format!("{}{}", base, expiry)));
        assert!(matches!(r, Err(TokenError::MalformedExpiry(text)) if text == expiry), "{}", expiry);
    }
}

#[test]
fn extraction_repeats() {
    let pages = [
        page_with("https://oauth.vk.com/blank.html#access_token=T&expires_in=10&user_id=U"),
        page_with("nothing"),
        "no markers".to_string(),
    ];
    for page in pages.iter() {
        let first = get_token_from_page(page);
        let second = get_token_from_page(page);
        assert_eq!(format!("{:?}", first), format!("{:?}", second));
    }
}

#[test]
fn rejected_login_is_told_from_a_changed_page() {
    let login = "<html><body><form method=\"post\" action=\"https://login.vk.com/?act=login&soft=1\">\
                 <input type=\"hidden\" name=\"_origin\" value=\"1\"></form></body></html>";
    let other = "<html><body><form action=\"/login\"></form></body></html>";
    let answer = "<html><body>Wrong password</body></html>";
    assert!(is_page_error(&classify_response(login, answer), ParseError::AuthorizationFailed));
    assert!(is_page_error(&classify_response(other, answer), ParseError::InvalidRedirectData));
}

#[test]
fn second_login_form_changes_nothing_else() {
    let login = "<form action=\"https://login.vk.com/?act=login\"></form>";
    let good = page_with("https://oauth.vk.com/blank.html#access_token=T&expires_in=10&user_id=U");
    let token = classify_response(login, &good).unwrap();
    assert_eq!(token.access_token(), "T");
    let bad_number = page_with("https://oauth.vk.com/blank.html#access_token=T&expires_in=x&user_id=U");
    assert!(matches!(classify_response(login, &bad_number), Err(TokenError::MalformedExpiry(_))));
    let bad_url = page_with("blank.html");
    assert!(matches!(classify_response(login, &bad_url), Err(TokenError::MalformedUrl(_))));
}

#[test]
fn reclassify_touches_only_the_ambiguous_error() {
    let kinds = [
        ParseError::NoLoginForm,
        ParseError::NoFormAction,
        ParseError::InvalidFormInputField,
        ParseError::AuthorizationFailed,
    ];
    for kind in kinds {
        assert!(matches!(reclassify(TokenError::Page(kind), true), TokenError::Page(e) if e == kind));
        assert!(matches!(reclassify(TokenError::Page(kind), false), TokenError::Page(e) if e == kind));
    }
    assert!(matches!(
        reclassify(TokenError::Page(ParseError::InvalidRedirectData), true),
        TokenError::Page(ParseError::AuthorizationFailed)
    ));
    assert!(matches!(
        reclassify(TokenError::Page(ParseError::InvalidRedirectData), false),
        TokenError::Page(ParseError::InvalidRedirectData)
    ));
    assert!(matches!(
        reclassify(TokenError::MalformedExpiry("x".to_string()), true),
        TokenError::MalformedExpiry(text) if text == "x"
    ));
    let token = AccessToken::new("t".to_string(), 3, "u".to_string());
    assert_eq!(settle(Ok(token), true).unwrap().expires_in_secs(), 3);
}

#[test]
fn token_from_pairs_reads_plain_values() {
    let pair = |k: &str, v: &str| (k.to_string(), v.to_string());
    let pairs = vec![pair("user_id", "9"), pair("access_token", "tok"), pair("expires_in", "+15")];
    let token = token_from_pairs(&pairs).unwrap();
    assert_eq!(token.access_token(), "tok");
    assert_eq!(token.expires_in(), Duration::from_secs(15));
    assert_eq!(token.user_id(), "9");
    let r = token_from_fragment(Ok(None));
    assert!(is_page_error(&r, ParseError::InvalidRedirectData));
    let r = token_from_fragment(Err("empty host".to_string()));
    assert!(matches!(r, Err(TokenError::MalformedUrl(why)) if why == "empty host"));
    let r = token_from_fragment(Ok(Some("access_token=x%26y&expires_in=2&user_id=z".to_string())));
    assert_eq!(r.unwrap().access_token(), "x&y");
}

#[test]
fn redirect_candidate_is_between_first_start_and_last_end() {
    let page = "a location.href='one';</script> location.href='two';</script> b";
    assert_eq!(
        redirect_candidate(page),
        Some("one';</script> location.href='two".to_string())
    );
    assert_eq!(redirect_candidate("ü location.href='ÿ€';</script>"), Some("ÿ€".to_string()));
    assert_eq!(redirect_candidate("location.href='"), None);
}

#[test]
fn seconds_are_read_as_decimal() {
    assert_eq!(parse_seconds(&chars("0")), Some(0));
    assert_eq!(parse_seconds(&chars("86400")), Some(86400));
    assert_eq!(parse_seconds(&chars("+5")), Some(5));
    assert_eq!(parse_seconds(&chars("007")), Some(7));
    assert_eq!(parse_seconds(&chars("18446744073709551615")), Some(u64::MAX));
    assert_eq!(parse_seconds(&chars("18446744073709551616")), None);
    assert_eq!(parse_seconds(&chars("99999999999999999999999")), None);
    assert_eq!(parse_seconds(&chars("")), None);
    assert_eq!(parse_seconds(&chars("+")), None);
    assert_eq!(parse_seconds(&chars("++1")), None);
    assert_eq!(parse_seconds(&chars("-1")), None);
    assert_eq!(parse_seconds(&chars("1 ")), None);
    assert_eq!(parse_seconds(&chars("١٢")), None);
}

#[test]
fn searching_in_text() {
    let hay = chars_of("abcabcab");
    assert_eq!(hay, chars("abcabcab"));
    assert_eq!(find_first(&hay, &chars("bc")), Some(1));
    assert_eq!(find_last(&hay, &chars("bc")), Some(4));
    assert_eq!(find_last(&hay, &chars("ab")), Some(6));
    assert_eq!(find_first(&hay, &chars("ca")), Some(2));
    assert_eq!(find_first(&hay, &chars("x")), None);
    assert_eq!(find_last(&hay, &chars("abcabcabc")), None);
    assert_eq!(find_first(&hay, &chars("")), Some(0));
    assert_eq!(find_last(&hay, &chars("")), Some(8));
    assert!(contains_text(&hay, &chars("cab")));
    assert!(!contains_text(&hay, &chars("cb")));
}
