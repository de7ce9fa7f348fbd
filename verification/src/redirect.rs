//! The redirect that an answering page embeds, and the token in its
//! fragment.

use crate::error::{ParseError, TokenError, TokenErrorModel};
use crate::form::{last_value, pairs_of, Pairs};
use crate::number::{decimal, lemma_seconds_round_trip, parse_seconds, seconds_of};
use crate::text::{
    chars_of, contains, find_first, find_last, first_occurrence, last_occurrence, lemma_first_from,
    lemma_first_occurrence_contains, lemma_last_upto, occurs_at, text_is,
};
use crate::token::{AccessToken, AccessTokenView};
use vstd::prelude::*;
use vstd::string::*;

verus! {

/// The text that stands before the address of the redirect.
pub open spec fn start_marker() -> Seq<char> {
    "location.href='"@
}

/// The text that stands behind the address of the redirect.
pub open spec fn end_marker() -> Seq<char> {
    "';</script>"@
}

/// The key of the token in the fragment.
pub open spec fn token_key() -> Seq<char> {
    "access_token"@
}

/// The key of the time to live in the fragment.
pub open spec fn expiry_key() -> Seq<char> {
    "expires_in"@
}

/// The key of the user in the fragment.
pub open spec fn user_key() -> Seq<char> {
    "user_id"@
}

/// The text between the first start marker and the last end marker;
/// `None` where one of them is absent or the end marker begins before the
/// start marker has ended.
pub open spec fn redirect_text(page: Seq<char>) -> Option<Seq<char>> {
    match (first_occurrence(page, start_marker()), last_occurrence(page, end_marker())) {
        (Some(s), Some(e)) => if s + start_marker().len() <= e {
            Some(page.subrange(s + start_marker().len(), e))
        } else {
            None
        },
        _ => None,
    }
}

/// What parsing `url` as an absolute address gives: its fragment, if it
/// has one, or the parser's words on why `url` is no address.
pub uninterp spec fn url_fragment(url: Seq<char>) -> Result<Option<Seq<char>>, Seq<char>>;

/// The names and values that `input` holds, read as a form-encoded query
/// string, in order.
pub uninterp spec fn decoded_pairs(input: Seq<char>) -> Pairs;

/// The plain values of a fragment or of the reason why there is none.
pub open spec fn fragment_result(r: Result<Option<String>, String>) -> Result<
    Option<Seq<char>>,
    Seq<char>,
> {
    match r {
        Ok(Some(fragment)) => Ok(Some(fragment@)),
        Ok(None) => Ok(None),
        Err(why) => Err(why@),
    }
}

/// `url::Url::parse`, then `Url::fragment` of the address: the part behind
/// `#`, if there is one. Where the text is refused, the error's own
/// description is handed on. The result depends on the text alone.
#[verifier::external_body]
pub(crate) fn parse_fragment(url: &str) -> (r: Result<Option<String>, String>)
    ensures
        fragment_result(r) == url_fragment(url@),
{
    match url::Url::parse(url) {
        Ok(address) => Ok(address.fragment().map(|f| f.to_string())),
        Err(e) => Err(e.to_string()),
    }
}

/// `form_urlencoded::parse` on the bytes of `input`: the pairs of names
/// and values that the iterator yields, decoded, in its order. The result
/// depends on the text alone.
#[verifier::external_body]
pub(crate) fn decode_pairs(input: &str) -> (pairs: Vec<(String, String)>)
    ensures
        pairs_of(pairs@) == decoded_pairs(input@),
{
    form_urlencoded::parse(input.as_bytes()).into_owned().collect()
}

/// The outcome of reading a token, as plain values.
pub open spec fn token_result(r: Result<AccessToken, TokenError>) -> Result<
    AccessTokenView,
    TokenErrorModel,
> {
    match r {
        Ok(token) => Ok(token@),
        Err(e) => Err(e@),
    }
}

/// The page has not the expected shape.
pub open spec fn unexpected_shape() -> Result<AccessTokenView, TokenErrorModel> {
    Err(TokenErrorModel::Page(ParseError::InvalidRedirectData))
}

/// The token that decoded pairs describe. A later pair of a name replaces
/// an earlier one. The token, the time to live and the user are required;
/// the time to live must be a count of seconds.
pub open spec fn token_of_pairs(pairs: Pairs) -> Result<AccessTokenView, TokenErrorModel> {
    match (
        last_value(pairs, token_key()),
        last_value(pairs, expiry_key()),
        last_value(pairs, user_key()),
    ) {
        (Some(token), Some(expiry), Some(user)) => match seconds_of(expiry) {
            Some(secs) => Ok(
                AccessTokenView { access_token: token, expires_in: secs, user_id: user },
            ),
            None => Err(TokenErrorModel::MalformedExpiry(expiry)),
        },
        _ => unexpected_shape(),
    }
}

/// The token that the outcome of parsing the redirect describes.
pub open spec fn token_of_fragment(fragment: Result<Option<Seq<char>>, Seq<char>>) -> Result<
    AccessTokenView,
    TokenErrorModel,
> {
    match fragment {
        Err(why) => Err(TokenErrorModel::MalformedUrl(why)),
        Ok(None) => unexpected_shape(),
        Ok(Some(text)) => token_of_pairs(decoded_pairs(text)),
    }
}

/// The token that an answering page holds.
pub open spec fn token_of_page(page: Seq<char>) -> Result<AccessTokenView, TokenErrorModel> {
    match redirect_text(page) {
        None => unexpected_shape(),
        Some(url) => token_of_fragment(url_fragment(url)),
    }
}

/// A page on which a marker is absent, or on which the last end marker
/// begins before the first start marker has ended, has not the expected
/// shape.
pub proof fn lemma_markers_required(page: Seq<char>)
    requires
        !contains(page, start_marker()) || !contains(page, end_marker())
            || last_occurrence(page, end_marker())->0 < first_occurrence(page, start_marker())->0
            + start_marker().len(),
    ensures
        redirect_text(page) is None,
        token_of_page(page) == unexpected_shape(),
{
    lemma_first_occurrence_contains(page, start_marker());
    lemma_first_occurrence_contains(page, end_marker());
}

/// Where the start marker stands at `s` and nowhere before, the end marker
/// at `e` and nowhere behind, and the first has ended where the second
/// begins, the redirect is the text between the two.
pub proof fn lemma_redirect_between_markers(page: Seq<char>, s: int, e: int)
    requires
        occurs_at(page, start_marker(), s),
        occurs_at(page, end_marker(), e),
        forall|j: int| 0 <= j < s ==> !occurs_at(page, start_marker(), j),
        forall|j: int| e < j ==> !occurs_at(page, end_marker(), j),
        s + start_marker().len() <= e,
    ensures
        redirect_text(page) == Some(page.subrange(s + start_marker().len(), e)),
        token_of_page(page) == token_of_fragment(
            url_fragment(page.subrange(s + start_marker().len(), e)),
        ),
{
    lemma_first_from(page, start_marker(), 0);
    lemma_last_upto(page, end_marker(), page.len() - end_marker().len());
}

/// Pairs that lack the token, the time to live or the user describe no
/// token: they have not the expected shape.
pub proof fn lemma_keys_required(pairs: Pairs)
    requires
        last_value(pairs, token_key()) is None || last_value(pairs, expiry_key()) is None
            || last_value(pairs, user_key()) is None,
    ensures
        token_of_pairs(pairs) == unexpected_shape(),
{
}

/// Pairs that hold the three keys describe a token exactly where the time
/// to live is a count of seconds; where it is none, the error is
/// `MalformedExpiry`, which is not that of an unexpected shape.
pub proof fn lemma_expiry_decides(pairs: Pairs)
    requires
        last_value(pairs, token_key()) is Some,
        last_value(pairs, expiry_key()) is Some,
        last_value(pairs, user_key()) is Some,
    ensures
        match seconds_of(last_value(pairs, expiry_key())->0) {
            Some(secs) => token_of_pairs(pairs) == Ok::<AccessTokenView, TokenErrorModel>(
                AccessTokenView {
                    access_token: last_value(pairs, token_key())->0,
                    expires_in: secs,
                    user_id: last_value(pairs, user_key())->0,
                },
            ),
            None => token_of_pairs(pairs) == Err::<AccessTokenView, TokenErrorModel>(
                TokenErrorModel::MalformedExpiry(last_value(pairs, expiry_key())->0),
            ) && token_of_pairs(pairs) != unexpected_shape(),
        },
{
}

/// A fragment that names a token, the decimal form of its time to live
/// and a user, in this order, describes the token of these parts.
pub proof fn lemma_token_round_trip(token: Seq<char>, secs: u64, user: Seq<char>)
    ensures
        token_of_pairs(
            seq![
                (token_key(), token),
                (expiry_key(), decimal(secs as nat)),
                (user_key(), user),
            ],
        ) == Ok::<AccessTokenView, TokenErrorModel>(
            AccessTokenView { access_token: token, expires_in: secs, user_id: user },
        ),
{
    reveal_strlit("access_token");
    reveal_strlit("expires_in");
    reveal_strlit("user_id");
    lemma_seconds_round_trip(secs);
    let expiry = decimal(secs as nat);
    let pairs = seq![(token_key(), token), (expiry_key(), expiry), (user_key(), user)];
    let two = seq![(token_key(), token), (expiry_key(), expiry)];
    let one = seq![(token_key(), token)];
    assert(pairs.drop_last() =~= two);
    assert(two.drop_last() =~= one);
    assert(pairs.last() == (user_key(), user));
    assert(two.last() == (expiry_key(), expiry));
    assert(one.last() == (token_key(), token));
    assert(token_key().len() == 12 && expiry_key().len() == 10 && user_key().len() == 7);
    assert(last_value(one, token_key()) == Some(token));
    assert(last_value(two, token_key()) == Some(token));
    assert(last_value(two, expiry_key()) == Some(expiry));
    assert(last_value(pairs, token_key()) == Some(token));
    assert(last_value(pairs, expiry_key()) == Some(expiry));
    assert(last_value(pairs, user_key()) == Some(user));
}

/// Two readings of one page give the same outcome.
pub proof fn lemma_extraction_repeats(
    page: Seq<char>,
    first: Result<AccessToken, TokenError>,
    second: Result<AccessToken, TokenError>,
)
    requires
        token_result(first) == token_of_page(page),
        token_result(second) == token_of_page(page),
    ensures
        token_result(first) == token_result(second),
{
}

/// The text between the markers of the redirect on `page`.
pub fn redirect_candidate(page: &str) -> (url: Option<String>)
    ensures
        match url {
            Some(text) => redirect_text(page@) == Some(text@),
            None => redirect_text(page@) is None,
        },
{
    let hay = chars_of(page);
    let start = chars_of("location.href='");
    let end = chars_of("';</script>");
    let s = match find_first(&hay, &start) {
        Some(s) => s,
        None => {
            return None;
        },
    };
    let e = match find_last(&hay, &end) {
        Some(e) => e,
        None => {
            return None;
        },
    };
    proof {
        lemma_first_from(hay@, start@, 0);
        lemma_last_upto(hay@, end@, hay@.len() - end@.len());
    }
    if e < start.len() || s > e - start.len() {
        return None;
    }
    let from: usize = s + start.len();
    Some(String::from_str(page.substring_char(from, e)))
}

/// The value of the last pair named `key`.
pub fn lookup_last<'a>(pairs: &'a Vec<(String, String)>, key: &str) -> (value: Option<&'a String>)
    ensures
        match value {
            Some(v) => last_value(pairs_of(pairs@), key@) == Some(v@),
            None => last_value(pairs_of(pairs@), key@) is None,
        },
{
    let mut i: usize = pairs.len();
    let ghost all = pairs_of(pairs@);
    assert(all.take(i as int) =~= all);
    while i > 0
        invariant
            i <= pairs.len(),
            all == pairs_of(pairs@),
            last_value(all, key@) == last_value(all.take(i as int), key@),
        decreases i,
    {
        i -= 1;
        proof {
            assert(all.take(i + 1).drop_last() =~= all.take(i as int));
            assert(all.take(i + 1).last() == (pairs@[i as int].0@, pairs@[i as int].1@));
        }
        if text_is(&pairs[i].0, key) {
            return Some(&pairs[i].1);
        }
    }
    None
}

/// Builds the token from the decoded pairs of the fragment.
pub fn token_from_pairs(pairs: &Vec<(String, String)>) -> (r: Result<AccessToken, TokenError>)
    ensures
        token_result(r) == token_of_pairs(pairs_of(pairs@)),
{
    let token = lookup_last(pairs, "access_token");
    let expiry = lookup_last(pairs, "expires_in");
    let user = lookup_last(pairs, "user_id");
    match (token, expiry, user) {
        (Some(token), Some(expiry), Some(user)) => {
            let digits = chars_of(expiry.as_str());
            match parse_seconds(&digits) {
                Some(secs) => Ok(AccessToken::new(token.clone(), secs, user.clone())),
                None => Err(TokenError::MalformedExpiry(expiry.clone())),
            }
        },
        _ => Err(TokenError::Page(ParseError::InvalidRedirectData)),
    }
}

/// Builds the token from the outcome of parsing the redirect: its
/// fragment, the lack of one, or the reason why it is no address.
pub fn token_from_fragment(fragment: Result<Option<String>, String>) -> (r: Result<
    AccessToken,
    TokenError,
>)
    ensures
        token_result(r) == token_of_fragment(fragment_result(fragment)),
{
    match fragment {
        Err(why) => Err(TokenError::MalformedUrl(why)),
        Ok(None) => Err(TokenError::Page(ParseError::InvalidRedirectData)),
        Ok(Some(text)) => {
            let pairs = decode_pairs(text.as_str());
            token_from_pairs(&pairs)
        },
    }
}

/// Reads the token from the page that answered the submitted form.
pub fn get_token_from_page(resp: &str) -> (r: Result<AccessToken, TokenError>)
    ensures
        token_result(r) == token_of_page(resp@),
{
    match redirect_candidate(resp) {
        None => Err(TokenError::Page(ParseError::InvalidRedirectData)),
        Some(url) => token_from_fragment(parse_fragment(url.as_str())),
    }
}

} // verus!
