//! Who may use the API.

use vstd::prelude::*;

use crate::api::stream_token::{
    is_alphanumeric, is_token_text, is_valid, presented, StreamTokenStore,
};
use crate::domain::repo::option_text;
use crate::text::{same_text, strip_prefix, without_prefix};

verus! {

/// The API key that an `Authorization` header carries: what follows `Bearer `.
pub open spec fn bearer_key(header: Option<Seq<char>>) -> Option<Seq<char>> {
    match header {
        Some(text) => without_prefix(text, "Bearer "@),
        None => None,
    }
}

/// Extracts the API key from the value of the `Authorization` header.
pub fn extract_api_key_from_header(header: &Option<String>) -> (r: Option<String>)
    ensures
        option_text(r) == bearer_key(option_text(*header)),
{
    match header {
        Some(text) => strip_prefix(text.as_str(), "Bearer "),
        None => None,
    }
}

// --- Queries ---

/// What `url::form_urlencoded::parse` reads of a query: its names and values, in their order.
pub uninterp spec fn form_pairs(query: Seq<char>) -> Seq<(Seq<char>, Seq<char>)>;

/// The texts of a list of pairs.
pub open spec fn pair_texts(pairs: Seq<(String, String)>) -> Seq<(Seq<char>, Seq<char>)> {
    pairs.map_values(|p: (String, String)| (p.0@, p.1@))
}

/// The query that carries a token and nothing else.
pub open spec fn token_query(token: Seq<char>) -> Seq<char> {
    "token="@ + token
}

/// If the query carries a token of ASCII letters and digits and nothing else, then just this pair
/// is read.
pub open spec fn keeps_plain_token(query: Seq<char>, pairs: Seq<(String, String)>) -> bool {
    forall|token: Seq<char>|
        query == #[trigger] token_query(token) && (forall|i: int|
            0 <= i < token.len() ==> is_alphanumeric(#[trigger] token[i])) ==> pair_texts(pairs)
            == seq![("token"@, token)]
}

/// `url::form_urlencoded::parse` on the bytes of a query: its names and values, decoded. They
/// depend on the query alone. Letters and digits stand for themselves.
#[verifier::external_body]
fn parse_query(query: &str) -> (r: Vec<(String, String)>)
    ensures
        pair_texts(r@) == form_pairs(query@),
        keeps_plain_token(query@, r@),
{
    url::form_urlencoded::parse(query.as_bytes()).into_owned().collect()
}

/// The value of the first pair with the given name.
pub open spec fn first_value(pairs: Seq<(Seq<char>, Seq<char>)>, name: Seq<char>) -> Option<
    Seq<char>,
>
    decreases pairs.len(),
{
    if pairs.len() == 0 {
        None
    } else if pairs[0].0 == name {
        Some(pairs[0].1)
    } else {
        first_value(pairs.drop_first(), name)
    }
}

/// The value of the first of the pairs that is named `token`.
pub fn token_of_pairs(pairs: &Vec<(String, String)>) -> (r: Option<String>)
    ensures
        option_text(r) == first_value(pair_texts(pairs@), "token"@),
{
    let mut i: usize = 0;
    let ghost texts = pair_texts(pairs@);
    assert(texts.skip(0) =~= texts);
    while i < pairs.len()
        invariant
            i <= pairs@.len(),
            texts == pair_texts(pairs@),
            first_value(texts, "token"@) == first_value(texts.skip(i as int), "token"@),
        decreases pairs.len() - i,
    {
        assert(texts.skip(i as int)[0] == texts[i as int]);
        if same_text(pairs[i].0.as_str(), "token") {
            return Some(pairs[i].1.clone());
        }
        assert(texts.skip(i as int).drop_first() =~= texts.skip(i + 1));
        i += 1;
    }
    None
}

/// The token that a query carries.
pub open spec fn query_token(query: Option<Seq<char>>) -> Option<Seq<char>> {
    match query {
        Some(text) => first_value(form_pairs(text), "token"@),
        None => None,
    }
}

/// Extracts the token from the query of a request. A plain token is found as it was written.
pub fn extract_token_from_query(query: &Option<String>) -> (r: Option<String>)
    ensures
        option_text(r) == query_token(option_text(*query)),
        forall|token: Seq<char>|
            is_token_text(token) && option_text(*query) == Some(#[trigger] token_query(token))
                ==> option_text(r) == Some(token),
{
    match query {
        Some(text) => {
            let pairs = parse_query(text.as_str());
            let token = token_of_pairs(&pairs);
            assert forall|wanted: Seq<char>|
                is_token_text(wanted) && option_text(*query) == Some(
                    #[trigger] token_query(wanted),
                ) implies option_text(token) == Some(wanted) by {
                assert(pair_texts(pairs@) == seq![("token"@, wanted)]);
                assert(pair_texts(pairs@)[0].0 == "token"@);
            }
            token
        },
        None => None,
    }
}

// --- Requirements ---

/// The HTTP status of a request that is turned away.
pub const UNAUTHORIZED: u16 = 401;

/// Requires a valid API key.
///
/// Supports only the Authorization header: `Authorization: Bearer <token>`
/// For SSE endpoints, use `require_stream_token` instead to avoid exposing the API key in query
/// strings.
pub fn require_api_key(header: &Option<String>, api_key: &str) -> (r: Result<(), u16>)
    ensures
        r == if bearer_key(option_text(*header)) == Some(api_key@) {
            Ok::<(), u16>(())
        } else {
            Err::<(), u16>(UNAUTHORIZED)
        },
        r is Ok <==> option_text(*header) == Some("Bearer "@ + api_key@),
{
    proof {
        if let Some(text) = option_text(*header) {
            bearer_key_is_found(api_key@, text);
        }
    }
    match extract_api_key_from_header(header) {
        Some(provided_key) => if same_text(provided_key.as_str(), api_key) {
            Ok(())
        } else {
            Err(UNAUTHORIZED)
        },
        None => Err(UNAUTHORIZED),
    }
}

/// Requires a valid stream token (for SSE endpoints).
///
/// Stream tokens are short-lived (30s) and single-use. They are obtained by calling POST
/// /api/stream-token with a valid API key, then used in the query string for SSE connections.
///
/// This prevents the long-lived API key from appearing in URLs which can leak via browser
/// history, referrer headers, and server logs.
pub fn require_stream_token(query: &Option<String>, store: &mut StreamTokenStore, now: u64) -> (r:
    Result<(), u16>)
    ensures
        match query_token(option_text(*query)) {
            Some(token) => {
                &&& final(store)@ == presented(old(store)@, token, now)
                &&& r == if is_valid(old(store)@, token, now) {
                    Ok::<(), u16>(())
                } else {
                    Err::<(), u16>(UNAUTHORIZED)
                }
            },
            None => final(store)@ == old(store)@ && r == Err::<(), u16>(UNAUTHORIZED),
        },
        forall|token: Seq<char>|
            is_token_text(token) && option_text(*query) == Some(#[trigger] token_query(token)) ==> {
                &&& r is Ok == is_valid(old(store)@, token, now)
                &&& final(store)@ == presented(old(store)@, token, now)
            },
{
    match extract_token_from_query(query) {
        Some(token) => if store.validate_and_consume(token.as_str(), now) {
            Ok(())
        } else {
            Err(UNAUTHORIZED)
        },
        None => Err(UNAUTHORIZED),
    }
}

/// A request with the key behind `Bearer `, and only such a request, carries the key.
pub proof fn bearer_key_is_found(key: Seq<char>, header: Seq<char>)
    ensures
        bearer_key(Some("Bearer "@ + key)) == Some(key),
        bearer_key(Some(header)) == Some(key) ==> header == "Bearer "@ + key,
{
    let prefix = "Bearer "@;
    assert(prefix.is_prefix_of(prefix + key));
    assert((prefix + key).skip(prefix.len() as int) =~= key);
    if prefix.is_prefix_of(header) {
        assert(header =~= prefix + header.skip(prefix.len() as int));
    }
}

/// A request without a header carries no key.
pub proof fn missing_header_carries_no_key()
    ensures
        bearer_key(None) is None,
        query_token(None) is None,
{
}

/// The token of a query is the value of the first of its pairs that is named `token`, and of no
/// other.
pub proof fn first_token_counts(
    before: Seq<(Seq<char>, Seq<char>)>,
    value: Seq<char>,
    after: Seq<(Seq<char>, Seq<char>)>,
)
    requires
        forall|i: int| 0 <= i < before.len() ==> (#[trigger] before[i]).0 != "token"@,
    ensures
        first_value(before, "token"@) is None,
        first_value(before + seq![("token"@, value)] + after, "token"@) == Some(value),
    decreases before.len(),
{
    let all = before + seq![("token"@, value)] + after;
    if before.len() > 0 {
        let fewer = before.drop_first();
        assert forall|i: int| 0 <= i < fewer.len() implies (#[trigger] fewer[i]).0 != "token"@ by {
            assert(fewer[i] == before[i + 1]);
        }
        first_token_counts(fewer, value, after);
        assert(all.drop_first() =~= fewer + seq![("token"@, value)] + after);
        assert(all[0] == before[0]);
        assert(before[0].0 != "token"@);
    } else {
        assert(all[0] == ("token"@, value));
    }
}

/// A query of a request carries the token that its pairs hold.
pub proof fn token_is_that_of_the_pairs(query: Seq<char>)
    ensures
        query_token(Some(query)) == first_value(form_pairs(query), "token"@),
        token_query(query) == "token="@ + query,
{
}

/// A list of pairs is told by the characters of each.
pub proof fn pairs_are_told_one_by_one(pairs: Seq<(String, String)>, i: int)
    requires
        0 <= i < pairs.len(),
    ensures
        pair_texts(pairs).len() == pairs.len(),
        pair_texts(pairs)[i] == (pairs[i].0@, pairs[i].1@),
{
}

} // verus!
