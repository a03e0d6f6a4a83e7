//! Authentication configuration and header assembly: the mode chosen
//! from the environment value, the endpoint and default model each mode
//! uses, and the header name/value pairs each mode sends. Reading the
//! environment and performing requests stay with the caller.
pub mod config;
pub mod subscriptions;

use vstd::prelude::*;

verus! {

/// The header pairs an API-key request carries.
pub open spec fn api_key_headers_spec(key: Seq<char>) -> Seq<(Seq<char>, Seq<char>)> {
    seq![("authorization"@, "Bearer "@ + key)]
}

/// The authorization header pairs for an API-key request.
pub fn api_key_header_pairs(key: &str) -> (r: Vec<(String, String)>)
    ensures
        r.deep_view() =~= api_key_headers_spec(key@),
{
    let mut bearer = String::from_str("Bearer ");
    bearer.append(key);
    let mut r: Vec<(String, String)> = Vec::new();
    r.push((String::from_str("authorization"), bearer));
    r
}

/// The header pairs a subscription request carries.
pub open spec fn subscription_headers_spec(access_token: Seq<char>, account_id: Seq<char>) -> Seq<
    (Seq<char>, Seq<char>),
> {
    seq![
        ("authorization"@, "Bearer "@ + access_token),
        ("chatgpt-account-id"@, account_id),
        ("openai-beta"@, "responses=experimental"@),
        ("accept"@, "text/event-stream"@),
        ("originator"@, "ox"@),
    ]
}

/// The header pairs for a subscription request: the bearer token, the
/// account, and the streaming negotiation headers.
pub fn subscription_header_pairs(access_token: &str, account_id: &str) -> (r: Vec<
    (String, String),
>)
    ensures
        r.deep_view() =~= subscription_headers_spec(access_token@, account_id@),
{
    let mut bearer = String::from_str("Bearer ");
    bearer.append(access_token);
    let mut r: Vec<(String, String)> = Vec::new();
    r.push((String::from_str("authorization"), bearer));
    r.push((String::from_str("chatgpt-account-id"), account_id.to_owned()));
    r.push((String::from_str("openai-beta"), String::from_str("responses=experimental")));
    r.push((String::from_str("accept"), String::from_str("text/event-stream")));
    r.push((String::from_str("originator"), String::from_str("ox")));
    r
}

} // verus!
