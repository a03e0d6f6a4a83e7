//! Subscription tokens: reading what the agent needs out of a JSON Web
//! Token's claims, deciding when a token must be refreshed, and folding
//! a refresh response back into the stored tokens. The token refresh
//! request itself is the caller's network work.
use vstd::prelude::*;

use crate::json::{Json, JsonData};

verus! {

/// Seconds of clock skew tolerated when judging expiry.
pub const CLOCK_SKEW_SECONDS: i64 = 60;

/// What decoding a token's claims part yields, if the token can be
/// decoded at all: a function of the token alone.
pub uninterp spec fn jwt_claims_of(token: Seq<char>) -> Option<JsonData>;

/// Relies on jsonwebtoken::dangerous::insecure_decode: the claims part
/// of the token, base64-decoded and parsed as JSON without any
/// signature validation; the result depends on the token alone.
#[verifier::external_body]
fn decode_jwt_payload(token: &str) -> (r: Option<Json>)
    ensures
        match r {
            Some(j) => jwt_claims_of(token@) == Some(j@),
            None => jwt_claims_of(token@) is None,
        },
{
    match jsonwebtoken::dangerous::insecure_decode::<serde_json::Value>(token) {
        Ok(data) => Some(crate::json::json_from_value(data.claims)),
        Err(_) => None,
    }
}

/// The claims the agent reads: the expiry as the claims object's `exp`
/// number when it fits a signed 64-bit integer, and the account under
/// the vendor claim. Claims that are not an object, an expiry that is
/// not such a number, a vendor claim that is not an object or null, or
/// an account entry that is not a string or null, make the whole read
/// fail.
pub open spec fn claims_read(c: JsonData) -> Option<(Option<i64>, Option<Seq<char>>)> {
    if !(c is Obj) {
        None
    } else {
        let exp = match c.get("exp"@) {
            None => Some(None),
            Some(JsonData::Null) => Some(None),
            Some(JsonData::UInt(u)) => if u <= i64::MAX {
                Some(Some(u as i64))
            } else {
                None
            },
            Some(JsonData::NegInt(i)) => Some(Some(i)),
            Some(_) => None,
        };
        let account = match c.get("https://api.openai.com/auth"@) {
            None => Some(None),
            Some(JsonData::Null) => Some(None),
            Some(JsonData::Obj(fs)) => match crate::json::fields_get(fs, "chatgpt_account_id"@) {
                None => Some(None),
                Some(JsonData::Null) => Some(None),
                Some(JsonData::Str(s)) => Some(Some(s)),
                Some(_) => None,
            },
            Some(_) => None,
        };
        match (exp, account) {
            (Some(e), Some(a)) => Some((e, a)),
            _ => None,
        }
    }
}

/// The claims of a token, as far as the agent reads them.
pub open spec fn token_claims(token: Seq<char>) -> Option<(Option<i64>, Option<Seq<char>>)> {
    match jwt_claims_of(token) {
        None => None,
        Some(c) => claims_read(c),
    }
}

/// Decode a token and read the claims the agent uses.
fn read_claims(token: &str) -> (r: Option<(Option<i64>, Option<String>)>)
    ensures
        match r {
            Some((e, a)) => token_claims(token@) == Some(
                (
                    e,
                    match a {
                        Some(s) => Some(s@),
                        None => None::<Seq<char>>,
                    },
                ),
            ),
            None => token_claims(token@) is None,
        },
{
    let claims = match decode_jwt_payload(token) {
        Some(c) => c,
        None => {
            return None;
        },
    };
    match &claims {
        Json::Obj(_) => {},
        _ => {
            return None;
        },
    }
    let exp: Option<i64> = match claims.get("exp") {
        None => None,
        Some(v) => match v {
            Json::Null => None,
            Json::UInt(u) => {
                if *u <= (i64::MAX as u64) {
                    Some(*u as i64)
                } else {
                    return None;
                }
            },
            Json::NegInt(i) => Some(*i),
            _ => {
                return None;
            },
        },
    };
    let account: Option<String> = match claims.get("https://api.openai.com/auth") {
        None => None,
        Some(v) => match v {
            Json::Null => None,
            Json::Obj(_) => {
                match v.get("chatgpt_account_id") {
                    None => None,
                    Some(a) => match a {
                        Json::Null => None,
                        Json::Str(s) => Some(s.clone()),
                        _ => {
                            return None;
                        },
                    },
                }
            },
            _ => {
                return None;
            },
        },
    };
    Some((exp, account))
}

/// The account a token's claims name, if any.
pub open spec fn account_id_of(token: Seq<char>) -> Option<Seq<char>> {
    match token_claims(token) {
        Some((_, a)) => a,
        None => None,
    }
}

/// Pull the account identifier out of a token's claims.
pub fn extract_account_id_from_jwt(token: &str) -> (r: Option<String>)
    ensures
        match r {
            Some(s) => account_id_of(token@) == Some(s@),
            None => account_id_of(token@) is None,
        },
{
    match read_claims(token) {
        Some((_, a)) => a,
        None => None,
    }
}

/// A token counts as expired when its claims cannot be read, carry no
/// expiry, or the expiry is within the skew of the given time.
pub open spec fn expired_at(token: Seq<char>, now: i64) -> bool {
    match token_claims(token) {
        Some((Some(exp), _)) => now + CLOCK_SKEW_SECONDS >= exp,
        _ => true,
    }
}

/// Whether the token is expired at the given time, in seconds since the
/// epoch.
pub fn is_access_token_expired(token: &str, now: i64) -> (r: bool)
    ensures
        r == expired_at(token@, now),
{
    match read_claims(token) {
        Some((Some(exp), _)) => {
            let lhs: i128 = (now as i128) + (CLOCK_SKEW_SECONDS as i128);
            lhs >= (exp as i128)
        },
        _ => true,
    }
}

/// Tokens handed back by a refresh.
pub struct RefreshedSubscriptionTokens {
    pub access_token: String,
    pub refresh_token: Option<String>,
    pub id_token: Option<String>,
    pub account_id: Option<String>,
}

pub open spec fn opt_str_view(s: Option<String>) -> Option<Seq<char>> {
    match s {
        Some(x) => Some(x@),
        None => None,
    }
}

/// An optional string field of the refresh response: absent and null
/// default to none, any other non-string value rejects the response.
pub open spec fn refresh_field(body: JsonData, key: Seq<char>) -> Option<Option<Seq<char>>> {
    match body.get(key) {
        None => Some(None),
        Some(JsonData::Null) => Some(None),
        Some(JsonData::Str(s)) => Some(Some(s)),
        Some(_) => None,
    }
}

pub open spec fn refresh_parse_error() -> Seq<char> {
    "failed to parse token refresh response"@
}

pub open spec fn refresh_missing_access_error() -> Seq<char> {
    "token refresh response missing access_token"@
}

/// What the refresh response body yields: the new access token with the
/// optional rotated refresh and id tokens and the account its claims
/// name, or the error naming what was wrong with the body.
pub open spec fn refresh_outcome(body: Seq<char>, r: Result<
    RefreshedSubscriptionTokens,
    String,
>) -> bool {
    match crate::json::json_of(body) {
        None => r matches Err(e) && e@ == refresh_parse_error(),
        Some(j) => match (
            refresh_field(j, "access_token"@),
            refresh_field(j, "refresh_token"@),
            refresh_field(j, "id_token"@),
        ) {
            (Some(access), Some(refresh), Some(id)) => match access {
                None => r matches Err(e) && e@ == refresh_missing_access_error(),
                Some(a) => r matches Ok(t) && t.access_token@ == a && opt_str_view(
                    t.refresh_token,
                ) == refresh && opt_str_view(t.id_token) == id && opt_str_view(t.account_id)
                    == account_id_of(a),
            },
            _ => r matches Err(e) && e@ == refresh_parse_error(),
        },
    }
}

/// Read a token refresh response body.
pub fn refresh_response_tokens(body: &str) -> (r: Result<RefreshedSubscriptionTokens, String>)
    ensures
        refresh_outcome(body@, r),
{
    let j = match crate::json::parse_json(body) {
        Some(j) => j,
        None => {
            return Err(String::from_str("failed to parse token refresh response"));
        },
    };
    let access = match field_of(&j, "access_token") {
        Some(v) => v,
        None => {
            return Err(String::from_str("failed to parse token refresh response"));
        },
    };
    let refresh = match field_of(&j, "refresh_token") {
        Some(v) => v,
        None => {
            return Err(String::from_str("failed to parse token refresh response"));
        },
    };
    let id = match field_of(&j, "id_token") {
        Some(v) => v,
        None => {
            return Err(String::from_str("failed to parse token refresh response"));
        },
    };
    let access_token = match access {
        Some(a) => a,
        None => {
            return Err(String::from_str("token refresh response missing access_token"));
        },
    };
    let account_id = extract_account_id_from_jwt(access_token.as_str());
    Ok(
        RefreshedSubscriptionTokens {
            access_token,
            refresh_token: refresh,
            id_token: id,
            account_id,
        },
    )
}

/// A response field with the defaulting that `refresh_field` describes.
fn field_of(j: &Json, key: &str) -> (r: Option<Option<String>>)
    ensures
        match r {
            Some(v) => refresh_field(j@, key@) == Some(opt_str_view(v)),
            None => refresh_field(j@, key@) is None,
        },
{
    match j.get(key) {
        None => Some(None),
        Some(v) => match v {
            Json::Null => Some(None),
            Json::Str(s) => Some(Some(s.clone())),
            _ => None,
        },
    }
}

/// The stored tokens, as far as the agent reads and rewrites them.
pub struct CodexTokens {
    pub access_token: Option<String>,
    pub refresh_token: Option<String>,
    pub account_id: Option<String>,
    pub id_token: Option<String>,
}

/// What the stored tokens call for before a request.
pub enum TokenCheck {
    /// The access token is present and not expired: use it as it is.
    UseExisting,
    /// The access token must be refreshed with this refresh token.
    Refresh { refresh_token: String },
    /// No access token is stored.
    MissingAccess,
    /// The access token is expired and no refresh token is stored.
    MissingRefresh,
}

/// Decide whether the stored tokens can be used or must be refreshed
/// at the given time.
pub fn check_tokens(tokens: &CodexTokens, now: i64) -> (r: TokenCheck)
    ensures
        tokens.access_token is None <==> r is MissingAccess,
        tokens.access_token matches Some(a) && !expired_at(a@, now) ==> r is UseExisting,
        tokens.access_token matches Some(a) && expired_at(a@, now) ==> match tokens.refresh_token {
            Some(rt) => r matches TokenCheck::Refresh { refresh_token } && refresh_token@ == rt@,
            None => r is MissingRefresh,
        },
{
    let access = match &tokens.access_token {
        Some(a) => a,
        None => {
            return TokenCheck::MissingAccess;
        },
    };
    if !is_access_token_expired(access.as_str(), now) {
        return TokenCheck::UseExisting;
    }
    match &tokens.refresh_token {
        Some(rt) => TokenCheck::Refresh { refresh_token: rt.clone() },
        None => TokenCheck::MissingRefresh,
    }
}

/// Fold refreshed tokens into the stored ones: the access token is
/// replaced, rotated refresh and id tokens replace the old ones when
/// present, and the account is the refresh's, the new token's claims',
/// or the stored one, in that order.
pub fn apply_refreshed(tokens: &CodexTokens, refreshed: &RefreshedSubscriptionTokens) -> (r:
    CodexTokens)
    ensures
        r.access_token matches Some(a) && a@ == refreshed.access_token@,
        opt_str_view(r.refresh_token) == match refreshed.refresh_token {
            Some(n) => Some(n@),
            None => opt_str_view(tokens.refresh_token),
        },
        opt_str_view(r.id_token) == match refreshed.id_token {
            Some(n) => Some(n@),
            None => opt_str_view(tokens.id_token),
        },
        opt_str_view(r.account_id) == match refreshed.account_id {
            Some(n) => Some(n@),
            None => match account_id_of(refreshed.access_token@) {
                Some(x) => Some(x),
                None => opt_str_view(tokens.account_id),
            },
        },
{
    let refresh_token = match &refreshed.refresh_token {
        Some(n) => Some(n.clone()),
        None => match &tokens.refresh_token {
            Some(o) => Some(o.clone()),
            None => None,
        },
    };
    let id_token = match &refreshed.id_token {
        Some(n) => Some(n.clone()),
        None => match &tokens.id_token {
            Some(o) => Some(o.clone()),
            None => None,
        },
    };
    let account_id = match &refreshed.account_id {
        Some(n) => Some(n.clone()),
        None => match extract_account_id_from_jwt(refreshed.access_token.as_str()) {
            Some(x) => Some(x),
            None => match &tokens.account_id {
                Some(o) => Some(o.clone()),
                None => None,
            },
        },
    };
    CodexTokens {
        access_token: Some(refreshed.access_token.clone()),
        refresh_token,
        account_id,
        id_token,
    }
}

/// The account the stored tokens identify: the stored one, or the one
/// the access token's claims name.
pub fn resolve_account_id(tokens: &CodexTokens) -> (r: Option<String>)
    ensures
        match &tokens.account_id {
            Some(a) => r matches Some(s) && s@ == a@,
            None => match &tokens.access_token {
                Some(at) => (match r {
                    Some(s) => account_id_of(at@) == Some(s@),
                    None => account_id_of(at@) is None,
                }),
                None => r is None,
            },
        },
{
    match &tokens.account_id {
        Some(a) => Some(a.clone()),
        None => match &tokens.access_token {
            Some(at) => extract_account_id_from_jwt(at.as_str()),
            None => None,
        },
    }
}

} // verus!
