//! Which authentication mode the agent runs under, and the endpoint and
//! default model each mode implies.
use vstd::prelude::*;

verus! {

/// How requests authenticate.
#[derive(Clone, Copy, PartialEq, Eq, Structural)]
pub enum AuthMode {
    ApiKey,
    Subscription,
}

/// The endpoint and default model of one mode.
pub struct AuthProfile {
    pub url: String,
    pub default_model: String,
}

/// The resolved configuration: the mode, its endpoint, and the model,
/// either from the environment or the mode's default.
pub struct AuthConfig {
    mode: AuthMode,
    url: String,
    model: String,
}

/// One character lowered to its ASCII lowercase.
pub open spec fn lower_char(c: char) -> char {
    if 'A' <= c && c <= 'Z' {
        (((c as u8) + 32) as char)
    } else {
        c
    }
}

/// A string lowered character by character.
pub open spec fn lower_seq(s: Seq<char>) -> Seq<char> {
    Seq::new(s.len(), |i: int| lower_char(s[i]))
}

/// The mode an environment value asks for: `subscription` in any ASCII
/// case; everything else, and an absent value, is the API-key mode.
pub open spec fn mode_of_env(raw: Option<Seq<char>>) -> AuthMode {
    match raw {
        Some(s) => if lower_seq(s) == "subscription"@ {
            AuthMode::Subscription
        } else {
            AuthMode::ApiKey
        },
        None => AuthMode::ApiKey,
    }
}

/// Whether lowering `s` gives exactly `pat` (which must already be
/// lowercase).
fn eq_lowered(s: &str, pat: &str) -> (r: bool)
    ensures
        r == (lower_seq(s@) == pat@),
{
    let n = s.unicode_len();
    if n != pat.unicode_len() {
        proof {
            assert(lower_seq(s@).len() == s@.len());
        }
        return false;
    }
    let mut i: usize = 0;
    while i < n
        invariant
            0 <= i <= n,
            n == s@.len(),
            n == pat@.len(),
            forall|t: int| 0 <= t < i ==> lower_char(s@[t]) == pat@[t],
        decreases n - i,
    {
        let c = s.get_char(i);
        let lc: char = if 'A' <= c && c <= 'Z' {
            ((c as u8) + 32) as char
        } else {
            c
        };
        if lc != pat.get_char(i) {
            proof {
                assert(lower_seq(s@)[i as int] == lower_char(s@[i as int]));
            }
            return false;
        }
        i += 1;
    }
    proof {
        assert(lower_seq(s@) =~= pat@);
    }
    true
}

impl AuthMode {
    /// The mode an environment value selects.
    pub fn from_env_value(raw: Option<&str>) -> (r: Self)
        ensures
            r == mode_of_env(match raw {
                Some(s) => Some(s@),
                None => None,
            }),
    {
        match raw {
            Some(s) => {
                if eq_lowered(s, "subscription") {
                    AuthMode::Subscription
                } else {
                    AuthMode::ApiKey
                }
            },
            None => AuthMode::ApiKey,
        }
    }

    /// The mode's name.
    pub fn as_str(self) -> (r: &'static str)
        ensures
            self is ApiKey ==> r@ == "api"@,
            self is Subscription ==> r@ == "subscription"@,
    {
        match self {
            AuthMode::ApiKey => "api",
            AuthMode::Subscription => "subscription",
        }
    }
}

/// The endpoint each mode talks to.
pub open spec fn profile_url(mode: AuthMode) -> Seq<char> {
    match mode {
        AuthMode::ApiKey => "https://api.openai.com/v1/responses"@,
        AuthMode::Subscription => "https://chatgpt.com/backend-api/codex/responses"@,
    }
}

/// The model each mode defaults to.
pub open spec fn profile_model(mode: AuthMode) -> Seq<char> {
    match mode {
        AuthMode::ApiKey => "gpt-4.1-mini"@,
        AuthMode::Subscription => "gpt-5.3-codex"@,
    }
}

/// The endpoint and default model of a mode.
pub fn auth_profile(mode: AuthMode) -> (r: AuthProfile)
    ensures
        r.url@ == profile_url(mode),
        r.default_model@ == profile_model(mode),
{
    match mode {
        AuthMode::ApiKey => AuthProfile {
            url: String::from_str("https://api.openai.com/v1/responses"),
            default_model: String::from_str("gpt-4.1-mini"),
        },
        AuthMode::Subscription => AuthProfile {
            url: String::from_str("https://chatgpt.com/backend-api/codex/responses"),
            default_model: String::from_str("gpt-5.3-codex"),
        },
    }
}

impl AuthConfig {
    /// Resolve the configuration from the two environment values: the
    /// requested mode and, when set, the model overriding the mode's
    /// default.
    pub fn resolve(mode_env: Option<&str>, model_env: Option<String>) -> (r: Self)
        ensures
            r.mode_spec() == mode_of_env(match mode_env {
                Some(s) => Some(s@),
                None => None,
            }),
            r.endpoint_spec() == profile_url(r.mode_spec()),
            r.model_spec() == match model_env {
                Some(m) => m@,
                None => profile_model(r.mode_spec()),
            },
    {
        let mode = AuthMode::from_env_value(mode_env);
        let profile = auth_profile(mode);
        let model = match model_env {
            Some(m) => m,
            None => profile.default_model,
        };
        AuthConfig { mode, url: profile.url, model }
    }

    pub closed spec fn mode_spec(&self) -> AuthMode {
        self.mode
    }

    pub closed spec fn endpoint_spec(&self) -> Seq<char> {
        self.url@
    }

    pub closed spec fn model_spec(&self) -> Seq<char> {
        self.model@
    }

    /// The configured mode's name.
    pub fn mode_name(&self) -> (r: &'static str)
        ensures
            self.mode_spec() is ApiKey ==> r@ == "api"@,
            self.mode_spec() is Subscription ==> r@ == "subscription"@,
    {
        self.mode.as_str()
    }

    /// The configured model.
    pub fn model(&self) -> (r: &str)
        ensures
            r@ == self.model_spec(),
    {
        self.model.as_str()
    }

    /// The configured endpoint.
    pub fn endpoint(&self) -> (r: &str)
        ensures
            r@ == self.endpoint_spec(),
    {
        self.url.as_str()
    }

    /// The configured mode.
    pub fn mode(&self) -> (r: AuthMode)
        ensures
            r == self.mode_spec(),
    {
        self.mode
    }
}

} // verus!
