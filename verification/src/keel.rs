//! Keel Cloud settings: the stored token and URL, overridable by the
//! environment (`$KEEL_CLOUD_TOKEN`, `$KEEL_CLOUD_URL`), falling back to the
//! production URL. Reading the file and the environment is the caller's part.

use vstd::prelude::*;

use crate::error::CoreError;
use crate::sites::opt_view;
use crate::text::{
    from_chars, push_str, str_eq, str_is_empty, to_chars, trim, trim_end_matches,
    trim_end_matches_chars, trim_str,
};

verus! {

/// The production Keel Cloud URL.
pub const DEFAULT_URL: &'static str = "https://app.keeljs.cloud";

/// Sent as the User-Agent on every API call: `dpl/<version>`.
pub fn user_agent(version: &str) -> (r: String)
    ensures
        r@ == "dpl/"@ + version@,
{
    let mut s = String::from_str("dpl/");
    push_str(&mut s, version);
    s
}

/// Errors of the Keel Cloud client that the library decides.
#[derive(Debug)]
pub enum KeelApiError {
    NotAuthenticated { url: String },
    /// The API answered with an error envelope.
    Api { status: u16, message: String },
    Config(String),
}

/// `e` is a settings error with message `m`.
pub open spec fn config_error_is(e: KeelApiError, m: Seq<char>) -> bool {
    match e {
        KeelApiError::Config(s) => s@ == m,
        _ => false,
    }
}

/// Where the Keel Cloud settings are kept.
pub struct KeelConfig {
    pub path: String,
}

/// The message of a home-directory failure.
pub open spec fn no_home_message() -> Seq<char> {
    "could not resolve $HOME \u{2014} set HOME or pass --config-dir"@
}

/// The effective base URL: a non-empty environment value, else the stored
/// one, else production; trailing `/`s dropped.
pub open spec fn effective_url(env_url: Option<Seq<char>>, file_url: Option<Seq<char>>) -> Seq<char> {
    let u = if env_url matches Some(e) && e.len() > 0 {
        env_url->0
    } else if file_url is Some {
        file_url->0
    } else {
        DEFAULT_URL@
    };
    trim_end_matches(u, seq!['/'])
}

/// The effective token: a non-empty environment value, else the stored one.
pub open spec fn effective_token(env_token: Option<Seq<char>>, file_token: Option<Seq<char>>) -> Option<Seq<char>> {
    if env_token matches Some(e) && e.len() > 0 {
        env_token
    } else {
        file_token
    }
}

impl KeelConfig {
    /// The settings file `.keel/cloud.json` under the home directory (the
    /// override first, then `$HOME`, then the platform's answer).
    pub fn new(home_override: Option<&str>, env_home: Option<&str>, platform_home: Option<&str>) -> (r:
        Result<KeelConfig, KeelApiError>)
        ensures
            r matches Ok(c) ==> crate::paths::home_of(
                crate::node::opt_str(home_override),
                crate::node::opt_str(env_home),
                crate::node::opt_str(platform_home),
            ) matches Some(h) && c.path@ == crate::paths::path_join(h, ".keel/cloud.json"@),
            r matches Err(e) ==> crate::paths::home_of(
                crate::node::opt_str(home_override),
                crate::node::opt_str(env_home),
                crate::node::opt_str(platform_home),
            ) is None && config_error_is(e, no_home_message()),
    {
        match crate::paths::home(home_override, env_home, platform_home) {
            Ok(h) => Ok(KeelConfig { path: crate::paths::join(h.as_str(), ".keel/cloud.json") }),
            Err(_) => Err(
                KeelApiError::Config(
                    String::from_str("could not resolve $HOME \u{2014} set HOME or pass --config-dir"),
                ),
            ),
        }
    }

    /// Effective base URL: environment, then the stored URL, then production.
    pub fn url(&self, env_url: Option<&str>, file_url: Option<&str>) -> (r: String)
        ensures
            r@ == effective_url(crate::node::opt_str(env_url), crate::node::opt_str(file_url)),
    {
        let u: &str = match env_url {
            Some(e) if !str_is_empty(e) => e,
            _ => match file_url {
                Some(f) => f,
                None => DEFAULT_URL,
            },
        };
        let slash = ['/'];
        assert(slash@ =~= seq!['/']);
        from_chars(&trim_end_matches_chars(&to_chars(u), &slash))
    }

    /// Effective token: environment, then the stored token.
    pub fn token(&self, env_token: Option<&str>, file_token: Option<&str>) -> (r: Option<String>)
        ensures
            opt_view(r) == effective_token(crate::node::opt_str(env_token), crate::node::opt_str(file_token)),
    {
        match env_token {
            Some(e) if !str_is_empty(e) => Some(String::from_str(e)),
            _ => match file_token {
                Some(f) => Some(String::from_str(f)),
                None => None,
            },
        }
    }
}

/// What logging in stores: the URL without trailing `/`s, kept only when it
/// is not empty and not the production URL, and the token trimmed.
pub open spec fn login_record(token: Seq<char>, url: Option<Seq<char>>) -> (Option<Seq<char>>, Seq<char>) {
    let u = match url {
        Some(x) => {
            let t = trim_end_matches(x, seq!['/']);
            if t.len() > 0 && t != DEFAULT_URL@ {
                Some(t)
            } else {
                None
            }
        },
        None => None,
    };
    (u, trim(token))
}

/// The URL and token a login stores.
pub fn login_entry(token: &str, url: Option<&str>) -> (r: (Option<String>, String))
    ensures
        (opt_view(r.0), r.1@) == login_record(token@, crate::node::opt_str(url)),
{
    let u = match url {
        Some(x) => {
            let slash = ['/'];
            assert(slash@ =~= seq!['/']);
            let t = from_chars(&trim_end_matches_chars(&to_chars(x), &slash));
            if !str_is_empty(t.as_str()) && !str_eq(t.as_str(), DEFAULT_URL) {
                Some(t)
            } else {
                None
            }
        },
        None => None,
    };
    (u, trim_str(token))
}

} // verus!
