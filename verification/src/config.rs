//! The application settings and the choice of token.
use vstd::prelude::*;

use crate::text::{is_blank, trim_spec};

verus! {

/// The saved settings: the user's GitHub login and personal access token.
/// Both are empty by default.
pub struct AppConfig {
    pub github_username: String,
    pub token: String,
}

impl Default for AppConfig {
    fn default() -> (r: Self)
        ensures
            r.github_username@ == Seq::<char>::empty(),
            r.token@ == Seq::<char>::empty(),
    {
        AppConfig { github_username: String::new(), token: String::new() }
    }
}

/// Whether a token is blank (empty or whitespace only).
pub open spec fn token_is_blank(token: Seq<char>) -> bool {
    trim_spec(token).len() == 0
}

/// The token to use after the settings were saved: none when the saved
/// token is blank, the saved token otherwise.
pub fn token_from_config(token: String) -> (r: Option<String>)
    ensures
        token_is_blank(token@) ==> r is None,
        !token_is_blank(token@) ==> r == Some(token),
{
    if is_blank(token.as_str()) {
        None
    } else {
        Some(token)
    }
}

/// The token to use at start-up: the saved token unless it is blank;
/// otherwise the one from the environment unless it is missing or blank;
/// otherwise none, and the client runs anonymously.
pub fn startup_token(config_token: String, env_token: Option<String>) -> (r: Option<String>)
    ensures
        !token_is_blank(config_token@) ==> r == Some(config_token),
        token_is_blank(config_token@) ==> r == (match env_token {
            Some(e) => if token_is_blank(e@) {
                None
            } else {
                Some(e)
            },
            None => None,
        }),
        r matches Some(t) ==> !token_is_blank(t@),
{
    if is_blank(config_token.as_str()) {
        match env_token {
            Some(e) => token_from_config(e),
            None => None,
        }
    } else {
        Some(config_token)
    }
}

} // verus!
