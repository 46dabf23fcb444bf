//! Token and channel resolution, and where the config file lives. Reading
//! and writing the file is left to the application.

use std::collections::HashMap;
use vstd::prelude::*;
use crate::discord::error::{plain_error, AppError, ErrorKind};
use crate::paths::{path_join, path_joined};

verus! {

/// On-disk config at `~/.areum/discord/config.json`. Both fields optional.
#[derive(Debug, Default)]
pub struct Config {
    pub token: Option<String>,
    pub channels: HashMap<String, String>,
}

pub open spec fn opt_view(o: Option<&str>) -> Option<Seq<char>> {
    match o {
        Some(s) => Some(s@),
        None => None,
    }
}

/// The message when no token is found anywhere.
pub open spec fn no_token_message() -> Seq<char> {
    "no bot token: set --token, export DISCORD_BOT_TOKEN, or create ~/.areum/discord/config.json (chmod 600) with {\"token\":\"...\"}"@
}

/// Token precedence: the flag, then the environment, then the config file.
pub open spec fn token_choice(flag: Option<Seq<char>>, env: Option<Seq<char>>, config_token: Option<Seq<char>>) -> Option<Seq<char>> {
    if flag is Some { flag } else if env is Some { env } else { config_token }
}

/// Token precedence: a given `--token` is the token whatever the
/// environment and the config hold; without it an exported
/// `DISCORD_BOT_TOKEN` is the token whatever the config holds; only when
/// both are absent does the config's token count, and with none of the
/// three there is no token.
pub proof fn lemma_token_precedence(
    flag: Seq<char>,
    env: Option<Seq<char>>,
    config_token: Option<Seq<char>>,
    other_env: Option<Seq<char>>,
    other_config: Option<Seq<char>>,
)
    ensures
        token_choice(Some(flag), env, config_token) == Some(flag),
        token_choice(Some(flag), env, config_token) == token_choice(Some(flag), other_env, other_config),
        env matches Some(t) ==> token_choice(None, env, config_token) == Some(t),
        env is Some ==> token_choice(None, env, config_token) == token_choice(None, env, other_config),
        token_choice(None, None, config_token) == config_token,
        token_choice(None, None, None) is None,
{
}

/// Resolves the bot token by precedence: flag > env > config. Fails fast
/// when none is present.
pub fn resolve_token(flag: Option<&str>, env: Option<&str>, config_token: Option<&str>) -> (r: Result<String, AppError>)
    ensures
        match token_choice(opt_view(flag), opt_view(env), opt_view(config_token)) {
            Some(t) => r matches Ok(s) && s@ == t,
            None => r matches Err(e) && plain_error(ErrorKind::Config, no_token_message(), e),
        },
{
    let chosen = match flag {
        Some(t) => Some(t),
        None => match env {
            Some(t) => Some(t),
            None => config_token,
        },
    };
    match chosen {
        Some(t) => Ok(t.to_owned()),
        None => Err(AppError::new(
            ErrorKind::Config,
            "no bot token: set --token, export DISCORD_BOT_TOKEN, or create ~/.areum/discord/config.json (chmod 600) with {\"token\":\"...\"}",
        )),
    }
}

/// `HashMap::get` on a map keyed by `String`, looked up by `&str`: `String`
/// hashes and compares by its characters, so the lookup finds the entry
/// whose key has `key`'s characters.
#[verifier::external_body]
fn lookup(map: &HashMap<String, String>, key: &str) -> (r: Option<String>)
    ensures
        match r {
            Some(v) => map.deep_view().contains_key(key@) && map.deep_view()[key@] == v@,
            None => !map.deep_view().contains_key(key@),
        },
{
    map.get(key).cloned()
}

/// Substitutes a config alias with its channel id; an unknown value passes
/// through unchanged (treated as a raw channel id).
pub fn resolve_channel(input: &str, channels: &HashMap<String, String>) -> (r: String)
    ensures
        channels.deep_view().contains_key(input@) ==> r@ == channels.deep_view()[input@],
        !channels.deep_view().contains_key(input@) ==> r@ == input@,
{
    match lookup(channels, input) {
        Some(id) => id,
        None => input.to_owned(),
    }
}

/// Where the config lives: `~/.areum/discord/config.json` under `home`.
/// Without a home directory the file cannot be located.
pub fn default_config_path(home: Option<&str>) -> (r: Result<std::path::PathBuf, AppError>)
    ensures
        match home {
            Some(h) => r == Ok::<std::path::PathBuf, AppError>(path_joined(h@, ".areum/discord/config.json"@)),
            None => r matches Err(e) && plain_error(
                ErrorKind::Config,
                "HOME is not set; cannot locate ~/.areum/discord/config.json"@,
                e,
            ),
        },
{
    match home {
        Some(h) => Ok(path_join(h, ".areum/discord/config.json")),
        None => Err(AppError::new(ErrorKind::Config, "HOME is not set; cannot locate ~/.areum/discord/config.json")),
    }
}

} // verus!
