//! The run configuration: an explicit immutable object handed by reference
//! into every component, in place of ambient environment lookups.

use vstd::prelude::*;

use crate::envfile::key_prefix;
use crate::text::{chars_of_str, has_prefix, starts_with_pattern};

verus! {

/// Configuration errors.
#[derive(Debug, Clone, PartialEq, Eq)]
pub enum ConfigError {
    /// No usable API key was supplied by argument, environment or env file.
    ApiKeyNotFound,
}

/// Configuration for one run of the transcriber.
#[derive(Debug)]
pub struct Config {
    /// The transcription backend's API key; always starts with `sk-`.
    pub api_key: String,
    /// Language code handed to the backend, e.g. `en`.
    pub language: Option<String>,
    /// Free-text context to improve transcription accuracy.
    pub prompt: Option<String>,
    /// Upper bound on the number of episodes or videos to process.
    pub limit: Option<usize>,
    /// Root directory for the transcript tree.
    pub output_dir: String,
}

/// A usable API key starts with `sk-`.
pub open spec fn valid_api_key(k: Seq<char>) -> bool {
    has_prefix(k, key_prefix())
}

/// The key the configuration settles on: the explicit argument first, the
/// process environment second, the env file third.
pub open spec fn resolved_key(
    arg_key: Option<String>,
    env_key: Option<String>,
    file_key: Option<String>,
) -> Option<String> {
    if arg_key is Some {
        arg_key
    } else if env_key is Some {
        env_key
    } else {
        file_key
    }
}

impl Config {
    /// Builds the configuration. The API key is taken from the explicit
    /// argument, the process environment, or the env file, in that order,
    /// and must start with `sk-`; otherwise configuration fails.
    pub fn new(
        arg_key: Option<String>,
        env_key: Option<String>,
        file_key: Option<String>,
        language: Option<String>,
        prompt: Option<String>,
        limit: Option<usize>,
        output_dir: String,
    ) -> (r: Result<Config, ConfigError>)
        ensures
            match resolved_key(arg_key, env_key, file_key) {
                Some(k) => {
                    if valid_api_key(k@) {
                        r matches Ok(c) && c.api_key@ == k@ && c.language == language && c.prompt
                            == prompt && c.limit == limit && c.output_dir == output_dir
                    } else {
                        r matches Err(e) && e is ApiKeyNotFound
                    }
                },
                None => r matches Err(e) && e is ApiKeyNotFound,
            },
    {
        let picked: Option<String> = match arg_key {
            Some(k) => Some(k),
            None => match env_key {
                Some(k) => Some(k),
                None => file_key,
            },
        };
        match picked {
            Some(k) => {
                let cs = chars_of_str(k.as_str());
                let prefix = crate::envfile::key_prefix_chars();
                if starts_with_pattern(&cs, &prefix) {
                    Ok(Config { api_key: k, language, prompt, limit, output_dir })
                } else {
                    Err(ConfigError::ApiKeyNotFound)
                }
            },
            None => Err(ConfigError::ApiKeyNotFound),
        }
    }
}

} // verus!
