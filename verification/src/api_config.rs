//! The key of the title service and where it comes from.

use vstd::prelude::*;
use crate::text::{str_of, text_of, trim, trimmed};

verus! {

/// What the configuration file holds.
#[derive(Clone, Debug, PartialEq, Eq)]
pub struct APIConfig {
    pub tmdb_api_key: Option<String>,
}

impl Default for APIConfig {
    /// The configuration without a key.
    fn default() -> (config: APIConfig)
        ensures
            config.tmdb_api_key is None,
    {
        APIConfig { tmdb_api_key: None }
    }
}

impl APIConfig {
    /// The key as text.
    pub open spec fn key(&self) -> Option<Seq<char>> {
        text_of(self.tmdb_api_key)
    }

    /// The key, if there is one.
    pub fn api_key(&self) -> (key: Option<&str>)
        ensures
            str_of(key) == self.key(),
    {
        match &self.tmdb_api_key {
            Some(key) => Some(key.as_str()),
            None => None,
        }
    }

    /// The configuration with the key of the environment, which goes before
    /// the key of the file; without one in the environment nothing changes.
    pub fn with_env_key(self, env_key: Option<String>) -> (config: APIConfig)
        ensures
            config.key() == (match env_key {
                Some(key) => Some(key@),
                None => self.key(),
            }),
    {
        match env_key {
            Some(key) => APIConfig { tmdb_api_key: Some(key) },
            None => self,
        }
    }

    /// Whether the key has to be asked for.
    pub fn needs_key(&self) -> (b: bool)
        ensures
            b == (self.key() is None),
    {
        self.tmdb_api_key.is_none()
    }

    /// The configuration with the key that was typed in: the line without the
    /// whitespace at its ends.
    pub fn with_entered_key(self, line: &str) -> (config: APIConfig)
        ensures
            config.key() == Some(trimmed(line@)),
    {
        APIConfig { tmdb_api_key: Some(trim(line)) }
    }
}

} // verus!
