//! The in-process Tor backend.

use crate::cli::{FilePath, PathText};
use crate::framed::DEFAULT_MAX_MSG_LEN;
use crate::text::text_of;
use std::path::PathBuf;
use vstd::prelude::*;

verus! {

/// A path of the file system, carried as it is.
#[verifier::external_type_specification]
#[verifier::external_body]
pub struct ExPathBuf(std::path::PathBuf);

/// `Clone` of `PathBuf`: the clone is the same path.
pub assume_specification[ <PathBuf as Clone>::clone ](path: &PathBuf) -> (copy: PathBuf)
    ensures
        copy == *path,
;

/// A directory that the plugin takes from its environment.
#[derive(Debug, Clone, PartialEq, Eq)]
pub struct EnvDir {
    /// The environment variable that names the directory.
    pub var: String,
    /// The entry of the system's directory for temporary files that it is where the
    /// variable is not set.
    pub default_leaf: String,
}

impl EnvDir {
    /// The directory for the client's persistent state.
    pub fn state() -> (dir: Self)
        ensures
            dir.var@ == "FUNGI_ARTI_STATE_DIR"@,
            dir.default_leaf@ == "fungi-arti-state"@,
    {
        EnvDir {
            var: "FUNGI_ARTI_STATE_DIR".to_owned(),
            default_leaf: "fungi-arti-state".to_owned(),
        }
    }

    /// The directory for the client's network-directory cache.
    pub fn cache() -> (dir: Self)
        ensures
            dir.var@ == "FUNGI_ARTI_CACHE_DIR"@,
            dir.default_leaf@ == "fungi-arti-cache"@,
    {
        EnvDir {
            var: "FUNGI_ARTI_CACHE_DIR".to_owned(),
            default_leaf: "fungi-arti-cache".to_owned(),
        }
    }
}

/// The directory that a variable was set to, else `default_leaf` in the system's
/// directory for temporary files.
pub fn dir_or_default(set: Option<String>, temp_dir: &str, default_leaf: &str) -> (dir: FilePath)
    ensures
        dir@ == (match text_of(set) {
            Some(value) => PathText::Whole(value),
            None => PathText::Under { dir: temp_dir@, leaf: default_leaf@ },
        }),
{
    match set {
        Some(value) => FilePath::Whole(value),
        None => FilePath::Under { dir: temp_dir.to_owned(), leaf: default_leaf.to_owned() },
    }
}

/// Knobs for the in-process Tor backend.
#[derive(Debug)]
pub struct ArtiConfig {
    /// Directory for the client's persistent state (incl. onion-service keys:
    /// identity persists per nickname; point at a throwaway dir for an ephemeral
    /// identity).
    pub state_dir: PathBuf,
    /// Directory for the client's network-directory cache.
    pub cache_dir: PathBuf,
    /// Maximum framed message size, both directions.
    pub max_msg_len: usize,
}

impl ArtiConfig {
    /// A config with the default message-size limit.
    pub fn new<S: Into<PathBuf>, C: Into<PathBuf>>(state_dir: S, cache_dir: C) -> (config: Self)
        ensures
            call_ensures(<S as Into<PathBuf>>::into, (state_dir,), config.state_dir),
            call_ensures(<C as Into<PathBuf>>::into, (cache_dir,), config.cache_dir),
            config.max_msg_len == DEFAULT_MAX_MSG_LEN,
    {
        Self {
            state_dir: state_dir.into(),
            cache_dir: cache_dir.into(),
            max_msg_len: DEFAULT_MAX_MSG_LEN,
        }
    }
}

impl Clone for ArtiConfig {
    fn clone(&self) -> (copy: Self)
        ensures
            copy == *self,
    {
        ArtiConfig {
            state_dir: self.state_dir.clone(),
            cache_dir: self.cache_dir.clone(),
            max_msg_len: self.max_msg_len,
        }
    }
}

} // verus!
