//! Rules for finding and checking a configuration.
use vstd::prelude::*;
use crate::error::RusherError;

pub mod utils;

verus! {

/// Where a configuration is looked for: an explicit file or the default
/// places, and the prefix of the environment variables that override it.
pub struct ConfigLoader {
    config_path: Option<String>,
    env_prefix: String,
}

/// The message of the error for a configuration file that does not exist.
pub open spec fn missing_file_message(path: Seq<char>) -> Seq<char> {
    "配置文件不存在: "@ + path
}

impl ConfigLoader {
    /// The explicit configuration file, if one was given.
    pub closed spec fn path_view(&self) -> Option<Seq<char>> {
        match self.config_path {
            Some(p) => Some(p@),
            None => None,
        }
    }

    /// The prefix of the overriding environment variables.
    pub closed spec fn prefix_view(&self) -> Seq<char> {
        self.env_prefix@
    }

    /// A loader with no explicit file and the prefix `RUSHER`.
    pub fn new() -> (l: Self)
        ensures
            l.path_view() is None,
            l.prefix_view() == "RUSHER"@,
    {
        ConfigLoader { config_path: None, env_prefix: String::from_str("RUSHER") }
    }

    /// The same loader reading the file `path`.
    pub fn with_config_path(self, path: &str) -> (l: Self)
        ensures
            l.path_view() == Some(path@),
            l.prefix_view() == self.prefix_view(),
    {
        ConfigLoader { config_path: Some(String::from_str(path)), env_prefix: self.env_prefix }
    }

    /// The same loader with the environment prefix `prefix`.
    pub fn with_env_prefix(self, prefix: &str) -> (l: Self)
        ensures
            l.path_view() == self.path_view(),
            l.prefix_view() == prefix@,
    {
        ConfigLoader { config_path: self.config_path, env_prefix: String::from_str(prefix) }
    }

    /// The explicit configuration file, if one was given.
    pub fn config_path(&self) -> (p: Option<&str>)
        ensures
            match p {
                Some(s) => self.path_view() == Some(s@),
                None => self.path_view() is None,
            },
    {
        match &self.config_path {
            Some(p) => Some(p.as_str()),
            None => None,
        }
    }

    /// The prefix of the overriding environment variables.
    pub fn env_prefix(&self) -> (p: &str)
        ensures
            p@ == self.prefix_view(),
    {
        self.env_prefix.as_str()
    }

    /// The file to read the configuration from. With an explicit file,
    /// `explicit_exists` tells whether it exists; it is chosen if it does, and
    /// its absence is a configuration error. Without one, `default_exists[i]`
    /// tells whether the i-th default place exists, and the first one that
    /// exists is chosen (`None` if none does).
    pub fn config_file(&self, explicit_exists: bool, default_exists: &Vec<bool>) -> (r: Result<Option<String>, RusherError>)
        requires
            default_exists@.len() == utils::default_paths().len(),
        ensures
            match self.path_view() {
                Some(p) => if explicit_exists {
                    r matches Ok(Some(f)) && f@ == p
                } else {
                    r matches Err(RusherError::ConfigError(m)) && m@ == missing_file_message(p)
                },
                None => match r {
                    Ok(Some(f)) => utils::first_existing(utils::default_paths(), default_exists@) == Some(f@),
                    Ok(None) => utils::first_existing(utils::default_paths(), default_exists@) is None,
                    Err(_) => false,
                },
            },
    {
        match &self.config_path {
            Some(p) => {
                if explicit_exists {
                    Ok(Some(p.clone()))
                } else {
                    let mut m = String::from_str("配置文件不存在: ");
                    m.append(p.as_str());
                    Err(RusherError::ConfigError(m))
                }
            },
            None => {
                let paths = utils::default_config_paths();
                Ok(utils::first_existing_path(&paths, default_exists))
            },
        }
    }
}

impl Default for ConfigLoader {
    /// Same as `ConfigLoader::new`.
    fn default() -> (l: Self)
        ensures
            l.path_view() is None,
            l.prefix_view() == "RUSHER"@,
    {
        Self::new()
    }
}

} // verus!
