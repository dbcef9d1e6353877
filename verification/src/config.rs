//! The configuration of a repository.

use crate::hash::HashAlgorithm;
use vstd::prelude::*;

verus! {

/// The name of the configuration file in the repository directory.
pub const CONFIG_FILE_NAME: &'static str = "config";

/// The section `core`.
#[derive(Debug, Clone, Copy, PartialEq, Eq, Structural)]
pub struct CoreConfig {
    pub repositoryformatversion: u32,
    pub filemode: bool,
    pub bare: bool,
    pub logallrefupdates: bool,
    pub ignorecase: bool,
    pub precomposeunicode: bool,
    pub symlinks: bool,
}

/// The values that `core` has where the file does not set them.
pub open spec fn core_defaults() -> CoreConfig {
    CoreConfig {
        repositoryformatversion: 1,
        filemode: true,
        bare: false,
        logallrefupdates: true,
        ignorecase: false,
        precomposeunicode: true,
        symlinks: true,
    }
}

impl Default for CoreConfig {
    fn default() -> (c: CoreConfig)
        ensures
            c == core_defaults(),
    {
        CoreConfig {
            repositoryformatversion: 1,
            filemode: true,
            bare: false,
            logallrefupdates: true,
            ignorecase: false,
            precomposeunicode: true,
            symlinks: true,
        }
    }
}

/// The section `extensions`.
#[derive(Debug, Clone, Copy, PartialEq, Eq, Structural)]
pub struct ExtensionsConfig {
    pub objectformat: HashAlgorithm,
}

impl Default for ExtensionsConfig {
    fn default() -> (c: ExtensionsConfig)
        ensures
            c.objectformat == HashAlgorithm::Sha1,
    {
        ExtensionsConfig { objectformat: HashAlgorithm::Sha1 }
    }
}

/// The section `user`: who makes the commits and tags.
#[derive(Debug, Clone, PartialEq, Eq)]
pub struct UserConfig {
    pub name: Option<Vec<u8>>,
    pub email: Option<Vec<u8>>,
}

impl Default for UserConfig {
    fn default() -> (c: UserConfig)
        ensures
            c.name is None,
            c.email is None,
    {
        UserConfig { name: None, email: None }
    }
}

/// The configuration.
#[derive(Debug, Clone, PartialEq, Eq)]
pub struct GitConfig {
    pub core: CoreConfig,
    pub user: UserConfig,
    pub extensions: ExtensionsConfig,
}

impl Default for GitConfig {
    fn default() -> (c: GitConfig)
        ensures
            c.core == core_defaults(),
            c.user.name is None,
            c.user.email is None,
            c.extensions.objectformat == HashAlgorithm::Sha1,
    {
        GitConfig {
            core: CoreConfig::default(),
            user: UserConfig::default(),
            extensions: ExtensionsConfig::default(),
        }
    }
}

impl GitConfig {
    /// The configuration of a repository: what its file holds, or the
    /// defaults where it has no file.
    pub fn new(file: Option<GitConfig>) -> (c: GitConfig)
        ensures
            match file {
                Some(held) => c == held,
                None => c.core == core_defaults() && c.user.name is None && c.user.email is None
                    && c.extensions.objectformat == HashAlgorithm::Sha1,
            },
    {
        match file {
            Some(held) => held,
            None => GitConfig::default(),
        }
    }

    /// The name and the email address of the user, where both are set.
    pub fn identity(&self) -> (r: Option<(&Vec<u8>, &Vec<u8>)>)
        ensures
            match r {
                Some((name, email)) => self.user.name == Some(*name) && self.user.email == Some(
                    *email,
                ),
                None => self.user.name is None || self.user.email is None,
            },
    {
        match (&self.user.name, &self.user.email) {
            (Some(name), Some(email)) => Some((name, email)),
            _ => None,
        }
    }
}

} // verus!
