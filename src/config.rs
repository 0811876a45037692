use std::collections::HashMap;

use vstd::prelude::*;

verus! {

/// The launcher's settings file: where things are, where the patch comes from, and how
/// the game is run.
pub struct Config {
    pub paths: Paths,
    pub patch: Patch,
    pub wine: Wine,
}

/// Locations on disk.
pub struct Paths {
    /// The installation root.
    pub game: String,
    /// The local copy of the patch repository.
    pub patch: String,
}

/// Where the patch is fetched from.
pub struct Patch {
    /// Mirror repositories, in order of preference.
    pub hosts: Vec<String>,
}

/// How the game is launched.
pub struct Wine {
    pub prefix: String,
    pub executable: String,
    pub environment: HashMap<String, String>,
}

impl Default for Paths {
    fn default() -> (r: Self)
        ensures
            r.game@.len() == 0,
            r.patch@.len() == 0,
    {
        Paths { game: String::new(), patch: String::new() }
    }
}

impl Default for Patch {
    fn default() -> (r: Self)
        ensures
            r.hosts@.len() == 0,
    {
        Patch { hosts: Vec::new() }
    }
}

impl Default for Wine {
    fn default() -> (r: Self)
        ensures
            r.prefix@.len() == 0,
            r.executable@.len() == 0,
            r.environment@ == Map::<String, String>::empty(),
    {
        Wine { prefix: String::new(), executable: String::new(), environment: HashMap::new() }
    }
}

impl Default for Config {
    fn default() -> (r: Self)
        ensures
            r.paths.game@.len() == 0,
            r.paths.patch@.len() == 0,
            r.patch.hosts@.len() == 0,
            r.wine.prefix@.len() == 0,
            r.wine.executable@.len() == 0,
            r.wine.environment@ == Map::<String, String>::empty(),
    {
        Config { paths: Paths::default(), patch: Patch::default(), wine: Wine::default() }
    }
}

/// Why a command cannot start from the settings it was given.
#[derive(PartialEq, Eq, Structural, Clone, Copy, Debug)]
pub enum ConfigError {
    /// The installation root is not set.
    GamePathMissing,
    /// No patch mirror is listed.
    PatchHostsMissing,
}

/// The installation root, which must be set.
pub fn game_root(paths: &Paths) -> (r: Result<String, ConfigError>)
    ensures
        paths.game@.len() == 0 <==> r == Err::<String, ConfigError>(ConfigError::GamePathMissing),
        paths.game@.len() > 0 <==> r is Ok,
        r matches Ok(root) ==> root@ == paths.game@,
{
    if paths.game.unicode_len() == 0 {
        Err(ConfigError::GamePathMissing)
    } else {
        Ok(paths.game.clone())
    }
}

/// The mirrors a patch sync tries, in order: every listed one when `recursive`, else
/// the first alone.
pub fn sync_hosts(patch: &Patch, recursive: bool) -> (r: Result<Vec<String>, ConfigError>)
    ensures
        patch.hosts@.len() == 0 <==> r == Err::<Vec<String>, ConfigError>(
            ConfigError::PatchHostsMissing,
        ),
        patch.hosts@.len() > 0 <==> r is Ok,
        r matches Ok(hosts) ==> hosts@ == if recursive {
            patch.hosts@
        } else {
            patch.hosts@.take(1)
        },
{
    if patch.hosts.len() == 0 {
        return Err(ConfigError::PatchHostsMissing);
    }
    if recursive {
        Ok(patch.hosts.clone())
    } else {
        let mut first: Vec<String> = Vec::new();
        first.push(patch.hosts[0].clone());
        assert(first@ =~= patch.hosts@.take(1));
        Ok(first)
    }
}

} // verus!
