//! Where the application keeps its files, as a function of the host's
//! environment. Paths are strings with `/` between their parts.

use crate::text::{concat2, concat3, ends_with_char, starts_with};
use vstd::prelude::*;

verus! {

/// The operating system the application runs on.
#[derive(Clone, Copy, Debug, PartialEq, Eq, Structural)]
pub enum Platform {
    Windows,
    MacOs,
    Other,
}

/// What the configuration paths depend on: the platform and the two
/// environment variables that may name the user's home directory.
pub struct HostEnv {
    pub platform: Platform,
    pub home: Option<String>,
    pub user_profile: Option<String>,
}

/// Why no configuration directory could be named.
#[derive(Clone, Copy, Debug, PartialEq, Eq, Structural)]
pub enum ConfigError {
    /// `HOME` is not set.
    HomeUnresolved,
    /// On Windows neither `USERPROFILE` nor `HOME` is set.
    UserProfileOrHomeUnresolved,
}

impl ConfigError {
    pub open spec fn text(self) -> Seq<char> {
        match self {
            ConfigError::HomeUnresolved => "Unable to resolve HOME"@,
            ConfigError::UserProfileOrHomeUnresolved => "Unable to resolve USERPROFILE/HOME"@,
        }
    }

    /// The error as the message shown to the user.
    pub fn message(&self) -> (out: String)
        ensures
            out@ == self.text(),
    {
        match self {
            ConfigError::HomeUnresolved => "Unable to resolve HOME".to_owned(),
            ConfigError::UserProfileOrHomeUnresolved => {
                "Unable to resolve USERPROFILE/HOME".to_owned()
            },
        }
    }
}

/// `name` appended to the directory `dir`: an absolute `name` stands for
/// itself, and a separator is added unless `dir` is empty or ends in one.
pub open spec fn join_path(dir: Seq<char>, name: Seq<char>) -> Seq<char> {
    if "/"@.is_prefix_of(name) {
        name
    } else if dir.len() > 0 && dir.last() != '/' {
        dir + "/"@ + name
    } else {
        dir + name
    }
}

/// Joins one more part onto a path.
pub fn join(dir: &str, name: &str) -> (out: String)
    ensures
        out@ == join_path(dir@, name@),
{
    if starts_with(name, "/") {
        name.to_owned()
    } else if !dir.is_empty() && !ends_with_char(dir, '/') {
        concat3(dir, "/", name)
    } else {
        concat2(dir, name)
    }
}

/// A path with a leading `~/` read as the home directory, where one is
/// known.
pub open spec fn expanded_path(path: Seq<char>, home: Option<Seq<char>>) -> Seq<char> {
    match home {
        Some(h) => if "~/"@.is_prefix_of(path) {
            join_path(h, path.skip(2))
        } else {
            path
        },
        None => path,
    }
}

/// The path that a user means: below the home directory `home` where the
/// path begins with `~/`, and the path itself otherwise or where no home
/// directory is known.
pub fn expand_user_path(path: &str, home: Option<&str>) -> (out: String)
    ensures
        out@ == expanded_path(
            path@,
            match home {
                Some(h) => Some(h@),
                None => None,
            },
        ),
{
    match home {
        Some(h) => {
            if starts_with(path, "~/") {
                proof {
                    reveal_strlit("~/");
                }
                let rest = crate::text::skip_chars(path, 2);
                join(h, rest.as_str())
            } else {
                path.to_owned()
            }
        },
        None => path.to_owned(),
    }
}

/// The home directory that the configuration lives under, if the
/// environment names one.
pub open spec fn home_dir(env: HostEnv) -> Option<Seq<char>> {
    match env.platform {
        Platform::Windows => match env.user_profile {
            Some(p) => Some(p@),
            None => match env.home {
                Some(h) => Some(h@),
                None => None,
            },
        },
        _ => match env.home {
            Some(h) => Some(h@),
            None => None,
        },
    }
}

/// The configuration directory below the home directory `home`.
pub open spec fn config_dir_under(platform: Platform, home: Seq<char>) -> Seq<char> {
    match platform {
        Platform::MacOs => join_path(
            join_path(join_path(home, "Library"@), "Application Support"@),
            "object0"@,
        ),
        _ => join_path(join_path(home, ".config"@), "object0"@),
    }
}

/// The configuration directory for `env`, or the error that names the
/// missing variable.
pub open spec fn config_dir(env: HostEnv) -> Result<Seq<char>, ConfigError> {
    match home_dir(env) {
        Some(home) => Ok(config_dir_under(env.platform, home)),
        None => match env.platform {
            Platform::Windows => Err(ConfigError::UserProfileOrHomeUnresolved),
            _ => Err(ConfigError::HomeUnresolved),
        },
    }
}

/// The file `name` in the configuration directory.
pub open spec fn config_file(env: HostEnv, name: Seq<char>) -> Result<Seq<char>, ConfigError> {
    match config_dir(env) {
        Ok(dir) => Ok(join_path(dir, name)),
        Err(e) => Err(e),
    }
}

/// Whether `out` is the path or the error that `expected` stands for.
pub open spec fn path_result_is(
    out: Result<String, ConfigError>,
    expected: Result<Seq<char>, ConfigError>,
) -> bool {
    match expected {
        Ok(path) => out matches Ok(p) && p@ == path,
        Err(e) => out == Err::<String, ConfigError>(e),
    }
}

/// The directory that holds the application's files: `Library/Application
/// Support/object0` under the home directory on macOS, `.config/object0`
/// elsewhere. On Windows the home directory is `USERPROFILE`, or `HOME` when
/// that is not set.
pub fn object0_config_dir(env: &HostEnv) -> (out: Result<String, ConfigError>)
    ensures
        path_result_is(out, config_dir(*env)),
{
    let home: &String = match env.platform {
        Platform::Windows => match &env.user_profile {
            Some(p) => p,
            None => match &env.home {
                Some(h) => h,
                None => {
                    return Err(ConfigError::UserProfileOrHomeUnresolved);
                },
            },
        },
        _ => match &env.home {
            Some(h) => h,
            None => {
                return Err(ConfigError::HomeUnresolved);
            },
        },
    };
    match env.platform {
        Platform::MacOs => {
            let library = join(home.as_str(), "Library");
            let support = join(library.as_str(), "Application Support");
            Ok(join(support.as_str(), "object0"))
        },
        _ => {
            let config = join(home.as_str(), ".config");
            Ok(join(config.as_str(), "object0"))
        },
    }
}

fn in_config_dir(env: &HostEnv, name: &str) -> (out: Result<String, ConfigError>)
    ensures
        path_result_is(out, config_file(*env, name@)),
{
    match object0_config_dir(env) {
        Ok(dir) => Ok(join(dir.as_str(), name)),
        Err(e) => Err(e),
    }
}

/// The encrypted credential vault.
pub fn vault_path(env: &HostEnv) -> (out: Result<String, ConfigError>)
    ensures
        path_result_is(out, config_file(*env, "vault.enc"@)),
{
    in_config_dir(env, "vault.enc")
}

/// The list of favourite locations.
pub fn favorites_path(env: &HostEnv) -> (out: Result<String, ConfigError>)
    ensures
        path_result_is(out, config_file(*env, "favorites.json"@)),
{
    in_config_dir(env, "favorites.json")
}

/// The list of folder-sync rules.
pub fn folder_sync_rules_path(env: &HostEnv) -> (out: Result<String, ConfigError>)
    ensures
        path_result_is(out, config_file(*env, "folder-sync-rules.json"@)),
{
    in_config_dir(env, "folder-sync-rules.json")
}

/// The baseline records of the rule `rule_id`:
/// `folder-sync/<rule_id>.json` in the configuration directory.
pub fn folder_sync_records_path(env: &HostEnv, rule_id: &str) -> (out: Result<
    String,
    ConfigError,
>)
    ensures
        path_result_is(
            out,
            match config_file(*env, "folder-sync"@) {
                Ok(dir) => Ok(join_path(dir, rule_id@ + ".json"@)),
                Err(e) => Err(e),
            },
        ),
{
    match in_config_dir(env, "folder-sync") {
        Ok(dir) => {
            let name = concat2(rule_id, ".json");
            Ok(join(dir.as_str(), name.as_str()))
        },
        Err(e) => Err(e),
    }
}

/// The persisted job history.
pub fn job_history_path(env: &HostEnv) -> (out: Result<String, ConfigError>)
    ensures
        path_result_is(out, config_file(*env, "job-history.json"@)),
{
    in_config_dir(env, "job-history.json")
}

} // verus!
