//! Where the configuration file lives.

use vstd::prelude::*;
use vstd::string::StrSliceExecFns;

verus! {

/// Finds, reads and writes the configuration file.
pub struct ConfigManager;

/// The directory of the downloader inside the system's configuration directory.
pub const APP_DIR_NAME: &'static str = "rplaceDownloader";

/// The configuration file inside the downloader's directory.
pub const CONFIG_FILE_NAME: &'static str = "config.json";

/// `name` appended to the path `base`, as `Path::join` does on Unix: an
/// absolute `name` replaces `base`; otherwise a `/` goes between them unless
/// `base` is empty or already ends with one.
pub open spec fn join_path(base: Seq<char>, name: Seq<char>) -> Seq<char> {
    if name.len() > 0 && name[0] == '/' {
        name
    } else if base.len() == 0 || base.last() == '/' {
        base + name
    } else {
        base + seq!['/'] + name
    }
}

/// The downloader's directory, given the system's configuration directory
/// (the root where there is none).
pub open spec fn config_dir_path(system_config_dir: Option<Seq<char>>) -> Seq<char> {
    let base = match system_config_dir {
        Some(dir) => dir,
        None => "/"@,
    };
    join_path(base, APP_DIR_NAME@)
}

/// `name` appended to the path `base`.
pub fn join(base: &str, name: &str) -> (path: String)
    ensures
        path@ == join_path(base@, name@),
{
    if name.unicode_len() > 0 && name.get_char(0) == '/' {
        return name.to_owned();
    }
    let mut path = base.to_owned();
    let n = base.unicode_len();
    if n == 0 || base.get_char(n - 1) == '/' {
        path.append(name);
    } else {
        proof {
            reveal_strlit("/");
        }
        path.append("/");
        path.append(name);
    }
    path
}

impl ConfigManager {
    /// The downloader's directory inside the system's configuration directory
    /// (inside the root where the system has none).
    pub fn config_dir_for(system_config_dir: Option<String>) -> (dir: String)
        ensures
            dir@ == config_dir_path(
                match system_config_dir {
                    Some(d) => Some(d@),
                    None => None,
                },
            ),
    {
        let base = match system_config_dir {
            Some(d) => d,
            None => "/".to_owned(),
        };
        join(base.as_str(), APP_DIR_NAME)
    }

    /// The configuration file inside the downloader's directory.
    pub fn config_file_in(config_dir: &str) -> (file: String)
        ensures
            file@ == join_path(config_dir@, CONFIG_FILE_NAME@),
    {
        join(config_dir, CONFIG_FILE_NAME)
    }
}

} // verus!
