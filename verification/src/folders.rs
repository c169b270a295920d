//! Where the program keeps its files.

use crate::config::Config;
use crate::paths::{join_path, joined};
use crate::sources::path_exists;
use crate::text::{concat2, opt_text};
use vstd::prelude::*;

verus! {

/// The folders that hold the program's files.
#[derive(Clone, Debug, PartialEq, Eq)]
pub struct Folders {
    /// what the user edits
    pub config: String,
    /// what the program keeps
    pub data: String,
    /// what is gone after logout, where there is such a folder
    pub runtime: Option<String>,
}

/// The folders as plain values.
pub struct FoldersView {
    pub config: Seq<char>,
    pub data: Seq<char>,
    pub runtime: Option<Seq<char>>,
}

impl View for Folders {
    type V = FoldersView;

    open spec fn view(&self) -> FoldersView {
        FoldersView {
            config: self.config@,
            data: self.data@,
            runtime: opt_text(self.runtime),
        }
    }
}

/// `directories::ProjectDirs::from` with `config_dir` and `data_dir`: the program's two folders,
/// as the environment gives them. Nothing is promised of them.
#[verifier::external_body]
fn project_folders() -> (r: Option<(String, String)>) {
    directories::ProjectDirs::from("com", "monsoon", "monsoon").map(
        |dirs| {
            let config = dirs.config_dir().to_string_lossy().to_string();
            (config, dirs.data_dir().to_string_lossy().to_string())
        })
}

/// The folder for files of this session, or else the one for data.
pub open spec fn session_folder(f: FoldersView) -> Seq<char> {
    match f.runtime {
        Some(folder) => folder,
        None => f.data,
    }
}

impl Folders {
    /// The folders as the system names them. The runtime folder counts only where it is there.
    pub fn from_dirs(dirs: Option<(String, String)>, runtime: Option<String>, runtime_exists: bool) -> (r:
        Result<Folders, String>)
        ensures
            r is Ok <==> dirs is Some,
            r matches Ok(f) ==> f@ == (FoldersView {
                config: (dirs->0).0@,
                data: (dirs->0).1@,
                runtime: if runtime_exists {
                    opt_text(runtime)
                } else {
                    None
                },
            }),
            r matches Err(why) ==> why@ == "determine app directories"@,
    {
        match dirs {
            Some((config, data)) => Ok(
                Folders { config, data, runtime: if runtime_exists { runtime } else { None } },
            ),
            None => Err("determine app directories".to_owned()),
        }
    }

    /// The folders of this user. `runtime` is what the environment names as the folder for
    /// files of this session.
    pub fn locate(runtime: Option<String>) -> (r: Result<Folders, String>)
        ensures
            r matches Ok(f) ==> f@.runtime == opt_text(runtime) || f@.runtime is None,
            r matches Err(why) ==> why@ == "determine app directories"@,
    {
        let exists = match &runtime {
            Some(folder) => path_exists(folder.as_str()),
            None => false,
        };
        Folders::from_dirs(project_folders(), runtime, exists)
    }
}

impl Config {
    /// The configuration.
    pub fn config_path(folders: &Folders) -> (r: String)
        ensures
            r@ == joined(folders@.config, "config.toml"@),
    {
        join_path(folders.config.as_str(), "config.toml")
    }

    /// The socket of the daemon, in the runtime folder where there is one.
    pub fn socket_path(folders: &Folders) -> (r: String)
        ensures
            r@ == joined(session_folder(folders@), "monsoon.sock"@),
    {
        match &folders.runtime {
            Some(folder) => join_path(folder.as_str(), "monsoon.sock"),
            None => join_path(folders.data.as_str(), "monsoon.sock"),
        }
    }

    /// The folder for what torrents resume from.
    pub fn resume_dir(folders: &Folders) -> (r: String)
        ensures
            r@ == joined(folders@.data, "resume"@),
    {
        join_path(folders.data.as_str(), "resume")
    }

    /// What a torrent resumes from.
    pub fn resume_path(folders: &Folders, info_hash: &str) -> (r: String)
        ensures
            r@ == joined(joined(folders@.data, "resume"@), info_hash@ + ".resume"@),
    {
        let folder = Config::resume_dir(folders);
        let name = concat2(info_hash, ".resume");
        join_path(folder.as_str(), name.as_str())
    }

    /// The list of known torrents, from which they are restored.
    pub fn torrent_list_path(folders: &Folders) -> (r: String)
        ensures
            r@ == joined(folders@.data, "torrents.json"@),
    {
        join_path(folders.data.as_str(), "torrents.json")
    }

    /// The definitions of categories.
    pub fn categories_path(folders: &Folders) -> (r: String)
        ensures
            r@ == joined(folders@.config, "categories.toml"@),
    {
        join_path(folders.config.as_str(), "categories.toml")
    }

    /// The rules by which torrents get tags.
    pub fn tag_rules_path(folders: &Folders) -> (r: String)
        ensures
            r@ == joined(folders@.config, "rules.toml"@),
    {
        join_path(folders.config.as_str(), "rules.toml")
    }

    /// The feeds.
    pub fn feeds_path(folders: &Folders) -> (r: String)
        ensures
            r@ == joined(folders@.config, "feeds.toml"@),
    {
        join_path(folders.config.as_str(), "feeds.toml")
    }

    /// What of the feeds was added already.
    pub fn rss_seen_path(folders: &Folders) -> (r: String)
        ensures
            r@ == joined(folders@.data, "rss_seen.json"@),
    {
        join_path(folders.data.as_str(), "rss_seen.json")
    }

    /// The number of a detached daemon's process, beside its socket.
    pub fn pid_path(folders: &Folders) -> (r: String)
        ensures
            r@ == joined(session_folder(folders@), "monsoon.pid"@),
    {
        match &folders.runtime {
            Some(folder) => join_path(folder.as_str(), "monsoon.pid"),
            None => join_path(folders.data.as_str(), "monsoon.pid"),
        }
    }

    /// What a detached daemon prints.
    pub fn log_path(folders: &Folders) -> (r: String)
        ensures
            r@ == joined(folders@.data, "daemon.log"@),
    {
        join_path(folders.data.as_str(), "daemon.log")
    }
}

} // verus!
