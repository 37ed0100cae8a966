//! The application settings: the GitHub OAuth client id and the name of the
//! private repository that encrypted history is synced to.
use vstd::prelude::*;
use vstd::string::StringExecFns;
use crate::store::{join_path, join_path_text};

verus! {

/// The settings kept in `config.json`.
#[derive(Debug, Clone, Default, PartialEq, Eq)]
pub struct AppConfig {
    pub github_client_id: String,
    pub github_repo_name: String,
}

/// The repository synced to when none is configured.
pub open spec fn default_repo_name() -> Seq<char> {
    "sighfar-secure-sync"@
}

impl AppConfig {
    /// The settings in force when there is no config file yet: no client id,
    /// and the default sync repository.
    pub fn fallback() -> (c: AppConfig)
        ensures
            c.github_client_id@ == Seq::<char>::empty(),
            c.github_repo_name@ == default_repo_name(),
    {
        proof {
            reveal_strlit("");
        }
        AppConfig {
            github_client_id: String::from_str(""),
            github_repo_name: String::from_str("sighfar-secure-sync"),
        }
    }
}

/// Where the settings file lives.
#[derive(Debug, Clone, PartialEq, Eq)]
pub struct ConfigStore {
    pub file_path: String,
}

impl ConfigStore {
    /// The store whose file is `config.json` under `root`.
    pub fn with_root(root: &str) -> (s: ConfigStore)
        ensures
            s.file_path@ == join_path(root@, "config.json"@),
    {
        ConfigStore { file_path: join_path_text(root, "config.json") }
    }

    /// The settings loading gives: those read from the file, or the
    /// fallback settings when there is no file.
    pub fn resolve(read: Option<AppConfig>) -> (c: AppConfig)
        ensures
            match read {
                Some(r) => c == r,
                None => c.github_client_id@ == Seq::<char>::empty() && c.github_repo_name@ == default_repo_name(),
            },
    {
        match read {
            Some(r) => r,
            None => AppConfig::fallback(),
        }
    }
}

} // verus!
