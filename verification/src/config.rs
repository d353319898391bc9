//! Sync configuration: the snapshot of settings the engine reads, the
//! validation every sync attempt performs before touching anything, and the
//! externally visible status record assembled from it.

use vstd::prelude::*;
use crate::text;
use crate::folders;
use crate::status::RuntimeStatus;

verus! {

use vstd::string::StringExecFns;

/// Debounce window after a note change, in seconds.
pub const DEFAULT_DEBOUNCE_SECONDS: u64 = 30;

/// Periodic sync interval used when no settings are available.
pub const DEFAULT_PERIODIC_SYNC_SECONDS: u64 = 300;

/// Floor applied to the configured periodic interval.
pub const MIN_PERIODIC_SYNC_SECONDS: u64 = 60;

/// The git-sharing section of the application settings.  The engine only
/// ever reads snapshots of this.
#[derive(Debug, Clone)]
pub struct GitSharingSettings {
    pub enabled: bool,
    pub shared_folder: String,
    pub remote_url: String,
    pub branch: String,
    pub repository_layout: String,
    pub sync_interval_seconds: u64,
}

impl Default for GitSharingSettings {
    fn default() -> (r: Self)
        ensures
            !r.enabled,
            r.shared_folder@ == "Inbox"@,
            r.remote_url@.len() == 0,
            r.branch@ == "main"@,
            r.repository_layout@ == "folder_root"@,
            r.sync_interval_seconds == 300,
    {
        GitSharingSettings {
            enabled: false,
            shared_folder: String::from_str("Inbox"),
            remote_url: String::new(),
            branch: String::from_str("main"),
            repository_layout: String::from_str("folder_root"),
            sync_interval_seconds: 300,
        }
    }
}

/// Why a sync attempt was started; only labels the commit message.
#[derive(Debug, Clone, Copy, PartialEq, Eq, Structural)]
pub enum SyncTrigger {
    Startup,
    DebouncedSave,
    Periodic,
    Manual,
}

pub open spec fn trigger_label(t: SyncTrigger) -> Seq<char> {
    match t {
        SyncTrigger::Startup => "startup"@,
        SyncTrigger::DebouncedSave => "autosave"@,
        SyncTrigger::Periodic => "periodic"@,
        SyncTrigger::Manual => "manual"@,
    }
}

impl SyncTrigger {
    pub fn commit_label(self) -> (r: &'static str)
        ensures
            r@ == trigger_label(self),
    {
        match self {
            SyncTrigger::Startup => "startup",
            SyncTrigger::DebouncedSave => "autosave",
            SyncTrigger::Periodic => "periodic",
            SyncTrigger::Manual => "manual",
        }
    }
}

/// `Some` of the trimmed string when it is non-blank, `None` otherwise.
pub fn normalized_optional(value: &str) -> (r: Option<String>)
    ensures
        r is Some <==> text::trim_spec(value@).len() > 0,
        r is Some ==> r->0@ == text::trim_spec(value@),
{
    let trimmed = text::trim(value);
    if trimmed.as_str().unicode_len() == 0 {
        None
    } else {
        Some(trimmed)
    }
}

/// The trimmed branch name, defaulting to "main" when blank.
pub fn normalized_branch(branch: &str) -> (r: String)
    ensures
        text::trim_spec(branch@).len() == 0 ==> r@ == "main"@,
        text::trim_spec(branch@).len() > 0 ==> r@ == text::trim_spec(branch@),
{
    let trimmed = text::trim(branch);
    if trimmed.as_str().unicode_len() == 0 {
        String::from_str("main")
    } else {
        trimmed
    }
}

/// A transient, non-persisted configuration for a one-off manual sync.
pub fn build_ad_hoc_config(folder: String, remote_url: String, branch: Option<String>) -> (r:
    GitSharingSettings)
    ensures
        r.enabled,
        r.shared_folder@ == text::trim_spec(folder@),
        r.remote_url@ == text::trim_spec(remote_url@),
        (match branch {
            Some(b) => if text::trim_spec(b@).len() > 0 {
                r.branch@ == text::trim_spec(b@)
            } else {
                r.branch@ == "main"@
            },
            None => r.branch@ == "main"@,
        }),
        r.repository_layout@ == "folder_root"@,
        r.sync_interval_seconds == 300,
{
    let defaults = GitSharingSettings::default();
    let branch_value = match branch {
        Some(b) => {
            let t = text::trim(b.as_str());
            if t.as_str().unicode_len() == 0 {
                defaults.branch
            } else {
                t
            }
        },
        None => defaults.branch,
    };
    GitSharingSettings {
        enabled: true,
        shared_folder: text::trim(folder.as_str()),
        remote_url: text::trim(remote_url.as_str()),
        branch: branch_value,
        repository_layout: defaults.repository_layout,
        sync_interval_seconds: defaults.sync_interval_seconds,
    }
}

/// A configuration may enter the pipeline only when the folder, remote and
/// branch are non-blank and the folder name is safe.
pub open spec fn config_fields_valid(c: GitSharingSettings) -> bool {
    text::trim_spec(c.shared_folder@).len() > 0 && text::trim_spec(c.remote_url@).len() > 0
        && text::trim_spec(c.branch@).len() > 0 && folders::valid_folder_name(
        text::trim_spec(c.shared_folder@),
    )
}

/// Validates the configuration before any filesystem or subprocess work;
/// returns the first applicable error.
pub fn validate_git_config_fields(config: &GitSharingSettings) -> (r: Result<(), String>)
    ensures
        r is Ok <==> config_fields_valid(*config),
        text::trim_spec(config.shared_folder@).len() == 0 ==> r is Err && r->Err_0@
            == "Pick a folder to link before enabling Git sharing"@,
        text::trim_spec(config.shared_folder@).len() > 0 && text::trim_spec(config.remote_url@).len()
            == 0 ==> r is Err && r->Err_0@ == "Remote URL is required for Git sharing"@,
        text::trim_spec(config.shared_folder@).len() > 0 && text::trim_spec(config.remote_url@).len()
            > 0 && text::trim_spec(config.branch@).len() == 0 ==> r is Err && r->Err_0@
            == "Branch cannot be empty"@,
{
    if text::trim_is_empty(config.shared_folder.as_str()) {
        return Err(String::from_str("Pick a folder to link before enabling Git sharing"));
    }
    if text::trim_is_empty(config.remote_url.as_str()) {
        return Err(String::from_str("Remote URL is required for Git sharing"));
    }
    if text::trim_is_empty(config.branch.as_str()) {
        return Err(String::from_str("Branch cannot be empty"));
    }
    let trimmed = text::trim(config.shared_folder.as_str());
    folders::validate_name(trimmed.as_str())
}

/// The scheduling interval: the configured value clamped to the floor, or
/// the default when no configuration could be read.
pub fn periodic_sync_interval(configured: Option<u64>) -> (r: u64)
    ensures
        (match configured {
            Some(v) => r == if v > MIN_PERIODIC_SYNC_SECONDS {
                v
            } else {
                MIN_PERIODIC_SYNC_SECONDS
            },
            None => r == DEFAULT_PERIODIC_SYNC_SECONDS,
        }),
{
    match configured {
        Some(v) => {
            if v > MIN_PERIODIC_SYNC_SECONDS {
                v
            } else {
                MIN_PERIODIC_SYNC_SECONDS
            }
        },
        None => DEFAULT_PERIODIC_SYNC_SECONDS,
    }
}

/// A change notification concerns the engine only when sync is enabled, a
/// remote is configured, and the changed folder is the linked one.
pub fn is_folder_linked_for_sync(config: &GitSharingSettings, folder: &str) -> (r: bool)
    ensures
        r == (config.enabled && text::trim_spec(config.remote_url@).len() > 0 && text::trim_spec(
            config.shared_folder@,
        ) == text::trim_spec(folder@)),
{
    if !config.enabled {
        return false;
    }
    if text::trim_is_empty(config.remote_url.as_str()) {
        return false;
    }
    let a = text::trim(config.shared_folder.as_str());
    let b = text::trim(folder);
    text::str_eq(a.as_str(), b.as_str())
}

/// The externally visible sync status: configuration summary plus the live
/// runtime state.
#[derive(Debug, Clone)]
pub struct GitSyncStatus {
    pub enabled: bool,
    pub linked_folder: Option<String>,
    pub remote_url: Option<String>,
    pub branch: String,
    pub repo_initialized: bool,
    pub pending_changes: bool,
    pub syncing: bool,
    pub last_sync_at: Option<String>,
    pub last_error: Option<String>,
}

/// Assembles the status record for a configuration.  Whether a repository
/// metadata directory exists at the configured path is a filesystem probe,
/// so the host passes it in.
pub fn status_for_config(
    config: &GitSharingSettings,
    runtime: &RuntimeStatus,
    repo_initialized: bool,
) -> (r: GitSyncStatus)
    ensures
        r.enabled == config.enabled,
        r.linked_folder is Some <==> text::trim_spec(config.shared_folder@).len() > 0,
        r.linked_folder is Some ==> r.linked_folder->0@ == text::trim_spec(config.shared_folder@),
        r.remote_url is Some <==> text::trim_spec(config.remote_url@).len() > 0,
        r.remote_url is Some ==> r.remote_url->0@ == text::trim_spec(config.remote_url@),
        text::trim_spec(config.branch@).len() == 0 ==> r.branch@ == "main"@,
        text::trim_spec(config.branch@).len() > 0 ==> r.branch@ == text::trim_spec(config.branch@),
        r.repo_initialized == repo_initialized,
        r.pending_changes == runtime.pending_changes,
        r.syncing == runtime.syncing,
        r.last_sync_at == runtime.last_sync_at,
        r.last_error == runtime.last_error,
{
    GitSyncStatus {
        enabled: config.enabled,
        linked_folder: normalized_optional(config.shared_folder.as_str()),
        remote_url: normalized_optional(config.remote_url.as_str()),
        branch: normalized_branch(config.branch.as_str()),
        repo_initialized,
        pending_changes: runtime.pending_changes,
        syncing: runtime.syncing,
        last_sync_at: runtime.snapshot_last_sync_at(),
        last_error: runtime.snapshot_last_error(),
    }
}

} // verus!
