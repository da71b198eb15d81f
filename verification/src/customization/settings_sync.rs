//! Settings synchronization: its configuration, its status, and the
//! decisions of a synchronization run. Reading and writing the settings
//! files, and talking to Git or a cloud store, are outside the library: a run
//! starts with `begin_sync`, which says what to do, and ends with
//! `finish_sync`, which is told how it went.
use vstd::prelude::*;
use crate::customization::CustomizationError;
use crate::text::{owned, views};

verus! {

/// Where settings are synchronized to.
#[derive(Debug, Clone, Copy, PartialEq, Eq, Structural)]
pub enum SyncProviderType {
    Local,
    Git,
    Cloud,
    Custom,
}

/// How conflicting changes are resolved.
#[derive(Debug, Clone, Copy, PartialEq, Eq, Structural)]
pub enum ConflictResolution {
    Ask,
    LocalWins,
    RemoteWins,
    Merge,
    NewestWins,
    Manual,
}

/// Status of synchronization.
#[derive(Debug, Clone, PartialEq, Eq)]
pub enum SyncStatus {
    Idle,
    Syncing,
    Success,
    Failed(String),
    Conflict,
}

/// Synchronization configuration; the interval is in seconds.
#[derive(Debug)]
pub struct SyncConfig {
    pub provider: SyncProviderType,
    pub endpoint: Option<String>,
    pub username: Option<String>,
    pub password: Option<String>,
    pub token: Option<String>,
    pub repository: Option<String>,
    pub branch: Option<String>,
    pub path: Option<String>,
    pub encrypt: bool,
    pub compression: bool,
    pub auto_sync: bool,
    pub sync_interval: Option<u64>,
    pub conflict_resolution: ConflictResolution,
}

impl Default for SyncConfig {
    fn default() -> (c: Self)
        ensures
            c.provider == SyncProviderType::Local,
            c.endpoint is None && c.username is None && c.password is None && c.token is None,
            c.repository is None && c.path is None,
            c.branch matches Some(b) && b@ == "main"@,
            !c.encrypt && c.compression && !c.auto_sync,
            c.sync_interval == Some(3600u64),
            c.conflict_resolution == ConflictResolution::Ask,
    {
        SyncConfig {
            provider: SyncProviderType::Local,
            endpoint: None,
            username: None,
            password: None,
            token: None,
            repository: None,
            branch: Some(owned("main")),
            path: None,
            encrypt: false,
            compression: true,
            auto_sync: false,
            sync_interval: Some(3600),
            conflict_resolution: ConflictResolution::Ask,
        }
    }
}

/// The settings files a run writes, in order.
pub open spec fn sync_file_names() -> Seq<Seq<char>> {
    seq!["settings.json"@, "profiles.json"@, "keymaps.json"@, "themes.json"@, "layouts.json"@]
}

/// The settings files a run writes, in order.
pub fn sync_files() -> (r: Vec<String>)
    ensures views(r@) == sync_file_names(),
{
    let r = vec![
        owned("settings.json"),
        owned("profiles.json"),
        owned("keymaps.json"),
        owned("themes.json"),
        owned("layouts.json"),
    ];
    assert(views(r@) =~= sync_file_names());
    r
}

/// What a synchronization run does.
#[derive(Debug)]
pub enum SyncAction {
    /// Write the settings files to the local store.
    WriteLocal,
    /// Pull from the repository, write the settings files, push.
    GitRound,
    /// Upload the settings files to the cloud store.
    UploadCloud,
    /// Nothing can be done: the run fails with this error.
    Refuse(CustomizationError),
}

/// The state of settings synchronization: its status, its configuration and
/// when it last ran (milliseconds since the Unix epoch).
pub struct SettingsSync {
    status: SyncStatus,
    config: SyncConfig,
    last_sync: Option<i64>,
}

/// The status a run ends with: success, or failure with the error's message.
pub open spec fn status_after(result: Result<(), CustomizationError>) -> SyncStatus {
    match result {
        Ok(()) => SyncStatus::Success,
        Err(e) => SyncStatus::Failed(error_message(e)),
    }
}

/// The message an error carries.
pub open spec fn error_message(e: CustomizationError) -> String {
    match e {
        CustomizationError::KeybindingError(m) => m,
        CustomizationError::LayoutError(m) => m,
        CustomizationError::ProfileError(m) => m,
        CustomizationError::ImportExportError(m) => m,
        CustomizationError::ValidationError(m) => m,
        CustomizationError::Io(m) => m,
        CustomizationError::Serialization(m) => m,
        CustomizationError::SyncError(m) => m,
    }
}

fn message_of(e: &CustomizationError) -> (m: String)
    ensures m == error_message(*e),
{
    match e {
        CustomizationError::KeybindingError(m) => m.clone(),
        CustomizationError::LayoutError(m) => m.clone(),
        CustomizationError::ProfileError(m) => m.clone(),
        CustomizationError::ImportExportError(m) => m.clone(),
        CustomizationError::ValidationError(m) => m.clone(),
        CustomizationError::Io(m) => m.clone(),
        CustomizationError::Serialization(m) => m.clone(),
        CustomizationError::SyncError(m) => m.clone(),
    }
}

impl SettingsSync {
    pub closed spec fn status_view(&self) -> SyncStatus {
        self.status
    }

    pub closed spec fn config_view(&self) -> SyncConfig {
        self.config
    }

    pub closed spec fn last_sync_view(&self) -> Option<i64> {
        self.last_sync
    }

    /// Synchronization with the default configuration, idle, never run.
    pub fn new() -> (s: Self)
        ensures
            s.status_view() == SyncStatus::Idle,
            s.config_view().provider == SyncProviderType::Local,
            s.config_view().conflict_resolution == ConflictResolution::Ask,
            s.last_sync_view() is None,
    {
        SettingsSync { status: SyncStatus::Idle, config: SyncConfig::default(), last_sync: None }
    }

    /// Use another configuration.
    pub fn update_config(&mut self, config: SyncConfig) -> (r: Result<(), CustomizationError>)
        ensures
            r is Ok,
            final(self).config_view() == config,
            final(self).status_view() == old(self).status_view(),
            final(self).last_sync_view() == old(self).last_sync_view(),
    {
        self.config = config;
        Ok(())
    }

    /// Start a run: the status becomes syncing, and what to do follows from
    /// the provider; a custom provider is refused.
    pub fn begin_sync(&mut self) -> (a: SyncAction)
        ensures
            final(self).status_view() == SyncStatus::Syncing,
            final(self).config_view() == old(self).config_view(),
            final(self).last_sync_view() == old(self).last_sync_view(),
            match old(self).config_view().provider {
                SyncProviderType::Local => a is WriteLocal,
                SyncProviderType::Git => a is GitRound,
                SyncProviderType::Cloud => a is UploadCloud,
                SyncProviderType::Custom => a matches SyncAction::Refuse(CustomizationError::SyncError(m))
                    && m@ == "Custom sync not implemented"@,
            },
    {
        self.status = SyncStatus::Syncing;
        match self.config.provider {
            SyncProviderType::Local => SyncAction::WriteLocal,
            SyncProviderType::Git => SyncAction::GitRound,
            SyncProviderType::Cloud => SyncAction::UploadCloud,
            SyncProviderType::Custom => SyncAction::Refuse(CustomizationError::SyncError(owned("Custom sync not implemented"))),
        }
    }

    /// End a run at `now` with its outcome: the run is recorded, and the
    /// status says how it went; the outcome is given back.
    pub fn finish_sync(&mut self, result: Result<(), CustomizationError>, now: i64) -> (r: Result<(), CustomizationError>)
        ensures
            final(self).last_sync_view() == Some(now),
            final(self).status_view() == status_after(result),
            final(self).config_view() == old(self).config_view(),
            r == result,
    {
        self.last_sync = Some(now);
        match &result {
            Ok(()) => {
                self.status = SyncStatus::Success;
            },
            Err(e) => {
                self.status = SyncStatus::Failed(message_of(e));
            },
        }
        result
    }

    /// The status.
    pub fn status(&self) -> (s: SyncStatus)
        ensures s == self.status_view(),
    {
        match &self.status {
            SyncStatus::Idle => SyncStatus::Idle,
            SyncStatus::Syncing => SyncStatus::Syncing,
            SyncStatus::Success => SyncStatus::Success,
            SyncStatus::Failed(m) => SyncStatus::Failed(m.clone()),
            SyncStatus::Conflict => SyncStatus::Conflict,
        }
    }

    /// When the last run ended.
    pub fn last_sync(&self) -> (t: Option<i64>)
        ensures t == self.last_sync_view(),
    {
        self.last_sync
    }
}

/// Every run ends recorded: whatever a run does and however it ends, the
/// status afterwards is success or failure and the run's time is kept.
pub proof fn law_run_ends_settled(result: Result<(), CustomizationError>)
    ensures
        status_after(result) is Success || status_after(result) is Failed,
        result is Ok <==> status_after(result) is Success,
{
}

} // verus!
