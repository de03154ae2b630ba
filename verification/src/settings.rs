//! Login, configuration, sorting and the other choices of the user.

use vstd::prelude::*;

use crate::ids::{FileId, PackageId};

verus! {

/// The dialog on the screen.
#[derive(Clone, Copy, Debug, PartialEq, Eq, Structural)]
pub enum Popup {
    Closed,
    Login,
    Config,
    Confirm,
    Sort,
}

/// An action that waits for the user to confirm it.
#[derive(Debug, PartialEq, Eq)]
pub enum ConfirmAction {
    DeleteFile(FileId),
    DeletePackage(PackageId),
    ResetFile(FileId),
    ResetPackage(PackageId),
}

/// What to do when an automatic login finds no credentials.
#[derive(Clone, Copy, Debug, PartialEq, Eq, Structural)]
pub enum NoCredentialsFallback {
    /// Open the login dialog so that the user can type them in.
    ShowPopup,
    /// Do nothing.
    Silent,
}

/// The login dialog.
pub struct LoginState {
    pub email: String,
    pub password: String,
    pub mfa: String,
    pub active_field: usize,
    pub error: Option<String>,
    pub logging_in: bool,
}

/// What the user typed into the login dialog.
pub struct Credentials {
    pub email: Seq<char>,
    pub password: Seq<char>,
    pub mfa: Seq<char>,
}

impl Credentials {
    /// Whether there is an address and a password.
    pub open spec fn usable(self) -> bool {
        self.email.len() > 0 && self.password.len() > 0
    }

    /// The credentials, with what is missing taken from others.
    pub open spec fn completed_by(self, other: Credentials) -> Credentials {
        Credentials {
            email: if self.email.len() == 0 {
                other.email
            } else {
                self.email
            },
            password: if self.password.len() == 0 {
                other.password
            } else {
                self.password
            },
            mfa: if self.mfa.len() == 0 {
                other.mfa
            } else {
                self.mfa
            },
        }
    }
}

impl LoginState {
    /// What the user typed.
    pub open spec fn typed(&self) -> Credentials {
        Credentials { email: self.email@, password: self.password@, mfa: self.mfa@ }
    }

    /// An empty dialog.
    pub fn new() -> (login: LoginState)
        ensures
            login.typed() == (Credentials {
                email: Seq::empty(),
                password: Seq::empty(),
                mfa: Seq::empty(),
            }),
            login.active_field == 0,
            login.error is None,
            !login.logging_in,
    {
        LoginState {
            email: String::new(),
            password: String::new(),
            mfa: String::new(),
            active_field: 0,
            error: None,
            logging_in: false,
        }
    }

    /// Takes credentials over; refuses them without an address or a password.
    pub fn set_credentials(&mut self, email: String, password: String, mfa: String) -> (accepted:
        bool)
        ensures
            accepted == (email@.len() > 0 && password@.len() > 0),
            accepted ==> *final(self) == (LoginState { email, password, mfa, ..*old(self) }),
            !accepted ==> *final(self) == *old(self),
    {
        if email.as_str().is_empty() || password.as_str().is_empty() {
            return false;
        }
        self.email = email;
        self.password = password;
        self.mfa = mfa;
        true
    }

    /// Fills in what the user has not typed.
    pub fn set_credentials_if_missing(&mut self, email: &str, password: &str, mfa: &str)
        ensures
            final(self).typed() == old(self).typed().completed_by(
                Credentials { email: email@, password: password@, mfa: mfa@ },
            ),
            final(self).active_field == old(self).active_field,
            final(self).error == old(self).error,
            final(self).logging_in == old(self).logging_in,
    {
        if self.email.as_str().is_empty() && !email.is_empty() {
            self.email = email.to_owned();
        }
        if self.password.as_str().is_empty() && !password.is_empty() {
            self.password = password.to_owned();
        }
        if self.mfa.as_str().is_empty() && !mfa.is_empty() {
            self.mfa = mfa.to_owned();
        }
        proof {
            let wanted = old(self).typed().completed_by(
                Credentials { email: email@, password: password@, mfa: mfa@ },
            );
            assert(self.typed().email =~= wanted.email);
            assert(self.typed().password =~= wanted.password);
            assert(self.typed().mfa =~= wanted.mfa);
        }
    }

    /// Whether there is an address and a password.
    pub fn has_credentials(&self) -> (usable: bool)
        ensures
            usable == self.typed().usable(),
    {
        !self.email.as_str().is_empty() && !self.password.as_str().is_empty()
    }

    /// The address.
    pub fn email(&self) -> (email: &str)
        ensures
            email@ == self.typed().email,
    {
        self.email.as_str()
    }

    /// The password.
    pub fn password(&self) -> (password: &str)
        ensures
            password@ == self.typed().password,
    {
        self.password.as_str()
    }

    /// The code of the second factor.
    pub fn mfa(&self) -> (mfa: &str)
        ensures
            mfa@ == self.typed().mfa,
    {
        self.mfa.as_str()
    }

    /// The code of the second factor, where one was typed.
    pub fn mfa_option(&self) -> (mfa: Option<&str>)
        ensures
            match mfa {
                Some(code) => code@ == self.typed().mfa && code@.len() > 0,
                None => self.typed().mfa.len() == 0,
            },
    {
        if self.mfa.as_str().is_empty() {
            None
        } else {
            Some(self.mfa.as_str())
        }
    }

    /// The field that the user is typing into.
    pub fn active_value_mut(&mut self) -> (value: &mut String)
        ensures
            value@ == match old(self).active_field {
                0 => old(self).typed().email,
                1 => old(self).typed().password,
                _ => old(self).typed().mfa,
            },
            final(self).typed() == match old(self).active_field {
                0 => Credentials { email: final(value)@, ..old(self).typed() },
                1 => Credentials { password: final(value)@, ..old(self).typed() },
                _ => Credentials { mfa: final(value)@, ..old(self).typed() },
            },
            final(self).active_field == old(self).active_field,
            final(self).error == old(self).error,
            final(self).logging_in == old(self).logging_in,
    {
        match self.active_field {
            0 => &mut self.email,
            1 => &mut self.password,
            _ => &mut self.mfa,
        }
    }

    /// How many fields the dialog has.
    pub fn field_count() -> (count: usize)
        ensures
            count == 3,
    {
        3
    }
}

/// A setting of the configuration dialog.
#[derive(Clone, Copy, Debug, PartialEq, Eq, Structural)]
pub enum ConfigField {
    ChunksPerFile,
    MegaChunksPerRequest,
    ConcurrentFiles,
    ForceOverwrite,
    CleanupOnError,
}

impl ConfigField {
    /// All settings, in the order in which they are shown.
    pub fn all() -> (fields: [ConfigField; 5])
        ensures
            fields@ == seq![
                ConfigField::ChunksPerFile,
                ConfigField::MegaChunksPerRequest,
                ConfigField::ConcurrentFiles,
                ConfigField::ForceOverwrite,
                ConfigField::CleanupOnError,
            ],
    {
        [
            ConfigField::ChunksPerFile,
            ConfigField::MegaChunksPerRequest,
            ConfigField::ConcurrentFiles,
            ConfigField::ForceOverwrite,
            ConfigField::CleanupOnError,
        ]
    }

    /// The name of the setting.
    pub fn label(self) -> (label: &'static str)
        ensures
            label@ == match self {
                ConfigField::ChunksPerFile => "Chunks per file"@,
                ConfigField::MegaChunksPerRequest => "MEGA chunks/request"@,
                ConfigField::ConcurrentFiles => "Concurrent files"@,
                ConfigField::ForceOverwrite => "Force overwrite"@,
                ConfigField::CleanupOnError => "Cleanup on error"@,
            },
    {
        match self {
            ConfigField::ChunksPerFile => "Chunks per file",
            ConfigField::MegaChunksPerRequest => "MEGA chunks/request",
            ConfigField::ConcurrentFiles => "Concurrent files",
            ConfigField::ForceOverwrite => "Force overwrite",
            ConfigField::CleanupOnError => "Cleanup on error",
        }
    }
}

/// How files are downloaded.
#[derive(Debug, PartialEq, Eq)]
pub struct DownloadConfig {
    pub chunks_per_file: usize,
    pub mega_chunks_per_request: usize,
    pub concurrent_files: usize,
    pub force_overwrite: bool,
    pub cleanup_on_error: bool,
    pub path: Option<String>,
}

impl DownloadConfig {
    /// Every count is positive.
    pub open spec fn wf(&self) -> bool {
        self.chunks_per_file >= 1 && self.mega_chunks_per_request >= 1 && self.concurrent_files
            >= 1
    }
}

/// The configuration dialog.
pub struct ConfigState {
    pub config: DownloadConfig,
    pub active_field: usize,
}

impl ConfigState {
    /// The smallest counts, with nothing switched on; whoever runs the application may set others
    /// before it starts.
    pub fn new() -> (state: ConfigState)
        ensures
            state.config == (DownloadConfig {
                chunks_per_file: 1,
                mega_chunks_per_request: 1,
                concurrent_files: 1,
                force_overwrite: false,
                cleanup_on_error: false,
                path: None,
            }),
            state.config.wf(),
            state.active_field == 0,
    {
        ConfigState {
            config: DownloadConfig {
                chunks_per_file: 1,
                mega_chunks_per_request: 1,
                concurrent_files: 1,
                force_overwrite: false,
                cleanup_on_error: false,
                path: None,
            },
            active_field: 0,
        }
    }

    /// Takes over the settings that are given; a count of zero becomes one.
    pub fn apply_config_update(
        &mut self,
        chunks_per_file: Option<usize>,
        mega_chunks_per_request: Option<usize>,
        concurrent_files: Option<usize>,
        force_overwrite: Option<bool>,
        cleanup_on_error: Option<bool>,
    )
        ensures
            final(self).config == (DownloadConfig {
                chunks_per_file: updated_count(old(self).config.chunks_per_file, chunks_per_file),
                mega_chunks_per_request: updated_count(
                    old(self).config.mega_chunks_per_request,
                    mega_chunks_per_request,
                ),
                concurrent_files: updated_count(
                    old(self).config.concurrent_files,
                    concurrent_files,
                ),
                force_overwrite: match force_overwrite {
                    Some(value) => value,
                    None => old(self).config.force_overwrite,
                },
                cleanup_on_error: match cleanup_on_error {
                    Some(value) => value,
                    None => old(self).config.cleanup_on_error,
                },
                path: old(self).config.path,
            }),
            final(self).active_field == old(self).active_field,
            old(self).config.wf() ==> final(self).config.wf(),
    {
        if let Some(value) = chunks_per_file {
            self.config.chunks_per_file = at_least_one(value);
        }
        if let Some(value) = mega_chunks_per_request {
            self.config.mega_chunks_per_request = at_least_one(value);
        }
        if let Some(value) = concurrent_files {
            self.config.concurrent_files = at_least_one(value);
        }
        if let Some(value) = force_overwrite {
            self.config.force_overwrite = value;
        }
        if let Some(value) = cleanup_on_error {
            self.config.cleanup_on_error = value;
        }
    }
}

/// A count after an update that may leave it as it is; zero becomes one.
pub open spec fn updated_count(count: usize, update: Option<usize>) -> usize {
    match update {
        Some(value) => if value == 0 {
            1
        } else {
            value
        },
        None => count,
    }
}

/// A count, or one instead of zero.
fn at_least_one(value: usize) -> (count: usize)
    ensures
        count == updated_count(0, Some(value)),
{
    if value == 0 {
        1
    } else {
        value
    }
}

/// What the list of files is sorted by.
#[derive(Clone, Copy, Debug, PartialEq, Eq, Structural)]
pub enum SortKey {
    Queue,
    Status,
    Name,
    Percent,
}

impl SortKey {
    /// All keys, in the order in which they are shown.
    pub fn all() -> (keys: [SortKey; 4])
        ensures
            keys@ == seq![SortKey::Queue, SortKey::Status, SortKey::Name, SortKey::Percent],
    {
        [SortKey::Queue, SortKey::Status, SortKey::Name, SortKey::Percent]
    }

    /// The name of the key.
    pub fn label(self) -> (label: &'static str)
        ensures
            label@ == match self {
                SortKey::Queue => "Queue order"@,
                SortKey::Status => "Status priority"@,
                SortKey::Name => "Name"@,
                SortKey::Percent => "Percent downloaded"@,
            },
    {
        match self {
            SortKey::Queue => "Queue order",
            SortKey::Status => "Status priority",
            SortKey::Name => "Name",
            SortKey::Percent => "Percent downloaded",
        }
    }
}

/// Which way the list of files is sorted.
#[derive(Clone, Copy, Debug, PartialEq, Eq, Structural)]
pub enum SortDirection {
    Asc,
    Desc,
}

impl SortDirection {
    /// The name of the direction.
    pub fn label(self) -> (label: &'static str)
        ensures
            label@ == match self {
                SortDirection::Asc => "Ascending"@,
                SortDirection::Desc => "Descending"@,
            },
    {
        match self {
            SortDirection::Asc => "Ascending",
            SortDirection::Desc => "Descending",
        }
    }

    /// The opposite direction.
    pub open spec fn opposite(self) -> SortDirection {
        match self {
            SortDirection::Asc => SortDirection::Desc,
            SortDirection::Desc => SortDirection::Asc,
        }
    }

    /// The opposite direction.
    pub fn toggled(self) -> (direction: SortDirection)
        ensures
            direction == self.opposite(),
            direction.opposite() == self,
    {
        match self {
            SortDirection::Asc => SortDirection::Desc,
            SortDirection::Desc => SortDirection::Asc,
        }
    }
}

/// The sorting dialog.
pub struct SortState {
    pub key: SortKey,
    pub direction: SortDirection,
    pub active_field: usize,
}

impl SortState {
    /// Queue order.
    pub fn new() -> (state: SortState)
        ensures
            state.key == SortKey::Queue,
            state.direction == SortDirection::Asc,
            state.active_field == 0,
    {
        SortState { key: SortKey::Queue, direction: SortDirection::Asc, active_field: 0 }
    }
}

/// Whether the user may quit.
#[derive(Clone, Copy, Debug, PartialEq, Eq, Structural)]
pub enum QuitPolicy {
    Enabled,
    Disabled,
}

impl QuitPolicy {
    /// The policy that a flag stands for.
    pub fn from_bool(enabled: bool) -> (policy: QuitPolicy)
        ensures
            policy == if enabled {
                QuitPolicy::Enabled
            } else {
                QuitPolicy::Disabled
            },
    {
        if enabled {
            QuitPolicy::Enabled
        } else {
            QuitPolicy::Disabled
        }
    }

    /// The flag that stands for the policy.
    pub fn is_enabled(self) -> (enabled: bool)
        ensures
            enabled == (self == QuitPolicy::Enabled),
    {
        matches!(self, QuitPolicy::Enabled)
    }
}

/// What the user asks for.
#[derive(Debug, PartialEq, Eq)]
pub enum UiAction {
    AddUrls(Vec<String>),
    Login { email: String, password: String, mfa: String },
    TogglePause,
    DeleteFile(FileId),
    DeletePackage(PackageId),
    RetryFile(FileId),
    RetryPackage(PackageId),
    ReverifyFile(FileId),
    ReverifyPackage(PackageId),
    ResetFile(FileId),
    ResetPackage(PackageId),
    MoveFile { file_id: FileId, delta: isize },
    MovePackage { package_id: PackageId, delta: isize },
    UpdateConfig {
        chunks_per_file: Option<usize>,
        mega_chunks_per_request: Option<usize>,
        concurrent_files: Option<usize>,
        force_overwrite: Option<bool>,
        cleanup_on_error: Option<bool>,
    },
}

/// Credentials that were accepted stay, whatever else is offered to fill gaps.
pub proof fn law_filling_gaps_keeps_credentials(typed: Credentials, offered: Credentials)
    requires
        typed.usable(),
    ensures
        typed.completed_by(offered).email == typed.email,
        typed.completed_by(offered).password == typed.password,
        typed.completed_by(offered).usable(),
{
}

} // verus!
