//! What the application takes over from its configuration when it starts.

use vstd::prelude::*;

use crate::app::App;
use crate::login::{self, eq_ignore_ascii_case};
use crate::paths::{self, same_place};
use crate::settings::{ConfigState, Credentials, DownloadConfig, LoginState};
use crate::text::{self, chars_of, joined, split, text_of};

verus! {

/// A text without the brackets around it.
pub open spec fn unbracketed(host: Seq<char>) -> Seq<char> {
    if host.len() >= 2 && host[0] == '[' && host.last() == ']' {
        host.subrange(1, host.len() - 1)
    } else {
        host
    }
}

/// The number that decimal digits stand for.
pub open spec fn number_of(digits: Seq<char>) -> nat
    decreases digits.len(),
{
    if digits.len() == 0 {
        0
    } else {
        number_of(digits.drop_last()) * 10 + (digits.last() as int - '0' as int) as nat
    }
}

/// Whether a text is a byte in decimal notation, without needless zeros.
pub open spec fn is_octet(digits: Seq<char>) -> bool {
    &&& 1 <= digits.len() <= 3
    &&& forall|i: int| 0 <= i < digits.len() ==> '0' <= #[trigger] digits[i] <= '9'
    &&& digits.len() > 1 ==> digits[0] != '0'
    &&& number_of(digits) <= 255
}

/// Whether a host is this machine by name or by address.
pub open spec fn is_loopback(host: Seq<char>) -> bool {
    let name = unbracketed(host);
    let parts = text::pieces(name, '.');
    ||| name == "localhost"@
    ||| name == "::1"@
    ||| {
        &&& parts.len() == 4
        &&& forall|i: int| 0 <= i < 4 ==> is_octet(#[trigger] parts[i])
        &&& number_of(parts[0]) == 127
    }
}

/// A byte in decimal notation, without needless zeros.
fn octet(part: &str) -> (byte: Option<u32>)
    ensures
        match byte {
            Some(value) => is_octet(part@) && value == number_of(part@),
            None => !is_octet(part@),
        },
{
    let digits = chars_of(part);
    if digits.len() == 0 || digits.len() > 3 {
        return None;
    }
    if digits.len() > 1 && digits[0] == '0' {
        return None;
    }
    let mut value: u32 = 0;
    let mut i: usize = 0;
    while i < digits.len()
        invariant
            digits@ == part@,
            i <= digits@.len() <= 3,
            value == number_of(part@.take(i as int)),
            i == 0 ==> value < 1,
            i == 1 ==> value < 10,
            i == 2 ==> value < 100,
            value < 1000,
            forall|k: int| 0 <= k < i ==> '0' <= #[trigger] part@[k] <= '9',
        decreases digits.len() - i,
    {
        let digit: char = digits[i];
        if digit < '0' || digit > '9' {
            assert(part@[i as int] == digit);
            return None;
        }
        proof {
            assert(part@.take(i as int + 1).drop_last() =~= part@.take(i as int));
            assert(part@.take(i as int + 1).last() == digit);
        }
        value = value * 10 + (digit as u32 - '0' as u32);
        i += 1;
    }
    assert(part@.take(i as int) =~= part@);
    if value <= 255 {
        Some(value)
    } else {
        None
    }
}

/// Whether the interface has to be guarded by a key on a host: on every host but this machine.
pub fn api_host_requires_api_key(host: &str) -> (required: bool)
    ensures
        required == !is_loopback(host@),
{
    let chars = chars_of(host);
    let name = if chars.len() >= 2 && chars[0] == '[' && chars[chars.len() - 1] == ']' {
        text_of(&chars, 1, chars.len() - 1)
    } else {
        host.to_owned()
    };
    assert(name@ =~= unbracketed(host@));
    if *name.as_str() == *"localhost" || *name.as_str() == *"::1" {
        return false;
    }
    let parts = split(&name, '.');
    assert(text::views(parts@).len() == parts@.len());
    if parts.len() != 4 {
        return true;
    }
    assert(text::views(parts@)[0] == parts@[0]@);
    assert(text::views(parts@)[1] == parts@[1]@);
    assert(text::views(parts@)[2] == parts@[2]@);
    assert(text::views(parts@)[3] == parts@[3]@);
    match (octet(&parts[0]), octet(&parts[1]), octet(&parts[2]), octet(&parts[3])) {
        (Some(first), Some(_), Some(_), Some(_)) => first != 127,
        _ => true,
    }
}

/// Where the configuration comes from.
#[derive(Debug, PartialEq, Eq)]
pub enum StartupConfig {
    /// A file that was named.
    Explicit { path: String },
    /// The file in the current directory; what credentials it lacks come from another one.
    Default { path: String, fallback: Option<String> },
    /// The file beside the saved sessions.
    Fallback { path: String },
    /// No file; one will be written in the current directory.
    Missing { path: String },
}

/// Where the configuration comes from: a file that was named, else the one in the current
/// directory, else the one beside the saved sessions.
pub fn choose_startup_config(
    explicit: Option<String>,
    default_path: String,
    default_exists: bool,
    fallback_path: String,
    fallback_exists: bool,
) -> (config: StartupConfig)
    ensures
        config == (match explicit {
            Some(path) => StartupConfig::Explicit { path },
            None => if default_exists {
                StartupConfig::Default {
                    path: default_path,
                    fallback: if paths::place(fallback_path@) != paths::place(default_path@) {
                        Some(fallback_path)
                    } else {
                        None
                    },
                }
            } else if paths::place(fallback_path@) != paths::place(default_path@) && fallback_exists {
                StartupConfig::Fallback { path: fallback_path }
            } else {
                StartupConfig::Missing { path: default_path }
            },
        }),
{
    if let Some(path) = explicit {
        return StartupConfig::Explicit { path };
    }
    let distinct = !same_place(&fallback_path, &default_path);
    if default_exists {
        return StartupConfig::Default {
            path: default_path,
            fallback: if distinct {
                Some(fallback_path)
            } else {
                None
            },
        };
    }
    if distinct && fallback_exists {
        return StartupConfig::Fallback { path: fallback_path };
    }
    StartupConfig::Missing { path: default_path }
}

/// The port of the interface: the one in the environment where that names one, even where it
/// cannot be read and the default stands for it, else the configured one. A file that was named
/// outdoes the environment.
pub fn startup_port(
    config: &StartupConfig,
    configured: u16,
    env_is_set: bool,
    env_port: Option<u16>,
    default_port: u16,
) -> (port: u16)
    ensures
        port == (match *config {
            StartupConfig::Explicit { .. } => configured,
            _ => if env_is_set || config is Missing {
                match env_port {
                    Some(port) => port,
                    None => default_port,
                }
            } else {
                configured
            },
        }),
{
    let from_env: u16 = match env_port {
        Some(port) => port,
        None => default_port,
    };
    match config {
        StartupConfig::Explicit { .. } => configured,
        StartupConfig::Missing { .. } => from_env,
        _ => if env_is_set {
            from_env
        } else {
            configured
        },
    }
}

/// Credentials that can be read.
#[derive(Debug, PartialEq, Eq)]
pub struct PlainCredentials {
    pub email: String,
    pub password: String,
    pub mfa: String,
}

impl PlainCredentials {
    /// Whether there is an address and a password.
    pub open spec fn usable(self) -> bool {
        self.email@.len() > 0 && self.password@.len() > 0
    }
}

/// A saved session as it is stored, and whose it is where that can be read.
#[derive(Debug, PartialEq, Eq)]
pub struct StoredSession {
    pub stored: String,
    pub owner: Option<String>,
}

/// A configuration file.
pub struct LoadedConfig {
    pub download: DownloadConfig,
    pub api_key: Option<String>,
    /// There is an address and a password in it.
    pub has_credentials: bool,
    /// They are encrypted.
    pub encrypted: bool,
    /// What they are, where they can be read.
    pub decrypted: Option<PlainCredentials>,
    pub saved_session: Option<StoredSession>,
}

/// What is to be written back to a configuration file, and whether it could be used.
#[derive(Debug, PartialEq, Eq)]
pub struct AppliedConfig {
    /// Its credentials are to be encrypted.
    pub encrypt_credentials: bool,
    /// It is given this key.
    pub new_api_key: Option<String>,
    /// Its credentials cannot be read and there are no others.
    pub failed: bool,
}

/// The credentials with which the application starts: those of the file, else those of the
/// environment.
pub open spec fn starting_login(
    login: LoginState,
    loaded: LoadedConfig,
    env: Option<PlainCredentials>,
) -> LoginState {
    if loaded.has_credentials && loaded.decrypted is Some && loaded.decrypted->0.usable() {
        LoginState {
            email: loaded.decrypted->0.email,
            password: loaded.decrypted->0.password,
            mfa: loaded.decrypted->0.mfa,
            ..login
        }
    } else if env is Some && env->0.usable() {
        LoginState {
            email: env->0.email,
            password: env->0.password,
            mfa: env->0.mfa,
            ..login
        }
    } else {
        login
    }
}

/// Whether a configuration cannot be used: it holds credentials that give none, and the
/// environment has none either.
pub open spec fn is_unusable(loaded: LoadedConfig, env: Option<PlainCredentials>) -> bool {
    &&& loaded.has_credentials
    &&& !(loaded.decrypted is Some && loaded.decrypted->0.usable())
    &&& env is None
}

/// How a configuration is taken over.
pub open spec fn config_applied(
    before: App,
    after: App,
    loaded: LoadedConfig,
    env: Option<PlainCredentials>,
    new_key: String,
    applied: AppliedConfig,
) -> bool {
    let login = starting_login(before.login, loaded, env);
    let config = ConfigState { config: loaded.download, ..before.config };
    &&& applied.encrypt_credentials == (loaded.has_credentials && loaded.decrypted is Some
        && !loaded.encrypted)
    &&& applied.failed == is_unusable(loaded, env)
    &&& if applied.failed {
        &&& applied.new_api_key is None
        &&& after == (App { config, api_key: loaded.api_key, ..before })
    } else {
        &&& applied.new_api_key == (if loaded.api_key is None {
            Some(new_key)
        } else {
            None
        })
        &&& after == (App {
            config,
            api_key: if loaded.api_key is None {
                Some(new_key)
            } else {
                loaded.api_key
            },
            login,
            saved_mega_session: match loaded.saved_session {
                Some(session) => match session.owner {
                    Some(owner) => if !login.typed().usable() || login::same_ignoring_case(
                        owner@,
                        login.typed().email,
                    ) {
                        Some(session.stored)
                    } else {
                        None
                    },
                    None => None,
                },
                None => None,
            },
            ..before
        })
    }
}

/// Whether a text is a key: thirty-two digits of a random identifier.
pub open spec fn is_api_key(key: Seq<char>) -> bool {
    &&& key.len() == 32
    &&& forall|i: int| 0 <= i < 32 ==> is_hex(#[trigger] key[i])
    &&& key[12] == '4'
    &&& key[16] == '8' || key[16] == '9' || key[16] == 'a' || key[16] == 'b'
}

/// Whether a character is a hexadecimal digit in lower case.
pub open spec fn is_hex(c: char) -> bool {
    '0' <= c <= '9' || 'a' <= c <= 'f'
}

/// A new key, by `uuid::Uuid::new_v4` and the `Simple` notation of `uuid`: thirty-two hexadecimal
/// digits in lower case, of which the thirteenth is the version 4 and the seventeenth one of the
/// four that its variant has. The other digits are random; nothing is claimed of them.
#[verifier::external_body]
fn new_api_key() -> (key: String)
    ensures
        is_api_key(key@),
{
    uuid::Uuid::new_v4().simple().to_string()
}

impl App {
    /// Takes a configuration over; `new_key` is its key where it has none.
    pub fn apply_loaded_config(
        &mut self,
        loaded: LoadedConfig,
        env: Option<PlainCredentials>,
        new_key: String,
    ) -> (applied: AppliedConfig)
        ensures
            config_applied(*old(self), *final(self), loaded, env, new_key, applied),
    {
        let LoadedConfig {
            download,
            api_key,
            has_credentials,
            encrypted,
            decrypted,
            saved_session,
        } = loaded;
        self.config.config = download;
        let keyed = api_key.is_some();
        self.api_key = api_key;
        let encrypt_credentials = has_credentials && decrypted.is_some() && !encrypted;
        let mut configured = false;
        if has_credentials {
            if let Some(PlainCredentials { email, password, mfa }) = decrypted {
                configured = self.login.set_credentials(email, password, mfa);
            }
        }
        if !configured {
            match env {
                Some(PlainCredentials { email, password, mfa }) => {
                    let _ = self.login.set_credentials(email, password, mfa);
                },
                None => {
                    if has_credentials {
                        return AppliedConfig {
                            encrypt_credentials,
                            new_api_key: None,
                            failed: true,
                        };
                    }
                },
            }
        }
        self.saved_mega_session = match saved_session {
            Some(StoredSession { stored, owner }) => match owner {
                Some(owner) => {
                    if !self.login.has_credentials() || eq_ignore_ascii_case(
                        &owner,
                        self.login.email(),
                    ) {
                        Some(stored)
                    } else {
                        None
                    }
                },
                None => None,
            },
            None => None,
        };
        if keyed {
            return AppliedConfig { encrypt_credentials, new_api_key: None, failed: false };
        }
        self.api_key = Some(new_key.clone());
        AppliedConfig { encrypt_credentials, new_api_key: Some(new_key), failed: false }
    }

    /// Takes a configuration over, with a new key where it has none.
    pub fn apply_service_config(&mut self, loaded: LoadedConfig, env: Option<PlainCredentials>) -> (applied:
        AppliedConfig)
        ensures
            exists|key: String| #[trigger]
                config_applied(*old(self), *final(self), loaded, env, key, applied) && is_api_key(
                    key@,
                ),
    {
        let key = new_api_key();
        let ghost made = key;
        let applied = self.apply_loaded_config(loaded, env, key);
        assert(config_applied(*old(self), *self, loaded, env, made, applied));
        applied
    }

    /// Takes missing credentials over from another configuration file, and its key where there is
    /// none yet. Credentials that cannot be read are left where they are.
    pub fn load_missing_credentials_from_config(
        &mut self,
        decrypted: Option<PlainCredentials>,
        api_key: Option<String>,
    )
        ensures
            if old(self).login.typed().usable() || decrypted is None {
                *final(self) == *old(self)
            } else {
                &&& *final(self) == (App {
                    login: final(self).login,
                    api_key: if old(self).api_key is None {
                        api_key
                    } else {
                        old(self).api_key
                    },
                    ..*old(self)
                })
                &&& final(self).login.typed() == old(self).login.typed().completed_by(
                    Credentials {
                        email: decrypted->0.email@,
                        password: decrypted->0.password@,
                        mfa: decrypted->0.mfa@,
                    },
                )
                &&& final(self).login.active_field == old(self).login.active_field
                &&& final(self).login.error == old(self).login.error
                &&& final(self).login.logging_in == old(self).login.logging_in
            },
    {
        if self.login.has_credentials() {
            return;
        }
        if let Some(PlainCredentials { email, password, mfa }) = decrypted {
            self.login.set_credentials_if_missing(&email, &password, &mfa);
            if self.api_key.is_none() {
                self.api_key = api_key;
            }
        }
    }

    /// Why the application cannot start without credentials.
    pub fn require_credentials(&self, config_path: &str) -> (error: Option<String>)
        ensures
            match error {
                Some(text) => !self.login.typed().usable() && text@ == "No credentials in "@
                    + config_path@,
                None => self.login.typed().usable(),
            },
    {
        if self.login.has_credentials() {
            return None;
        }
        Some(joined("No credentials in ", config_path))
    }

    /// What is written to the configuration after a login. Without an address and a password the
    /// file keeps its own.
    pub fn persisted_login(&self) -> (login: PersistedLogin)
        ensures
            login == (PersistedLogin {
                credentials: if self.login.typed().usable() {
                    Some((self.login.email, self.login.password))
                } else {
                    None
                },
                saved_session: self.saved_mega_session,
                port: self.api_port,
                api_key: self.api_key,
            }),
    {
        let credentials = if self.login.has_credentials() {
            Some((self.login.email.clone(), self.login.password.clone()))
        } else {
            None
        };
        let saved_session = match &self.saved_mega_session {
            Some(session) => Some(session.clone()),
            None => None,
        };
        let api_key = match &self.api_key {
            Some(key) => Some(key.clone()),
            None => None,
        };
        PersistedLogin { credentials, saved_session, port: self.api_port, api_key }
    }
}

/// What is written to the configuration after a login. The code of the second factor never is.
#[derive(Debug, PartialEq, Eq)]
pub struct PersistedLogin {
    pub credentials: Option<(String, String)>,
    pub saved_session: Option<String>,
    pub port: u16,
    pub api_key: Option<String>,
}

/// Credentials in a configuration file outdo those of the environment.
pub proof fn law_configured_credentials_win(
    login: LoginState,
    loaded: LoadedConfig,
    env: Option<PlainCredentials>,
    other: Option<PlainCredentials>,
)
    requires
        loaded.has_credentials,
        loaded.decrypted is Some,
        loaded.decrypted->0.usable(),
    ensures
        starting_login(login, loaded, env) == starting_login(login, loaded, other),
        starting_login(login, loaded, env).typed().usable(),
        !is_unusable(loaded, env),
{
}

} // verus!
