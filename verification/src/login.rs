//! Logging in: when it happens by itself, and how it goes on in the background.

use vstd::prelude::*;

use crate::app::{App, Status};
use crate::events::DownloadEvent;
use crate::settings::{LoginState, NoCredentialsFallback, Popup};
use crate::text::{chars_of, joined};

verus! {

/// How long the user has to be idle before a login happens by itself, in milliseconds.
pub const AUTO_LOGIN_IDLE_DELAY_MS: u64 = 750;

/// A letter in lower case, where it is a capital of the Latin alphabet.
pub open spec fn ascii_lower(c: char) -> int {
    if 'A' <= c <= 'Z' {
        c as int + 32
    } else {
        c as int
    }
}

/// Whether texts are the same but for the case of Latin letters.
pub open spec fn same_ignoring_case(a: Seq<char>, b: Seq<char>) -> bool {
    &&& a.len() == b.len()
    &&& forall|i: int| 0 <= i < a.len() ==> ascii_lower(#[trigger] a[i]) == ascii_lower(b[i])
}

/// A letter in lower case, where it is a capital of the Latin alphabet.
fn lowered(c: char) -> (code: u32)
    ensures
        code == ascii_lower(c),
{
    if 'A' <= c && c <= 'Z' {
        c as u32 + 32
    } else {
        c as u32
    }
}

/// Whether texts are the same but for the case of Latin letters.
pub fn eq_ignore_ascii_case(a: &str, b: &str) -> (same: bool)
    ensures
        same == same_ignoring_case(a@, b@),
{
    let left = chars_of(a);
    let right = chars_of(b);
    if left.len() != right.len() {
        return false;
    }
    let mut i: usize = 0;
    while i < left.len()
        invariant
            left@ == a@,
            right@ == b@,
            left@.len() == right@.len(),
            i <= left@.len(),
            forall|k: int| 0 <= k < i ==> ascii_lower(#[trigger] a@[k]) == ascii_lower(b@[k]),
        decreases left.len() - i,
    {
        let l: char = left[i];
        let r: char = right[i];
        if lowered(l) != lowered(r) {
            assert(a@[i as int] == l);
            return false;
        }
        i += 1;
    }
    true
}

/// A saved session that could be read: whose it is, and the session itself.
#[derive(Debug, PartialEq, Eq)]
pub struct SavedSession {
    pub email: String,
    pub session: String,
}

/// What a login in the background works with.
#[derive(Debug, PartialEq, Eq)]
pub struct AuthTask {
    pub email: String,
    pub password: String,
    pub mfa: Option<String>,
    pub resume: Option<SavedSession>,
}

impl App {
    /// Whether a login is over, under way, or no longer of use.
    pub open spec fn needs_no_login(&self) -> bool {
        self.authenticated || self.login.logging_in || self.download_task_running
    }

    /// The user did something: a login that was to happen by itself waits anew.
    pub fn note_user_activity(&mut self, now: u64)
        requires
            now <= u64::MAX - AUTO_LOGIN_IDLE_DELAY_MS,
        ensures
            *final(self) == (App {
                last_user_activity: now,
                deferred_login_deadline: if old(self).deferred_login_fallback is Some {
                    Some((now + AUTO_LOGIN_IDLE_DELAY_MS) as u64)
                } else {
                    old(self).deferred_login_deadline
                },
                ..*old(self)
            }),
    {
        self.last_user_activity = now;
        if self.deferred_login_fallback.is_some() {
            self.deferred_login_deadline = Some(now + AUTO_LOGIN_IDLE_DELAY_MS);
        }
    }

    /// A login is to happen by itself. Once the dialog is to open where there are no credentials,
    /// it stays so.
    pub fn schedule_auto_login(&mut self, fallback: NoCredentialsFallback)
        requires
            old(self).last_user_activity <= u64::MAX - AUTO_LOGIN_IDLE_DELAY_MS,
        ensures
            *final(self) == (if old(self).needs_no_login() {
                *old(self)
            } else {
                App {
                    deferred_login_fallback: Some(
                        if old(self).deferred_login_fallback == Some(
                            NoCredentialsFallback::ShowPopup,
                        ) {
                            NoCredentialsFallback::ShowPopup
                        } else {
                            fallback
                        },
                    ),
                    deferred_login_deadline: Some(
                        (old(self).last_user_activity + AUTO_LOGIN_IDLE_DELAY_MS) as u64,
                    ),
                    ..*old(self)
                }
            }),
    {
        if self.authenticated || self.login.logging_in || self.download_task_running {
            return;
        }
        let shows = match self.deferred_login_fallback {
            Some(NoCredentialsFallback::ShowPopup) => true,
            _ => false,
        };
        self.deferred_login_fallback = Some(
            if shows {
                NoCredentialsFallback::ShowPopup
            } else {
                fallback
            },
        );
        self.deferred_login_deadline = Some(self.last_user_activity + AUTO_LOGIN_IDLE_DELAY_MS);
    }

    /// Whether a login is to happen by itself now, and what to do without credentials. It does
    /// once the user has been idle for long enough, types nothing and has no dialog open.
    pub fn poll_deferred_auto_login(&mut self, now: u64) -> (due: Option<NoCredentialsFallback>)
        ensures
            ({
                let before = *old(self);
                let forgotten = App {
                    deferred_login_fallback: None,
                    deferred_login_deadline: None,
                    ..before
                };
                if before.needs_no_login() {
                    due is None && *final(self) == forgotten
                } else if before.deferred_login_deadline matches Some(deadline) && now >= deadline
                    && !before.url_input_active && before.popup == Popup::Closed {
                    &&& due == Some(
                        match before.deferred_login_fallback {
                            Some(fallback) => fallback,
                            None => NoCredentialsFallback::Silent,
                        },
                    )
                    &&& *final(self) == forgotten
                } else {
                    due is None && *final(self) == before
                }
            }),
    {
        if self.authenticated || self.login.logging_in || self.download_task_running {
            self.clear_deferred_auto_login();
            return None;
        }
        let deadline: u64 = match self.deferred_login_deadline {
            Some(deadline) => deadline,
            None => {
                return None;
            },
        };
        if now < deadline || self.url_input_active || self.popup != Popup::Closed {
            return None;
        }
        let fallback = match self.deferred_login_fallback {
            Some(fallback) => fallback,
            None => NoCredentialsFallback::Silent,
        };
        self.clear_deferred_auto_login();
        Some(fallback)
    }

    /// Lets no login happen by itself.
    pub fn clear_deferred_auto_login(&mut self)
        ensures
            *final(self) == (App {
                deferred_login_fallback: None,
                deferred_login_deadline: None,
                ..*old(self)
            }),
    {
        self.deferred_login_fallback = None;
        self.deferred_login_deadline = None;
    }

    /// Whether a saved session may be used: it is the user's own, or nobody is named.
    pub open spec fn may_resume(&self, saved: SavedSession) -> bool {
        !self.login.typed().usable() || same_ignoring_case(saved.email@, self.login.typed().email)
    }

    /// The saved session, where it could be read and may be used.
    pub fn matching_saved_mega_session(&self, saved: Option<SavedSession>) -> (matching: Option<
        SavedSession,
    >)
        ensures
            matching == (match saved {
                Some(session) => if self.may_resume(session) {
                    Some(session)
                } else {
                    None
                },
                None => None,
            }),
    {
        match saved {
            Some(session) => {
                if self.login.has_credentials() && !eq_ignore_ascii_case(
                    &session.email,
                    self.login.email(),
                ) {
                    None
                } else {
                    Some(session)
                }
            },
            None => None,
        }
    }

    /// Whether a login may begin.
    pub open spec fn may_log_in(&self) -> bool {
        !self.authenticated && !self.login.logging_in && !self.client_pending
    }

    /// Begins a login in the background, unless one is over or under way.
    pub fn begin_background_auth(&mut self, resume: Option<SavedSession>) -> (task: Option<
        AuthTask,
    >)
        ensures
            auth_begun(*old(self), *final(self), resume, task),
    {
        if self.authenticated || self.login.logging_in || self.client_pending {
            return None;
        }
        self.login.error = None;
        self.login.logging_in = true;
        self.client_pending = true;
        proof {
            reveal_strlit("");
        }
        self.status = (if resume.is_some() {
            Status::ResumingSession
        } else {
            Status::LoggingIn
        }).text("");
        let mfa = match self.login.mfa_option() {
            Some(mfa) => Some(mfa.to_owned()),
            None => None,
        };
        let task = AuthTask {
            email: self.login.email.clone(),
            password: self.login.password.clone(),
            mfa,
            resume,
        };
        assert(""@ =~= Seq::<char>::empty());
        Some(task)
    }

    /// The user logs in.
    pub fn begin_login(&mut self) -> (task: Option<AuthTask>)
        ensures
            auth_begun(
                App {
                    deferred_login_fallback: None,
                    deferred_login_deadline: None,
                    ..*old(self)
                },
                *final(self),
                None,
                task,
            ),
    {
        self.clear_deferred_auto_login();
        self.begin_background_auth(None)
    }

    /// Logs in by itself: with a saved session where there is one that may be used, else with
    /// credentials, else as told. Says whether anything came of it.
    pub fn auto_login(&mut self, fallback: NoCredentialsFallback, saved: Option<SavedSession>) -> (login:
        (bool, Option<AuthTask>))
        ensures
            ({
                let cleared = App {
                    deferred_login_fallback: None,
                    deferred_login_deadline: None,
                    ..*old(self)
                };
                let resume = match saved {
                    Some(session) => if old(self).may_resume(session) {
                        Some(session)
                    } else {
                        None
                    },
                    None => None,
                };
                if resume is Some || old(self).login.typed().usable() {
                    login.0 && auth_begun(cleared, *final(self), resume, login.1)
                } else if fallback == NoCredentialsFallback::ShowPopup {
                    login.0 && login.1 is None && *final(self) == (App {
                        popup: Popup::Login,
                        ..cleared
                    })
                } else {
                    !login.0 && login.1 is None && *final(self) == cleared
                }
            }),
    {
        self.clear_deferred_auto_login();
        match self.matching_saved_mega_session(saved) {
            Some(session) => (true, self.begin_background_auth(Some(session))),
            None => {
                if self.login.has_credentials() {
                    return (true, self.begin_background_auth(None));
                }
                if matches!(fallback, NoCredentialsFallback::ShowPopup) {
                    self.popup = Popup::Login;
                    return (true, None);
                }
                (false, None)
            },
        }
    }
}

/// How a login in the background begins.
pub open spec fn auth_begun(
    before: App,
    after: App,
    resume: Option<SavedSession>,
    task: Option<AuthTask>,
) -> bool {
    if before.may_log_in() {
        &&& after == (App {
            login: LoginState { error: None, logging_in: true, ..before.login },
            client_pending: true,
            status: after.status,
            ..before
        })
        &&& after.status@ == (if resume is Some {
            Status::ResumingSession
        } else {
            Status::LoggingIn
        }).shown(Seq::empty())
        &&& task matches Some(begun) && {
            &&& begun.email == before.login.email
            &&& begun.password == before.login.password
            &&& begun.resume == resume
            &&& begun.mfa is Some == (before.login.mfa@.len() > 0)
            &&& begun.mfa matches Some(mfa) ==> mfa@ == before.login.mfa@
        }
    } else {
        after == before && task is None
    }
}

/// How far a login in the background has come.
#[derive(Clone, Copy, Debug, PartialEq, Eq, Structural)]
pub enum AuthStage {
    BuildingHttp,
    BuildingClient,
    Resuming,
    SavingResumed,
    RebuildingClient,
    LoggingIn,
    SavingLogin,
    Done,
}

/// What a step of a login came to.
#[derive(Debug, PartialEq, Eq)]
pub enum AuthReply {
    Succeeded,
    Failed(String),
    Saved(Option<String>),
}

/// Why a login failed.
#[derive(Debug, PartialEq, Eq)]
pub enum AuthError {
    Http(String),
    Client(String),
    NoCredentials,
    Refused(String),
}

impl AuthError {
    /// What the user is told.
    pub open spec fn shown(self) -> Seq<char> {
        match self {
            AuthError::Http(reason) => "Failed to build HTTP client: "@ + reason@,
            AuthError::Client(reason) => "Failed to create MEGA client: "@ + reason@,
            AuthError::NoCredentials => "No saved credentials available"@,
            AuthError::Refused(reason) => reason@,
        }
    }

    /// What the user is told.
    pub fn text(&self) -> (shown: String)
        ensures
            shown@ == self.shown(),
    {
        match self {
            AuthError::Http(reason) => joined("Failed to build HTTP client: ", reason),
            AuthError::Client(reason) => joined("Failed to create MEGA client: ", reason),
            AuthError::NoCredentials => "No saved credentials available".to_owned(),
            AuthError::Refused(reason) => reason.clone(),
        }
    }
}

/// What comes of a login.
#[derive(Debug, PartialEq, Eq)]
pub enum AuthOutcome {
    LoggedIn { saved_session: Option<String>, clear_saved_session: bool },
    Failed { error: AuthError, clear_saved_session: bool },
}

impl AuthOutcome {
    /// The event that tells of it.
    pub fn event(self) -> (event: DownloadEvent)
        ensures
            match (self, event) {
                (
                    AuthOutcome::LoggedIn { saved_session: saved, clear_saved_session: clear },
                    DownloadEvent::LoginResult {
                        success,
                        error,
                        saved_session,
                        clear_saved_session,
                    },
                ) => success && error is None && saved_session == saved && clear_saved_session
                    == clear,
                (
                    AuthOutcome::Failed { error: reason, clear_saved_session: clear },
                    DownloadEvent::LoginResult {
                        success,
                        error,
                        saved_session,
                        clear_saved_session,
                    },
                ) => !success && saved_session is None && clear_saved_session == clear && (
                error matches Some(text) && text@ == reason.shown()),
                _ => false,
            },
    {
        match self {
            AuthOutcome::LoggedIn { saved_session, clear_saved_session } => {
                DownloadEvent::LoginResult {
                    success: true,
                    error: None,
                    saved_session,
                    clear_saved_session,
                }
            },
            AuthOutcome::Failed { error, clear_saved_session } => DownloadEvent::LoginResult {
                success: false,
                error: Some(error.text()),
                saved_session: None,
                clear_saved_session,
            },
        }
    }
}

/// What a login does next.
#[derive(Debug, PartialEq, Eq)]
pub enum AuthAction {
    BuildClient,
    ResumeSession { session: String },
    LogIn { email: String, password: String, mfa: Option<String> },
    /// Ask for a session that can be saved, in someone's name.
    SaveSession { email: String },
    Finish(AuthOutcome),
}

/// A login in the background.
pub struct AuthFlow {
    pub task: AuthTask,
    pub stage: AuthStage,
    /// A saved session was refused.
    pub refused: bool,
}

impl AuthFlow {
    /// A saved session can only be refused where there was one, and is before anything follows.
    pub open spec fn wf(&self) -> bool {
        &&& self.refused ==> self.task.resume is Some
        &&& self.stage is Resuming || self.stage is SavingResumed ==> self.task.resume is Some
            && !self.refused
        &&& self.stage is BuildingHttp || self.stage is BuildingClient ==> !self.refused
        &&& self.stage is RebuildingClient ==> self.refused
        &&& self.stage is LoggingIn || self.stage is SavingLogin ==> self.task.email@.len() > 0
            && self.task.password@.len() > 0
    }

    /// The reply that a stage waits for.
    pub open spec fn expects(&self, reply: AuthReply) -> bool {
        match self.stage {
            AuthStage::Done => false,
            AuthStage::SavingResumed | AuthStage::SavingLogin => reply is Saved,
            _ => !(reply is Saved),
        }
    }

    /// What follows once there is a client and no session to resume.
    pub open spec fn credentials_step(&self) -> (AuthStage, AuthAction) {
        if self.task.email@.len() == 0 || self.task.password@.len() == 0 {
            (
                AuthStage::Done,
                AuthAction::Finish(
                    AuthOutcome::Failed {
                        error: AuthError::NoCredentials,
                        clear_saved_session: self.refused,
                    },
                ),
            )
        } else {
            (
                AuthStage::LoggingIn,
                AuthAction::LogIn {
                    email: self.task.email,
                    password: self.task.password,
                    mfa: self.task.mfa,
                },
            )
        }
    }

    /// What follows a reply: the next stage, whether a saved session was refused, and what to do.
    pub open spec fn follows(&self, reply: AuthReply) -> (AuthStage, bool, AuthAction) {
        let failed = |error: AuthError|
            (
                AuthStage::Done,
                self.refused,
                AuthAction::Finish(
                    AuthOutcome::Failed { error, clear_saved_session: self.refused },
                ),
            );
        match (self.stage, reply) {
            (AuthStage::BuildingHttp, AuthReply::Failed(reason)) => failed(AuthError::Http(reason)),
            (AuthStage::BuildingHttp, _) => (
                AuthStage::BuildingClient,
                self.refused,
                AuthAction::BuildClient,
            ),
            (AuthStage::BuildingClient, AuthReply::Failed(reason)) => failed(
                AuthError::Client(reason),
            ),
            (AuthStage::BuildingClient, _) => match self.task.resume {
                Some(saved) => (
                    AuthStage::Resuming,
                    self.refused,
                    AuthAction::ResumeSession { session: saved.session },
                ),
                None => (self.credentials_step().0, self.refused, self.credentials_step().1),
            },
            (AuthStage::Resuming, AuthReply::Failed(_)) => (
                AuthStage::RebuildingClient,
                true,
                AuthAction::BuildClient,
            ),
            (AuthStage::Resuming, _) => (
                AuthStage::SavingResumed,
                self.refused,
                AuthAction::SaveSession { email: self.task.resume->0.email },
            ),
            (AuthStage::RebuildingClient, AuthReply::Failed(reason)) => failed(
                AuthError::Client(reason),
            ),
            (AuthStage::RebuildingClient, _) => (
                self.credentials_step().0,
                self.refused,
                self.credentials_step().1,
            ),
            (AuthStage::LoggingIn, AuthReply::Failed(reason)) => failed(AuthError::Refused(reason)),
            (AuthStage::LoggingIn, _) => (
                AuthStage::SavingLogin,
                self.refused,
                AuthAction::SaveSession { email: self.task.email },
            ),
            (_, AuthReply::Saved(saved_session)) => (
                AuthStage::Done,
                self.refused,
                AuthAction::Finish(
                    AuthOutcome::LoggedIn { saved_session, clear_saved_session: self.refused },
                ),
            ),
            _ => failed(AuthError::NoCredentials),
        }
    }

    /// A login begins with the means to reach the network.
    pub fn new(task: AuthTask) -> (flow: AuthFlow)
        ensures
            flow.wf(),
            flow.task == task,
            flow.stage == AuthStage::BuildingHttp,
            !flow.refused,
    {
        AuthFlow { task, stage: AuthStage::BuildingHttp, refused: false }
    }

    /// Ends a login that failed.
    fn fail(&mut self, error: AuthError) -> (action: AuthAction)
        ensures
            *final(self) == (AuthFlow { stage: AuthStage::Done, ..*old(self) }),
            action == AuthAction::Finish(
                AuthOutcome::Failed { error, clear_saved_session: old(self).refused },
            ),
    {
        self.stage = AuthStage::Done;
        AuthAction::Finish(AuthOutcome::Failed { error, clear_saved_session: self.refused })
    }

    /// Logs in with credentials, where there are any.
    fn use_credentials(&mut self) -> (action: AuthAction)
        ensures
            *final(self) == (AuthFlow { stage: old(self).credentials_step().0, ..*old(self) }),
            action == old(self).credentials_step().1,
    {
        if self.task.email.as_str().is_empty() || self.task.password.as_str().is_empty() {
            return self.fail(AuthError::NoCredentials);
        }
        self.stage = AuthStage::LoggingIn;
        let mfa = match &self.task.mfa {
            Some(mfa) => Some(mfa.clone()),
            None => None,
        };
        AuthAction::LogIn {
            email: self.task.email.clone(),
            password: self.task.password.clone(),
            mfa,
        }
    }

    /// Takes a reply and says what to do next.
    pub fn next(&mut self, reply: AuthReply) -> (action: AuthAction)
        requires
            old(self).wf(),
            old(self).expects(reply),
        ensures
            final(self).wf(),
            final(self).task == old(self).task,
            (final(self).stage, final(self).refused, action) == old(self).follows(reply),
    {
        match (self.stage, reply) {
            (AuthStage::BuildingHttp, AuthReply::Failed(reason)) => self.fail(
                AuthError::Http(reason),
            ),
            (AuthStage::BuildingHttp, _) => {
                self.stage = AuthStage::BuildingClient;
                AuthAction::BuildClient
            },
            (AuthStage::BuildingClient, AuthReply::Failed(reason)) => self.fail(
                AuthError::Client(reason),
            ),
            (AuthStage::BuildingClient, _) => {
                if let Some(saved) = &self.task.resume {
                    let session = saved.session.clone();
                    self.stage = AuthStage::Resuming;
                    return AuthAction::ResumeSession { session };
                }
                self.use_credentials()
            },
            (AuthStage::Resuming, AuthReply::Failed(_)) => {
                self.stage = AuthStage::RebuildingClient;
                self.refused = true;
                AuthAction::BuildClient
            },
            (AuthStage::Resuming, _) => {
                self.stage = AuthStage::SavingResumed;
                let email = match &self.task.resume {
                    Some(saved) => saved.email.clone(),
                    None => String::new(),
                };
                AuthAction::SaveSession { email }
            },
            (AuthStage::RebuildingClient, AuthReply::Failed(reason)) => self.fail(
                AuthError::Client(reason),
            ),
            (AuthStage::RebuildingClient, _) => self.use_credentials(),
            (AuthStage::LoggingIn, AuthReply::Failed(reason)) => self.fail(
                AuthError::Refused(reason),
            ),
            (AuthStage::LoggingIn, _) => {
                self.stage = AuthStage::SavingLogin;
                AuthAction::SaveSession { email: self.task.email.clone() }
            },
            (_, AuthReply::Saved(saved_session)) => {
                self.stage = AuthStage::Done;
                AuthAction::Finish(
                    AuthOutcome::LoggedIn { saved_session, clear_saved_session: self.refused },
                )
            },
            (_, _) => self.fail(AuthError::NoCredentials),
        }
    }
}

/// How many replies a login still waits for at most.
pub open spec fn replies_left(stage: AuthStage) -> nat {
    match stage {
        AuthStage::BuildingHttp => 6,
        AuthStage::BuildingClient => 5,
        AuthStage::Resuming => 4,
        AuthStage::RebuildingClient => 3,
        AuthStage::LoggingIn => 2,
        AuthStage::SavingResumed => 1,
        AuthStage::SavingLogin => 1,
        AuthStage::Done => 0,
    }
}

/// A login comes to an end, and what it came to is said exactly then.
pub proof fn law_login_comes_to_an_end(flow: AuthFlow, reply: AuthReply)
    requires
        flow.wf(),
        flow.expects(reply),
    ensures
        replies_left(flow.follows(reply).0) < replies_left(flow.stage),
        flow.follows(reply).2 is Finish <==> flow.follows(reply).0 == AuthStage::Done,
{
}

/// A saved session is thrown away only where it was refused, and never where it was resumed.
pub proof fn law_only_refused_sessions_are_cleared(flow: AuthFlow, reply: AuthReply)
    requires
        flow.wf(),
        flow.expects(reply),
        flow.follows(reply).2 is Finish,
    ensures
        flow.follows(reply).2->Finish_0 matches AuthOutcome::LoggedIn {
            clear_saved_session,
            ..
        } ==> clear_saved_session == flow.refused && (flow.stage == AuthStage::SavingResumed
            ==> !clear_saved_session),
        flow.follows(reply).2->Finish_0 matches AuthOutcome::Failed {
            clear_saved_session,
            ..
        } ==> clear_saved_session == flow.refused,
        flow.refused ==> flow.task.resume is Some,
{
}

} // verus!
