//! What holds of configurations and logins.

use vstd::prelude::*;

use crate::app::App;
use crate::bookmarklet;
use crate::bootstrap::{self, AppliedConfig, LoadedConfig, PlainCredentials};
use crate::login::{
    self,
    AuthAction,
    AuthError,
    AuthFlow,
    AuthOutcome,
    AuthReply,
    AuthStage,
    AuthTask,
    SavedSession,
};
use crate::settings::{LoginState, SortDirection};
use crate::text;
use crate::text_laws;

verus! {

/// The decimal notation of a number is read as that number, has no needless zeros and is a byte
/// exactly where the number is.
proof fn lemma_decimal_octet(number: nat)
    ensures
        bootstrap::number_of(text::decimal(number)) == number,
        forall|i: int|
            0 <= i < text::decimal(number).len() ==> '0' <= #[trigger] text::decimal(number)[i]
                <= '9',
        text::decimal(number).len() > 0,
        text::decimal(number).len() > 1 ==> text::decimal(number)[0] != '0',
        number > 0 ==> text::decimal(number)[0] != '0',
        number < 10 ==> text::decimal(number).len() == 1,
        number < 100 ==> text::decimal(number).len() <= 2,
        number < 1000 ==> text::decimal(number).len() <= 3,
        bootstrap::is_octet(text::decimal(number)) <==> number <= 255,
    decreases number,
{
    let shown = text::decimal(number);
    if number < 10 {
        assert(shown.drop_last() =~= Seq::empty());
        assert(bootstrap::number_of(shown.drop_last()) == 0);
    } else {
        lemma_decimal_octet(number / 10);
        let head = text::decimal(number / 10);
        assert(shown.drop_last() =~= head);
        assert(shown[0] == head[0]);
        assert forall|i: int| 0 <= i < shown.len() implies '0' <= #[trigger] shown[i] <= '9' by {
            if i < head.len() {
                assert(shown[i] == head[i]);
            }
        }
    }
}

/// An address of four numbers is this machine's exactly where it begins with 127 and each number is
/// a byte.
pub proof fn law_addresses_of_this_machine(a: nat, b: nat, c: nat, d: nat)
    ensures
        bootstrap::is_loopback(
            text::decimal(a) + seq!['.'] + (text::decimal(b) + seq!['.'] + (text::decimal(c)
                + seq!['.'] + text::decimal(d))),
        ) <==> a == 127 && b <= 255 && c <= 255 && d <= 255,
{
    lemma_decimal_octet(a);
    lemma_decimal_octet(b);
    lemma_decimal_octet(c);
    lemma_decimal_octet(d);
    let (w, x, y, z) = (text::decimal(a), text::decimal(b), text::decimal(c), text::decimal(d));
    let last = y + seq!['.'] + z;
    let rest = x + seq!['.'] + last;
    let host = w + seq!['.'] + rest;
    text_laws::law_pieces_stand_between_separators(w, rest, '.');
    text_laws::law_pieces_stand_between_separators(x, last, '.');
    text_laws::law_pieces_stand_between_separators(y, z, '.');
    text_laws::law_pieces_stand_between_separators(z, z, '.');
    let parts = text::pieces(host, '.');
    assert(parts =~= seq![w, x, y, z]);
    assert(host[0] == w[0]);
    reveal_strlit("localhost");
    reveal_strlit("::1");
    assert(host != "localhost"@);
    assert(host != "::1"@);
    if a == 127 && b <= 255 && c <= 255 && d <= 255 {
        assert forall|i: int| 0 <= i < 4 implies bootstrap::is_octet(#[trigger] parts[i]) by {}
    }
    if bootstrap::is_loopback(host) {
        assert(bootstrap::is_octet(parts[1]));
        assert(bootstrap::is_octet(parts[2]));
        assert(bootstrap::is_octet(parts[3]));
    }
}

/// Brackets around a host make no difference.
pub proof fn law_brackets_make_no_difference(host: Seq<char>)
    requires
        host.len() == 0 || host[0] != '[',
    ensures
        bootstrap::is_loopback(seq!['['] + host + seq![']']) == bootstrap::is_loopback(host),
{
    let whole = seq!['['] + host + seq![']'];
    assert(whole.subrange(1, whole.len() - 1) =~= host);
}

/// This machine is known by its name and by its address of the sixth version; a host without dots
/// and colons that is named otherwise is another one.
pub proof fn law_names_of_this_machine(host: Seq<char>)
    requires
        forall|k: int| 0 <= k < host.len() ==> 'a' <= #[trigger] host[k] <= 'z',
    ensures
        bootstrap::is_loopback(host) <==> host == "localhost"@,
        bootstrap::is_loopback("::1"@),
{
    reveal_strlit("::1");
    text_laws::law_pieces_stand_between_separators(host, Seq::empty(), '.');
}

/// The settings and the key of a configuration are taken over. Without a key it is given one, which
/// is to be written back; a key that it has stays.
pub proof fn law_configurations_are_taken_over(
    before: App,
    after: App,
    loaded: LoadedConfig,
    env: Option<PlainCredentials>,
    new_key: String,
    applied: AppliedConfig,
)
    requires
        bootstrap::config_applied(before, after, loaded, env, new_key, applied),
    ensures
        after.config.config == loaded.download,
        loaded.api_key is Some ==> after.api_key == loaded.api_key && applied.new_api_key is None,
        loaded.api_key is None && !applied.failed ==> after.api_key == Some(new_key)
            && applied.new_api_key == Some(new_key),
        applied.failed ==> after.login == before.login && after.saved_mega_session
            == before.saved_mega_session && applied.new_api_key is None,
        after.core_state == before.core_state,
        after.tracking == before.tracking,
        after.files == before.files,
        after.authenticated == before.authenticated,
{
}

/// A configuration fails exactly where it has credentials that cannot be read or are incomplete and
/// there are no others; its credentials are to be encrypted exactly where they stand there in the
/// clear.
pub proof fn law_configurations_fail_for_want_of_credentials(
    before: App,
    after: App,
    loaded: LoadedConfig,
    env: Option<PlainCredentials>,
    new_key: String,
    applied: AppliedConfig,
)
    requires
        bootstrap::config_applied(before, after, loaded, env, new_key, applied),
    ensures
        env is Some ==> !applied.failed,
        !loaded.has_credentials ==> !applied.failed && !applied.encrypt_credentials,
        loaded.has_credentials && env is None && loaded.decrypted is None ==> applied.failed,
        loaded.decrypted matches Some(read) ==> loaded.has_credentials && env is None ==> (
        applied.failed <==> read.email@.len() == 0 || read.password@.len() == 0),
        loaded.encrypted ==> !applied.encrypt_credentials,
        loaded.decrypted is None ==> !applied.encrypt_credentials,
        loaded.has_credentials && loaded.decrypted is Some && !loaded.encrypted
            ==> applied.encrypt_credentials,
{
}

/// The application starts with the credentials of the file where they are complete, else with those
/// of the environment where they are, else with its own.
pub proof fn law_starting_credentials(
    login: LoginState,
    loaded: LoadedConfig,
    env: Option<PlainCredentials>,
)
    ensures
        ({
            let start = bootstrap::starting_login(login, loaded, env);
            let read = loaded.has_credentials && loaded.decrypted is Some
                && loaded.decrypted->0.email@.len() > 0 && loaded.decrypted->0.password@.len() > 0;
            &&& read ==> start.email == loaded.decrypted->0.email && start.password
                == loaded.decrypted->0.password && start.mfa == loaded.decrypted->0.mfa
            &&& !read && env is Some && env->0.email@.len() > 0 && env->0.password@.len() > 0
                ==> start.email == env->0.email && start.password == env->0.password && start.mfa
                == env->0.mfa
            &&& !read && env is None ==> start == login
            &&& start.logging_in == login.logging_in
            &&& start.error == login.error
        }),
{
}

/// A saved session is taken over where it is the user's own, or where no user is named; one whose
/// owner cannot be read is not.
pub proof fn law_saved_sessions_are_the_users_own(
    before: App,
    after: App,
    loaded: LoadedConfig,
    env: Option<PlainCredentials>,
    new_key: String,
    applied: AppliedConfig,
)
    requires
        bootstrap::config_applied(before, after, loaded, env, new_key, applied),
        !applied.failed,
    ensures
        loaded.saved_session is None ==> after.saved_mega_session is None,
        loaded.saved_session matches Some(session) ==> {
            &&& session.owner is None ==> after.saved_mega_session is None
            &&& session.owner matches Some(owner) ==> {
                &&& owner@ == after.login.email@ ==> after.saved_mega_session == Some(
                    session.stored,
                )
                &&& after.login.email@.len() == 0 || after.login.password@.len() == 0
                    ==> after.saved_mega_session == Some(session.stored)
                &&& owner@.len() != after.login.email@.len() && after.login.email@.len() > 0
                    && after.login.password@.len() > 0 ==> after.saved_mega_session is None
            }
        },
{
}

/// A login is of no use once one is under way or over or downloads run, and of use before.
pub proof fn law_one_login_is_enough(app: App)
    ensures
        (App { authenticated: true, ..app }).needs_no_login(),
        (App { login: LoginState { logging_in: true, ..app.login }, ..app }).needs_no_login(),
        (App { download_task_running: true, ..app }).needs_no_login(),
        !(App {
            authenticated: false,
            login: LoginState { logging_in: false, ..app.login },
            download_task_running: false,
            ..app
        }).needs_no_login(),
{
}

/// A saved session may be used by its owner, however the address is written, and by nobody else who
/// is named.
pub proof fn law_saved_sessions_may_be_used_by_their_owner(app: App, saved: SavedSession)
    ensures
        saved.email@ == app.login.email@ ==> app.may_resume(saved),
        app.login.email@.len() == 0 ==> app.may_resume(saved),
        app.login.password@.len() == 0 ==> app.may_resume(saved),
        app.login.email@.len() > 0 && app.login.password@.len() > 0 ==> (app.may_resume(saved)
            <==> login::same_ignoring_case(saved.email@, app.login.email@)),
{
}

/// A login that begins is under way with the credentials that were typed, and a second one does not
/// begin beside it.
pub proof fn law_one_login_at_a_time(
    before: App,
    after: App,
    resume: Option<SavedSession>,
    task: Option<AuthTask>,
    later: App,
    again: Option<SavedSession>,
    second: Option<AuthTask>,
)
    requires
        login::auth_begun(before, after, resume, task),
    ensures
        task is Some <==> !before.authenticated && !before.login.logging_in
            && !before.client_pending,
        task matches Some(begun) ==> {
            &&& after.login.logging_in
            &&& after.client_pending
            &&& after.login.error is None
            &&& begun.email@ == before.login.email@
            &&& begun.password@ == before.login.password@
            &&& begun.resume == resume
            &&& before.login.mfa@.len() > 0 ==> begun.mfa is Some && begun.mfa->0@
                == before.login.mfa@
            &&& before.login.mfa@.len() == 0 ==> begun.mfa is None
            &&& after.login.typed() == before.login.typed()
            &&& resume is Some ==> after.status@ == "Resuming saved session..."@
            &&& resume is None ==> after.status@ == "Logging in..."@
        },
        task is None ==> after == before,
        login::auth_begun(after, later, again, second) ==> second is None && later == after,
{
}

/// What a login does in the background is done in the user's name: it resumes the saved session,
/// logs in with the credentials that it was given, and saves the session of whoever is logged in.
pub proof fn law_logins_act_for_the_user(flow: AuthFlow, reply: AuthReply)
    requires
        flow.wf(),
        flow.expects(reply),
    ensures
        match flow.follows(reply).2 {
            AuthAction::ResumeSession { session } => flow.task.resume matches Some(saved)
                && saved.session == session,
            AuthAction::LogIn { email, password, mfa } => {
                &&& email == flow.task.email
                &&& password == flow.task.password
                &&& mfa == flow.task.mfa
                &&& email@.len() > 0
                &&& password@.len() > 0
                &&& flow.task.resume is Some ==> flow.refused
            },
            AuthAction::SaveSession { email } => if flow.stage == AuthStage::Resuming {
                flow.task.resume matches Some(saved) && saved.email == email
            } else {
                email == flow.task.email
            },
            AuthAction::BuildClient => flow.stage == AuthStage::BuildingHttp || flow.stage
                == AuthStage::Resuming,
            AuthAction::Finish(outcome) => match outcome {
                AuthOutcome::LoggedIn { saved_session, .. } => reply == AuthReply::Saved(
                    saved_session,
                ),
                AuthOutcome::Failed { error, .. } => match error {
                    AuthError::Http(reason) => reply == AuthReply::Failed(reason) && flow.stage
                        == AuthStage::BuildingHttp,
                    AuthError::Client(reason) => reply == AuthReply::Failed(reason),
                    AuthError::Refused(reason) => reply == AuthReply::Failed(reason) && flow.stage
                        == AuthStage::LoggingIn,
                    AuthError::NoCredentials => flow.task.email@.len() == 0
                        || flow.task.password@.len() == 0,
                },
            },
        },
{
}

/// The flow that follows a reply.
pub open spec fn flow_after(flow: AuthFlow, reply: AuthReply) -> AuthFlow {
    AuthFlow { task: flow.task, stage: flow.follows(reply).0, refused: flow.follows(reply).1 }
}

/// A login whose steps all succeed comes to a logged-in user: by the saved session where there is
/// one, which then is kept, and by credentials where there is none.
pub proof fn law_logins_succeed_step_by_step(task: AuthTask, saved: Option<String>)
    ensures
        ({
            let start = AuthFlow { task, stage: AuthStage::BuildingHttp, refused: false };
            let reached = flow_after(start, AuthReply::Succeeded);
            let ready = flow_after(reached, AuthReply::Succeeded);
            let entered = flow_after(ready, AuthReply::Succeeded);
            &&& task.resume is Some ==> reached.follows(
                AuthReply::Succeeded,
            ).2 is ResumeSession
            &&& task.resume is None && task.email@.len() > 0 && task.password@.len() > 0
                ==> reached.follows(AuthReply::Succeeded).2 is LogIn
            &&& task.resume is Some || (task.email@.len() > 0 && task.password@.len() > 0)
                ==> entered.follows(AuthReply::Saved(saved)).2 == AuthAction::Finish(
                AuthOutcome::LoggedIn { saved_session: saved, clear_saved_session: false },
            )
        }),
{
}

/// A saved session that is refused gives way to the credentials, and is cleared in the end.
pub proof fn law_refused_sessions_give_way_to_credentials(
    task: AuthTask,
    reason: String,
    saved: Option<String>,
)
    requires
        task.resume is Some,
    ensures
        ({
            let resuming = AuthFlow { task, stage: AuthStage::Resuming, refused: false };
            let refused = flow_after(resuming, AuthReply::Failed(reason));
            let ready = flow_after(refused, AuthReply::Succeeded);
            let entered = flow_after(ready, AuthReply::Succeeded);
            &&& resuming.follows(AuthReply::Failed(reason)).2 == AuthAction::BuildClient
            &&& task.email@.len() > 0 && task.password@.len() > 0 ==> {
                &&& refused.follows(AuthReply::Succeeded).2 == (AuthAction::LogIn {
                    email: task.email,
                    password: task.password,
                    mfa: task.mfa,
                })
                &&& entered.follows(AuthReply::Saved(saved)).2 == AuthAction::Finish(
                    AuthOutcome::LoggedIn { saved_session: saved, clear_saved_session: true },
                )
            }
            &&& task.email@.len() == 0 || task.password@.len() == 0 ==> refused.follows(
                AuthReply::Succeeded,
            ).2 == AuthAction::Finish(
                AuthOutcome::Failed {
                    error: AuthError::NoCredentials,
                    clear_saved_session: true,
                },
            )
        }),
{
}

/// The text of a failed login holds its reason.
pub proof fn law_failures_say_why(reason: String)
    ensures
        ({
            let http = AuthError::Http(reason).shown();
            http.len() >= reason@.len() && http.skip(http.len() - reason@.len()) == reason@
        }),
        ({
            let client = AuthError::Client(reason).shown();
            client.len() >= reason@.len() && client.skip(client.len() - reason@.len()) == reason@
        }),
        AuthError::Refused(reason).shown() == reason@,
{
    let http = AuthError::Http(reason).shown();
    let client = AuthError::Client(reason).shown();
    assert(http.skip(http.len() - reason@.len()) =~= reason@);
    assert(client.skip(client.len() - reason@.len()) =~= reason@);
}

/// The characters of a JSON string follow each other as those of the text do; text without
/// quotation marks, backslashes and controls stands for itself.
pub proof fn law_json_strings(a: Seq<char>, b: Seq<char>)
    ensures
        bookmarklet::json_body(a + b) == bookmarklet::json_body(a) + bookmarklet::json_body(b),
        (forall|k: int|
            0 <= k < a.len() ==> #[trigger] a[k] != '"' && a[k] != '\\' && a[k] as int >= 32)
            ==> bookmarklet::json_body(a) == a,
    decreases a.len() + b.len(),
{
    if b.len() > 0 {
        law_json_strings(a, b.drop_last());
        let whole = a + b;
        assert(whole.drop_last() =~= a + b.drop_last());
        assert(whole.last() == b.last());
        assert(bookmarklet::json_body(whole) =~= bookmarklet::json_body(a)
            + bookmarklet::json_body(b));
    } else {
        assert(a + b =~= a);
        assert(bookmarklet::json_body(a) + bookmarklet::json_body(b) =~= bookmarklet::json_body(a));
        if a.len() > 0 && (forall|k: int|
            0 <= k < a.len() ==> #[trigger] a[k] != '"' && a[k] != '\\' && a[k] as int >= 32) {
            let shorter = a.drop_last();
            assert forall|k: int| 0 <= k < shorter.len() implies #[trigger] shorter[k] != '"'
                && shorter[k] != '\\' && shorter[k] as int >= 32 by {
                assert(shorter[k] == a[k]);
            }
            law_json_strings(shorter, b);
            assert(a[a.len() - 1] == a.last());
            assert(bookmarklet::json_body(a) =~= a);
        }
    }
    if b.len() > 0 && (forall|k: int|
        0 <= k < a.len() ==> #[trigger] a[k] != '"' && a[k] != '\\' && a[k] as int >= 32) {
        law_json_strings(a, b.drop_last());
    }
}

/// A character that could end a JSON string, or that it may not hold, is written behind a
/// backslash.
pub proof fn law_json_strings_do_not_end_early(c: char)
    ensures
        ({
            let shown = bookmarklet::json_body(seq![c]);
            &&& c == '"' || c == '\\' ==> shown == seq!['\\', c]
            &&& (c as int) < 32 ==> shown.len() >= 2 && shown[0] == '\\' && forall|k: int|
                0 <= k < shown.len() ==> #[trigger] shown[k] as int >= 32
            &&& shown.len() == 1 ==> shown[0] == c
        }),
{
    let text = seq![c];
    assert(text.drop_last() =~= Seq::empty());
    assert(bookmarklet::json_body(text.drop_last()) =~= Seq::empty());
    assert(bookmarklet::json_body(text) =~= bookmarklet::json_escape(c));
    let code = c as int;
    if code < 32 {
        assert(crate::ids::hex_char(code / 16) as int >= 32);
        assert(crate::ids::hex_char(code % 16) as int >= 32);
    }
}

/// The bookmarklet sends the key as it is where it has one, and no header where it has none.
pub proof fn law_bookmarklets_send_the_key(key: &str)
    requires
        forall|k: int|
            0 <= k < key@.len() ==> #[trigger] key@[k] != '"' && key@[k] != '\\' && key@[k] as int
                >= 32,
    ensures
        bookmarklet::key_header(Some(key)) == "{\"x-api-key\":\""@ + key@ + "\"}"@,
        bookmarklet::key_header(None) == "{}"@,
{
    law_json_strings(key@, Seq::empty());
    reveal_strlit("{\"x-api-key\":");
    reveal_strlit("{\"x-api-key\":\"");
    reveal_strlit("}");
    reveal_strlit("\"}");
    assert(bookmarklet::key_header(Some(key)) =~= "{\"x-api-key\":\""@ + key@ + "\"}"@);
}

/// The script of the bookmarklet holds the origin and, behind it, the headers, and nothing of
/// either is lost: scripts that are the same for one origin have the same headers.
pub proof fn law_scripts_hold_origin_and_headers(
    origin: Seq<char>,
    header: Seq<char>,
    other: Seq<char>,
)
    ensures
        text::begins_with(
            bookmarklet::script(origin, header),
            bookmarklet::SCRIPT_HEAD@ + bookmarklet::debug_of(origin),
        ),
        bookmarklet::script(origin, header) == bookmarklet::script(origin, other) ==> header
            == other,
{
    let script = bookmarklet::script(origin, header);
    let head = bookmarklet::SCRIPT_HEAD@ + bookmarklet::debug_of(origin);
    assert(script.take(head.len() as int) =~= head);
    if script == bookmarklet::script(origin, other) {
        let start = (head + bookmarklet::SCRIPT_MIDDLE@).len() as int;
        let around = start + bookmarklet::SCRIPT_TAIL@.len();
        assert(script.len() == around + header.len());
        assert(bookmarklet::script(origin, other).len() == around + other.len());
        assert(script.subrange(start, start + header.len()) =~= header);
        assert(bookmarklet::script(origin, other).subrange(start, start + other.len()) =~= other);
    }
}

/// Turning a direction round twice leaves it, and once does not.
pub proof fn law_directions_are_turned_round(direction: SortDirection)
    ensures
        direction.opposite() != direction,
        direction.opposite().opposite() == direction,
{
}

/// A key is made of thirty-two hexadecimal digits in lower case, one of which tells that it is
/// random.
pub proof fn law_keys_are_random_identifiers(key: Seq<char>, at: int)
    requires
        bootstrap::is_api_key(key),
        0 <= at < key.len(),
    ensures
        key.len() == 32,
        '0' <= key[at] <= '9' || 'a' <= key[at] <= 'f',
        at == 12 ==> key[at] == '4',
        at == 16 ==> '8' <= key[at] <= '9' || 'a' <= key[at] <= 'b',
{
    assert(bootstrap::is_hex(key[at]));
}

} // verus!
