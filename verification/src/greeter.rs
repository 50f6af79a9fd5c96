//! The greeter: the login conversation with greetd, the password field's
//! keys, and the choice of the user to log in.
use vstd::prelude::*;
use crate::text::{chars_of, eq_str, lex_le, lex_le_exec, lemma_lex_total, lemma_lex_trans};

verus! {

/// The kind of prompt greetd sends.
#[derive(Clone, Copy, PartialEq, Eq, Structural, Debug)]
pub enum AuthKind {
    Visible,
    Secret,
    Info,
    Error,
}

/// A response from greetd, as the conversation reads it.
pub enum GreetResponse {
    AuthMessage(AuthKind),
    Success,
    /// A refusal, with greetd's description.
    Error(String),
}

/// A request to send to greetd. The user name, the password and the session
/// command are filled in by whoever sends it.
#[derive(Clone, Copy, PartialEq, Eq, Structural, Debug)]
pub enum GreetRequest {
    CreateSession,
    /// Answer a prompt, with the password or without an answer.
    PostAuthResponse { with_password: bool },
    StartSession,
    CancelSession,
}

/// Why logging in failed.
pub enum AuthError {
    /// `GREETD_SOCK` is not set.
    SocketUnset,
    /// Connecting to the socket failed, for this reason.
    ConnectFailed(String),
    CreateSessionFailed(String),
    PostAuthFailed(String),
    StartSessionFailed(String),
    ReadFailed(String),
    /// greetd refused, with this description.
    Denied(String),
    /// greetd answered the session start with a prompt.
    UnexpectedResponse,
}

/// The text of an error, as the greeter reports it.
pub open spec fn error_text(e: AuthError) -> Seq<char> {
    match e {
        AuthError::SocketUnset => "GREETD_SOCK not set"@,
        AuthError::ConnectFailed(r) => "Connect failed: "@ + r@,
        AuthError::CreateSessionFailed(r) => "CreateSession failed: "@ + r@,
        AuthError::PostAuthFailed(r) => "PostAuth failed: "@ + r@,
        AuthError::StartSessionFailed(r) => "StartSession failed: "@ + r@,
        AuthError::ReadFailed(r) => "Read failed: "@ + r@,
        AuthError::Denied(d) => d@,
        AuthError::UnexpectedResponse => "Unexpected response"@,
    }
}

fn prefixed(prefix: &str, reason: &String) -> (s: String)
    ensures
        s@ == prefix@ + reason@,
{
    String::from_str(prefix).concat(reason.as_str())
}

impl AuthError {
    /// The message the greeter reports.
    pub fn message(&self) -> (s: String)
        ensures
            s@ == error_text(*self),
    {
        match self {
            AuthError::SocketUnset => String::from_str("GREETD_SOCK not set"),
            AuthError::ConnectFailed(r) => prefixed("Connect failed: ", r),
            AuthError::CreateSessionFailed(r) => prefixed("CreateSession failed: ", r),
            AuthError::PostAuthFailed(r) => prefixed("PostAuth failed: ", r),
            AuthError::StartSessionFailed(r) => prefixed("StartSession failed: ", r),
            AuthError::ReadFailed(r) => prefixed("Read failed: ", r),
            AuthError::Denied(d) => d.clone(),
            AuthError::UnexpectedResponse => String::from_str("Unexpected response"),
        }
    }
}

/// Where the login conversation stands.
pub enum AuthPhase {
    /// Nothing sent yet.
    Idle,
    /// `CreateSession` is being sent.
    CreatingSession,
    /// Waiting for a prompt, or for the end of authentication.
    AwaitingAuth,
    /// An answer to a prompt is being sent.
    AnsweringAuth,
    /// `StartSession` is being sent.
    StartingSession,
    /// Waiting for the answer to `StartSession`.
    AwaitingStart,
    /// The session is being cancelled after this failure.
    Cancelling(AuthError),
    /// The conversation is over.
    Done,
}

/// What happened last in the conversation.
pub enum AuthEvent {
    /// Start the conversation.
    Begin,
    /// The last request was written, or writing it failed for this reason.
    Sent(Result<(), String>),
    /// A response was read, or reading failed for this reason.
    Received(Result<GreetResponse, String>),
}

/// What to do next.
pub enum AuthAction {
    /// Write this request.
    Send(GreetRequest),
    /// Read a response.
    Receive,
    /// The conversation is over, with this outcome.
    Finish(Result<(), AuthError>),
    /// The event does not fit the phase; nothing to do.
    Ignore,
}

/// After a failure once the session exists: cancel it first.
pub open spec fn fail(e: AuthError) -> (AuthPhase, AuthAction) {
    (AuthPhase::Cancelling(e), AuthAction::Send(GreetRequest::CancelSession))
}

/// Whether greetd's prompt is answered with the password: secret and
/// visible prompts are, information and error messages are not.
pub open spec fn answers_with_password(k: AuthKind) -> bool {
    k == AuthKind::Secret || k == AuthKind::Visible
}

/// One step of the login conversation.
pub open spec fn auth_step_spec(p: AuthPhase, ev: AuthEvent) -> (AuthPhase, AuthAction) {
    match (p, ev) {
        (AuthPhase::Idle, AuthEvent::Begin) => (
            AuthPhase::CreatingSession,
            AuthAction::Send(GreetRequest::CreateSession),
        ),
        (AuthPhase::CreatingSession, AuthEvent::Sent(Ok(()))) => (
            AuthPhase::AwaitingAuth,
            AuthAction::Receive,
        ),
        (AuthPhase::CreatingSession, AuthEvent::Sent(Err(r))) => (
            AuthPhase::Done,
            AuthAction::Finish(Err(AuthError::CreateSessionFailed(r))),
        ),
        (AuthPhase::AwaitingAuth, AuthEvent::Received(Ok(GreetResponse::AuthMessage(k)))) => (
            AuthPhase::AnsweringAuth,
            AuthAction::Send(GreetRequest::PostAuthResponse { with_password: answers_with_password(k) }),
        ),
        (AuthPhase::AwaitingAuth, AuthEvent::Received(Ok(GreetResponse::Success))) => (
            AuthPhase::StartingSession,
            AuthAction::Send(GreetRequest::StartSession),
        ),
        (AuthPhase::AwaitingAuth, AuthEvent::Received(Ok(GreetResponse::Error(d)))) => fail(
            AuthError::Denied(d),
        ),
        (AuthPhase::AwaitingAuth, AuthEvent::Received(Err(r))) => fail(AuthError::ReadFailed(r)),
        (AuthPhase::AnsweringAuth, AuthEvent::Sent(Ok(()))) => (
            AuthPhase::AwaitingAuth,
            AuthAction::Receive,
        ),
        (AuthPhase::AnsweringAuth, AuthEvent::Sent(Err(r))) => fail(AuthError::PostAuthFailed(r)),
        (AuthPhase::StartingSession, AuthEvent::Sent(Ok(()))) => (
            AuthPhase::AwaitingStart,
            AuthAction::Receive,
        ),
        (AuthPhase::StartingSession, AuthEvent::Sent(Err(r))) => fail(
            AuthError::StartSessionFailed(r),
        ),
        (AuthPhase::AwaitingStart, AuthEvent::Received(Ok(GreetResponse::Success))) => (
            AuthPhase::Done,
            AuthAction::Finish(Ok(())),
        ),
        (AuthPhase::AwaitingStart, AuthEvent::Received(Ok(GreetResponse::Error(d)))) => fail(
            AuthError::Denied(d),
        ),
        (AuthPhase::AwaitingStart, AuthEvent::Received(Ok(GreetResponse::AuthMessage(_)))) => fail(
            AuthError::UnexpectedResponse,
        ),
        (AuthPhase::AwaitingStart, AuthEvent::Received(Err(r))) => fail(AuthError::ReadFailed(r)),
        (AuthPhase::Cancelling(e), AuthEvent::Sent(_)) => (
            AuthPhase::Done,
            AuthAction::Finish(Err(e)),
        ),
        (p, _) => (p, AuthAction::Ignore),
    }
}

/// Takes one step of the login conversation; see `auth_step_spec`.
pub fn auth_step(p: AuthPhase, ev: AuthEvent) -> (r: (AuthPhase, AuthAction))
    ensures
        r == auth_step_spec(p, ev),
{
    match (p, ev) {
        (AuthPhase::Idle, AuthEvent::Begin) => (
            AuthPhase::CreatingSession,
            AuthAction::Send(GreetRequest::CreateSession),
        ),
        (AuthPhase::CreatingSession, AuthEvent::Sent(Ok(()))) => (
            AuthPhase::AwaitingAuth,
            AuthAction::Receive,
        ),
        (AuthPhase::CreatingSession, AuthEvent::Sent(Err(r))) => (
            AuthPhase::Done,
            AuthAction::Finish(Err(AuthError::CreateSessionFailed(r))),
        ),
        (AuthPhase::AwaitingAuth, AuthEvent::Received(Ok(GreetResponse::AuthMessage(k)))) => {
            let with_password = match k {
                AuthKind::Secret | AuthKind::Visible => true,
                AuthKind::Info | AuthKind::Error => false,
            };
            (AuthPhase::AnsweringAuth, AuthAction::Send(GreetRequest::PostAuthResponse { with_password }))
        },
        (AuthPhase::AwaitingAuth, AuthEvent::Received(Ok(GreetResponse::Success))) => (
            AuthPhase::StartingSession,
            AuthAction::Send(GreetRequest::StartSession),
        ),
        (AuthPhase::AwaitingAuth, AuthEvent::Received(Ok(GreetResponse::Error(d)))) => (
            AuthPhase::Cancelling(AuthError::Denied(d)),
            AuthAction::Send(GreetRequest::CancelSession),
        ),
        (AuthPhase::AwaitingAuth, AuthEvent::Received(Err(r))) => (
            AuthPhase::Cancelling(AuthError::ReadFailed(r)),
            AuthAction::Send(GreetRequest::CancelSession),
        ),
        (AuthPhase::AnsweringAuth, AuthEvent::Sent(Ok(()))) => (
            AuthPhase::AwaitingAuth,
            AuthAction::Receive,
        ),
        (AuthPhase::AnsweringAuth, AuthEvent::Sent(Err(r))) => (
            AuthPhase::Cancelling(AuthError::PostAuthFailed(r)),
            AuthAction::Send(GreetRequest::CancelSession),
        ),
        (AuthPhase::StartingSession, AuthEvent::Sent(Ok(()))) => (
            AuthPhase::AwaitingStart,
            AuthAction::Receive,
        ),
        (AuthPhase::StartingSession, AuthEvent::Sent(Err(r))) => (
            AuthPhase::Cancelling(AuthError::StartSessionFailed(r)),
            AuthAction::Send(GreetRequest::CancelSession),
        ),
        (AuthPhase::AwaitingStart, AuthEvent::Received(Ok(GreetResponse::Success))) => (
            AuthPhase::Done,
            AuthAction::Finish(Ok(())),
        ),
        (AuthPhase::AwaitingStart, AuthEvent::Received(Ok(GreetResponse::Error(d)))) => (
            AuthPhase::Cancelling(AuthError::Denied(d)),
            AuthAction::Send(GreetRequest::CancelSession),
        ),
        (AuthPhase::AwaitingStart, AuthEvent::Received(Ok(GreetResponse::AuthMessage(_)))) => (
            AuthPhase::Cancelling(AuthError::UnexpectedResponse),
            AuthAction::Send(GreetRequest::CancelSession),
        ),
        (AuthPhase::AwaitingStart, AuthEvent::Received(Err(r))) => (
            AuthPhase::Cancelling(AuthError::ReadFailed(r)),
            AuthAction::Send(GreetRequest::CancelSession),
        ),
        (AuthPhase::Cancelling(e), AuthEvent::Sent(_)) => (
            AuthPhase::Done,
            AuthAction::Finish(Err(e)),
        ),
        (p, _) => (p, AuthAction::Ignore),
    }
}

/// The password is only ever offered in answer to a secret or visible prompt.
pub proof fn lemma_password_only_for_prompts(p: AuthPhase, ev: AuthEvent)
    requires
        auth_step_spec(p, ev).1 == AuthAction::Send(
            GreetRequest::PostAuthResponse { with_password: true },
        ),
    ensures
        p is AwaitingAuth,
        ev matches AuthEvent::Received(Ok(GreetResponse::AuthMessage(k))) && answers_with_password(k),
{
}

/// While waiting for authentication, every prompt is answered: secret and
/// visible prompts with the password, information and error messages without
/// an answer; either way the conversation goes on to answering.
pub proof fn lemma_prompts_answered(k: AuthKind)
    ensures
        auth_step_spec(AuthPhase::AwaitingAuth, AuthEvent::Received(Ok(GreetResponse::AuthMessage(k))))
            == (AuthPhase::AnsweringAuth, AuthAction::Send(
            GreetRequest::PostAuthResponse { with_password: k == AuthKind::Secret || k == AuthKind::Visible },
        )),
        k == AuthKind::Visible ==> auth_step_spec(
            AuthPhase::AwaitingAuth,
            AuthEvent::Received(Ok(GreetResponse::AuthMessage(k))),
        ).1 == AuthAction::Send(GreetRequest::PostAuthResponse { with_password: true }),
        k == AuthKind::Info || k == AuthKind::Error ==> auth_step_spec(
            AuthPhase::AwaitingAuth,
            AuthEvent::Received(Ok(GreetResponse::AuthMessage(k))),
        ).1 == AuthAction::Send(GreetRequest::PostAuthResponse { with_password: false }),
{
}

/// A session is started only after greetd reported that authentication
/// succeeded, and login succeeds only when greetd accepted the start.
pub proof fn lemma_success_needs_greetd(p: AuthPhase, ev: AuthEvent)
    ensures
        auth_step_spec(p, ev).1 == AuthAction::Send(GreetRequest::StartSession) ==> (p is AwaitingAuth
            && ev == AuthEvent::Received(Ok(GreetResponse::Success))),
        auth_step_spec(p, ev).1 == AuthAction::Finish(Ok(())) ==> (p is AwaitingStart && ev
            == AuthEvent::Received(Ok(GreetResponse::Success))),
{
}

/// Once the session exists, every failure is reported only after the
/// session was cancelled: a failed outcome comes from the cancelling phase,
/// or from failing to create the session at all.
pub proof fn lemma_failure_cancels(p: AuthPhase, ev: AuthEvent)
    requires
        auth_step_spec(p, ev).1 matches AuthAction::Finish(Err(_)),
    ensures
        p is Cancelling || (p is CreatingSession && ev matches AuthEvent::Sent(Err(_))),
{
}

/// The command that starts the desktop session.
pub fn session_command() -> (c: Vec<&'static str>)
    ensures
        c@.len() == 3,
        c@[0]@ == "uwsm"@,
        c@[1]@ == "start"@,
        c@[2]@ == "hyprland-uwsm.desktop"@,
{
    let mut c: Vec<&'static str> = Vec::new();
    c.push("uwsm");
    c.push("start");
    c.push("hyprland-uwsm.desktop");
    c
}

/// A Unicode control character (general category Cc).
pub open spec fn is_control_spec(c: char) -> bool {
    (c as u32) <= 0x1f || (0x7f <= (c as u32) && (c as u32) <= 0x9f)
}

/// Tests whether `c` is a control character, as `char::is_control` does.
pub fn is_control(c: char) -> (b: bool)
    ensures
        b == is_control_spec(c),
{
    let n = c as u32;
    n <= 0x1f || (0x7f <= n && n <= 0x9f)
}

/// A key, as the password field tells keys apart.
#[derive(Clone, Copy, PartialEq, Eq, Structural, Debug)]
pub enum PasswordKey {
    /// Return or keypad Enter.
    Enter,
    Backspace,
    Escape,
    /// Any other key, with the character it types if it types one.
    Other(Option<char>),
}

/// What a key press does to the password field.
#[derive(Clone, Copy, PartialEq, Eq, Structural, Debug)]
pub enum PasswordAction {
    /// Consume the key and do nothing.
    Ignore,
    /// Log in with the password typed; clear the field.
    Submit,
    /// Remove the last character.
    Pop,
    /// Clear the field.
    Clear,
    /// Append this character.
    Push(char),
    /// Let the key go on (a shortcut with Control or Alt).
    Proceed,
}

/// The response to a key: nothing while a login is in progress; Enter logs
/// in unless the field is empty; Backspace and Escape edit; a printable
/// character without Control or Alt is typed.
pub open spec fn password_key_spec(
    key: PasswordKey,
    authenticating: bool,
    empty: bool,
    ctrl_or_alt: bool,
) -> PasswordAction {
    if authenticating {
        PasswordAction::Ignore
    } else {
        match key {
            PasswordKey::Enter => if empty {
                PasswordAction::Ignore
            } else {
                PasswordAction::Submit
            },
            PasswordKey::Backspace => PasswordAction::Pop,
            PasswordKey::Escape => PasswordAction::Clear,
            PasswordKey::Other(ch) => if ctrl_or_alt {
                PasswordAction::Proceed
            } else {
                match ch {
                    Some(c) => if !is_control_spec(c) {
                        PasswordAction::Push(c)
                    } else {
                        PasswordAction::Ignore
                    },
                    None => PasswordAction::Ignore,
                }
            },
        }
    }
}

/// Decides what a key press does to the password field.
pub fn password_key(key: PasswordKey, authenticating: bool, empty: bool, ctrl_or_alt: bool) -> (r:
    PasswordAction)
    ensures
        r == password_key_spec(key, authenticating, empty, ctrl_or_alt),
{
    if authenticating {
        return PasswordAction::Ignore;
    }
    match key {
        PasswordKey::Enter => {
            if empty {
                PasswordAction::Ignore
            } else {
                PasswordAction::Submit
            }
        },
        PasswordKey::Backspace => PasswordAction::Pop,
        PasswordKey::Escape => PasswordAction::Clear,
        PasswordKey::Other(ch) => {
            if ctrl_or_alt {
                return PasswordAction::Proceed;
            }
            match ch {
                Some(c) => {
                    if !is_control(c) {
                        PasswordAction::Push(c)
                    } else {
                        PasswordAction::Ignore
                    }
                },
                None => PasswordAction::Ignore,
            }
        },
    }
}

/// While a login is in progress, no key reaches the password or starts
/// another login.
pub proof fn lemma_keys_ignored_while_authenticating(key: PasswordKey, empty: bool, mods: bool)
    ensures
        password_key_spec(key, true, empty, mods) == PasswordAction::Ignore,
{
}

/// An empty password is never submitted.
pub proof fn lemma_no_empty_submit(key: PasswordKey, auth: bool, mods: bool)
    ensures
        password_key_spec(key, auth, true, mods) != PasswordAction::Submit,
{
}


/// An entry of `/home`.
pub struct HomeEntry {
    pub name: String,
    pub is_dir: bool,
}

/// A home entry that names a user: a directory other than `lost+found`.
pub open spec fn is_user_dir(e: HomeEntry) -> bool {
    e.is_dir && e.name@ != "lost+found"@
}

/// The user to log in: the one named on the command line, else the first
/// user directory of `/home` in name order; none when there is neither.
pub fn pick_username(arg: Option<String>, entries: &Vec<HomeEntry>) -> (r: Option<String>)
    ensures
        arg is Some ==> r == arg,
        arg is None ==> (r is None <==> forall|i: int|
            0 <= i < entries@.len() ==> !is_user_dir(#[trigger] entries@[i])),
        arg is None ==> (r matches Some(n) ==> exists|i: int|
            0 <= i < entries@.len() && is_user_dir(#[trigger] entries@[i]) && n@ == entries@[i].name@),
        arg is None ==> (r matches Some(n) ==> forall|i: int|
            0 <= i < entries@.len() && is_user_dir(#[trigger] entries@[i]) ==> lex_le(
                n@,
                entries@[i].name@,
            )),
{
    if arg.is_some() {
        return arg;
    }
    let mut best: Option<usize> = None;
    let mut best_key: Vec<char> = Vec::new();
    let mut i: usize = 0;
    while i < entries.len()
        invariant
            i <= entries.len(),
            best is None <==> forall|j: int| 0 <= j < i ==> !is_user_dir(#[trigger] entries@[j]),
            best matches Some(b) ==> b < i && is_user_dir(entries@[b as int]) && best_key@
                == entries@[b as int].name@,
            best matches Some(b) ==> forall|j: int|
                0 <= j < i && is_user_dir(#[trigger] entries@[j]) ==> lex_le(
                    best_key@,
                    entries@[j].name@,
                ),
        decreases entries.len() - i,
    {
        let e = &entries[i];
        let key = chars_of(e.name.as_str());
        if e.is_dir && !eq_str(&key, "lost+found") {
            let better = match best {
                None => true,
                Some(_) => !lex_le_exec(&best_key, &key),
            };
            if better {
                proof {
                    if best is Some {
                        lemma_lex_total(best_key@, key@);
                        assert forall|j: int|
                            0 <= j < i + 1 && is_user_dir(#[trigger] entries@[j]) implies lex_le(
                            key@,
                            entries@[j].name@,
                        ) by {
                            if j < i {
                                lemma_lex_trans(key@, best_key@, entries@[j].name@);
                            } else {
                                crate::text::lemma_lex_refl(key@);
                            }
                        }
                    } else {
                        crate::text::lemma_lex_refl(key@);
                    }
                }
                best = Some(i);
                best_key = key;
            }
        }
        i = i + 1;
    }
    match best {
        Some(b) => Some(entries[b].name.clone()),
        None => None,
    }
}

} // verus!
