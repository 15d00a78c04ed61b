//! Routing of decoded inbound messages, and the password login.
use vstd::prelude::*;
use vstd::string::*;

use crate::hasher::{password_matches, verify_password};
use crate::records::{Credential, Profile, UserId};

verus! {

/// Credentials sent by a client that wants to log in.
#[derive(Debug, Clone)]
pub struct LoginForm {
    pub email: String,
    pub password: String,
}

/// A chat line sent by a client.
#[derive(Debug, Clone)]
pub struct ChatMessage {
    pub chat_message: String,
}

/// The kinds of inbound message.
#[derive(Debug, Clone)]
pub enum Inbound {
    LoginWithPassword(LoginForm),
    /// Reserved: refused with `DispatchError::NotImplemented`.
    LoginWithEmail(LoginForm),
    ChatMessage(ChatMessage),
}

/// Why a login or an action that needs one was refused.
#[derive(Debug, Clone, Copy, PartialEq, Eq)]
pub enum AuthError {
    UnknownIdentity,
    NoCredential,
    InvalidPassword,
    AlreadyAuthenticated,
    NotAuthenticated,
}

/// Why a message was not acted upon. The connection stays open.
#[derive(Debug, Clone, Copy, PartialEq, Eq)]
pub enum DispatchError {
    NotImplemented,
    Auth(AuthError),
}

/// The identity bound to one connection, if any.
#[derive(Debug, Clone, Copy, PartialEq, Eq)]
pub struct Session {
    pub user: Option<UserId>,
}

impl Session {
    /// A session with no identity bound.
    pub fn new() -> (r: Session)
        ensures
            r.user is None,
    {
        Session { user: None }
    }
}

/// What the connection's task must do next for one message.
#[derive(Debug, Clone)]
pub enum Command {
    /// Look up the profile with this email and its credential, then call
    /// `login_with_password` with what was found.
    Login(LoginForm),
    /// Push this payload to every registered connection.
    Broadcast(String),
}

/// The markup placed before a chat line.
pub const CHAT_OPEN: &'static str = "<div hx-swap-oob=\"beforeend:#idMessage\"><p>";

/// The markup placed after a chat line.
pub const CHAT_CLOSE: &'static str = "</p><br/></div>";

/// The outbound fragment for a chat line: the text embedded verbatim.
pub open spec fn chat_fragment(text: Seq<char>) -> Seq<char> {
    CHAT_OPEN@ + text + CHAT_CLOSE@
}

/// Renders a chat line into the outbound fragment, without escaping.
pub fn render_chat(text: &str) -> (r: String)
    ensures
        r@ == chat_fragment(text@),
{
    let mut out = String::from_str(CHAT_OPEN);
    out.append(text);
    out.append(CHAT_CLOSE);
    out
}

/// Decides what to do with one decoded message. A password login on a
/// connection that already has an identity is refused; the reserved login
/// kind is refused as not implemented; a chat line is rendered for a
/// broadcast to every connection.
pub fn dispatch(session: &Session, msg: Inbound) -> (r: Result<Command, DispatchError>)
    ensures
        match msg {
            Inbound::LoginWithPassword(form) => if session.user is Some {
                r == Err::<Command, DispatchError>(
                    DispatchError::Auth(AuthError::AlreadyAuthenticated),
                )
            } else {
                r matches Ok(Command::Login(f)) && f.email@ == form.email@ && f.password@
                    == form.password@
            },
            Inbound::LoginWithEmail(_) => r == Err::<Command, DispatchError>(
                DispatchError::NotImplemented,
            ),
            Inbound::ChatMessage(m) => r matches Ok(Command::Broadcast(payload)) && payload@
                == chat_fragment(m.chat_message@),
        },
{
    match msg {
        Inbound::LoginWithPassword(form) => {
            if session.user.is_some() {
                Err(DispatchError::Auth(AuthError::AlreadyAuthenticated))
            } else {
                Ok(Command::Login(form))
            }
        },
        Inbound::LoginWithEmail(_) => Err(DispatchError::NotImplemented),
        Inbound::ChatMessage(m) => Ok(Command::Broadcast(render_chat(m.chat_message.as_str()))),
    }
}

/// What a password login decides, given the profile found for the form's
/// email and the credential found for that profile.
pub open spec fn login_outcome(
    session: Session,
    form_password: Seq<char>,
    profile: Option<Profile>,
    credential: Option<Credential>,
) -> Result<UserId, AuthError> {
    if session.user is Some {
        Err(AuthError::AlreadyAuthenticated)
    } else if profile is None {
        Err(AuthError::UnknownIdentity)
    } else if credential is None || credential->Some_0.user != profile->Some_0.id {
        Err(AuthError::NoCredential)
    } else if !password_matches(form_password, credential->Some_0.phc_string@) {
        Err(AuthError::InvalidPassword)
    } else {
        Ok(profile->Some_0.id)
    }
}

/// Completes a password login. `profile` is what the identity store holds
/// for the form's email, `credential` what it holds for that profile. On
/// success the profile's id is bound to the session; on failure the session
/// is left as it was. The password is checked only once a credential has
/// been found.
pub fn login_with_password(
    form: &LoginForm,
    profile: Option<Profile>,
    credential: Option<Credential>,
    session: &mut Session,
) -> (r: Result<UserId, AuthError>)
    ensures
        r == login_outcome(*old(session), form.password@, profile, credential),
        r is Ok ==> final(session).user == Some(r->Ok_0),
        r is Err ==> *final(session) == *old(session),
{
    if session.user.is_some() {
        return Err(AuthError::AlreadyAuthenticated);
    }
    let profile = match profile {
        Some(p) => p,
        None => return Err(AuthError::UnknownIdentity),
    };
    let credential = match credential {
        Some(c) => c,
        None => return Err(AuthError::NoCredential),
    };
    if credential.user != profile.id {
        return Err(AuthError::NoCredential);
    }
    if !verify_password(form.password.as_str(), credential.phc_string.as_str()) {
        return Err(AuthError::InvalidPassword);
    }
    session.user = Some(profile.id);
    Ok(profile.id)
}

} // verus!
