use relay_chat::dispatch::{
    dispatch, login_with_password, render_chat, AuthError, ChatMessage, Command, DispatchError,
    Inbound, LoginForm, Session,
};
use relay_chat::hasher::hash_password;
use relay_chat::lifecycle::{Connection, Event, Phase, Step};
use relay_chat::records::{Credential, Profile, Role};
use relay_chat::registry::{add_connection, remove_connection, Registry};

fn form(email: &str, password: &str) -> LoginForm {
    LoginForm { email: email.to_string(), password: password.to_string() }
}

fn profile() -> Profile {
    Profile { id: 42, email: "a@b.com".to_string(), role: Role::Customer }
}

fn recipients(r: &Registry<&'static str>) -> Vec<(u128, &'static str)> {
    let mut v: Vec<(u128, &'static str)> = r.broadcast().into_iter().map(|(i, h)| (i, *h)).collect();
    v.sort();
    v
}

#[test]
fn removed_connection_is_not_reached() {
    let mut r: Registry<&'static str> = Registry::new();
    r.insert(1, "h");
    r.insert(2, "g");
    r.remove(1);
    assert_eq!(recipients(&r), vec![(2, "g")]);
    assert!(!r.contains(1));
    assert_eq!(r.len(), 1);
}

#[test]
fn reinserted_connection_uses_new_handle() {
    let mut r: Registry<&'static str> = Registry::new();
    r.insert(5, "h1");
    r.insert(5, "h2");
    assert_eq!(recipients(&r), vec![(5, "h2")]);
    assert_eq!(r.handle(5), Some(&"h2"));
    assert_eq!(r.len(), 1);
}

#[test]
fn remove_absent_is_noop() {
    let mut r: Registry<&'static str> = Registry::new();
    remove_connection(&mut r, 3);
    add_connection(&mut r, 4, "x");
    remove_connection(&mut r, 3);
    assert_eq!(recipients(&r), vec![(4, "x")]);
    assert_eq!(r.handle(3), None);
}

#[test]
fn chat_reaches_all_three_connections() {
    let mut r: Registry<&'static str> = Registry::new();
    r.insert(1, "a");
    r.insert(2, "b");
    r.insert(3, "c");
    let msg = Inbound::ChatMessage(ChatMessage { chat_message: "hi".to_string() });
    let payload = match dispatch(&Session::new(), msg) {
        Ok(Command::Broadcast(p)) => p,
        other => panic!("unexpected {:?}", other),
    };
    assert!(payload.contains("hi"));
    assert_eq!(recipients(&r), vec![(1, "a"), (2, "b"), (3, "c")]);
}

#[test]
fn chat_fragment_embeds_text_verbatim() {
    assert_eq!(
        render_chat("<b>x</b>"),
        r##"<div hx-swap-oob="beforeend:#idMessage"><p><b>x</b></p><br/></div>"##
    );
}

#[test]
fn login_with_email_is_not_implemented() {
    let msg = Inbound::LoginWithEmail(form("a@b.com", "x"));
    assert_eq!(dispatch(&Session::new(), msg).err(), Some(DispatchError::NotImplemented));
}

#[test]
fn password_login_is_routed_to_lookup() {
    let msg = Inbound::LoginWithPassword(form("a@b.com", "x"));
    match dispatch(&Session::new(), msg) {
        Ok(Command::Login(f)) => {
            assert_eq!(f.email, "a@b.com");
            assert_eq!(f.password, "x");
        }
        other => panic!("unexpected {:?}", other),
    }
}

#[test]
fn second_login_is_refused_by_dispatch() {
    let session = Session { user: Some(1) };
    let msg = Inbound::LoginWithPassword(form("a@b.com", "x"));
    assert_eq!(
        dispatch(&session, msg).err(),
        Some(DispatchError::Auth(AuthError::AlreadyAuthenticated))
    );
}

#[test]
fn login_binds_user_on_right_password() {
    let credential = Credential { id: 1, user: 42, phc_string: hash_password("secret", 1).unwrap() };
    let mut session = Session::new();
    let r = login_with_password(&form("a@b.com", "secret"), Some(profile()), Some(credential), &mut session);
    assert_eq!(r, Ok(42));
    assert_eq!(session.user, Some(42));
}

#[test]
fn login_refuses_wrong_password() {
    let credential = Credential { id: 1, user: 42, phc_string: hash_password("secret", 1).unwrap() };
    let mut session = Session::new();
    let r = login_with_password(&form("a@b.com", "wrong"), Some(profile()), Some(credential), &mut session);
    assert_eq!(r, Err(AuthError::InvalidPassword));
    assert_eq!(session.user, None);
}

#[test]
fn login_unknown_email() {
    let mut session = Session::new();
    let r = login_with_password(&form("nobody@x.com", "x"), None, None, &mut session);
    assert_eq!(r, Err(AuthError::UnknownIdentity));
    assert_eq!(session.user, None);
}

#[test]
fn login_without_credential() {
    let mut session = Session::new();
    let r = login_with_password(&form("a@b.com", "x"), Some(profile()), None, &mut session);
    assert_eq!(r, Err(AuthError::NoCredential));
    let other = Credential { id: 1, user: 7, phc_string: "$argon2id$".to_string() };
    let r = login_with_password(&form("a@b.com", "x"), Some(profile()), Some(other), &mut session);
    assert_eq!(r, Err(AuthError::NoCredential));
    assert_eq!(session.user, None);
}

#[test]
fn login_on_authenticated_session_is_refused() {
    let mut session = Session { user: Some(5) };
    let r = login_with_password(&form("a@b.com", "x"), Some(profile()), None, &mut session);
    assert_eq!(r, Err(AuthError::AlreadyAuthenticated));
    assert_eq!(session.user, Some(5));
}

fn run(events: Vec<Event>) -> (Vec<Step>, Phase) {
    let mut c = Connection::new(77);
    let steps: Vec<Step> = events.into_iter().map(|e| c.step(e)).collect();
    (steps, c.phase)
}

fn registrations(steps: &[Step]) -> (usize, usize) {
    let reg = steps.iter().filter(|s| matches!(s, Step::Register(77))).count();
    let unreg = steps.iter().filter(|s| matches!(s, Step::Unregister(77))).count();
    (reg, unreg)
}

#[test]
fn normal_close_unregisters_once() {
    let (steps, phase) = run(vec![
        Event::Established,
        Event::Text("{}".to_string()),
        Event::CloseFrame,
        Event::Text("late".to_string()),
        Event::StreamEnded,
    ]);
    assert_eq!(phase, Phase::Closed);
    assert_eq!(registrations(&steps), (1, 1));
    assert_eq!(steps[1], Step::Handle("{}".to_string()));
    assert_eq!(steps[3], Step::Idle);
}

#[test]
fn transport_error_unregisters_once() {
    let (steps, phase) = run(vec![Event::Established, Event::TransportError, Event::Established]);
    assert_eq!(phase, Phase::Closed);
    assert_eq!(registrations(&steps), (1, 1));
    assert_eq!(steps[2], Step::Idle);
}

#[test]
fn protocol_violation_unregisters_once() {
    let (steps, phase) = run(vec![Event::Established, Event::Text("x".to_string()), Event::Unexpected]);
    assert_eq!(phase, Phase::Closed);
    assert_eq!(registrations(&steps), (1, 1));
}

#[test]
fn connection_that_never_opens_is_never_registered() {
    let (steps, phase) = run(vec![Event::TransportError, Event::Established]);
    assert_eq!(phase, Phase::Closed);
    assert_eq!(registrations(&steps), (0, 0));
}
