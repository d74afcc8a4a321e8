use chat_core::gate::{
    authenticate_session_id, gate_decision, is_protected, GateOutcome, LOGIN_PATH, REGISTER_PATH,
    SESSION_ID_KEY,
};
use chat_core::manager::login_manager::LoginManager;
use chat_core::manager::session_manager::{Error, SessionId, SessionManager};
use chat_core::manager::{StorageError, User};

fn stores() -> (LoginManager, SessionManager, SessionId) {
    let mut users = LoginManager::new();
    users.new_user("a@x.com", "pw1", "pw1").unwrap();
    let user = users.get_user("a@x.com", "pw1").unwrap();
    let mut sessions = SessionManager::new();
    let sid = sessions.generate_session_id_for(&user).unwrap();
    (users, sessions, sid)
}

fn is_login_redirect(outcome: &GateOutcome) -> bool {
    matches!(outcome, GateOutcome::Redirect(url) if url == "/login")
}

#[test]
fn the_constants_are_the_usual_ones() {
    assert_eq!(SESSION_ID_KEY, "session_id");
    assert_eq!(LOGIN_PATH, "/login");
    assert_eq!(REGISTER_PATH, "/register");
}

#[test]
fn only_login_and_register_are_open() {
    assert!(!is_protected("/login"));
    assert!(!is_protected("/register"));
    for path in ["/", "/chat/1", "/ws/1", "/room", "/static/a.png", "/login/", "/Login", "", "/registers"] {
        assert!(is_protected(path), "{}", path);
    }
}

#[test]
fn no_cookie_means_redirect() {
    let (users, sessions, _) = stores();
    for path in ["/", "/chat/1", "/ws/1", "/room"] {
        let outcome = authenticate_session_id(path, None, &sessions, &users);
        assert!(is_login_redirect(&outcome), "{}", path);
    }
}

#[test]
fn an_unknown_cookie_means_redirect() {
    let (users, sessions, sid) = stores();
    let almost = format!("{}x", sid.0);
    for cookie in ["", "nonsense", almost.as_str()] {
        let outcome = authenticate_session_id("/ws/1", Some(cookie), &sessions, &users);
        assert!(is_login_redirect(&outcome), "{}", cookie);
    }
}

#[test]
fn a_valid_cookie_passes_with_its_user() {
    let (users, sessions, sid) = stores();
    match authenticate_session_id("/chat/1", Some(sid.0.as_str()), &sessions, &users) {
        GateOutcome::Proceed(Some(user)) => {
            assert_eq!(user.id, 1);
            assert_eq!(user.email, "a@x.com");
        }
        other => panic!("{:?}", other),
    }
}

#[test]
fn open_paths_pass_without_a_user() {
    let (users, sessions, sid) = stores();
    for path in ["/login", "/register"] {
        assert!(matches!(
            authenticate_session_id(path, None, &sessions, &users),
            GateOutcome::Proceed(None)
        ));
        assert!(matches!(
            authenticate_session_id(path, Some("nonsense"), &sessions, &users),
            GateOutcome::Proceed(None)
        ));
        assert!(matches!(
            authenticate_session_id(path, Some(sid.0.as_str()), &sessions, &users),
            GateOutcome::Proceed(None)
        ));
    }
}

#[test]
fn the_decision_follows_the_lookup() {
    let user = User { id: 3, email: "c@x.com".into(), password: "pw".into() };
    assert!(matches!(
        gate_decision("/", Some(Ok(user.clone()))),
        GateOutcome::Proceed(Some(u)) if u.id == 3
    ));
    assert!(is_login_redirect(&gate_decision("/", Some(Err(Error::DoesNotExist)))));
    assert!(is_login_redirect(&gate_decision(
        "/",
        Some(Err(Error::DatabaseError(StorageError::Unavailable)))
    )));
    assert!(is_login_redirect(&gate_decision("/", None)));
    assert!(matches!(gate_decision("/login", Some(Ok(user))), GateOutcome::Proceed(None)));
    assert!(matches!(gate_decision("/register", None), GateOutcome::Proceed(None)));
}
