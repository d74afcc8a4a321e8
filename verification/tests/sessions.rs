use chat_core::manager::login_manager::LoginManager;
use chat_core::manager::session_manager::{
    random_string_session_id, Error, SessionId, SessionManager, SESSION_ID_LENGTH,
};
use chat_core::manager::{StorageError, User};

fn fixture_users() -> LoginManager {
    let mut users = LoginManager::new();
    users.new_user("test123@example.com", "test123", "test123").unwrap();
    users
}

fn fixture_sessions(users: &LoginManager) -> SessionManager {
    let user = users.get_user("test123@example.com", "test123").unwrap();
    let mut sessions = SessionManager::new();
    sessions.bind(SessionId("f15wQrWboFNBW".into()), &user).unwrap();
    sessions
}

#[test]
fn session_manager_ok_get_user() {
    let users = fixture_users();
    assert!(fixture_sessions(&users)
        .get_user(SessionId("f15wQrWboFNBW".into()), &users)
        .is_ok())
}

#[test]
fn ok_retrieve_user_from_generated_session_id() {
    let users = fixture_users();
    let user = users.get_user("test123@example.com", "test123").unwrap();
    let mut session_manager = SessionManager::new();
    let sid = session_manager.generate_session_id_for(&user).unwrap();
    assert!(session_manager.get_user(sid, &users).is_ok())
}

#[test]
fn a_token_resolves_to_its_user() {
    let mut users = fixture_users();
    users.new_user("second@example.com", "pw", "pw").unwrap();
    let first = users.get_user("test123@example.com", "test123").unwrap();
    let second = users.get_user("second@example.com", "pw").unwrap();
    let mut sessions = SessionManager::new();
    let sid1 = sessions.generate_session_id_for(&first).unwrap();
    let sid2 = sessions.generate_session_id_for(&second).unwrap();
    assert_eq!(sessions.get_user(sid1, &users).unwrap().email, "test123@example.com");
    assert_eq!(sessions.get_user(sid2, &users).unwrap().email, "second@example.com");
}

#[test]
fn unknown_token_does_not_exist() {
    let users = fixture_users();
    let sessions = fixture_sessions(&users);
    for token in ["", "f15wQrWboFNB", "f15wQrWboFNBWx", "F15WQRWBOFNBW", "not a token"] {
        assert_eq!(
            sessions.get_user(SessionId(token.into()), &users).unwrap_err(),
            Error::DoesNotExist,
            "{}",
            token
        );
    }
}

#[test]
fn a_session_of_an_unknown_user_does_not_exist() {
    let users = fixture_users();
    let ghost = User { id: 77, email: "ghost@example.com".into(), password: "x".into() };
    let mut sessions = SessionManager::new();
    let sid = sessions.generate_session_id_for(&ghost).unwrap();
    assert_eq!(sessions.get_user(sid, &users).unwrap_err(), Error::DoesNotExist);
}

#[test]
fn a_user_may_hold_several_sessions() {
    let users = fixture_users();
    let user = users.get_user("test123@example.com", "test123").unwrap();
    let mut sessions = SessionManager::new();
    let a = sessions.generate_session_id_for(&user).unwrap();
    let b = sessions.generate_session_id_for(&user).unwrap();
    let c = sessions.generate_session_id_for(&user).unwrap();
    assert_eq!(sessions.get_user(a, &users).unwrap().id, user.id);
    assert_eq!(sessions.get_user(b, &users).unwrap().id, user.id);
    assert_eq!(sessions.get_user(c, &users).unwrap().id, user.id);
}

#[test]
fn fresh_tokens_are_thirteen_alphanumerics() {
    let user = User { id: 1, email: "a@x.com".into(), password: "pw".into() };
    for _ in 0..200 {
        let sid = random_string_session_id(&user);
        assert_eq!(sid.0.chars().count(), 13);
        assert_eq!(sid.0.chars().count(), SESSION_ID_LENGTH);
        assert!(sid.0.chars().all(|c| c.is_ascii_alphanumeric()), "{}", sid.0);
    }
}

#[test]
fn fresh_tokens_differ() {
    let user = User { id: 1, email: "a@x.com".into(), password: "pw".into() };
    let a = random_string_session_id(&user);
    let b = random_string_session_id(&user);
    let c = random_string_session_id(&user);
    assert!(a.0 != b.0 || b.0 != c.0);
}

#[test]
fn binding_a_bound_token_is_refused() {
    let users = fixture_users();
    let user = users.get_user("test123@example.com", "test123").unwrap();
    let other = User { id: 5, email: "o@x.com".into(), password: "pw".into() };
    let mut sessions = fixture_sessions(&users);
    assert_eq!(
        sessions.bind(SessionId("f15wQrWboFNBW".into()), &other).unwrap_err(),
        StorageError::ConstraintViolation
    );
    assert_eq!(
        sessions.get_user(SessionId("f15wQrWboFNBW".into()), &users).unwrap().id,
        user.id
    );
    assert_eq!(sessions.user_id_of("f15wQrWboFNBW"), Some(1));
    assert_eq!(sessions.user_id_of("f15wQrWboFNBX"), None);
}

#[test]
fn bind_returns_the_token_it_was_given() {
    let user = User { id: 1, email: "a@x.com".into(), password: "pw".into() };
    let mut sessions = SessionManager::new();
    let sid = sessions.bind(SessionId("abcdefghijklm".into()), &user).unwrap();
    assert_eq!(sid.0, "abcdefghijklm");
    assert_eq!(sid.to_string(), "abcdefghijklm");
    assert_eq!(sid.clone().0, "abcdefghijklm");
}

#[test]
fn a_missing_row_means_no_session() {
    assert_eq!(Error::from(StorageError::RowNotFound), Error::DoesNotExist);
    assert_eq!(
        Error::from(StorageError::Unavailable),
        Error::DatabaseError(StorageError::Unavailable)
    );
    assert_eq!(
        Error::from(StorageError::ConstraintViolation),
        Error::DatabaseError(StorageError::ConstraintViolation)
    );
}
