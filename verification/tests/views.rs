use chat_core::invite_users_view::{
    invite_user, list_users, room_id_from_referer, try_invite_user, InviteForm, SearchFrom,
};
use chat_core::login_view::{
    login, login_response, register, register_response, session_cookie, try_login, try_register,
    LoginForm, LoginResponse, RegisterResponse, RegisterUserForm, RegisterWidget,
};
use chat_core::manager::chat_manager::ChatManager;
use chat_core::manager::login_manager::{Error, LoginManager};
use chat_core::manager::session_manager::{SessionId, SessionManager};
use chat_core::manager::{ChatRoom, StorageError, User};
use chat_core::new_room_view::{
    file_extension, image_file_name, new_room, new_room_results, try_new_room, ChatRoomBuilder,
    RoomField, IMAGE_DIR,
};
use chat_core::pages::{chat, index, message_bodies, outbound_frame};

fn user(id: i64) -> User {
    User { id, email: format!("u{}@x.com", id), password: "pw".to_string() }
}

fn register_form(email: &str, password: &str, confirm: &str) -> RegisterUserForm {
    RegisterUserForm {
        email: email.to_string(),
        password: password.to_string(),
        confirm_password: confirm.to_string(),
    }
}

#[test]
fn the_plain_pages_exist() {
    let _ = login();
    let _ = new_room();
    let _ = invite_user();
    let _ = SearchFrom { search: "a".to_string() };
    assert_eq!(IMAGE_DIR, "static");
}

#[test]
fn the_empty_registration_form_has_no_complaints() {
    for widget in [register(), RegisterWidget::default()] {
        assert_eq!(widget.email_cache, "");
        assert!(!widget.email_taken);
        assert!(!widget.mismatch_passwords);
    }
}

#[test]
fn a_registration_leads_to_the_login_page() {
    let mut users = LoginManager::new();
    match try_register(register_form("a@x.com", "pw1", "pw1"), &mut users) {
        RegisterResponse::Registered { redirect } => assert_eq!(redirect, "/login"),
        other => panic!("{:?}", other),
    }
    assert!(users.get_user("a@x.com", "pw1").is_ok());
}

#[test]
fn a_refused_registration_shows_its_complaints() {
    let mut users = LoginManager::new();
    users.new_user("a@x.com", "pw1", "pw1").unwrap();
    let cases = [
        (register_form("a@x.com", "pw", "pw"), true, false),
        (register_form("b@x.com", "pw", "pW"), false, true),
        (register_form("a@x.com", "pw", "pW"), true, true),
    ];
    for (form, taken, mismatch) in cases {
        let email = form.email.clone();
        match try_register(form, &mut users) {
            RegisterResponse::Rejected(widget) => {
                assert_eq!(widget.email_cache, email);
                assert_eq!(widget.email_taken, taken);
                assert_eq!(widget.mismatch_passwords, mismatch);
            }
            other => panic!("{:?}", other),
        }
    }
    assert!(users.find_by_id(2).is_none());
}

#[test]
fn a_failing_store_gives_the_generic_failure() {
    for e in [
        Error::DatabaseError(StorageError::Unavailable),
        Error::DatabaseError(StorageError::ConstraintViolation),
        Error::DatabaseError(StorageError::RowNotFound),
        Error::WrongPassword,
        Error::UserNotFound,
    ] {
        assert!(matches!(
            register_response(Err(e), "a@x.com".to_string()),
            RegisterResponse::Failed
        ));
    }
    assert!(matches!(
        register_response(Ok(()), "a@x.com".to_string()),
        RegisterResponse::Registered { redirect } if redirect == "/login"
    ));
}

#[test]
fn the_cookie_is_key_equals_token() {
    assert_eq!(session_cookie(&SessionId("f15wQrWboFNBW".into())), "session_id=f15wQrWboFNBW");
    assert_eq!(session_cookie(&SessionId("".into())), "session_id=");
}

#[test]
fn a_login_sets_the_cookie_and_goes_home() {
    let mut users = LoginManager::new();
    users.new_user("a@x.com", "pw1", "pw1").unwrap();
    let mut sessions = SessionManager::new();
    let form = LoginForm { email: "a@x.com".into(), password: "pw1".into() };
    match try_login(form, &users, &mut sessions) {
        LoginResponse::LoggedIn { redirect, cookie } => {
            assert_eq!(redirect, "/");
            let token = cookie.strip_prefix("session_id=").unwrap().to_string();
            assert_eq!(token.len(), 13);
            assert_eq!(sessions.get_user(SessionId(token), &users).unwrap().email, "a@x.com");
        }
        other => panic!("{:?}", other),
    }
}

#[test]
fn a_failed_login_sets_nothing() {
    let mut users = LoginManager::new();
    users.new_user("a@x.com", "pw1", "pw1").unwrap();
    let mut sessions = SessionManager::new();
    for (email, password) in [("a@x.com", "wrong"), ("nobody@x.com", "pw1"), ("", "")] {
        let form = LoginForm { email: email.into(), password: password.into() };
        match try_login(form, &users, &mut sessions) {
            LoginResponse::Refused(attempt) => assert!(!attempt.success),
            other => panic!("{:?}", other),
        }
    }
    assert!(matches!(login_response(None), LoginResponse::Refused(a) if !a.success));
    assert!(matches!(
        login_response(Some(SessionId("abc".into()))),
        LoginResponse::LoggedIn { redirect, cookie } if redirect == "/" && cookie == "session_id=abc"
    ));
}

#[test]
fn the_extension_follows_the_last_dot() {
    assert_eq!(file_extension("photo.png"), "png");
    assert_eq!(file_extension("archive.tar.gz"), "gz");
    assert_eq!(file_extension("noext"), "noext");
    assert_eq!(file_extension("dot."), "");
    assert_eq!(file_extension(".hidden"), "hidden");
    assert_eq!(file_extension(""), "");
}

#[test]
fn the_stored_name_is_unique_part_dot_extension() {
    assert_eq!(image_file_name("abc", "photo.png"), "abc.png");
    assert_eq!(image_file_name("abc", "noext"), "abc.noext");
    assert_eq!(image_file_name("", "a.b"), ".b");
}

#[test]
fn the_builder_collects_name_and_image() {
    let mut builder = ChatRoomBuilder::new();
    assert_eq!(builder.name, None);
    assert_eq!(builder.image_path, None);
    builder.set_name("general".to_string());
    builder.set_image_path("x.png".to_string());
    assert_eq!(builder.name.as_deref(), Some("general"));
    assert_eq!(builder.image_path.as_deref(), Some("x.png"));
    builder.set_name("other".to_string());
    assert_eq!(builder.name.as_deref(), Some("other"));
    assert_eq!(builder.image_path.as_deref(), Some("x.png"));
}

#[test]
fn fields_fill_the_builder() {
    let mut builder = ChatRoomBuilder::new();
    assert_eq!(builder.accept_with(RoomField::Other, "u"), None);
    assert_eq!(builder.accept_with(RoomField::Name("general".into()), "u"), None);
    assert_eq!(
        builder.accept_with(RoomField::Image("photo.png".into()), "u").as_deref(),
        Some("u.png")
    );
    assert_eq!(builder.name.as_deref(), Some("general"));
    assert_eq!(builder.image_path.as_deref(), Some("u.png"));
}

#[test]
fn an_upload_is_stored_under_a_fresh_uuid() {
    let mut builder = ChatRoomBuilder::new();
    let first = builder.accept(RoomField::Image("photo.png".into())).unwrap();
    assert_eq!(builder.image_path.as_deref(), Some(first.as_str()));
    let second = builder.accept(RoomField::Image("photo.png".into())).unwrap();
    assert_ne!(first, second);
    for name in [first, second] {
        assert_eq!(name.len(), 40);
        assert!(name.ends_with(".png"));
        assert_eq!(name.as_bytes()[14], b'4');
        assert!(b"89ab".contains(&name.as_bytes()[19]), "{}", name);
        for (i, c) in name[..36].chars().enumerate() {
            if i == 8 || i == 13 || i == 18 || i == 23 {
                assert_eq!(c, '-');
            } else {
                assert!(c.is_ascii_digit() || ('a'..='f').contains(&c), "{}", name);
            }
        }
    }
    assert_eq!(builder.accept(RoomField::Name("n".into())), None);
    assert_eq!(builder.accept(RoomField::Other), None);
    assert_eq!(builder.name.as_deref(), Some("n"));
}

#[test]
fn a_named_form_creates_the_room() {
    let mut ledger = ChatManager::new();
    let mut builder = ChatRoomBuilder::new();
    builder.set_name("general".to_string());
    builder.set_image_path("x.png".to_string());
    let page = try_new_room(builder, &user(1), &mut ledger);
    let room = page.room.unwrap();
    assert_eq!(room.id, 1);
    assert_eq!(room.name, "general");
    assert_eq!(room.image_path.as_deref(), Some("x.png"));
    assert!(ledger.has_member(1, 1));
}

#[test]
fn a_form_without_image_creates_the_room_too() {
    let mut ledger = ChatManager::new();
    let mut builder = ChatRoomBuilder::new();
    builder.set_name("general".to_string());
    let room = try_new_room(builder, &user(1), &mut ledger).room.unwrap();
    assert_eq!(room.image_path, None);
}

#[test]
fn a_form_without_name_creates_nothing() {
    let mut ledger = ChatManager::new();
    let mut builder = ChatRoomBuilder::new();
    builder.set_image_path("x.png".to_string());
    assert!(try_new_room(builder, &user(1), &mut ledger).room.is_none());
    assert!(try_new_room(ChatRoomBuilder::new(), &user(1), &mut ledger).room.is_none());
    assert_eq!(ledger.get_room(1).unwrap_err(), StorageError::RowNotFound);
    assert!(ledger.list_rooms(&user(1)).unwrap().is_empty());
}

#[test]
fn a_failed_creation_shows_no_room() {
    assert!(new_room_results(Err(StorageError::Unavailable)).room.is_none());
    let room = ChatRoom { id: 3, name: "dev".into(), image_path: None };
    assert_eq!(new_room_results(Ok(room)).room.unwrap().id, 3);
}

#[test]
fn the_room_is_the_number_after_the_last_slash() {
    assert_eq!(room_id_from_referer("http://localhost:3000/chat/12"), Some(12));
    assert_eq!(room_id_from_referer("/chat/7"), Some(7));
    assert_eq!(room_id_from_referer("7"), Some(7));
    assert_eq!(room_id_from_referer("/chat/-7"), Some(-7));
    assert_eq!(room_id_from_referer("http://localhost:3000/chat/12/"), None);
    assert_eq!(room_id_from_referer("http://localhost:3000/chat/abc"), None);
    assert_eq!(room_id_from_referer("http://localhost:3000/chat/12?x=1"), None);
    assert_eq!(room_id_from_referer(""), None);
}

#[test]
fn an_invitation_needs_a_page_and_a_room() {
    let mut ledger = ChatManager::new();
    ledger.new_room("general", None, &user(1)).unwrap();
    let form = InviteForm { user_id: 2 };
    assert!(!try_invite_user(None, form, &mut ledger).success);
    assert!(!try_invite_user(Some("http://h/chat/abc"), form, &mut ledger).success);
    assert!(!try_invite_user(Some("http://h/chat/2"), form, &mut ledger).success);
    assert!(!ledger.has_member(2, 1));
    assert!(try_invite_user(Some("http://h/chat/1"), form, &mut ledger).success);
    assert!(ledger.has_member(2, 1));
    assert!(!try_invite_user(Some("http://h/chat/1"), form, &mut ledger).success);
}

#[test]
fn a_failed_search_lists_nobody() {
    assert!(list_users(Err(StorageError::Unavailable)).users.is_empty());
    let found = list_users(Ok(vec![user(1), user(2)])).users;
    assert_eq!(found.len(), 2);
    assert_eq!(found[1].id, 2);
}

#[test]
fn the_start_page_lists_the_users_rooms() {
    let mut ledger = ChatManager::new();
    ledger.new_room("general", None, &user(1)).unwrap();
    ledger.new_room("other", None, &user(2)).unwrap();
    let page = index(&user(1), &ledger);
    assert_eq!(page.rooms.len(), 1);
    assert_eq!(page.rooms[0].name, "general");
}

#[test]
fn the_room_page_shows_the_transcript_oldest_first() {
    let mut ledger = ChatManager::new();
    let alice = user(1);
    let room = ledger.new_room("general", None, &alice).unwrap();
    ledger.new_chat(&alice, &room, "second", 20).unwrap();
    ledger.new_chat(&alice, &room, "first", 10).unwrap();
    let page = chat(&alice, 1, &ledger);
    assert_eq!(page.room_id, 1);
    assert_eq!(page.msgs, vec!["first", "second"]);
    assert_eq!(page.rooms.len(), 1);
}

#[test]
fn the_page_of_a_missing_room_is_empty() {
    let mut ledger = ChatManager::new();
    let alice = user(1);
    let room = ledger.new_room("general", None, &alice).unwrap();
    ledger.new_chat(&alice, &room, "hello", 1).unwrap();
    let page = chat(&alice, 5, &ledger);
    assert_eq!(page.room_id, 5);
    assert!(page.msgs.is_empty());
    assert_eq!(page.rooms.len(), 1);
}

#[test]
fn bodies_and_frames_carry_the_text() {
    let mut ledger = ChatManager::new();
    let alice = user(1);
    let room = ledger.new_room("general", None, &alice).unwrap();
    ledger.new_chat(&alice, &room, "a", 1).unwrap();
    ledger.new_chat(&alice, &room, "b", 2).unwrap();
    let history = ledger.list_chats(&room).unwrap();
    assert_eq!(message_bodies(&history), vec!["a", "b"]);
    assert_eq!(outbound_frame("hello".to_string()).msg, "hello");
}
