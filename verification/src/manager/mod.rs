//! The records that the stores keep, and their mathematical views.

use vstd::prelude::*;

pub mod chat_manager;
pub mod login_manager;
pub mod session_manager;

verus! {

/// A registered account.
#[derive(Debug)]
pub struct User {
    pub id: i64,
    pub email: String,
    pub password: String,
}

pub struct UserView {
    pub id: i64,
    pub email: Seq<char>,
    pub password: Seq<char>,
}

impl View for User {
    type V = UserView;

    open spec fn view(&self) -> UserView {
        UserView { id: self.id, email: self.email@, password: self.password@ }
    }
}

impl Clone for User {
    fn clone(&self) -> (r: Self)
        ensures
            r@ == self@,
    {
        User { id: self.id, email: self.email.clone(), password: self.password.clone() }
    }
}

/// One message of a room's history. `time_created` counts clock ticks; a
/// message whose author is gone has no `user_id`.
#[derive(Debug)]
pub struct ChatMessage {
    pub id: i64,
    pub user_id: Option<i64>,
    pub room_id: i64,
    pub message: String,
    pub time_created: i64,
}

pub struct ChatMessageView {
    pub id: i64,
    pub user_id: Option<i64>,
    pub room_id: i64,
    pub message: Seq<char>,
    pub time_created: i64,
}

impl View for ChatMessage {
    type V = ChatMessageView;

    open spec fn view(&self) -> ChatMessageView {
        ChatMessageView {
            id: self.id,
            user_id: self.user_id,
            room_id: self.room_id,
            message: self.message@,
            time_created: self.time_created,
        }
    }
}

impl Clone for ChatMessage {
    fn clone(&self) -> (r: Self)
        ensures
            r@ == self@,
    {
        ChatMessage {
            id: self.id,
            user_id: self.user_id,
            room_id: self.room_id,
            message: self.message.clone(),
            time_created: self.time_created,
        }
    }
}

/// A chat room.
#[derive(Debug)]
pub struct ChatRoom {
    pub id: i64,
    pub name: String,
    pub image_path: Option<String>,
}

pub struct ChatRoomView {
    pub id: i64,
    pub name: Seq<char>,
    pub image_path: Option<Seq<char>>,
}

/// The view of an optional text.
pub open spec fn text_option_view(t: Option<String>) -> Option<Seq<char>> {
    match t {
        Some(s) => Some(s@),
        None => None,
    }
}

/// A copy of an optional text.
pub fn clone_text_option(t: &Option<String>) -> (r: Option<String>)
    ensures
        text_option_view(r) == text_option_view(*t),
{
    match t {
        Some(s) => Some(s.clone()),
        None => None,
    }
}

impl View for ChatRoom {
    type V = ChatRoomView;

    open spec fn view(&self) -> ChatRoomView {
        ChatRoomView {
            id: self.id,
            name: self.name@,
            image_path: text_option_view(self.image_path),
        }
    }
}

impl Clone for ChatRoom {
    fn clone(&self) -> (r: Self)
        ensures
            r@ == self@,
    {
        ChatRoom {
            id: self.id,
            name: self.name.clone(),
            image_path: clone_text_option(&self.image_path),
        }
    }
}

/// What a store reports when it cannot carry out a read or a write.
#[derive(Debug, Clone, Copy, PartialEq, Eq, Structural)]
pub enum StorageError {
    /// The row that was asked for does not exist.
    RowNotFound,
    /// The write would break a rule of the data model.
    ConstraintViolation,
    /// The store has no room left, or cannot be reached.
    Unavailable,
}

} // verus!
