//! The pages behind the session gate: the list of rooms and a room's transcript.

use vstd::prelude::*;
use vstd::string::*;
use crate::manager::chat_manager::{
    message_views, room_history, room_views, rooms_of, ChatManager,
};
use crate::manager::{ChatMessage, ChatMessageView, ChatRoom, User};

verus! {

/// The answer that sends a client elsewhere.
#[derive(Debug)]
pub struct RedirectTemplate {
    pub url: String,
}

/// One message as it is sent to the clients of a room.
#[derive(Debug)]
pub struct NewChatTemplate {
    pub msg: String,
}

/// The start page: the rooms of the user.
#[derive(Debug)]
pub struct IndexTemplate {
    pub rooms: Vec<ChatRoom>,
}

/// A room's page: the rooms of the user, the room shown, and its messages,
/// oldest first.
#[derive(Debug)]
pub struct ChatTemplate {
    pub rooms: Vec<ChatRoom>,
    pub room_id: i64,
    pub msgs: Vec<String>,
}

/// The texts of a run of messages.
pub open spec fn bodies(msgs: Seq<ChatMessageView>) -> Seq<Seq<char>> {
    msgs.map_values(|m: ChatMessageView| m.message)
}

/// The views of a list of texts.
pub open spec fn text_views(texts: Seq<String>) -> Seq<Seq<char>> {
    texts.map_values(|t: String| t@)
}

/// The texts of a list of messages, in their order.
pub fn message_bodies(msgs: &Vec<ChatMessage>) -> (texts: Vec<String>)
    ensures
        text_views(texts@) == bodies(message_views(msgs@)),
{
    let mut texts: Vec<String> = Vec::new();
    let mut i: usize = 0;
    while i < msgs.len()
        invariant
            i <= msgs.len(),
            text_views(texts@) == bodies(message_views(msgs@).take(i as int)),
        decreases msgs.len() - i,
    {
        let ghost before = texts@;
        let text = msgs[i].message.clone();
        texts.push(text);
        proof {
            assert(text_views(texts@) =~= text_views(before).push(text@));
            assert(bodies(message_views(msgs@).take(i + 1)) =~= bodies(
                message_views(msgs@).take(i as int),
            ).push(msgs@[i as int]@.message));
        }
        i = i + 1;
    }
    proof {
        assert(message_views(msgs@).take(i as int) =~= message_views(msgs@));
    }
    texts
}

/// The frame that carries an envelope's message to a client.
pub fn outbound_frame(chat_message: String) -> (frame: NewChatTemplate)
    ensures
        frame.msg@ == chat_message@,
{
    NewChatTemplate { msg: chat_message }
}

/// The start page for `user`: the rooms that the user is a member of.
pub fn index(user: &User, ledger: &ChatManager) -> (page: IndexTemplate)
    ensures
        room_views(page.rooms@) == rooms_of(ledger@.rooms, ledger@.members, user.id),
{
    match ledger.list_rooms(user) {
        Ok(rooms) => IndexTemplate { rooms },
        Err(_) => IndexTemplate { rooms: Vec::new() },
    }
}

/// The page of the room `room_id` for `user`: the user's rooms and the
/// room's history, oldest message first. A room that does not exist is
/// shown without messages.
pub fn chat(user: &User, room_id: i64, ledger: &ChatManager) -> (page: ChatTemplate)
    requires
        ledger.wf(),
    ensures
        page.room_id == room_id,
        room_views(page.rooms@) == rooms_of(ledger@.rooms, ledger@.members, user.id),
        text_views(page.msgs@) == if 1 <= room_id <= ledger@.rooms.len() {
            bodies(room_history(ledger@.messages, room_id))
        } else {
            Seq::empty()
        },
{
    let msgs: Vec<String> = match ledger.get_room(room_id) {
        Ok(room) => match ledger.list_chats(&room) {
            Ok(history) => message_bodies(&history),
            Err(_) => Vec::new(),
        },
        Err(_) => {
            let none: Vec<String> = Vec::new();
            assert(text_views(none@) =~= Seq::<Seq<char>>::empty());
            none
        },
    };
    let rooms: Vec<ChatRoom> = match ledger.list_rooms(user) {
        Ok(rooms) => rooms,
        Err(_) => Vec::new(),
    };
    ChatTemplate { rooms, room_id, msgs }
}

} // verus!
