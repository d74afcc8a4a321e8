//! Creating a room from the fields of an upload form.

use vstd::prelude::*;
use vstd::string::*;
use crate::manager::chat_manager::{ChatManager, LedgerView};
use crate::manager::{text_option_view, ChatRoom, ChatRoomView, StorageError, User};
use crate::text::{last_segment, last_segment_of};

verus! {

/// The directory that room images are stored in and served from.
pub const IMAGE_DIR: &'static str = "static";

/// The page with the form for a new room.
#[derive(Debug, Clone, Copy, PartialEq, Eq, Structural)]
pub struct NewRoomTemplate {}

/// What is shown after the form was sent: the new room, or nothing where
/// it could not be created.
#[derive(Debug)]
pub struct NewRoomResultsTemplate {
    pub room: Option<ChatRoom>,
}

/// The view of an optional room.
pub open spec fn optional_room(room: Option<ChatRoom>) -> Option<ChatRoomView> {
    match room {
        Some(r) => Some(r@),
        None => None,
    }
}

/// The page with the form for a new room.
pub fn new_room() -> (page: NewRoomTemplate) {
    NewRoomTemplate {  }
}

/// Collects what the form's fields say of the room to be created.
#[derive(Debug)]
pub struct ChatRoomBuilder {
    pub name: Option<String>,
    pub image_path: Option<String>,
}

pub struct ChatRoomBuilderView {
    pub name: Option<Seq<char>>,
    pub image_path: Option<Seq<char>>,
}

impl View for ChatRoomBuilder {
    type V = ChatRoomBuilderView;

    open spec fn view(&self) -> ChatRoomBuilderView {
        ChatRoomBuilderView {
            name: text_option_view(self.name),
            image_path: text_option_view(self.image_path),
        }
    }
}

/// One field of the form.
#[derive(Debug)]
pub enum RoomField {
    /// The field `name`, with its text.
    Name(String),
    /// The field `image`, with the name of the uploaded file.
    Image(String),
    /// Any other field.
    Other,
}

/// The extension of a file name: what follows its last dot, or the whole
/// name where it has none.
pub open spec fn extension_of(file_name: Seq<char>) -> Seq<char> {
    last_segment(file_name, '.')
}

/// The name under which an upload is stored: a unique part, a dot, and the
/// extension of the file as the client named it.
pub open spec fn stored_name(unique: Seq<char>, file_name: Seq<char>) -> Seq<char> {
    unique + seq!['.'] + extension_of(file_name)
}

pub open spec fn is_lower_hex(c: char) -> bool {
    ('0' <= c && c <= '9') || ('a' <= c && c <= 'f')
}

/// `t` has the shape of a hyphenated lower-case UUID of version 4: 36
/// characters, a hyphen at the positions 8, 13, 18 and 23, hexadecimal
/// digits elsewhere, of which the one at position 14 is the version, `4`,
/// and the one at position 19 carries the variant: `8`, `9`, `a` or `b`.
pub open spec fn uuid_shaped(t: Seq<char>) -> bool {
    &&& t.len() == 36
    &&& forall|i: int|
        0 <= i < 36 ==> if i == 8 || i == 13 || i == 18 || i == 23 {
            #[trigger] t[i] == '-'
        } else {
            is_lower_hex(t[i])
        }
    &&& t[14] == '4'
    &&& (t[19] == '8' || t[19] == '9' || t[19] == 'a' || t[19] == 'b')
}

/// Makes a random identifier with `uuid::Uuid::new_v4` and writes it out
/// with the `Display` of `uuid::Uuid`, which gives the hyphenated lower-case
/// form. Which identifier comes is a matter of chance; only its shape is
/// claimed. `new_v4` stops the program where the operating system gives it
/// no random bytes, whatever the caller does.
#[verifier::external_body]
fn fresh_uuid() -> (r: String)
    ensures
        uuid_shaped(r@),
{
    uuid::Uuid::new_v4().to_string()
}

/// The extension of a file name.
pub fn file_extension(file_name: &str) -> (r: String)
    ensures
        r@ == extension_of(file_name@),
        !r@.contains('.'),
{
    last_segment_of(file_name, '.')
}

/// The name under which an upload is stored.
pub fn image_file_name(unique: &str, file_name: &str) -> (r: String)
    ensures
        r@ == stored_name(unique@, file_name@),
{
    proof {
        reveal_strlit(".");
        assert("."@ =~= seq!['.']);
    }
    let mut path = String::from_str(unique);
    path.append(".");
    path.append(file_extension(file_name).as_str());
    path
}

/// The builder after a field, given the unique part for an upload's name.
pub open spec fn after_field(b: ChatRoomBuilderView, field: RoomField, unique: Seq<char>) -> ChatRoomBuilderView {
    match field {
        RoomField::Name(name) => ChatRoomBuilderView { name: Some(name@), ..b },
        RoomField::Image(file_name) => ChatRoomBuilderView {
            image_path: Some(stored_name(unique, file_name@)),
            ..b
        },
        RoomField::Other => b,
    }
}

/// The name under which the field's upload is to be stored, if it has one.
pub open spec fn upload_of(field: RoomField, unique: Seq<char>) -> Option<Seq<char>> {
    match field {
        RoomField::Image(file_name) => Some(stored_name(unique, file_name@)),
        _ => None,
    }
}

impl ChatRoomBuilder {
    /// A builder that knows nothing yet.
    pub fn new() -> (r: Self)
        ensures
            r@ == (ChatRoomBuilderView { name: None, image_path: None }),
    {
        Self { name: None, image_path: None }
    }

    /// Sets the room's name; a later call replaces an earlier one.
    pub fn set_name(&mut self, name: String)
        ensures
            final(self)@ == (ChatRoomBuilderView { name: Some(name@), ..old(self)@ }),
    {
        self.name = Some(name);
    }

    /// Sets the name of the room's stored image.
    pub fn set_image_path(&mut self, image_path: String)
        ensures
            final(self)@ == (ChatRoomBuilderView { image_path: Some(image_path@), ..old(self)@ }),
    {
        self.image_path = Some(image_path);
    }

    /// Takes one field in, with `unique` as the unique part of an upload's
    /// name. Returns the name under which the field's upload is to be
    /// stored, where the field is an image.
    pub fn accept_with(&mut self, field: RoomField, unique: &str) -> (upload: Option<String>)
        ensures
            final(self)@ == after_field(old(self)@, field, unique@),
            text_option_view(upload) == upload_of(field, unique@),
    {
        match field {
            RoomField::Name(name) => {
                self.set_name(name);
                None
            },
            RoomField::Image(file_name) => {
                let image_path = image_file_name(unique, file_name.as_str());
                self.set_image_path(image_path.clone());
                Some(image_path)
            },
            RoomField::Other => None,
        }
    }

    /// Takes one field in. An upload is stored under a fresh random
    /// identifier followed by the file's extension; whichever identifier
    /// was drawn, the builder and the returned name agree on it.
    pub fn accept(&mut self, field: RoomField) -> (upload: Option<String>)
        ensures
            exists|unique: Seq<char>|
                {
                    &&& uuid_shaped(unique)
                    &&& final(self)@ == #[trigger] after_field(old(self)@, field, unique)
                    &&& text_option_view(upload) == upload_of(field, unique)
                },
    {
        let unique = fresh_uuid();
        self.accept_with(field, unique.as_str())
    }
}

/// The room that comes of an attempt to create what `b` describes in the
/// ledger `before`.
pub open spec fn created_room(b: ChatRoomBuilderView, before: LedgerView) -> Option<ChatRoomView> {
    match b.name {
        Some(name) => if before.rooms.len() + 1 < i64::MAX {
            Some(
                ChatRoomView {
                    id: (before.rooms.len() + 1) as i64,
                    name,
                    image_path: b.image_path,
                },
            )
        } else {
            None
        },
        None => None,
    }
}

/// What is shown for the outcome of creating a room.
pub fn new_room_results(outcome: Result<ChatRoom, StorageError>) -> (page: NewRoomResultsTemplate)
    ensures
        optional_room(page.room) == match outcome {
            Ok(room) => Some(room@),
            Err(_) => None,
        },
{
    match outcome {
        Ok(room) => NewRoomResultsTemplate { room: Some(room) },
        Err(_) => NewRoomResultsTemplate { room: None },
    }
}

/// Creates the room that the form described, with `user` as its first
/// member. A form without a name creates nothing; the image is optional.
pub fn try_new_room(builder: ChatRoomBuilder, user: &User, ledger: &mut ChatManager) -> (page:
    NewRoomResultsTemplate)
    requires
        old(ledger).wf(),
    ensures
        final(ledger).wf(),
        optional_room(page.room) == created_room(builder@, old(ledger)@),
        final(ledger)@.messages == old(ledger)@.messages,
        match page.room {
            Some(room) => {
                &&& final(ledger)@.rooms == old(ledger)@.rooms.push(room@)
                &&& final(ledger)@.members == old(ledger)@.members.push((user.id, room.id))
            },
            None => final(ledger)@ == old(ledger)@,
        },
{
    let ChatRoomBuilder { name, image_path } = builder;
    let name: String = match name {
        Some(name) => name,
        None => {
            return NewRoomResultsTemplate { room: None };
        },
    };
    let outcome = match &image_path {
        Some(path) => ledger.new_room(name.as_str(), Some(path.as_str()), user),
        None => ledger.new_room(name.as_str(), None, user),
    };
    new_room_results(outcome)
}

} // verus!
