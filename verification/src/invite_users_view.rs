//! Finding users and inviting them into a room.

use vstd::prelude::*;
use vstd::string::*;
use crate::manager::chat_manager::{is_member, ChatManager};
use crate::manager::{StorageError, User, UserView};
use crate::text::{last_segment, last_segment_of};
use crate::utils::{i64_from_string, parse_i64};

verus! {

/// The list of users that a search found.
#[derive(Debug)]
pub struct UserListTemplate {
    pub users: Vec<User>,
}

/// What the search form sends.
#[derive(Debug)]
pub struct SearchFrom {
    pub search: String,
}

/// The page with the invitation form.
#[derive(Debug, Clone, Copy, PartialEq, Eq, Structural)]
pub struct InviteUserTemplate {}

/// What the invitation form sends.
#[derive(Debug, Clone, Copy, PartialEq, Eq, Structural)]
pub struct InviteForm {
    pub user_id: i64,
}

/// Whether the invitation went through.
#[derive(Debug, Clone, Copy, PartialEq, Eq, Structural)]
pub struct InviteUserResultsTemplate {
    pub success: bool,
}

/// The views of a list of users.
pub open spec fn user_views(users: Seq<User>) -> Seq<UserView> {
    users.map_values(|u: User| u@)
}

/// The list to show for what a search found: the users, or nobody where
/// the search failed.
pub fn list_users(found: Result<Vec<User>, StorageError>) -> (page: UserListTemplate)
    ensures
        user_views(page.users@) == match found {
            Ok(users) => user_views(users@),
            Err(_) => Seq::empty(),
        },
{
    match found {
        Ok(users) => UserListTemplate { users },
        Err(_) => {
            let page = UserListTemplate { users: Vec::new() };
            assert(user_views(page.users@) =~= Seq::<UserView>::empty());
            page
        },
    }
}

/// The page with the invitation form.
pub fn invite_user() -> (page: InviteUserTemplate) {
    InviteUserTemplate {  }
}

/// The room that a page's address names: the number after its last slash.
pub open spec fn referer_room(referer: Seq<char>) -> Option<i64> {
    match parse_i64(last_segment(referer, '/')) {
        Ok(id) => Some(id),
        Err(_) => None,
    }
}

/// The room that the address of the inviting page names.
pub fn room_id_from_referer(referer: &str) -> (room: Option<i64>)
    ensures
        room == referer_room(referer@),
{
    let tail = last_segment_of(referer, '/');
    match i64_from_string(tail.as_str()) {
        Ok(id) => Some(id),
        Err(_) => None,
    }
}

/// The room that an invitation is for, given the address of the page it
/// was sent from, where the request named one.
pub open spec fn invited_room(referer: Option<Seq<char>>) -> Option<i64> {
    match referer {
        Some(r) => referer_room(r),
        None => None,
    }
}

/// Handles the invitation form. The invitation goes through where the
/// request names the page it came from, that page's address ends in the
/// number of an existing room, and the user is not a member of it yet; the
/// user is then a member. In every other case the ledger stays as it was.
pub fn try_invite_user(referer: Option<&str>, data: InviteForm, ledger: &mut ChatManager) -> (page:
    InviteUserResultsTemplate)
    requires
        old(ledger).wf(),
    ensures
        final(ledger).wf(),
        final(ledger)@.rooms == old(ledger)@.rooms,
        final(ledger)@.messages == old(ledger)@.messages,
        page.success <==> (invited_room(
            match referer {
                Some(r) => Some(r@),
                None => None,
            },
        ) matches Some(room) && 1 <= room <= old(ledger)@.rooms.len() && !is_member(
            old(ledger)@.members,
            data.user_id,
            room,
        )),
        page.success ==> final(ledger)@.members == old(ledger)@.members.push(
            (data.user_id, referer_room(referer.unwrap()@).unwrap()),
        ),
        !page.success ==> final(ledger)@.members == old(ledger)@.members,
{
    if let Some(refer) = referer {
        if let Some(room_id) = room_id_from_referer(refer) {
            let success = ledger.invite(data.user_id, room_id).is_ok();
            return InviteUserResultsTemplate { success };
        }
    }
    InviteUserResultsTemplate { success: false }
}

} // verus!
