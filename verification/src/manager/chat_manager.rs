//! The room ledger: rooms, membership and ordered message history.

use vstd::prelude::*;
use vstd::string::*;
use super::{ChatMessage, ChatMessageView, ChatRoom, ChatRoomView, StorageError, User};

verus! {

/// Whether `a` comes before `b` in a history: by creation time, and among
/// messages of one instant by their numbers, which follow the order of arrival.
pub open spec fn earlier(a: ChatMessageView, b: ChatMessageView) -> bool {
    a.time_created < b.time_created || (a.time_created == b.time_created && a.id < b.id)
}

/// `msgs` is in history order, strictly.
pub open spec fn chronological(msgs: Seq<ChatMessageView>) -> bool {
    forall|i: int, j: int| 0 <= i < j < msgs.len() ==> earlier(#[trigger] msgs[i], #[trigger] msgs[j])
}

/// The messages of `msgs` that belong to `room`, in the order of `msgs`.
pub open spec fn room_history(msgs: Seq<ChatMessageView>, room: i64) -> Seq<ChatMessageView>
    decreases msgs.len(),
{
    if msgs.len() == 0 {
        Seq::empty()
    } else if msgs.last().room_id == room {
        room_history(msgs.drop_last(), room).push(msgs.last())
    } else {
        room_history(msgs.drop_last(), room)
    }
}

/// Where a message created at `now` goes: behind the last one that is not
/// younger.
pub open spec fn insertion_point(msgs: Seq<ChatMessageView>, now: i64) -> int
    decreases msgs.len(),
{
    if msgs.len() == 0 {
        0
    } else if msgs.last().time_created <= now {
        msgs.len() as int
    } else {
        insertion_point(msgs.drop_last(), now)
    }
}

/// Whether `user` is a member of `room`.
pub open spec fn is_member(members: Seq<(i64, i64)>, user: i64, room: i64) -> bool {
    members.contains((user, room))
}

/// The rooms of `rooms` that `user` is a member of, in the order of `rooms`.
pub open spec fn rooms_of(rooms: Seq<ChatRoomView>, members: Seq<(i64, i64)>, user: i64) -> Seq<
    ChatRoomView,
>
    decreases rooms.len(),
{
    if rooms.len() == 0 {
        Seq::empty()
    } else if is_member(members, user, rooms.last().id) {
        rooms_of(rooms.drop_last(), members, user).push(rooms.last())
    } else {
        rooms_of(rooms.drop_last(), members, user)
    }
}

/// The views of a list of rooms.
pub open spec fn room_views(rooms: Seq<ChatRoom>) -> Seq<ChatRoomView> {
    rooms.map_values(|r: ChatRoom| r@)
}

/// The views of a list of messages.
pub open spec fn message_views(msgs: Seq<ChatMessage>) -> Seq<ChatMessageView> {
    msgs.map_values(|m: ChatMessage| m@)
}

/// What the ledger holds.
pub struct LedgerView {
    pub rooms: Seq<ChatRoomView>,
    pub members: Seq<(i64, i64)>,
    pub messages: Seq<ChatMessageView>,
}

/// The ledger's invariant: rooms are numbered from 1 in the order of their
/// creation; a membership or a message names a room that exists; no
/// membership is recorded twice; messages have distinct numbers and stand in
/// history order.
pub open spec fn ledger_valid(l: LedgerView) -> bool {
    &&& l.rooms.len() < i64::MAX
    &&& l.messages.len() < i64::MAX
    &&& forall|i: int| 0 <= i < l.rooms.len() ==> (#[trigger] l.rooms[i]).id == i + 1
    &&& forall|i: int|
        0 <= i < l.members.len() ==> 1 <= (#[trigger] l.members[i]).1 <= l.rooms.len()
    &&& forall|i: int, j: int|
        0 <= i < j < l.members.len() ==> #[trigger] l.members[i] != #[trigger] l.members[j]
    &&& forall|i: int|
        0 <= i < l.messages.len() ==> 1 <= (#[trigger] l.messages[i]).room_id <= l.rooms.len()
    &&& forall|i: int| 0 <= i < l.messages.len() ==> 1 <= (#[trigger] l.messages[i]).id <= l.messages.len()
    &&& forall|i: int, j: int|
        0 <= i < j < l.messages.len() ==> (#[trigger] l.messages[i]).id != (#[trigger] l.messages[j]).id
    &&& chronological(l.messages)
}

/// The insertion point lies behind every message that is not younger than
/// `now` and before every younger one.
pub proof fn lemma_insertion_point(msgs: Seq<ChatMessageView>, now: i64)
    requires
        chronological(msgs),
    ensures
        0 <= insertion_point(msgs, now) <= msgs.len(),
        forall|j: int| 0 <= j < insertion_point(msgs, now) ==> (#[trigger] msgs[j]).time_created <= now,
        forall|j: int|
            insertion_point(msgs, now) <= j < msgs.len() ==> (#[trigger] msgs[j]).time_created > now,
    decreases msgs.len(),
{
    if msgs.len() > 0 {
        let last = msgs.len() - 1;
        if msgs.last().time_created <= now {
            assert forall|j: int| 0 <= j < msgs.len() implies (#[trigger] msgs[j]).time_created
                <= now by {
                if j < last {
                    assert(earlier(msgs[j], msgs[last]));
                }
            }
        } else {
            let front = msgs.drop_last();
            assert forall|i: int, j: int| 0 <= i < j < front.len() implies earlier(
                #[trigger] front[i],
                #[trigger] front[j],
            ) by {
                assert(earlier(msgs[i], msgs[j]));
            }
            lemma_insertion_point(front, now);
            let p = insertion_point(front, now);
            assert forall|j: int| 0 <= j < p implies (#[trigger] msgs[j]).time_created <= now by {
                assert(front[j].time_created <= now);
            }
            assert forall|j: int| p <= j < msgs.len() implies (#[trigger] msgs[j]).time_created
                > now by {
                if j < last {
                    assert(front[j].time_created > now);
                }
            }
        }
    }
}

/// A room's history holds exactly the messages of that room.
pub proof fn lemma_history_members(msgs: Seq<ChatMessageView>, room: i64, m: ChatMessageView)
    ensures
        room_history(msgs, room).contains(m) <==> msgs.contains(m) && m.room_id == room,
    decreases msgs.len(),
{
    let h = room_history(msgs, room);
    if msgs.len() > 0 {
        let front = msgs.drop_last();
        let hf = room_history(front, room);
        lemma_history_members(front, room, m);
        if h.contains(m) {
            let i = choose|i: int| 0 <= i < h.len() && h[i] == m;
            if i < hf.len() {
                assert(hf[i] == m);
                assert(hf.contains(m));
                let k = choose|k: int| 0 <= k < front.len() && front[k] == m;
                assert(msgs[k] == m);
            } else {
                assert(msgs[msgs.len() - 1] == m);
            }
        }
        if msgs.contains(m) && m.room_id == room {
            let k = choose|k: int| 0 <= k < msgs.len() && msgs[k] == m;
            if k < front.len() {
                assert(front[k] == m);
                assert(front.contains(m));
                let i = choose|i: int| 0 <= i < hf.len() && hf[i] == m;
                assert(h[i] == m);
            } else {
                assert(h[h.len() - 1] == m);
            }
        }
    }
}

/// A room's history of a ledger in history order is in history order.
pub proof fn lemma_history_chronological(msgs: Seq<ChatMessageView>, room: i64)
    requires
        chronological(msgs),
    ensures
        chronological(room_history(msgs, room)),
    decreases msgs.len(),
{
    let h = room_history(msgs, room);
    if msgs.len() > 0 {
        let front = msgs.drop_last();
        let last = msgs.last();
        assert forall|i: int, j: int| 0 <= i < j < front.len() implies earlier(
            #[trigger] front[i],
            #[trigger] front[j],
        ) by {
            assert(earlier(msgs[i], msgs[j]));
        }
        lemma_history_chronological(front, room);
        let hf = room_history(front, room);
        if last.room_id == room {
            assert forall|i: int, j: int| 0 <= i < j < h.len() implies earlier(
                #[trigger] h[i],
                #[trigger] h[j],
            ) by {
                if j < hf.len() {
                    assert(earlier(hf[i], hf[j]));
                } else {
                    assert(hf.contains(hf[i]));
                    lemma_history_members(front, room, hf[i]);
                    let k = choose|k: int| 0 <= k < front.len() && front[k] == hf[i];
                    assert(earlier(msgs[k], msgs[msgs.len() - 1]));
                }
            }
        }
    }
}

/// The history of two runs of messages, one after the other, is the first
/// run's history followed by the second's.
pub proof fn lemma_history_concat(a: Seq<ChatMessageView>, b: Seq<ChatMessageView>, room: i64)
    ensures
        room_history(a + b, room) == room_history(a, room) + room_history(b, room),
    decreases b.len(),
{
    if b.len() == 0 {
        assert(a + b =~= a);
        assert(room_history(a, room) + room_history(b, room) =~= room_history(a, room));
    } else {
        lemma_history_concat(a, b.drop_last(), room);
        assert((a + b).drop_last() =~= a + b.drop_last());
        assert((a + b).last() == b.last());
        if b.last().room_id == room {
            assert(room_history(a, room) + room_history(b.drop_last(), room).push(b.last())
                =~= (room_history(a, room) + room_history(b.drop_last(), room)).push(b.last()));
        }
    }
}

/// What inserting a message at `p` does to the histories: the message's own
/// room gets it between what stood before `p` and what stood from `p` on, and
/// every other room's history stays as it was.
pub proof fn lemma_history_insert(msgs: Seq<ChatMessageView>, p: int, m: ChatMessageView, room: i64)
    requires
        0 <= p <= msgs.len(),
    ensures
        room_history(msgs.insert(p, m), room) == if m.room_id == room {
            room_history(msgs.take(p), room).push(m) + room_history(msgs.skip(p), room)
        } else {
            room_history(msgs, room)
        },
        room_history(msgs, room) == room_history(msgs.take(p), room) + room_history(
            msgs.skip(p),
            room,
        ),
{
    let one = seq![m];
    assert(msgs.insert(p, m) =~= (msgs.take(p) + one) + msgs.skip(p));
    assert(msgs =~= msgs.take(p) + msgs.skip(p));
    lemma_history_concat(msgs.take(p), msgs.skip(p), room);
    lemma_history_concat(msgs.take(p) + one, msgs.skip(p), room);
    lemma_history_concat(msgs.take(p), one, room);
    assert(one.drop_last() =~= Seq::<ChatMessageView>::empty());
    assert(one.last() == m);
    assert(room_history(one.drop_last(), room) =~= Seq::<ChatMessageView>::empty());
    if m.room_id == room {
        assert(room_history(one, room) =~= seq![m]);
        assert(room_history(msgs.take(p), room) + seq![m] =~= room_history(msgs.take(p), room).push(
            m,
        ));
    } else {
        assert(room_history(one, room) =~= Seq::<ChatMessageView>::empty());
        assert(room_history(msgs.take(p), room) + Seq::<ChatMessageView>::empty()
            =~= room_history(msgs.take(p), room));
    }
}

/// The room ledger.
pub struct ChatManager {
    rooms: Vec<ChatRoom>,
    members: Vec<(i64, i64)>,
    messages: Vec<ChatMessage>,
}

impl View for ChatManager {
    type V = LedgerView;

    closed spec fn view(&self) -> LedgerView {
        LedgerView {
            rooms: room_views(self.rooms@),
            members: self.members@,
            messages: message_views(self.messages@),
        }
    }
}

impl ChatManager {
    /// The ledger's invariant.
    pub open spec fn wf(&self) -> bool {
        ledger_valid(self@)
    }

    /// An empty ledger.
    pub fn new() -> (r: Self)
        ensures
            r@.rooms == Seq::<ChatRoomView>::empty(),
            r@.members == Seq::<(i64, i64)>::empty(),
            r@.messages == Seq::<ChatMessageView>::empty(),
            r.wf(),
    {
        let r = ChatManager { rooms: Vec::new(), members: Vec::new(), messages: Vec::new() };
        assert(r@.rooms =~= Seq::<ChatRoomView>::empty());
        assert(r@.messages =~= Seq::<ChatMessageView>::empty());
        r
    }

    /// The room with the given number; `RowNotFound` where there is none.
    pub fn get_room(&self, room_id: i64) -> (r: Result<ChatRoom, StorageError>)
        requires
            self.wf(),
        ensures
            match r {
                Ok(room) => 1 <= room_id <= self@.rooms.len() && room@ == self@.rooms[room_id - 1],
                Err(e) => e == StorageError::RowNotFound && !(1 <= room_id <= self@.rooms.len()),
            },
    {
        if room_id >= 1 && (room_id as u64) <= (self.rooms.len() as u64) {
            Ok(self.rooms[(room_id - 1) as usize].clone())
        } else {
            Err(StorageError::RowNotFound)
        }
    }

    /// Whether `user_id` is a member of `room_id`.
    pub fn has_member(&self, user_id: i64, room_id: i64) -> (r: bool)
        ensures
            r == is_member(self@.members, user_id, room_id),
    {
        let mut i: usize = 0;
        while i < self.members.len()
            invariant
                i <= self.members.len(),
                forall|j: int| 0 <= j < i ==> self.members@[j] != (user_id, room_id),
            decreases self.members.len() - i,
        {
            if self.members[i].0 == user_id && self.members[i].1 == room_id {
                assert(self@.members[i as int] == (user_id, room_id));
                return true;
            }
            i = i + 1;
        }
        false
    }

    /// Creates a room and makes its creator a member, both or neither. The
    /// room gets the next number. `Unavailable` where the ledger is full.
    pub fn new_room(&mut self, name: &str, image_path: Option<&str>, creator: &User) -> (r: Result<
        ChatRoom,
        StorageError,
    >)
        requires
            old(self).wf(),
        ensures
            final(self).wf(),
            final(self)@.messages == old(self)@.messages,
            match r {
                Ok(room) => {
                    &&& old(self)@.rooms.len() + 1 < i64::MAX
                    &&& room@ == (ChatRoomView {
                        id: (old(self)@.rooms.len() + 1) as i64,
                        name: name@,
                        image_path: match image_path {
                            Some(p) => Some(p@),
                            None => None,
                        },
                    })
                    &&& final(self)@.rooms == old(self)@.rooms.push(room@)
                    &&& final(self)@.members == old(self)@.members.push((creator.id, room.id))
                },
                Err(e) => {
                    &&& old(self)@.rooms.len() + 1 >= i64::MAX
                    &&& e == StorageError::Unavailable
                    &&& final(self)@ == old(self)@
                },
            },
    {
        let n: usize = self.rooms.len();
        if n as u64 + 1 >= i64::MAX as u64 {
            return Err(StorageError::Unavailable);
        }
        let id: i64 = n as i64 + 1;
        let path: Option<String> = match image_path {
            Some(p) => Some(String::from_str(p)),
            None => None,
        };
        let room = ChatRoom { id, name: String::from_str(name), image_path: path };
        let copy = room.clone();
        self.rooms.push(room);
        self.members.push((creator.id, id));
        proof {
            assert(self@.rooms =~= old(self)@.rooms.push(copy@));
            assert(self@.messages =~= old(self)@.messages);
            assert forall|i: int| 0 <= i < self@.rooms.len() implies (#[trigger] self@.rooms[i]).id == i
                + 1 by {
                if i < n {
                    assert(old(self)@.rooms[i].id == i + 1);
                }
            }
            assert forall|i: int| 0 <= i < self@.members.len() implies 1 <= (
            #[trigger] self@.members[i]).1 <= self@.rooms.len() by {
                if i < old(self)@.members.len() {
                    assert(old(self)@.members[i].1 <= n);
                }
            }
            assert forall|i: int| 0 <= i < self@.messages.len() implies 1 <= (
            #[trigger] self@.messages[i]).room_id <= self@.rooms.len() by {
                assert(old(self)@.messages[i].room_id <= n);
            }
            assert forall|i: int, j: int| 0 <= i < j < self@.members.len() implies #[trigger] self@.members[i]
                != #[trigger] self@.members[j] by {
                if j == old(self)@.members.len() {
                    assert(old(self)@.members[i].1 <= n);
                } else {
                    assert(old(self)@.members[i] != old(self)@.members[j]);
                }
            }
        }
        Ok(copy)
    }

    /// Makes `user_id` a member of `room_id`. `ConstraintViolation` where the
    /// room does not exist or the user is a member already.
    pub fn invite(&mut self, user_id: i64, room_id: i64) -> (r: Result<(), StorageError>)
        requires
            old(self).wf(),
        ensures
            final(self).wf(),
            final(self)@.rooms == old(self)@.rooms,
            final(self)@.messages == old(self)@.messages,
            r is Ok <==> 1 <= room_id <= old(self)@.rooms.len() && !is_member(
                old(self)@.members,
                user_id,
                room_id,
            ),
            r is Ok ==> final(self)@.members == old(self)@.members.push((user_id, room_id)),
            r matches Err(e) ==> e == StorageError::ConstraintViolation && final(self)@.members == old(
                self,
            )@.members,
    {
        if room_id < 1 || (room_id as u64) > (self.rooms.len() as u64) {
            return Err(StorageError::ConstraintViolation);
        }
        if self.has_member(user_id, room_id) {
            return Err(StorageError::ConstraintViolation);
        }
        self.members.push((user_id, room_id));
        proof {
            assert forall|i: int, j: int| 0 <= i < j < self@.members.len() implies #[trigger] self@.members[i]
                != #[trigger] self@.members[j] by {
                if j == old(self)@.members.len() {
                    assert(old(self)@.members.contains(old(self)@.members[i]));
                } else {
                    assert(old(self)@.members[i] != old(self)@.members[j]);
                }
            }
        }
        Ok(())
    }

    /// Where a message created at `now` is to stand among the messages.
    fn find_insertion_point(&self, now: i64) -> (p: usize)
        ensures
            p == insertion_point(self@.messages, now),
            p <= self@.messages.len(),
    {
        let mut i: usize = self.messages.len();
        proof {
            assert(self@.messages.take(i as int) =~= self@.messages);
        }
        while i > 0 && self.messages[i - 1].time_created > now
            invariant
                i <= self.messages.len(),
                insertion_point(self@.messages, now) == insertion_point(
                    self@.messages.take(i as int),
                    now,
                ),
            decreases i,
        {
            proof {
                assert(self@.messages.take(i as int).drop_last() =~= self@.messages.take(i - 1));
                assert(self@.messages.take(i as int).last() == self.messages@[i - 1]@);
            }
            i = i - 1;
        }
        proof {
            if i > 0 {
                assert(self@.messages.take(i as int).last() == self.messages@[i - 1]@);
            }
        }
        i
    }

    /// Appends a message of `user` to `room`, created at `now`. The message
    /// gets the next number and its place in history order. When this
    /// returns `Ok` the message is part of the ledger, so a caller that
    /// publishes it afterwards publishes what a history read will show.
    /// `ConstraintViolation` where the room does not exist, `Unavailable`
    /// where the ledger is full; the ledger then stays as it was.
    pub fn new_chat(&mut self, user: &User, room: &ChatRoom, msg: &str, now: i64) -> (r: Result<
        ChatMessage,
        StorageError,
    >)
        requires
            old(self).wf(),
        ensures
            final(self).wf(),
            final(self)@.rooms == old(self)@.rooms,
            final(self)@.members == old(self)@.members,
            match r {
                Ok(m) => {
                    &&& 1 <= room.id <= old(self)@.rooms.len()
                    &&& old(self)@.messages.len() + 1 < i64::MAX
                    &&& m@ == (ChatMessageView {
                        id: (old(self)@.messages.len() + 1) as i64,
                        user_id: Some(user.id),
                        room_id: room.id,
                        message: msg@,
                        time_created: now,
                    })
                    &&& final(self)@.messages == old(self)@.messages.insert(
                        insertion_point(old(self)@.messages, now),
                        m@,
                    )
                    &&& room_history(final(self)@.messages, room.id).contains(m@)
                },
                Err(e) => {
                    &&& final(self)@ == old(self)@
                    &&& e == if 1 <= room.id <= old(self)@.rooms.len() {
                        StorageError::Unavailable
                    } else {
                        StorageError::ConstraintViolation
                    }
                    &&& 1 <= room.id <= old(self)@.rooms.len() ==> old(self)@.messages.len() + 1
                        >= i64::MAX
                },
            },
    {
        if room.id < 1 || (room.id as u64) > (self.rooms.len() as u64) {
            return Err(StorageError::ConstraintViolation);
        }
        let n: usize = self.messages.len();
        if n as u64 + 1 >= i64::MAX as u64 {
            return Err(StorageError::Unavailable);
        }
        let p: usize = self.find_insertion_point(now);
        let m = ChatMessage {
            id: n as i64 + 1,
            user_id: Some(user.id),
            room_id: room.id,
            message: String::from_str(msg),
            time_created: now,
        };
        let copy = m.clone();
        self.messages.insert(p, m);
        proof {
            let before = old(self)@.messages;
            let after = self@.messages;
            assert(after =~= before.insert(p as int, copy@));
            assert(self@.members == old(self)@.members);
            assert(self@.rooms == old(self)@.rooms);
            lemma_insertion_point(before, now);
            assert forall|i: int| 0 <= i < after.len() implies 1 <= (#[trigger] after[i]).room_id
                <= self@.rooms.len() && 1 <= after[i].id <= after.len() by {
                if i < p {
                    assert(after[i] == before[i]);
                } else if i > p {
                    assert(after[i] == before[i - 1]);
                }
            }
            assert forall|i: int, j: int| 0 <= i < j < after.len() implies (#[trigger] after[i]).id != (
            #[trigger] after[j]).id && earlier(after[i], after[j]) by {
                let a = if i < p {
                    i
                } else {
                    i - 1
                };
                let b = if j < p {
                    j
                } else {
                    j - 1
                };
                if i != p && j != p {
                    assert(before[a].id != before[b].id);
                    assert(earlier(before[a], before[b]));
                } else if i == p {
                    assert(before[b].time_created > now);
                    assert(before[b].id <= n);
                } else {
                    assert(before[a].time_created <= now);
                    assert(before[a].id <= n);
                }
            }
            assert(after[p as int] == copy@);
            assert(after.contains(copy@));
            lemma_history_members(after, room.id, copy@);
        }
        Ok(copy)
    }

    /// The history of `room`: its messages by creation time, oldest first,
    /// those of one instant in the order of their arrival.
    pub fn list_chats(&self, room: &ChatRoom) -> (r: Result<Vec<ChatMessage>, StorageError>)
        requires
            self.wf(),
        ensures
            r matches Ok(msgs) && message_views(msgs@) == room_history(self@.messages, room.id)
                && chronological(message_views(msgs@)),
    {
        let mut out: Vec<ChatMessage> = Vec::new();
        let mut i: usize = 0;
        while i < self.messages.len()
            invariant
                i <= self.messages.len(),
                message_views(out@) == room_history(self@.messages.take(i as int), room.id),
            decreases self.messages.len() - i,
        {
            proof {
                assert(self@.messages.take(i + 1).drop_last() =~= self@.messages.take(i as int));
                assert(self@.messages.take(i + 1).last() == self.messages@[i as int]@);
            }
            if self.messages[i].room_id == room.id {
                let ghost before = out@;
                let m = self.messages[i].clone();
                out.push(m);
                proof {
                    assert(message_views(out@) =~= message_views(before).push(m@));
                }
            }
            i = i + 1;
        }
        proof {
            assert(self@.messages.take(i as int) =~= self@.messages);
            lemma_history_chronological(self@.messages, room.id);
        }
        Ok(out)
    }

    /// The rooms that `user` is a member of, in the order of their creation.
    pub fn list_rooms(&self, user: &User) -> (r: Result<Vec<ChatRoom>, StorageError>)
        ensures
            r matches Ok(rooms) && room_views(rooms@) == rooms_of(self@.rooms, self@.members, user.id),
    {
        let mut out: Vec<ChatRoom> = Vec::new();
        let mut i: usize = 0;
        while i < self.rooms.len()
            invariant
                i <= self.rooms.len(),
                room_views(out@) == rooms_of(self@.rooms.take(i as int), self@.members, user.id),
            decreases self.rooms.len() - i,
        {
            proof {
                assert(self@.rooms.take(i + 1).drop_last() =~= self@.rooms.take(i as int));
                assert(self@.rooms.take(i + 1).last() == self.rooms@[i as int]@);
            }
            if self.has_member(user.id, self.rooms[i].id) {
                let ghost before = out@;
                let room = self.rooms[i].clone();
                out.push(room);
                proof {
                    assert(room_views(out@) =~= room_views(before).push(room@));
                }
            }
            i = i + 1;
        }
        proof {
            assert(self@.rooms.take(i as int) =~= self@.rooms);
        }
        Ok(out)
    }
}

/// Durability and order of the history. After a message `m` has been put
/// into a ledger in history order at its insertion point, with a number
/// above all earlier ones, a read of the history of its room shows `m`,
/// between what that read showed before up to `m`'s place and what it
/// showed from there on; the history of every room is in history order, so
/// creation times never decrease along it and messages of one instant
/// follow their numbers; and the history of every other room is what it was.
pub proof fn lemma_appended_message_in_history(
    before: Seq<ChatMessageView>,
    m: ChatMessageView,
    room: i64,
)
    requires
        chronological(before),
        forall|i: int| 0 <= i < before.len() ==> (#[trigger] before[i]).id < m.id,
    ensures
        ({
            let p = insertion_point(before, m.time_created);
            let after = before.insert(p, m);
            &&& chronological(after)
            &&& chronological(room_history(after, room))
            &&& room_history(after, m.room_id).contains(m)
            &&& room == m.room_id ==> room_history(after, room) == room_history(
                before.take(p),
                room,
            ).push(m) + room_history(before.skip(p), room)
            &&& room != m.room_id ==> room_history(after, room) == room_history(before, room)
        }),
{
    let p = insertion_point(before, m.time_created);
    let after = before.insert(p, m);
    lemma_insertion_point(before, m.time_created);
    assert forall|i: int, j: int| 0 <= i < j < after.len() implies earlier(
        #[trigger] after[i],
        #[trigger] after[j],
    ) by {
        let a = if i < p {
            i
        } else {
            i - 1
        };
        let b = if j < p {
            j
        } else {
            j - 1
        };
        if i != p && j != p {
            assert(earlier(before[a], before[b]));
        } else if i == p {
            assert(before[b].time_created > m.time_created);
        } else {
            assert(before[a].time_created <= m.time_created);
            assert(before[a].id < m.id);
        }
    }
    lemma_history_chronological(after, room);
    lemma_history_insert(before, p, m, room);
    assert(after[p] == m);
    assert(after.contains(m));
    lemma_history_members(after, m.room_id, m);
}

/// Histories only grow: what a room's history showed before a message was
/// put into the ledger, it shows afterwards.
pub proof fn lemma_history_keeps_messages(
    before: Seq<ChatMessageView>,
    p: int,
    m: ChatMessageView,
    room: i64,
    earlier_message: ChatMessageView,
)
    requires
        0 <= p <= before.len(),
        room_history(before, room).contains(earlier_message),
    ensures
        room_history(before.insert(p, m), room).contains(earlier_message),
{
    lemma_history_members(before, room, earlier_message);
    let k = choose|k: int| 0 <= k < before.len() && before[k] == earlier_message;
    let after = before.insert(p, m);
    if k < p {
        assert(after[k] == earlier_message);
    } else {
        assert(after[k + 1] == earlier_message);
    }
    assert(after.contains(earlier_message));
    lemma_history_members(after, room, earlier_message);
}

/// Times along a history never decrease.
pub proof fn lemma_history_times_ascend(msgs: Seq<ChatMessageView>, i: int, j: int)
    requires
        chronological(msgs),
        0 <= i <= j < msgs.len(),
    ensures
        msgs[i].time_created <= msgs[j].time_created,
{
    if i < j {
        assert(earlier(msgs[i], msgs[j]));
    }
}

} // verus!
