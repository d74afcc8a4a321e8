//! The session store: opaque tokens bound to users.

use vstd::prelude::*;
use vstd::string::*;
use super::login_manager::LoginManager;
use super::{StorageError, User, UserView};

verus! {

/// A session token.
#[derive(Debug)]
pub struct SessionId(pub String);

impl View for SessionId {
    type V = Seq<char>;

    open spec fn view(&self) -> Seq<char> {
        self.0@
    }
}

impl Clone for SessionId {
    fn clone(&self) -> (r: Self)
        ensures
            r@ == self@,
    {
        SessionId(self.0.clone())
    }
}

impl SessionId {
    /// The token as text, as it travels in a cookie.
    pub fn to_string(&self) -> (r: String)
        ensures
            r@ == self@,
    {
        self.0.clone()
    }
}

/// Why a token could not be resolved.
#[derive(Debug, Clone, Copy, PartialEq, Eq, Structural)]
pub enum Error {
    DoesNotExist,
    DatabaseError(StorageError),
}

impl From<StorageError> for Error {
    /// The session store's error for a failure of the storage below it: a
    /// missing row means that the session does not exist.
    fn from(err: StorageError) -> (e: Error) {
        match err {
            StorageError::RowNotFound => Error::DoesNotExist,
            _ => Error::DatabaseError(err),
        }
    }
}

impl vstd::std_specs::convert::FromSpecImpl<StorageError> for Error {
    open spec fn obeys_from_spec() -> bool {
        true
    }

    open spec fn from_spec(err: StorageError) -> Error {
        match err {
            StorageError::RowNotFound => Error::DoesNotExist,
            _ => Error::DatabaseError(err),
        }
    }
}

/// How many characters a fresh token has. With 62 symbols to choose from,
/// thirteen of them carry more than 72 bits.
pub const SESSION_ID_LENGTH: usize = 13;

pub open spec fn is_alphanumeric(c: char) -> bool {
    ('0' <= c && c <= '9') || ('a' <= c && c <= 'z') || ('A' <= c && c <= 'Z')
}

/// `t` has the shape of a freshly made token.
pub open spec fn well_formed_token(t: Seq<char>) -> bool {
    &&& t.len() == SESSION_ID_LENGTH
    &&& forall|i: int| 0 <= i < t.len() ==> is_alphanumeric(#[trigger] t[i])
}

/// Draws one symbol with `rand::Rng::sample` from the distribution
/// `rand::distributions::Alphanumeric`, on the generator that
/// `rand::thread_rng` gives the calling thread. The distribution picks a
/// byte out of the ASCII letters and digits; which one is a matter of
/// chance, so nothing more is claimed. The generator stops the program
/// where the operating system gives it no seed, whatever the caller does.
#[verifier::external_body]
fn sample_alphanumeric() -> (c: char)
    ensures
        is_alphanumeric(c),
{
    char::from(rand::Rng::sample(&mut rand::thread_rng(), rand::distributions::Alphanumeric))
}

/// A fresh random token. It does not depend on the user it is made for.
pub fn random_string_session_id(_user: &User) -> (r: SessionId)
    ensures
        well_formed_token(r@),
{
    let mut token = String::new();
    let mut i: usize = 0;
    while i < SESSION_ID_LENGTH
        invariant
            i <= SESSION_ID_LENGTH,
            token@.len() == i,
            forall|j: int| 0 <= j < token@.len() ==> is_alphanumeric(#[trigger] token@[j]),
        decreases SESSION_ID_LENGTH - i,
    {
        let c: char = sample_alphanumeric();
        token.push(c);
        i = i + 1;
    }
    SessionId(token)
}

/// The user that `token` is bound to among `sessions`.
pub open spec fn session_user(sessions: Seq<(Seq<char>, i64)>, token: Seq<char>) -> Option<i64>
    decreases sessions.len(),
{
    if sessions.len() == 0 {
        None
    } else if sessions.last().0 == token {
        Some(sessions.last().1)
    } else {
        session_user(sessions.drop_last(), token)
    }
}

/// Whether `token` is bound among `sessions`.
pub open spec fn token_bound(sessions: Seq<(Seq<char>, i64)>, token: Seq<char>) -> bool {
    exists|i: int| 0 <= i < sessions.len() && (#[trigger] sessions[i]).0 == token
}

/// `session_user` finds a user exactly for the tokens that are bound.
pub proof fn lemma_session_user(sessions: Seq<(Seq<char>, i64)>, token: Seq<char>)
    ensures
        session_user(sessions, token) is Some <==> token_bound(sessions, token),
        session_user(sessions, token) matches Some(id) ==> sessions.contains((token, id)),
    decreases sessions.len(),
{
    if sessions.len() > 0 {
        let front = sessions.drop_last();
        lemma_session_user(front, token);
        let last = sessions.len() - 1;
        if sessions.last().0 == token {
            assert(sessions[last].0 == token);
            assert(sessions[last] == (token, sessions.last().1));
        } else {
            if token_bound(sessions, token) {
                let i = choose|i: int| 0 <= i < sessions.len() && (#[trigger] sessions[i]).0 == token;
                assert(front[i].0 == token);
            }
            if token_bound(front, token) {
                let i = choose|i: int| 0 <= i < front.len() && (#[trigger] front[i]).0 == token;
                assert(sessions[i].0 == token);
            }
            match session_user(front, token) {
                Some(id) => {
                    let i = choose|i: int| 0 <= i < front.len() && front[i] == (token, id);
                    assert(sessions[i] == (token, id));
                },
                None => {},
            }
        }
    }
}

/// The user that `token` resolves to, given the sessions and the accounts.
pub open spec fn resolve(
    sessions: Seq<(Seq<char>, i64)>,
    users: Seq<UserView>,
    token: Seq<char>,
) -> Result<UserView, Error> {
    match session_user(sessions, token) {
        Some(id) => if 1 <= id <= users.len() {
            Ok(users[id - 1])
        } else {
            Err(Error::DoesNotExist)
        },
        None => Err(Error::DoesNotExist),
    }
}

/// The view of a resolution's result.
pub open spec fn resolution_view(r: Result<User, Error>) -> Result<UserView, Error> {
    match r {
        Ok(u) => Ok(u@),
        Err(e) => Err(e),
    }
}

/// What issuing a session for `user` comes to once `token` has been drawn
/// for it: no token and the sessions as they were where `token` is bound
/// already, else `token` and the sessions with the new one at their end.
pub open spec fn issue_with(before: Seq<(Seq<char>, i64)>, user: i64, token: Seq<char>) -> (
    Option<Seq<char>>,
    Seq<(Seq<char>, i64)>,
) {
    if token_bound(before, token) {
        (None, before)
    } else {
        (Some(token), before.push((token, user)))
    }
}

/// Whether a freshly drawn token can meet one that is bound: some well
/// formed token is bound among `sessions`.
pub open spec fn collision_possible(sessions: Seq<(Seq<char>, i64)>) -> bool {
    exists|token: Seq<char>| well_formed_token(token) && #[trigger] token_bound(sessions, token)
}

/// No token is bound twice.
pub open spec fn sessions_valid(sessions: Seq<(Seq<char>, i64)>) -> bool {
    forall|i: int, j: int|
        0 <= i < j < sessions.len() ==> (#[trigger] sessions[i]).0 != (#[trigger] sessions[j]).0
}

/// The session store. A user may hold any number of sessions at a time, and
/// a session lasts as long as the store.
pub struct SessionManager {
    sessions: Vec<(String, i64)>,
}

impl View for SessionManager {
    type V = Seq<(Seq<char>, i64)>;

    closed spec fn view(&self) -> Seq<(Seq<char>, i64)> {
        self.sessions@.map_values(|s: (String, i64)| (s.0@, s.1))
    }
}

impl SessionManager {
    /// The store's invariant.
    pub open spec fn wf(&self) -> bool {
        sessions_valid(self@)
    }

    /// A store without sessions.
    pub fn new() -> (r: Self)
        ensures
            r@ == Seq::<(Seq<char>, i64)>::empty(),
            r.wf(),
    {
        let r = SessionManager { sessions: Vec::new() };
        assert(r@ =~= Seq::<(Seq<char>, i64)>::empty());
        r
    }

    /// The number of the user that `token` is bound to, if it is bound.
    pub fn user_id_of(&self, token: &str) -> (r: Option<i64>)
        ensures
            r == session_user(self@, token@),
    {
        let mut i: usize = self.sessions.len();
        proof {
            assert(self@.take(i as int) =~= self@);
        }
        while i > 0
            invariant
                i <= self.sessions.len(),
                session_user(self@, token@) == session_user(self@.take(i as int), token@),
            decreases i,
        {
            proof {
                assert(self@.take(i as int).drop_last() =~= self@.take(i - 1));
                assert(self@.take(i as int).last() == self@[i - 1]);
            }
            if *self.sessions[i - 1].0.as_str() == *token {
                return Some(self.sessions[i - 1].1);
            }
            i = i - 1;
        }
        None
    }

    /// Resolves a token to the account of its user: `DoesNotExist` where the
    /// token is not bound, or bound to a user that `users` does not hold.
    pub fn get_user(&self, session_id: SessionId, users: &LoginManager) -> (r: Result<User, Error>)
        requires
            users.wf(),
        ensures
            resolution_view(r) == resolve(self@, users@, session_id@),
    {
        match self.user_id_of(session_id.0.as_str()) {
            None => Err(Error::from(StorageError::RowNotFound)),
            Some(id) => match users.find_by_id(id) {
                Some(user) => Ok(user),
                None => Err(Error::from(StorageError::RowNotFound)),
            },
        }
    }

    /// Binds `sid` to `user`. A token that is bound already is refused with
    /// `ConstraintViolation`, and the store stays as it was.
    pub fn bind(&mut self, sid: SessionId, user: &User) -> (r: Result<SessionId, StorageError>)
        requires
            old(self).wf(),
        ensures
            final(self).wf(),
            match r {
                Ok(bound) => {
                    &&& !token_bound(old(self)@, sid@)
                    &&& bound@ == sid@
                    &&& final(self)@ == old(self)@.push((sid@, user.id))
                },
                Err(e) => {
                    &&& token_bound(old(self)@, sid@)
                    &&& e == StorageError::ConstraintViolation
                    &&& final(self)@ == old(self)@
                },
            },
    {
        proof {
            lemma_session_user(self@, sid@);
        }
        if self.user_id_of(sid.0.as_str()).is_some() {
            return Err(StorageError::ConstraintViolation);
        }
        self.sessions.push((sid.0.clone(), user.id));
        proof {
            assert(self@ =~= old(self)@.push((sid@, user.id)));
            assert forall|i: int, j: int| 0 <= i < j < self@.len() implies (#[trigger] self@[i]).0 != (
            #[trigger] self@[j]).0 by {
                if j == old(self)@.len() {
                    assert(old(self)@[i].0 != sid@);
                } else {
                    assert(old(self)@[i].0 != old(self)@[j].0);
                }
            }
        }
        Ok(sid)
    }

    /// Issues a fresh random token for `user` and binds it. Whatever token
    /// was drawn, it is well formed, and the outcome is what `issue_with`
    /// says of it: the one new session, or, where the token was bound
    /// already, a refusal that leaves the store as it was. Earlier sessions
    /// of the user stay valid. Where no well formed token is bound yet, the
    /// call succeeds.
    pub fn generate_session_id_for(&mut self, user: &User) -> (r: Result<SessionId, StorageError>)
        requires
            old(self).wf(),
        ensures
            final(self).wf(),
            exists|token: Seq<char>|
                well_formed_token(token) && #[trigger] issue_with(old(self)@, user.id, token) == (
                    match r {
                        Ok(sid) => Some(sid@),
                        Err(_) => None,
                    },
                    final(self)@,
                ),
            match r {
                Ok(sid) => {
                    &&& well_formed_token(sid@)
                    &&& !token_bound(old(self)@, sid@)
                    &&& final(self)@ == old(self)@.push((sid@, user.id))
                },
                Err(e) => e == StorageError::ConstraintViolation && final(self)@ == old(self)@,
            },
            !collision_possible(old(self)@) ==> r is Ok,
    {
        let sid = random_string_session_id(user);
        let ghost token = sid@;
        let r = self.bind(sid, user);
        proof {
            assert(issue_with(old(self)@, user.id, token) == (
                match r {
                    Ok(sid) => Some(sid@),
                    Err(_) => None,
                },
                self@,
            ));
            if r is Err {
                assert(well_formed_token(token) && token_bound(old(self)@, token));
            }
        }
        r
    }
}

} // verus!
