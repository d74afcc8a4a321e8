//! The credential store: registration and authentication.

use vstd::prelude::*;
use vstd::string::*;
use super::{StorageError, User, UserView};

verus! {

/// Why a registration or a login was turned down.
#[derive(Debug, Clone, Copy, PartialEq, Eq, Structural)]
pub enum Error {
    EmailTaken,
    PasswordMismatch,
    WrongPassword,
    EmailTakenAndPasswordMismatch,
    UserNotFound,
    DatabaseError(StorageError),
}

impl From<StorageError> for Error {
    /// The credential store's error for a failure of the storage below it.
    fn from(value: StorageError) -> (e: Error) {
        Error::DatabaseError(value)
    }
}

impl vstd::std_specs::convert::FromSpecImpl<StorageError> for Error {
    open spec fn obeys_from_spec() -> bool {
        true
    }

    open spec fn from_spec(value: StorageError) -> Error {
        Error::DatabaseError(value)
    }
}

/// Whether two credentials are the same text.
pub fn compare_password<'a>(a: &'a str, b: &'a str) -> (same: bool)
    ensures
        same == (a@ == b@),
{
    *a == *b
}

/// The account among `users` that is registered under `email`.
pub open spec fn lookup_email(users: Seq<UserView>, email: Seq<char>) -> Option<UserView>
    decreases users.len(),
{
    if users.len() == 0 {
        None
    } else {
        match lookup_email(users.drop_last(), email) {
            Some(u) => Some(u),
            None => if users.last().email == email {
                Some(users.last())
            } else {
                None
            },
        }
    }
}

/// Whether some account among `users` is registered under `email`.
pub open spec fn email_taken(users: Seq<UserView>, email: Seq<char>) -> bool {
    exists|i: int| 0 <= i < users.len() && (#[trigger] users[i]).email == email
}

/// `lookup_email` finds an account exactly when the email is taken, and the
/// account it finds is one of `users` with that email.
pub proof fn lemma_lookup_email(users: Seq<UserView>, email: Seq<char>)
    ensures
        lookup_email(users, email) is Some <==> email_taken(users, email),
        lookup_email(users, email) matches Some(u) ==> u.email == email && users.contains(u),
    decreases users.len(),
{
    if users.len() > 0 {
        let front = users.drop_last();
        lemma_lookup_email(front, email);
        if email_taken(users, email) {
            let i = choose|i: int| 0 <= i < users.len() && (#[trigger] users[i]).email == email;
            if i < front.len() {
                assert(front[i].email == email);
            }
        }
        if email_taken(front, email) {
            let i = choose|i: int| 0 <= i < front.len() && (#[trigger] front[i]).email == email;
            assert(users[i].email == email);
        }
        match lookup_email(front, email) {
            Some(u) => {
                let i = choose|i: int| 0 <= i < front.len() && front[i] == u;
                assert(users[i] == u);
            },
            None => {
                if users.last().email == email {
                    assert(users[users.len() - 1] == users.last());
                }
            },
        }
    }
}

/// What a registration comes to, given whether the email is already in use:
/// both faults are reported together where both are present.
pub open spec fn registration_verdict(taken: bool, password: Seq<char>, confirm: Seq<char>) -> Result<
    (),
    Error,
> {
    if taken && password != confirm {
        Err(Error::EmailTakenAndPasswordMismatch)
    } else if taken {
        Err(Error::EmailTaken)
    } else if password != confirm {
        Err(Error::PasswordMismatch)
    } else {
        Ok(())
    }
}

/// Judges a registration before anything is written. The email's uniqueness
/// and the two passwords are checked independently of each other.
pub fn registration_outcome(taken: bool, password: &str, confirm_password: &str) -> (r: Result<
    (),
    Error,
>)
    ensures
        r == registration_verdict(taken, password@, confirm_password@),
        taken && password@ != confirm_password@ ==> r == Err::<(), Error>(
            Error::EmailTakenAndPasswordMismatch,
        ),
{
    match (taken, compare_password(password, confirm_password)) {
        (true, false) => Err(Error::EmailTakenAndPasswordMismatch),
        (false, false) => Err(Error::PasswordMismatch),
        (true, true) => Err(Error::EmailTaken),
        (false, true) => Ok(()),
    }
}

/// What a login comes to, given the account found under the email, if any.
pub open spec fn login_verdict(found: Option<UserView>, password: Seq<char>) -> Result<
    UserView,
    Error,
> {
    match found {
        None => Err(Error::UserNotFound),
        Some(u) => if u.password == password {
            Ok(u)
        } else {
            Err(Error::WrongPassword)
        },
    }
}

/// The view of a login's result.
pub open spec fn login_result_view(r: Result<User, Error>) -> Result<UserView, Error> {
    match r {
        Ok(u) => Ok(u@),
        Err(e) => Err(e),
    }
}

/// Judges a login against the account that was found under the email.
pub fn check_credentials(found: Option<User>, password: &str) -> (r: Result<User, Error>)
    ensures
        login_result_view(r) == login_verdict(
            match found {
                Some(u) => Some(u@),
                None => None,
            },
            password@,
        ),
{
    match found {
        None => Err(Error::UserNotFound),
        Some(user) => {
            if compare_password(user.password.as_str(), password) {
                Ok(user)
            } else {
                Err(Error::WrongPassword)
            }
        },
    }
}

/// The accounts are numbered from 1 in the order of their registration, and
/// no two of them share an email.
pub open spec fn accounts_valid(users: Seq<UserView>) -> bool {
    &&& users.len() < i64::MAX
    &&& forall|i: int| 0 <= i < users.len() ==> (#[trigger] users[i]).id == i + 1
    &&& forall|i: int, j: int|
        0 <= i < j < users.len() ==> (#[trigger] users[i]).email != (#[trigger] users[j]).email
}

/// The credential store.
pub struct LoginManager {
    users: Vec<User>,
}

impl View for LoginManager {
    type V = Seq<UserView>;

    closed spec fn view(&self) -> Seq<UserView> {
        self.users@.map_values(|u: User| u@)
    }
}

impl LoginManager {
    /// The store's invariant.
    pub open spec fn wf(&self) -> bool {
        accounts_valid(self@)
    }

    /// A store without accounts.
    pub fn new() -> (r: Self)
        ensures
            r@ == Seq::<UserView>::empty(),
            r.wf(),
    {
        let r = LoginManager { users: Vec::new() };
        assert(r@ =~= Seq::<UserView>::empty());
        r
    }

    /// The account registered under `email`, if there is one.
    pub fn find_by_email(&self, email: &str) -> (r: Option<User>)
        ensures
            match r {
                Some(u) => Some(u@),
                None => None,
            } == lookup_email(self@, email@),
    {
        let mut i: usize = 0;
        while i < self.users.len()
            invariant
                i <= self.users.len(),
                lookup_email(self@.take(i as int), email@) is None,
            decreases self.users.len() - i,
        {
            proof {
                assert(self@.take(i + 1).drop_last() =~= self@.take(i as int));
                assert(self@.take(i + 1).last() == self.users@[i as int]@);
            }
            if compare_password(self.users[i].email.as_str(), email) {
                proof {
                    lemma_lookup_found_in_prefix(self@, email@, i + 1);
                }
                return Some(self.users[i].clone());
            }
            i = i + 1;
        }
        proof {
            assert(self@.take(i as int) =~= self@);
        }
        None
    }

    /// The account with the given number, if there is one.
    pub fn find_by_id(&self, id: i64) -> (r: Option<User>)
        requires
            self.wf(),
        ensures
            match r {
                Some(u) => 1 <= id <= self@.len() && u@ == self@[id - 1],
                None => !(1 <= id <= self@.len()),
            },
    {
        if id >= 1 && (id as u64) <= (self.users.len() as u64) {
            Some(self.users[(id - 1) as usize].clone())
        } else {
            None
        }
    }

    /// Authenticates `email` with `password`: the account's record where both
    /// are right, `UserNotFound` where no account has the email, and
    /// `WrongPassword` where the account's credential is another.
    pub fn get_user(&self, email: &str, password: &str) -> (r: Result<User, Error>)
        ensures
            login_result_view(r) == login_verdict(lookup_email(self@, email@), password@),
    {
        check_credentials(self.find_by_email(email), password)
    }

    /// Registers an account. The store changes only on success, by one
    /// account at its end, numbered one past the last.
    pub fn new_user(&mut self, email: &str, password: &str, confirm_password: &str) -> (r: Result<
        (),
        Error,
    >)
        requires
            old(self).wf(),
        ensures
            final(self).wf(),
            r == match registration_verdict(
                email_taken(old(self)@, email@),
                password@,
                confirm_password@,
            ) {
                Ok(()) => if old(self)@.len() + 1 < i64::MAX {
                    Ok(())
                } else {
                    Err(Error::DatabaseError(StorageError::Unavailable))
                },
                Err(e) => Err(e),
            },
            r is Ok ==> final(self)@ == old(self)@.push(
                UserView {
                    id: (old(self)@.len() + 1) as i64,
                    email: email@,
                    password: password@,
                },
            ),
            r is Err ==> final(self)@ == old(self)@,
    {
        let taken: bool = self.find_by_email(email).is_some();
        proof {
            lemma_lookup_email(self@, email@);
        }
        match registration_outcome(taken, password, confirm_password) {
            Err(e) => Err(e),
            Ok(()) => {
                let n: usize = self.users.len();
                if n as u64 + 1 >= i64::MAX as u64 {
                    return Err(Error::from(StorageError::Unavailable));
                }
                let user = User {
                    id: n as i64 + 1,
                    email: String::from_str(email),
                    password: String::from_str(password),
                };
                self.users.push(user);
                proof {
                    assert(self@ =~= old(self)@.push(user@));
                    assert forall|i: int, j: int| 0 <= i < j < self@.len() implies (
                    #[trigger] self@[i]).email != (#[trigger] self@[j]).email by {
                        if j == n {
                            assert(old(self)@[i].email != email@);
                        } else {
                            assert(old(self)@[i].email != old(self)@[j].email);
                        }
                    }
                }
                Ok(())
            },
        }
    }
}

/// An account found at the end of a prefix is the one found in the whole,
/// where nothing before it has the email.
pub proof fn lemma_lookup_found_in_prefix(users: Seq<UserView>, email: Seq<char>, k: int)
    requires
        1 <= k <= users.len(),
        lookup_email(users.take(k - 1), email) is None,
        users[k - 1].email == email,
    ensures
        lookup_email(users, email) == Some(users[k - 1]),
    decreases users.len() - k,
{
    assert(users.take(k).drop_last() =~= users.take(k - 1));
    assert(users.take(k).last() == users[k - 1]);
    lemma_lookup_prefix_kept(users, email, k);
}

/// What is found in a prefix is found in the whole.
pub proof fn lemma_lookup_prefix_kept(users: Seq<UserView>, email: Seq<char>, k: int)
    requires
        0 <= k <= users.len(),
        lookup_email(users.take(k), email) is Some,
    ensures
        lookup_email(users, email) == lookup_email(users.take(k), email),
    decreases users.len() - k,
{
    if k == users.len() {
        assert(users.take(k) =~= users);
    } else {
        assert(users.take(k + 1).drop_last() =~= users.take(k));
        lemma_lookup_prefix_kept(users, email, k + 1);
    }
}

} // verus!
