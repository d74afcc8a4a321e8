//! The session gate: what stands between a request and the rooms.

use vstd::prelude::*;
use vstd::string::*;
use crate::manager::login_manager::LoginManager;
use crate::manager::session_manager::{resolve, Error, SessionId, SessionManager};
use crate::manager::{User, UserView};
use crate::text::same_text;

verus! {

/// The name of the cookie that carries the session token.
pub const SESSION_ID_KEY: &'static str = "session_id";

/// Where a request without a valid session is sent.
pub const LOGIN_PATH: &'static str = "/login";

/// The one other path that is open to everybody.
pub const REGISTER_PATH: &'static str = "/register";

/// What the session gate decides of a request.
#[derive(Debug)]
pub enum GateOutcome {
    /// The request is answered with a redirect to the given path and goes
    /// no further.
    Redirect(String),
    /// The request goes on to its handler, with the user it belongs to where
    /// the path asked for one.
    Proceed(Option<User>),
}

pub enum GateOutcomeView {
    Redirect(Seq<char>),
    Proceed(Option<UserView>),
}

impl View for GateOutcome {
    type V = GateOutcomeView;

    open spec fn view(&self) -> GateOutcomeView {
        match self {
            GateOutcome::Redirect(url) => GateOutcomeView::Redirect(url@),
            GateOutcome::Proceed(Some(u)) => GateOutcomeView::Proceed(Some(u@)),
            GateOutcome::Proceed(None) => GateOutcomeView::Proceed(None),
        }
    }
}

/// Every path but those of login and registration asks for a session.
pub open spec fn protected(path: Seq<char>) -> bool {
    path != LOGIN_PATH@ && path != REGISTER_PATH@
}

/// Whether a request to `path` needs a session.
pub fn is_protected(path: &str) -> (r: bool)
    ensures
        r == protected(path@),
{
    !same_text(path, LOGIN_PATH) && !same_text(path, REGISTER_PATH)
}

/// The session gate's rule. `session` is what the session store made of the
/// request's cookie, `None` where the request carried no cookie.
pub open spec fn gate_rule(path: Seq<char>, session: Option<Result<UserView, Error>>) -> GateOutcomeView {
    if !protected(path) {
        GateOutcomeView::Proceed(None)
    } else {
        match session {
            Some(Ok(user)) => GateOutcomeView::Proceed(Some(user)),
            _ => GateOutcomeView::Redirect(LOGIN_PATH@),
        }
    }
}

/// The view of what the session store made of a cookie.
pub open spec fn session_view(session: Option<Result<User, Error>>) -> Option<Result<UserView, Error>> {
    match session {
        Some(Ok(u)) => Some(Ok(u@)),
        Some(Err(e)) => Some(Err(e)),
        None => None,
    }
}

/// Decides a request from its path and from what the session store made of
/// its cookie. On a protected path only a resolved session passes, and it
/// passes with its user; anything else is redirected to the login page. The
/// gate does not look at rooms or membership.
pub fn gate_decision(path: &str, session: Option<Result<User, Error>>) -> (outcome: GateOutcome)
    ensures
        outcome@ == gate_rule(path@, session_view(session)),
        protected(path@) && !(session matches Some(Ok(_))) ==> outcome@ == GateOutcomeView::Redirect(
            LOGIN_PATH@,
        ),
{
    if !is_protected(path) {
        return GateOutcome::Proceed(None);
    }
    match session {
        Some(Ok(user)) => GateOutcome::Proceed(Some(user)),
        _ => GateOutcome::Redirect(String::from_str(LOGIN_PATH)),
    }
}

/// What the session store makes of a request's cookie.
pub open spec fn cookie_session(
    cookie: Option<Seq<char>>,
    sessions: Seq<(Seq<char>, i64)>,
    users: Seq<UserView>,
) -> Option<Result<UserView, Error>> {
    match cookie {
        Some(token) => Some(resolve(sessions, users, token)),
        None => None,
    }
}

/// The session gate in front of every handler: resolves the request's session cookie
/// against the session store and decides. A request to a protected path
/// without a cookie, or with one that the store does not resolve, is
/// redirected to the login page and reaches nothing else.
pub fn authenticate_session_id(
    path: &str,
    cookie: Option<&str>,
    sessions: &SessionManager,
    users: &LoginManager,
) -> (outcome: GateOutcome)
    requires
        users.wf(),
    ensures
        outcome@ == gate_rule(
            path@,
            cookie_session(
                match cookie {
                    Some(c) => Some(c@),
                    None => None,
                },
                sessions@,
                users@,
            ),
        ),
        protected(path@) && (cookie is None || resolve(sessions@, users@, cookie.unwrap()@) is Err)
            ==> outcome@ == GateOutcomeView::Redirect(LOGIN_PATH@),
        outcome matches GateOutcome::Proceed(Some(user)) ==> cookie is Some && resolve(
            sessions@,
            users@,
            cookie.unwrap()@,
        ) == Ok::<UserView, Error>(user@),
{
    if !is_protected(path) {
        return GateOutcome::Proceed(None);
    }
    let session = match cookie {
        Some(token) => Some(sessions.get_user(SessionId(String::from_str(token)), users)),
        None => None,
    };
    gate_decision(path, session)
}

} // verus!
