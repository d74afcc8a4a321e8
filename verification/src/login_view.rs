//! What the login and registration pages show, and what their forms lead to.

use vstd::prelude::*;
use vstd::string::*;
use crate::gate::{LOGIN_PATH, SESSION_ID_KEY};
use crate::manager::login_manager::{
    email_taken, login_verdict, lookup_email, registration_verdict, Error, LoginManager,
};
use crate::manager::session_manager::{
    collision_possible, issue_with, well_formed_token, SessionId, SessionManager, SESSION_ID_LENGTH,
};
use crate::manager::{StorageError, UserView};

verus! {

/// What the login form sends.
#[derive(Debug)]
pub struct LoginForm {
    pub email: String,
    pub password: String,
}

/// The outcome shown under the login form.
#[derive(Debug, Clone, Copy, PartialEq, Eq, Structural)]
pub struct LoginAttempt {
    pub success: bool,
}

/// The login page.
#[derive(Debug, Clone, Copy, PartialEq, Eq, Structural)]
pub struct LoginTemplate {}

/// The registration form as it is shown: the email to put back into its
/// field, and which complaints to show.
#[derive(Debug)]
pub struct RegisterWidget {
    pub email_cache: String,
    pub email_taken: bool,
    pub mismatch_passwords: bool,
}

pub struct RegisterWidgetView {
    pub email_cache: Seq<char>,
    pub email_taken: bool,
    pub mismatch_passwords: bool,
}

impl View for RegisterWidget {
    type V = RegisterWidgetView;

    open spec fn view(&self) -> RegisterWidgetView {
        RegisterWidgetView {
            email_cache: self.email_cache@,
            email_taken: self.email_taken,
            mismatch_passwords: self.mismatch_passwords,
        }
    }
}

impl Default for RegisterWidget {
    /// The empty form, without complaints.
    fn default() -> (r: Self)
        ensures
            r@ == (RegisterWidgetView {
                email_cache: Seq::empty(),
                email_taken: false,
                mismatch_passwords: false,
            }),
    {
        Self { email_cache: String::new(), email_taken: false, mismatch_passwords: false }
    }
}

/// What the registration form sends.
#[derive(Debug)]
pub struct RegisterUserForm {
    pub email: String,
    pub password: String,
    pub confirm_password: String,
}

/// The login page.
pub fn login() -> (page: LoginTemplate) {
    LoginTemplate {  }
}

/// The registration page: the empty form.
pub fn register() -> (page: RegisterWidget)
    ensures
        page@ == (RegisterWidgetView {
            email_cache: Seq::empty(),
            email_taken: false,
            mismatch_passwords: false,
        }),
{
    RegisterWidget::default()
}

/// The answer to a login.
#[derive(Debug)]
pub enum LoginResponse {
    /// The login went through: the client is sent to `redirect` and is to
    /// keep `cookie`.
    LoggedIn { redirect: String, cookie: String },
    /// The login did not go through; the attempt is shown as failed.
    Refused(LoginAttempt),
}

pub enum LoginResponseView {
    LoggedIn { redirect: Seq<char>, cookie: Seq<char> },
    Refused(LoginAttempt),
}

impl View for LoginResponse {
    type V = LoginResponseView;

    open spec fn view(&self) -> LoginResponseView {
        match self {
            LoginResponse::LoggedIn { redirect, cookie } => LoginResponseView::LoggedIn {
                redirect: redirect@,
                cookie: cookie@,
            },
            LoginResponse::Refused(a) => LoginResponseView::Refused(*a),
        }
    }
}

/// The cookie that carries `token`: the session key, `=`, and the token.
pub open spec fn cookie_text(token: Seq<char>) -> Seq<char> {
    SESSION_ID_KEY@ + "="@ + token
}

/// The cookie that the login flow sets for a session.
pub fn session_cookie(sid: &SessionId) -> (cookie: String)
    ensures
        cookie@ == cookie_text(sid@),
{
    let mut cookie = String::from_str(SESSION_ID_KEY);
    cookie.append("=");
    cookie.append(sid.0.as_str());
    cookie
}

/// The answer to a login, given the session that was issued for it, if one was.
pub open spec fn login_answer(session: Option<Seq<char>>) -> LoginResponseView {
    match session {
        Some(token) => LoginResponseView::LoggedIn { redirect: "/"@, cookie: cookie_text(token) },
        None => LoginResponseView::Refused(LoginAttempt { success: false }),
    }
}

/// Answers a login. `session` is the token issued for the user, or `None`
/// where the credentials were turned down or no session could be stored.
pub fn login_response(session: Option<SessionId>) -> (response: LoginResponse)
    ensures
        response@ == login_answer(
            match session {
                Some(sid) => Some(sid@),
                None => None,
            },
        ),
{
    match session {
        Some(sid) => LoginResponse::LoggedIn {
            redirect: String::from_str("/"),
            cookie: session_cookie(&sid),
        },
        None => LoginResponse::Refused(LoginAttempt { success: false }),
    }
}

/// What a login comes to once `token` has been drawn for its session: the
/// answer and the sessions afterwards. Wrong credentials are refused and
/// leave the sessions as they were; so does a token that is bound already;
/// otherwise the user is logged in with the cookie that carries `token`,
/// and the session is the one new entry.
pub open spec fn login_outcome(
    users: Seq<UserView>,
    sessions: Seq<(Seq<char>, i64)>,
    email: Seq<char>,
    password: Seq<char>,
    token: Seq<char>,
) -> (LoginResponseView, Seq<(Seq<char>, i64)>) {
    match login_verdict(lookup_email(users, email), password) {
        Ok(user) => (
            login_answer(issue_with(sessions, user.id, token).0),
            issue_with(sessions, user.id, token).1,
        ),
        Err(_) => (login_answer(None), sessions),
    }
}

/// Handles the login form: authenticates, issues a session, and answers.
/// Whatever token was drawn for the session, it is well formed and the
/// answer and the session store are what `login_outcome` says of it. So
/// wrong credentials are always refused, and right ones are refused only
/// where the drawn token was bound already, which cannot happen while no
/// well formed token is bound.
pub fn try_login(credentials: LoginForm, users: &LoginManager, sessions: &mut SessionManager) -> (response:
    LoginResponse)
    requires
        old(sessions).wf(),
    ensures
        final(sessions).wf(),
        exists|token: Seq<char>|
            well_formed_token(token) && #[trigger] login_outcome(
                users@,
                old(sessions)@,
                credentials.email@,
                credentials.password@,
                token,
            ) == (response@, final(sessions)@),
        login_verdict(lookup_email(users@, credentials.email@), credentials.password@) is Err
            ==> response@ == login_answer(None) && final(sessions)@ == old(sessions)@,
        login_verdict(lookup_email(users@, credentials.email@), credentials.password@) is Ok
            && !collision_possible(old(sessions)@) ==> response is LoggedIn,
{
    let LoginForm { email, password } = credentials;
    match users.get_user(email.as_str(), password.as_str()) {
        Ok(user) => {
            let issued = sessions.generate_session_id_for(&user);
            let ghost token = choose|token: Seq<char>|
                well_formed_token(token) && #[trigger] issue_with(old(sessions)@, user.id, token)
                    == (
                    match issued {
                        Ok(sid) => Some(sid@),
                        Err(_) => None,
                    },
                    sessions@,
                );
            let response = match issued {
                Ok(sid) => login_response(Some(sid)),
                Err(_) => login_response(None),
            };
            proof {
                assert(login_outcome(users@, old(sessions)@, email@, password@, token) == (
                    response@,
                    sessions@,
                ));
            }
            response
        },
        Err(_) => {
            let response = login_response(None);
            proof {
                let token = Seq::new(SESSION_ID_LENGTH as nat, |i: int| 'a');
                assert(well_formed_token(token));
                assert(login_outcome(users@, old(sessions)@, email@, password@, token) == (
                    response@,
                    sessions@,
                ));
            }
            response
        },
    }
}

/// The answer to a registration.
#[derive(Debug)]
pub enum RegisterResponse {
    /// The account exists now; the client is sent to `redirect`.
    Registered { redirect: String },
    /// The form is shown again with its complaints.
    Rejected(RegisterWidget),
    /// The store failed. Nothing was registered, and nothing of the failure
    /// is shown.
    Failed,
}

pub enum RegisterResponseView {
    Registered { redirect: Seq<char> },
    Rejected(RegisterWidgetView),
    Failed,
}

impl View for RegisterResponse {
    type V = RegisterResponseView;

    open spec fn view(&self) -> RegisterResponseView {
        match self {
            RegisterResponse::Registered { redirect } => RegisterResponseView::Registered {
                redirect: redirect@,
            },
            RegisterResponse::Rejected(w) => RegisterResponseView::Rejected(w@),
            RegisterResponse::Failed => RegisterResponseView::Failed,
        }
    }
}

/// The answer to a registration, given what the credential store said.
pub open spec fn register_answer(outcome: Result<(), Error>, email: Seq<char>) -> RegisterResponseView {
    match outcome {
        Ok(()) => RegisterResponseView::Registered { redirect: LOGIN_PATH@ },
        Err(Error::EmailTaken) => RegisterResponseView::Rejected(
            RegisterWidgetView { email_cache: email, email_taken: true, mismatch_passwords: false },
        ),
        Err(Error::PasswordMismatch) => RegisterResponseView::Rejected(
            RegisterWidgetView { email_cache: email, email_taken: false, mismatch_passwords: true },
        ),
        Err(Error::EmailTakenAndPasswordMismatch) => RegisterResponseView::Rejected(
            RegisterWidgetView { email_cache: email, email_taken: true, mismatch_passwords: true },
        ),
        Err(_) => RegisterResponseView::Failed,
    }
}

/// Answers a registration from what the credential store said of it.
pub fn register_response(outcome: Result<(), Error>, email: String) -> (response: RegisterResponse)
    ensures
        response@ == register_answer(outcome, email@),
{
    match outcome {
        Ok(()) => RegisterResponse::Registered { redirect: String::from_str(LOGIN_PATH) },
        Err(Error::EmailTaken) => RegisterResponse::Rejected(
            RegisterWidget { email_cache: email, email_taken: true, mismatch_passwords: false },
        ),
        Err(Error::PasswordMismatch) => RegisterResponse::Rejected(
            RegisterWidget { email_cache: email, email_taken: false, mismatch_passwords: true },
        ),
        Err(Error::EmailTakenAndPasswordMismatch) => RegisterResponse::Rejected(
            RegisterWidget { email_cache: email, email_taken: true, mismatch_passwords: true },
        ),
        Err(_) => RegisterResponse::Failed,
    }
}

/// Handles the registration form: registers the account and answers.
pub fn try_register(form: RegisterUserForm, users: &mut LoginManager) -> (response: RegisterResponse)
    requires
        old(users).wf(),
    ensures
        final(users).wf(),
        response@ == register_answer(
            match registration_verdict(
                email_taken(old(users)@, form.email@),
                form.password@,
                form.confirm_password@,
            ) {
                Ok(()) => if old(users)@.len() + 1 < i64::MAX {
                    Ok(())
                } else {
                    Err(Error::DatabaseError(StorageError::Unavailable))
                },
                Err(e) => Err(e),
            },
            form.email@,
        ),
        response is Registered ==> final(users)@ == old(users)@.push(
            UserView {
                id: (old(users)@.len() + 1) as i64,
                email: form.email@,
                password: form.password@,
            },
        ),
        !(response is Registered) ==> final(users)@ == old(users)@,
{
    let RegisterUserForm { email, password, confirm_password } = form;
    let outcome = users.new_user(email.as_str(), password.as_str(), confirm_password.as_str());
    register_response(outcome, email)
}

} // verus!
