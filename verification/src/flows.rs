//! The decisions of a Reddit login and of a token refresh, one exchange at a
//! time: each step takes what the last request brought back and says which
//! request comes next, or how the whole exchange ended. Sending the requests
//! is left to the caller.

use vstd::prelude::*;
use vstd::utf8::encode_utf8;

use crate::models::Token;
use crate::reddit::{expiry_or_zero, RedditManager, REDDIT_URL};
use crate::response::{
    csrf_readable, csrf_token_of, is_success, jwt_cookie, session_cookie, set_cookies_are_text,
    HeaderLine,
};
use crate::response::{extract_csrf_token, login_form, read_jwt_cookie, read_session_cookie, status_is_success};

verus! {

/// The text of `text`, when there is one, has the bytes `bytes`; there is
/// text exactly when there are bytes.
pub open spec fn holds_bytes(text: Option<String>, bytes: Option<Seq<u8>>) -> bool {
    match bytes {
        Some(b) => text matches Some(t) && encode_utf8(t@) == b,
        None => text is None,
    }
}

/// The text of `text`, or the empty text where there is none.
pub open spec fn text_or_empty(text: Option<String>) -> Seq<char> {
    match text {
        Some(t) => t@,
        None => Seq::empty(),
    }
}

/// How far a login has come.
pub enum LoginStage {
    /// Nothing has been sent yet.
    Start,
    /// The front page has been requested.
    AwaitHome,
    /// The login page has been requested.
    AwaitLoginPage,
    /// The login form has been submitted.
    AwaitLoginResult,
    /// Logged in; the front page has been requested again for the JWT.
    AwaitTokenPage { reddit_session: Option<String> },
    /// The login is over.
    Finished,
}

/// A login of one account, between its requests.
pub struct LoginFlow {
    pub username: String,
    pub password: String,
    pub stage: LoginStage,
}

/// What the last request of a login brought back.
pub enum LoginEvent {
    /// The login is to begin.
    Started,
    /// The front page answered with this status.
    HomeLoaded { status: u16 },
    /// The login page, as text.
    LoginPageLoaded { page: String },
    /// The login form was answered with this status and these headers.
    LoginAnswered { status: u16, headers: Vec<HeaderLine> },
    /// The front page, requested once logged in, answered with these headers.
    TokenPageLoaded { headers: Vec<HeaderLine> },
}

/// Why a login failed.
#[derive(PartialEq, Eq, Structural, Debug)]
pub enum LoginError {
    /// The front page answered with this status, not a success.
    HomeRequestFailed(u16),
    /// The login form was answered with this status, not a success.
    LoginRejected(u16),
}

/// What a login does next.
pub enum LoginAction {
    /// Request the front page.
    FetchHome,
    /// Request the login page.
    FetchLoginPage,
    /// Submit the login form with these fields.
    SubmitLogin { form: Vec<(&'static str, String)> },
    /// Request the front page again, with the session that was set.
    FetchTokenPage,
    /// Give up with this error.
    Fail(LoginError),
    /// The login is over: the two cookies, each empty where it was not set,
    /// and whether each was set.
    Finish { token: Token, session_found: bool, jwt_found: bool },
}

impl LoginFlow {
    /// A login of the account with this name and password, not yet begun.
    pub fn new(username: String, password: String) -> (flow: Self)
        ensures
            flow.username == username,
            flow.password == password,
            flow.stage is Start,
    {
        LoginFlow { username, password, stage: LoginStage::Start }
    }

    /// The event is the answer that the login waits for, and can be read:
    /// a login page can be read from its CSRF token on, and the cookies of a
    /// successful answer are text.
    pub open spec fn accepts(&self, event: &LoginEvent) -> bool {
        match (self.stage, *event) {
            (LoginStage::Start, LoginEvent::Started) => true,
            (LoginStage::AwaitHome, LoginEvent::HomeLoaded { .. }) => true,
            (LoginStage::AwaitLoginPage, LoginEvent::LoginPageLoaded { page }) => csrf_readable(
                page@,
            ),
            (LoginStage::AwaitLoginResult, LoginEvent::LoginAnswered { status, headers }) => {
                is_success(status) ==> set_cookies_are_text(headers@)
            },
            (LoginStage::AwaitTokenPage { .. }, LoginEvent::TokenPageLoaded { headers }) => {
                set_cookies_are_text(headers@)
            },
            _ => false,
        }
    }

    /// Whether the login waits for this event and can read it.
    pub fn can_accept(&self, event: &LoginEvent) -> (accepted: bool)
        ensures
            accepted == self.accepts(event),
    {
        match (&self.stage, event) {
            (LoginStage::Start, LoginEvent::Started) => true,
            (LoginStage::AwaitHome, LoginEvent::HomeLoaded { .. }) => true,
            (LoginStage::AwaitLoginPage, LoginEvent::LoginPageLoaded { page }) => {
                crate::response::csrf_token_readable(page.as_str())
            },
            (LoginStage::AwaitLoginResult, LoginEvent::LoginAnswered { status, headers }) => {
                !status_is_success(*status) || crate::response::set_cookie_headers_are_text(
                    headers,
                )
            },
            (LoginStage::AwaitTokenPage { .. }, LoginEvent::TokenPageLoaded { headers }) => {
                crate::response::set_cookie_headers_are_text(headers)
            },
            _ => false,
        }
    }

    /// Takes what the last request brought back and says what comes next.
    /// The front page is requested, then the login page; the form is
    /// submitted with the page's CSRF token; then the front page is requested
    /// again for the JWT. A request that does not succeed ends the login with
    /// its status; a cookie that is not set is left empty.
    pub fn step(&mut self, event: LoginEvent) -> (action: LoginAction)
        requires
            old(self).accepts(&event),
        ensures
            final(self).username == old(self).username,
            final(self).password == old(self).password,
            match (old(self).stage, event) {
                (LoginStage::Start, LoginEvent::Started) => {
                    &&& final(self).stage is AwaitHome
                    &&& action is FetchHome
                },
                (LoginStage::AwaitHome, LoginEvent::HomeLoaded { status }) => if is_success(
                    status,
                ) {
                    &&& final(self).stage is AwaitLoginPage
                    &&& action is FetchLoginPage
                } else {
                    &&& final(self).stage is Finished
                    &&& action == LoginAction::Fail(LoginError::HomeRequestFailed(status))
                },
                (LoginStage::AwaitLoginPage, LoginEvent::LoginPageLoaded { page }) => {
                    &&& final(self).stage is AwaitLoginResult
                    &&& action matches LoginAction::SubmitLogin { form }
                    &&& form@.len() == 4
                    &&& form@[0].0@ == "username"@ && form@[0].1@ == old(self).username@
                    &&& form@[1].0@ == "password"@ && form@[1].1@ == old(self).password@
                    &&& form@[2].0@ == "dest"@ && form@[2].1@ == REDDIT_URL@
                    &&& form@[3].0@ == "csrf_token"@
                    &&& encode_utf8(form@[3].1@) == csrf_token_of(encode_utf8(page@))
                },
                (LoginStage::AwaitLoginResult, LoginEvent::LoginAnswered { status, headers }) => {
                    if is_success(status) {
                        &&& final(self).stage matches LoginStage::AwaitTokenPage { reddit_session }
                        &&& holds_bytes(reddit_session, session_cookie(headers@))
                        &&& action is FetchTokenPage
                    } else {
                        &&& final(self).stage is Finished
                        &&& action == LoginAction::Fail(LoginError::LoginRejected(status))
                    }
                },
                (
                    LoginStage::AwaitTokenPage { reddit_session },
                    LoginEvent::TokenPageLoaded { headers },
                ) => {
                    &&& final(self).stage is Finished
                    &&& action matches LoginAction::Finish { token, session_found, jwt_found }
                    &&& token.reddit_session@ == text_or_empty(reddit_session)
                    &&& session_found == reddit_session is Some
                    &&& jwt_found == jwt_cookie(headers@) is Some
                    &&& match jwt_cookie(headers@) {
                        Some(v) => encode_utf8(token.jwt_token@) == v,
                        None => token.jwt_token@ == Seq::<char>::empty(),
                    }
                },
                _ => false,
            },
    {
        let mut stage = LoginStage::Finished;
        std::mem::swap(&mut stage, &mut self.stage);
        match (stage, event) {
            (LoginStage::Start, LoginEvent::Started) => {
                self.stage = LoginStage::AwaitHome;
                LoginAction::FetchHome
            },
            (LoginStage::AwaitHome, LoginEvent::HomeLoaded { status }) => {
                if status_is_success(status) {
                    self.stage = LoginStage::AwaitLoginPage;
                    LoginAction::FetchLoginPage
                } else {
                    LoginAction::Fail(LoginError::HomeRequestFailed(status))
                }
            },
            (LoginStage::AwaitLoginPage, LoginEvent::LoginPageLoaded { page }) => {
                let csrf_token = extract_csrf_token(page.as_str());
                let form = login_form(&self.username, &self.password, csrf_token);
                self.stage = LoginStage::AwaitLoginResult;
                LoginAction::SubmitLogin { form }
            },
            (LoginStage::AwaitLoginResult, LoginEvent::LoginAnswered { status, headers }) => {
                if status_is_success(status) {
                    let reddit_session = read_session_cookie(&headers);
                    self.stage = LoginStage::AwaitTokenPage { reddit_session };
                    LoginAction::FetchTokenPage
                } else {
                    LoginAction::Fail(LoginError::LoginRejected(status))
                }
            },
            (LoginStage::AwaitTokenPage { reddit_session }, LoginEvent::TokenPageLoaded { headers }) => {
                let jwt = read_jwt_cookie(&headers);
                let jwt_found = jwt.is_some();
                let session_found = reddit_session.is_some();
                let jwt_token = match jwt {
                    Some(t) => t,
                    None => String::new(),
                };
                let session = match reddit_session {
                    Some(s) => s,
                    None => String::new(),
                };
                LoginAction::Finish {
                    token: Token::new(session, jwt_token),
                    session_found,
                    jwt_found,
                }
            },
            _ => {
                assert(false);
                LoginAction::FetchHome
            },
        }
    }
}

/// How far a token refresh has come.
pub enum RefreshStage {
    /// Nothing has been decided yet.
    Start,
    /// The expiry of the JWT is being checked.
    AwaitExpiryCheck,
    /// The front page has been requested with the session cookie.
    AwaitTokenPage,
    /// The refresh is over.
    Finished,
}

/// A refresh of one token, between its requests.
pub struct RefreshFlow {
    pub token: Token,
    pub stage: RefreshStage,
}

/// What the last request of a refresh brought back.
pub enum RefreshEvent {
    /// The refresh is to begin.
    Started,
    /// Whether the moment that the JWT gives has passed.
    ExpiryChecked { expired: bool },
    /// The front page answered with these headers.
    TokenPageLoaded { headers: Vec<HeaderLine> },
}

/// What a refresh does next.
pub enum RefreshAction {
    /// Check whether this moment, in seconds since the Unix epoch, has passed.
    CheckExpiry { expires_at: i64 },
    /// Request the front page with this `set-cookie` header value.
    FetchTokenPage { session_cookie: String },
    /// The refresh is over and the token stays as it was.
    Keep { token: Token },
    /// The refresh is over with this token, whose JWT is empty where none was
    /// set, and whether one was set.
    Refreshed { token: Token, jwt_found: bool },
}

impl RefreshFlow {
    /// A refresh of this token, not yet begun.
    pub fn new(token: Token) -> (flow: Self)
        ensures
            flow.token == token,
            flow.stage is Start,
    {
        RefreshFlow { token, stage: RefreshStage::Start }
    }

    /// The event is the answer that the refresh waits for, and can be read.
    pub open spec fn accepts(&self, event: &RefreshEvent) -> bool {
        match (self.stage, *event) {
            (RefreshStage::Start, RefreshEvent::Started) => true,
            (RefreshStage::AwaitExpiryCheck, RefreshEvent::ExpiryChecked { .. }) => true,
            (RefreshStage::AwaitTokenPage, RefreshEvent::TokenPageLoaded { headers }) => {
                set_cookies_are_text(headers@)
            },
            _ => false,
        }
    }

    /// Whether the refresh waits for this event and can read it.
    pub fn can_accept(&self, event: &RefreshEvent) -> (accepted: bool)
        ensures
            accepted == self.accepts(event),
    {
        match (&self.stage, event) {
            (RefreshStage::Start, RefreshEvent::Started) => true,
            (RefreshStage::AwaitExpiryCheck, RefreshEvent::ExpiryChecked { .. }) => true,
            (RefreshStage::AwaitTokenPage, RefreshEvent::TokenPageLoaded { headers }) => {
                crate::response::set_cookie_headers_are_text(headers)
            },
            _ => false,
        }
    }

    /// Takes what the last request brought back and says what comes next.
    /// The expiry of the JWT is checked first (0 where it cannot be read);
    /// a token whose expiry has passed is kept as it is; otherwise the front
    /// page is requested with the session cookie and the JWT it sets replaces
    /// the old one. The session is never changed.
    pub fn step(&mut self, event: RefreshEvent) -> (action: RefreshAction)
        requires
            old(self).accepts(&event),
        ensures
            final(self).token == old(self).token,
            match (old(self).stage, event) {
                (RefreshStage::Start, RefreshEvent::Started) => {
                    &&& final(self).stage is AwaitExpiryCheck
                    &&& action == RefreshAction::CheckExpiry {
                        expires_at: expiry_or_zero(encode_utf8(old(self).token.jwt_token@)),
                    }
                },
                (RefreshStage::AwaitExpiryCheck, RefreshEvent::ExpiryChecked { expired }) => {
                    if expired {
                        &&& final(self).stage is Finished
                        &&& action == RefreshAction::Keep { token: old(self).token }
                    } else {
                        &&& final(self).stage is AwaitTokenPage
                        &&& action matches RefreshAction::FetchTokenPage { session_cookie }
                        &&& session_cookie@ == "reddit_session="@
                            + old(self).token.reddit_session@
                    }
                },
                (RefreshStage::AwaitTokenPage, RefreshEvent::TokenPageLoaded { headers }) => {
                    &&& final(self).stage is Finished
                    &&& action matches RefreshAction::Refreshed { token, jwt_found }
                    &&& token.reddit_session == old(self).token.reddit_session
                    &&& jwt_found == jwt_cookie(headers@) is Some
                    &&& match jwt_cookie(headers@) {
                        Some(v) => encode_utf8(token.jwt_token@) == v,
                        None => token.jwt_token@ == Seq::<char>::empty(),
                    }
                },
                _ => false,
            },
    {
        match (&self.stage, event) {
            (RefreshStage::Start, RefreshEvent::Started) => {
                let expires_at = match RedditManager::decode_jwt_and_get_expiry(
                    self.token.jwt_token.as_str(),
                ) {
                    Ok(timestamp) => timestamp,
                    Err(_) => 0,
                };
                self.stage = RefreshStage::AwaitExpiryCheck;
                RefreshAction::CheckExpiry { expires_at }
            },
            (RefreshStage::AwaitExpiryCheck, RefreshEvent::ExpiryChecked { expired }) => {
                if expired {
                    self.stage = RefreshStage::Finished;
                    RefreshAction::Keep { token: self.token.clone() }
                } else {
                    let mut session_cookie = "reddit_session=".to_owned();
                    session_cookie.append(self.token.reddit_session.as_str());
                    self.stage = RefreshStage::AwaitTokenPage;
                    RefreshAction::FetchTokenPage { session_cookie }
                }
            },
            (RefreshStage::AwaitTokenPage, RefreshEvent::TokenPageLoaded { headers }) => {
                let jwt = read_jwt_cookie(&headers);
                let jwt_found = jwt.is_some();
                let jwt_token = match jwt {
                    Some(t) => t,
                    None => String::new(),
                };
                self.stage = RefreshStage::Finished;
                RefreshAction::Refreshed {
                    token: Token::new(self.token.reddit_session.clone(), jwt_token),
                    jwt_found,
                }
            },
            _ => {
                assert(false);
                RefreshAction::Keep { token: self.token.clone() }
            },
        }
    }
}

} // verus!
