//! Logging in: three pages, one after the other.
//!
//! The first page gives the token that the login form has to carry, the
//! answer to the form tells whether the router took the login, and the third
//! page hands out the first session. This module decides what to send next
//! and how the exchange ends; sending is left to the caller.

use vstd::prelude::*;
use vstd::string::StringExecFns;
use crate::onu::context::{template_url_of, Context, ContextModel};
use crate::onu::error::{Malformed, OnuError, OnuErrorModel};
use crate::onu::session::{
    lemma_session_is_read, path_mark, session_in, token_mark, Method, Request, RequestModel,
    Session, SessionModel,
};
use crate::text::{
    chars_of, contains, find, lemma_contains, lemma_find_from, lemma_first_mark_quoted,
    lemma_replaced_nothing, matches_at, quoted, quoted_at, replace_all, replaced, second_piece,
    string_of, take_quoted, take_second_piece,
};

verus! {

/// What stands in front of the token on the first page.
pub open spec fn login_token_mark() -> Seq<char> {
    "getObj(\"Frm_Logintoken\").value = "@
}

/// The frame that only the page after a login holds.
pub open spec fn success_mark() -> Seq<char> {
    "<iframe width=\"808px\" height=\"67px\" src=\"top.gch\" name=\"topFrame\" scrolling=\"no\" frameborder=\"0\" id=\"topFrame\"></iframe>"@
}

/// What stands in front of the message on a page that turns a login down.
pub open spec fn message_mark() -> Seq<char> {
    "getObj(\"errmsg\").innerHTML = "@
}

/// The place in the script of the page where the message is cleared, not
/// set: it is not to be taken for the message.
pub open spec fn cleared_message() -> Seq<char> {
    "function SetDisabled()\n{\ngetObj(\"errmsg\").innerHTML"@
}

/// The same place, written so that `message_mark` does not stand in it.
pub open spec fn cleared_message_masked() -> Seq<char> {
    "function SetDisabled()\n{\ngetObj(\"errmsg\") .innerHTML"@
}

/// The token that the login form has to carry: the one that `page` gives
/// between quotation marks, or `1` where the page gives none. Nothing where
/// the page sets the token without quotation marks.
pub open spec fn login_token_in(page: Seq<char>) -> Option<Seq<char>> {
    quoted(
        match second_piece(page, login_token_mark()) {
            Some(after) => after,
            None => "\"1\""@,
        },
    )
}

/// The fields of the login form.
pub open spec fn login_form(token: Seq<char>, username: Seq<char>, password: Seq<char>) -> Seq<
    (Seq<char>, Seq<char>),
> {
    seq![
        ("freshnum"@, ""@),
        ("action"@, "login"@),
        ("Frm_Logintoken"@, token),
        ("Username"@, username),
        ("Password"@, password),
    ]
}

/// The router took the login: its answer holds the frame of the page after a
/// login, or nothing at all.
pub open spec fn login_accepted(reply: Seq<char>) -> bool {
    reply.len() == 0 || contains(reply, success_mark())
}

/// The message with which `reply` turns the login down: the one it sets
/// between quotation marks, or `login might failed` where it sets none.
/// Nothing where it sets one without quotation marks.
pub open spec fn rejection_message(reply: Seq<char>) -> Option<Seq<char>> {
    quoted(
        match second_piece(
            replaced(reply, cleared_message(), cleared_message_masked()),
            message_mark(),
        ) {
            Some(after) => after,
            None => "\"login might failed\""@,
        },
    )
}

/// The page that a login waits for.
#[derive(Debug, Clone, Copy, PartialEq, Eq)]
pub enum LoginStage {
    /// The first page, with the token for the form.
    BasePage,
    /// The answer to the login form.
    Reply,
    /// The page with the first session.
    Template,
}

/// A login under way.
#[derive(Debug, Clone, PartialEq, Eq)]
pub struct LoginExchange {
    /// The page that the login waits for.
    pub stage: LoginStage,
    /// The name to log in with.
    pub username: String,
    /// The password to log in with.
    pub password: String,
}

/// The model of a `LoginExchange`.
pub struct LoginExchangeModel {
    pub stage: LoginStage,
    pub username: Seq<char>,
    pub password: Seq<char>,
}

impl DeepView for LoginExchange {
    type V = LoginExchangeModel;

    open spec fn deep_view(&self) -> LoginExchangeModel {
        LoginExchangeModel {
            stage: self.stage,
            username: self.username@,
            password: self.password@,
        }
    }
}

/// What a login does after a page has come in.
#[derive(Debug, Clone, PartialEq, Eq)]
pub enum LoginStep {
    /// The request to send next; the page that answers it goes to the
    /// exchange given with it.
    Send(LoginExchange, Request),
    /// The login is through: the first session.
    Done(Session),
    /// The login has failed.
    Failed(OnuError),
}

/// The model of a `LoginStep`.
pub enum LoginStepModel {
    Send(LoginExchangeModel, RequestModel),
    Done(SessionModel),
    Failed(OnuErrorModel),
}

impl DeepView for LoginStep {
    type V = LoginStepModel;

    open spec fn deep_view(&self) -> LoginStepModel {
        match self {
            LoginStep::Send(exchange, request) => LoginStepModel::Send(
                exchange.deep_view(),
                request.deep_view(),
            ),
            LoginStep::Done(session) => LoginStepModel::Done(session.deep_view()),
            LoginStep::Failed(error) => LoginStepModel::Failed(error.deep_view()),
        }
    }
}

/// What a login at the router at `base_url` does when `page` comes in.
pub open spec fn login_step(
    exchange: LoginExchangeModel,
    base_url: Seq<char>,
    page: Seq<char>,
) -> LoginStepModel {
    match exchange.stage {
        LoginStage::BasePage => match login_token_in(page) {
            Some(token) => LoginStepModel::Send(
                LoginExchangeModel { stage: LoginStage::Reply, ..exchange },
                RequestModel {
                    method: Method::Post,
                    url: base_url,
                    form: Some(login_form(token, exchange.username, exchange.password)),
                },
            ),
            None => LoginStepModel::Failed(OnuErrorModel::Parse(Malformed::LoginToken)),
        },
        LoginStage::Reply => if login_accepted(page) {
            LoginStepModel::Send(
                LoginExchangeModel { stage: LoginStage::Template, ..exchange },
                RequestModel { method: Method::Get, url: template_url_of(base_url), form: None },
            )
        } else {
            match rejection_message(page) {
                Some(message) => LoginStepModel::Failed(OnuErrorModel::Authentication(message)),
                None => LoginStepModel::Failed(OnuErrorModel::Parse(Malformed::ErrorMessage)),
            }
        },
        LoginStage::Template => match session_in(page) {
            Some(session) => LoginStepModel::Done(session),
            None => LoginStepModel::Failed(OnuErrorModel::Parse(Malformed::Session)),
        },
    }
}

/// A login goes through on the three pages it expects. A first page that
/// sets the login token to `login_token`, an answer that holds the frame of
/// the page after a login, and a third page that hands out a session lead
/// from the login form with that token over the request for the third page
/// to that session.
pub proof fn lemma_login_goes_through(
    username: Seq<char>,
    password: Seq<char>,
    base_url: Seq<char>,
    base_page: Seq<char>,
    login_token_at: int,
    login_token: Seq<char>,
    reply: Seq<char>,
    frame_at: int,
    template: Seq<char>,
    token_at: int,
    token: Seq<char>,
    path_at: int,
    path: Seq<char>,
)
    requires
        matches_at(base_page, login_token_mark(), login_token_at),
        quoted_at(base_page, login_token_at + login_token_mark().len(), login_token),
        forall|i: int| 0 <= i < login_token.len() ==> login_token[i] != '"',
        forall|i: int| #[trigger]
            matches_at(base_page, login_token_mark(), i) ==> i == login_token_at || i
                >= login_token_at + login_token_mark().len() + login_token.len() + 2,
        matches_at(reply, success_mark(), frame_at),
        matches_at(template, token_mark(), token_at),
        quoted_at(template, token_at + token_mark().len(), token),
        forall|i: int| 0 <= i < token.len() ==> token[i] != '"',
        forall|i: int| #[trigger]
            matches_at(template, token_mark(), i) ==> i + token_mark().len() <= token_at || i
                == token_at,
        matches_at(template, path_mark(), path_at),
        quoted_at(template, path_at + path_mark().len(), path),
        forall|i: int| 0 <= i < path.len() ==> path[i] != '"',
        forall|i: int| #[trigger]
            matches_at(template, path_mark(), i) ==> i == path_at || i >= path_at
                + path_mark().len() + path.len() + 2,
    ensures
        login_step(
            LoginExchangeModel { stage: LoginStage::BasePage, username, password },
            base_url,
            base_page,
        ) == LoginStepModel::Send(
            LoginExchangeModel { stage: LoginStage::Reply, username, password },
            RequestModel {
                method: Method::Post,
                url: base_url,
                form: Some(login_form(login_token, username, password)),
            },
        ),
        login_step(
            LoginExchangeModel { stage: LoginStage::Reply, username, password },
            base_url,
            reply,
        ) == LoginStepModel::Send(
            LoginExchangeModel { stage: LoginStage::Template, username, password },
            RequestModel { method: Method::Get, url: template_url_of(base_url), form: None },
        ),
        login_step(
            LoginExchangeModel { stage: LoginStage::Template, username, password },
            base_url,
            template,
        ) == LoginStepModel::Done(SessionModel { url_next: path, session_token: token }),
{
    reveal_strlit("getObj(\"Frm_Logintoken\").value = ");
    lemma_first_mark_quoted(base_page, login_token_mark(), login_token_at, login_token);
    lemma_contains(reply, success_mark(), frame_at);
    lemma_session_is_read(template, token_at, token, path_at, path);
}

/// A login that the router turns down fails with the router's message. An
/// answer that is not empty, holds no frame of the page after a login, and
/// sets the message to `message` between quotation marks gives that
/// message: as long as the message is set there first, holds no quotation
/// mark, and the answer does not hold the place where the message is
/// cleared.
pub proof fn lemma_login_is_turned_down(
    username: Seq<char>,
    password: Seq<char>,
    base_url: Seq<char>,
    reply: Seq<char>,
    message_at: int,
    message: Seq<char>,
)
    requires
        reply.len() > 0,
        forall|i: int| !matches_at(reply, success_mark(), i),
        forall|i: int| !matches_at(reply, cleared_message(), i),
        matches_at(reply, message_mark(), message_at),
        quoted_at(reply, message_at + message_mark().len(), message),
        forall|i: int| 0 <= i < message.len() ==> message[i] != '"',
        forall|i: int| #[trigger]
            matches_at(reply, message_mark(), i) ==> i == message_at || i >= message_at
                + message_mark().len() + message.len() + 2,
    ensures
        login_step(
            LoginExchangeModel { stage: LoginStage::Reply, username, password },
            base_url,
            reply,
        ) == LoginStepModel::Failed(OnuErrorModel::Authentication(message)),
{
    reveal_strlit("getObj(\"errmsg\").innerHTML = ");
    lemma_find_from(reply, success_mark(), 0);
    lemma_replaced_nothing(reply, cleared_message(), cleared_message_masked());
    lemma_first_mark_quoted(reply, message_mark(), message_at, message);
}

/// Reads what stands between quotation marks after the first `mark` in
/// `page`, or in `otherwise` where `page` holds no `mark`.
fn read_quoted_after(page: &[char], mark: &str, otherwise: &str) -> (r: Option<String>)
    ensures
        r.deep_view() == quoted(
            match second_piece(page@, mark@) {
                Some(after) => after,
                None => otherwise@,
            },
        ),
{
    let mark_chars: Vec<char> = chars_of(mark);
    let otherwise_chars: Vec<char> = chars_of(otherwise);
    let after: &[char] = match take_second_piece(page, mark_chars.as_slice()) {
        Some(after) => after,
        None => otherwise_chars.as_slice(),
    };
    match take_quoted(after) {
        Some(text) => Some(string_of(text)),
        None => None,
    }
}

/// Reads the token that the login form has to carry.
pub fn read_login_token(page: &str) -> (token: Option<String>)
    ensures
        token.deep_view() == login_token_in(page@),
{
    let body: Vec<char> = chars_of(page);
    read_quoted_after(body.as_slice(), "getObj(\"Frm_Logintoken\").value = ", "\"1\"")
}

/// Tells whether the router took the login.
pub fn is_login_accepted(reply: &str) -> (accepted: bool)
    ensures
        accepted == login_accepted(reply@),
{
    let body: Vec<char> = chars_of(reply);
    if body.len() == 0 {
        return true;
    }
    let mark: Vec<char> = chars_of(
        "<iframe width=\"808px\" height=\"67px\" src=\"top.gch\" name=\"topFrame\" scrolling=\"no\" frameborder=\"0\" id=\"topFrame\"></iframe>",
    );
    find(body.as_slice(), mark.as_slice(), 0).is_some()
}

/// Reads the message with which `reply` turns the login down.
pub fn read_rejection_message(reply: &str) -> (message: Option<String>)
    ensures
        message.deep_view() == rejection_message(reply@),
{
    let body: Vec<char> = chars_of(reply);
    let cleared: Vec<char> = chars_of("function SetDisabled()\n{\ngetObj(\"errmsg\").innerHTML");
    let masked: Vec<char> = chars_of("function SetDisabled()\n{\ngetObj(\"errmsg\") .innerHTML");
    let cleaned: Vec<char> = replace_all(body.as_slice(), cleared.as_slice(), masked.as_slice());
    read_quoted_after(
        cleaned.as_slice(),
        "getObj(\"errmsg\").innerHTML = ",
        "\"login might failed\"",
    )
}

/// Puts the login form together.
pub fn make_login_form(token: String, username: String, password: String) -> (form: Vec<
    (String, String),
>)
    ensures
        form.deep_view() == login_form(token@, username@, password@),
{
    let mut form: Vec<(String, String)> = Vec::new();
    form.push((String::from_str("freshnum"), String::from_str("")));
    form.push((String::from_str("action"), String::from_str("login")));
    form.push((String::from_str("Frm_Logintoken"), token));
    form.push((String::from_str("Username"), username));
    form.push((String::from_str("Password"), password));
    assert(form.deep_view() =~= login_form(token@, username@, password@));
    form
}

impl LoginExchange {
    /// Takes in the page that the login waited for, and says what comes
    /// next.
    pub fn advance(self, context: &Context, page: &str) -> (step: LoginStep)
        ensures
            step.deep_view() == login_step(self.deep_view(), context.base_url@, page@),
    {
        match self.stage {
            LoginStage::BasePage => match read_login_token(page) {
                Some(token) => {
                    let form = make_login_form(
                        token,
                        self.username.clone(),
                        self.password.clone(),
                    );
                    LoginStep::Send(
                        LoginExchange {
                            stage: LoginStage::Reply,
                            username: self.username,
                            password: self.password,
                        },
                        Request {
                            method: Method::Post,
                            url: context.base_url.clone(),
                            form: Some(form),
                        },
                    )
                },
                None => LoginStep::Failed(OnuError::Parse(Malformed::LoginToken)),
            },
            LoginStage::Reply => if is_login_accepted(page) {
                LoginStep::Send(
                    LoginExchange {
                        stage: LoginStage::Template,
                        username: self.username,
                        password: self.password,
                    },
                    Request { method: Method::Get, url: context.template_url(), form: None },
                )
            } else {
                match read_rejection_message(page) {
                    Some(message) => LoginStep::Failed(OnuError::Authentication(message)),
                    None => LoginStep::Failed(OnuError::Parse(Malformed::ErrorMessage)),
                }
            },
            LoginStage::Template => match Request::parse_session(page) {
                Some(session) => LoginStep::Done(session),
                None => LoginStep::Failed(OnuError::Parse(Malformed::Session)),
            },
        }
    }
}

impl Context {
    /// Begins a login as `username`: the exchange, and the request for its
    /// first page.
    pub fn init_session(&self, username: &str, password: &str) -> (begun: (LoginExchange, Request))
        ensures
            begun.0.deep_view() == (LoginExchangeModel {
                stage: LoginStage::BasePage,
                username: username@,
                password: password@,
            }),
            begun.1.deep_view() == (RequestModel {
                method: Method::Get,
                url: self.base_url@,
                form: None,
            }),
    {
        (
            LoginExchange {
                stage: LoginStage::BasePage,
                username: String::from_str(username),
                password: String::from_str(password),
            },
            Request { method: Method::Get, url: self.base_url.clone(), form: None },
        )
    }

    /// Carries a login one page further. When the login is through, its
    /// session becomes the session of this client; until then, and when it
    /// fails, the client stays as it is.
    pub fn login(&mut self, exchange: LoginExchange, page: &str) -> (step: LoginStep)
        ensures
            step.deep_view() == login_step(exchange.deep_view(), old(self).base_url@, page@),
            final(self).deep_view() == (ContextModel {
                base_url: old(self).base_url@,
                session: match step.deep_view() {
                    LoginStepModel::Done(session) => Some(session),
                    _ => old(self).session.deep_view(),
                },
            }),
    {
        let step: LoginStep = exchange.advance(self, page);
        match &step {
            LoginStep::Done(session) => {
                self.session = Some(session.duplicate());
            },
            _ => {},
        }
        step
    }
}

} // verus!
