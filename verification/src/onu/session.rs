//! The session with the router, the requests made in it, and what every
//! answer tells about it.
//!
//! The router hands out a token with almost every page. A form that changes
//! something has to carry the token of the page before it, and a token is
//! good for one form only.

use vstd::prelude::*;
use crate::onu::token_call::{extract_text, text_of};
use crate::text::{
    chars_of, last_piece, lemma_first_mark_quoted, lemma_last_mark_quoted, matches_at, quoted,
    quoted_at, same_text, second_piece, string_of, take_last_piece, take_quoted,
    take_second_piece,
};

verus! {

/// The path that requests go to before a session has given another.
pub open spec fn default_path() -> Seq<char> {
    "getpage.gch?pid=1002&nextpage="@
}

/// The name under which a form carries the token of the session.
pub open spec fn token_key() -> Seq<char> {
    "_SESSION_TOKEN"@
}

/// What the router handed out with its last page: the path that the next
/// request has to go to, and the token that the next form has to carry.
#[derive(Debug, Clone, PartialEq, Eq)]
pub struct Session {
    url_next: String,
    session_token: String,
}

/// The model of a `Session`.
pub struct SessionModel {
    pub url_next: Seq<char>,
    pub session_token: Seq<char>,
}

impl DeepView for Session {
    type V = SessionModel;

    closed spec fn deep_view(&self) -> SessionModel {
        SessionModel { url_next: self.url_next@, session_token: self.session_token@ }
    }
}

impl Session {
    /// A session with the path `url_next` and the token `session_token`.
    pub fn new(url_next: String, session_token: String) -> (session: Session)
        ensures
            session.deep_view() == (SessionModel {
                url_next: url_next@,
                session_token: session_token@,
            }),
    {
        Session { url_next, session_token }
    }

    /// The path that the next request has to go to.
    pub fn url_next(&self) -> (path: &str)
        ensures
            path@ == self.deep_view().url_next,
    {
        self.url_next.as_str()
    }

    /// The token that the next form has to carry; empty once a form has
    /// taken it.
    pub fn session_token(&self) -> (token: &str)
        ensures
            token@ == self.deep_view().session_token,
    {
        self.session_token.as_str()
    }

    /// A second session with the same path and token.
    pub fn duplicate(&self) -> (copy: Session)
        ensures
            copy.deep_view() == self.deep_view(),
    {
        Session { url_next: self.url_next.clone(), session_token: self.session_token.clone() }
    }

    /// Takes the token out of the session, which keeps its path and an empty
    /// token.
    pub fn take_token(&mut self) -> (token: String)
        ensures
            token@ == old(self).deep_view().session_token,
            final(self).deep_view() == (SessionModel {
                url_next: old(self).deep_view().url_next,
                session_token: Seq::<char>::empty(),
            }),
    {
        let mut token = String::new();
        std::mem::swap(&mut self.session_token, &mut token);
        token
    }
}

/// The router's report on a request.
#[derive(Debug, Clone, PartialEq, Eq)]
pub struct ApiResult {
    /// `SUCC` where the request was carried out; empty where the page makes
    /// no report.
    pub error_str: String,
    /// The parameter that the router objects to.
    pub error_param: String,
    /// The kind of the objection.
    pub error_type: String,
}

/// The model of an `ApiResult`.
pub struct ApiResultModel {
    pub error_str: Seq<char>,
    pub error_param: Seq<char>,
    pub error_type: Seq<char>,
}

impl DeepView for ApiResult {
    type V = ApiResultModel;

    open spec fn deep_view(&self) -> ApiResultModel {
        ApiResultModel {
            error_str: self.error_str@,
            error_param: self.error_param@,
            error_type: self.error_type@,
        }
    }
}

/// A report that counts as success: `SUCC`, or none at all.
pub open spec fn reports_success(report: ApiResultModel) -> bool {
    report.error_str == Seq::<char>::empty() || report.error_str == "SUCC"@
}

impl ApiResult {
    /// Tells whether the request was carried out. A page without a report
    /// counts as success: the pages that only show something make none.
    pub fn is_success(&self) -> (ok: bool)
        ensures
            ok == reports_success(self.deep_view()),
    {
        let status: &str = self.error_str.as_str();
        if status.unicode_len() == 0 {
            assert(status@ =~= Seq::<char>::empty());
            true
        } else {
            same_text(status, "SUCC")
        }
    }
}

/// The report that the page `body` makes.
pub open spec fn report_in(body: Seq<char>) -> ApiResultModel {
    ApiResultModel {
        error_str: text_of(body, "IF_ERRORSTR"@),
        error_param: text_of(body, "IF_ERRORPARAM"@),
        error_type: text_of(body, "IF_ERRORTYPE"@),
    }
}

/// What stands in front of the token in a page.
pub open spec fn token_mark() -> Seq<char> {
    "var session_token = "@
}

/// What stands in front of the path of the next page in a page.
pub open spec fn path_mark() -> Seq<char> {
    "function getURL(){var ret = "@
}

/// The session that the page `body` hands out: the token from the last
/// assignment to `session_token`, the path from the first definition of
/// `getURL`; nothing where either is missing.
pub open spec fn session_in(body: Seq<char>) -> Option<SessionModel> {
    match last_piece(body, token_mark()) {
        Some(after_token) => match quoted(after_token) {
            Some(token) => match second_piece(body, path_mark()) {
                Some(after_path) => match quoted(after_path) {
                    Some(path) => Some(SessionModel { url_next: path, session_token: token }),
                    None => None,
                },
                None => None,
            },
            None => None,
        },
        None => None,
    }
}

/// A page that assigns `token` to `session_token` and lets `getURL` return
/// `path`, each between quotation marks, hands out the session of that
/// token and path: as long as the assignment is the last one in the page and
/// the definition the first, and neither text holds a quotation mark.
pub proof fn lemma_session_is_read(
    page: Seq<char>,
    token_at: int,
    token: Seq<char>,
    path_at: int,
    path: Seq<char>,
)
    requires
        matches_at(page, token_mark(), token_at),
        quoted_at(page, token_at + token_mark().len(), token),
        forall|i: int| 0 <= i < token.len() ==> token[i] != '"',
        forall|i: int| #[trigger]
            matches_at(page, token_mark(), i) ==> i + token_mark().len() <= token_at || i
                == token_at,
        matches_at(page, path_mark(), path_at),
        quoted_at(page, path_at + path_mark().len(), path),
        forall|i: int| 0 <= i < path.len() ==> path[i] != '"',
        forall|i: int| #[trigger]
            matches_at(page, path_mark(), i) ==> i == path_at || i >= path_at + path_mark().len()
                + path.len() + 2,
    ensures
        session_in(page) == Some(SessionModel { url_next: path, session_token: token }),
{
    reveal_strlit("var session_token = ");
    reveal_strlit("function getURL(){var ret = ");
    lemma_last_mark_quoted(page, token_mark(), token_at, token);
    lemma_first_mark_quoted(page, path_mark(), path_at, path);
}

/// How a request is made.
#[derive(Debug, Clone, Copy, PartialEq, Eq)]
pub enum Method {
    Get,
    Post,
}

/// A request to the router, ready to be sent.
#[derive(Debug, Clone, PartialEq, Eq)]
pub struct Request {
    /// How the request is made.
    pub method: Method,
    /// Where it goes.
    pub url: String,
    /// The fields of the form it carries, in order, where it carries one.
    pub form: Option<Vec<(String, String)>>,
}

/// The model of a `Request`.
pub struct RequestModel {
    pub method: Method,
    pub url: Seq<char>,
    pub form: Option<Seq<(Seq<char>, Seq<char>)>>,
}

impl DeepView for Request {
    type V = RequestModel;

    open spec fn deep_view(&self) -> RequestModel {
        RequestModel { method: self.method, url: self.url@, form: self.form.deep_view() }
    }
}

impl Request {
    /// Reads the session that the page `resp` hands out.
    pub fn parse_session(resp: &str) -> (session: Option<Session>)
        ensures
            session.deep_view() == session_in(resp@),
    {
        let body: Vec<char> = chars_of(resp);
        let token_mark: Vec<char> = chars_of("var session_token = ");
        let path_mark: Vec<char> = chars_of("function getURL(){var ret = ");
        let after_token: &[char] = match take_last_piece(body.as_slice(), token_mark.as_slice()) {
            Some(rest) => rest,
            None => { return None; },
        };
        let token: &[char] = match take_quoted(after_token) {
            Some(token) => token,
            None => { return None; },
        };
        let after_path: &[char] = match take_second_piece(body.as_slice(), path_mark.as_slice()) {
            Some(rest) => rest,
            None => { return None; },
        };
        let path: &[char] = match take_quoted(after_path) {
            Some(path) => path,
            None => { return None; },
        };
        Some(Session::new(string_of(path), string_of(token)))
    }

    /// Reads the report that the page `resp` makes.
    pub fn parse_api_result(resp: &str) -> (report: ApiResult)
        ensures
            report.deep_view() == report_in(resp@),
    {
        let body: Vec<char> = chars_of(resp);
        ApiResult {
            error_str: extract_text(body.as_slice(), "IF_ERRORSTR"),
            error_param: extract_text(body.as_slice(), "IF_ERRORPARAM"),
            error_type: extract_text(body.as_slice(), "IF_ERRORTYPE"),
        }
    }

    /// Gives the request the form `data`. Within a session the form carries
    /// the token of the session as its last field, and the session is left
    /// without a token: the next one comes with the answer.
    pub fn form(self, session: &mut Option<Session>, data: Vec<(String, String)>) -> (request:
        Request)
        ensures
            request.deep_view().method == self.method,
            request.deep_view().url == self.url@,
            match old(session).deep_view() {
                Some(before) => {
                    &&& request.deep_view().form == Some(
                        data.deep_view().push((token_key(), before.session_token)),
                    )
                    &&& final(session).deep_view() == Some(
                        SessionModel {
                            url_next: before.url_next,
                            session_token: Seq::<char>::empty(),
                        },
                    )
                },
                None => {
                    &&& request.deep_view().form == Some(data.deep_view())
                    &&& final(session).deep_view() == None::<SessionModel>
                },
            },
    {
        let mut fields = data;
        match session {
            Some(current) => {
                let token: String = current.take_token();
                let key: String = string_of(chars_of("_SESSION_TOKEN").as_slice());
                let ghost before = fields.deep_view();
                fields.push((key, token));
                assert(fields.deep_view() =~= before.push((token_key(), token@)));
            },
            None => {},
        }
        Request { method: self.method, url: self.url, form: Some(fields) }
    }

    /// Takes in the answer `resp` to a request: a session that it hands out
    /// takes the place of the one before, and its report is read.
    pub fn receive(session: &mut Option<Session>, resp: &str) -> (report: ApiResult)
        ensures
            final(session).deep_view() == match session_in(resp@) {
                Some(fresh) => Some(fresh),
                None => old(session).deep_view(),
            },
            report.deep_view() == report_in(resp@),
    {
        match Request::parse_session(resp) {
            Some(fresh) => {
                *session = Some(fresh);
            },
            None => {},
        }
        Request::parse_api_result(resp)
    }
}

} // verus!
