//! The router as a client sees it: where it is, and the session with it.

use vstd::prelude::*;
use vstd::string::StringExecFns;
use crate::onu::session::{
    default_path, report_in, session_in, token_key, ApiResult, Method, Request, RequestModel,
    Session, SessionModel,
};

verus! {

/// What a client knows of the router between two requests.
#[derive(Debug, Clone, PartialEq, Eq)]
pub struct Context {
    /// The address of the router, such as `http://192.168.1.1`.
    pub base_url: String,
    /// The session, once a login has opened one. Every answer of the router
    /// may bring a new one.
    pub session: Option<Session>,
}

/// The model of a `Context`.
pub struct ContextModel {
    pub base_url: Seq<char>,
    pub session: Option<SessionModel>,
}

impl DeepView for Context {
    type V = ContextModel;

    open spec fn deep_view(&self) -> ContextModel {
        ContextModel { base_url: self.base_url@, session: self.session.deep_view() }
    }
}

/// The address of the page that holds the first session.
pub open spec fn template_url_of(base_url: Seq<char>) -> Seq<char> {
    base_url + "/template.gch"@
}

/// The address of `page`: within a session under the path that the router
/// gave last, before one under the default path.
pub open spec fn next_url_of(context: ContextModel, page: Seq<char>) -> Seq<char> {
    context.base_url + "/"@ + match context.session {
        Some(session) => session.url_next,
        None => default_path(),
    } + page
}

/// What posting `form` to `page` comes to: the client after it, and the
/// request to send. Within a session the form carries the token of the
/// session as its last field, and the session is left with an empty token;
/// before a login the form goes as it is.
pub open spec fn posted(
    context: ContextModel,
    page: Seq<char>,
    form: Seq<(Seq<char>, Seq<char>)>,
) -> (ContextModel, RequestModel) {
    (
        ContextModel {
            base_url: context.base_url,
            session: match context.session {
                Some(session) => Some(
                    SessionModel { url_next: session.url_next, session_token: Seq::empty() },
                ),
                None => None,
            },
        },
        RequestModel {
            method: Method::Post,
            url: next_url_of(context, page),
            form: Some(
                match context.session {
                    Some(session) => form.push((token_key(), session.session_token)),
                    None => form,
                },
            ),
        },
    )
}

/// The client after the answer `page` has come in: a session that the answer
/// hands out takes the place of the one before.
pub open spec fn received(context: ContextModel, page: Seq<char>) -> ContextModel {
    ContextModel {
        base_url: context.base_url,
        session: match session_in(page) {
            Some(fresh) => Some(fresh),
            None => context.session,
        },
    }
}

/// A token goes out once: of two forms posted one after the other, with no
/// answer between them, the second carries an empty token.
pub proof fn lemma_token_goes_out_once(
    context: ContextModel,
    first_page: Seq<char>,
    first_form: Seq<(Seq<char>, Seq<char>)>,
    second_page: Seq<char>,
    second_form: Seq<(Seq<char>, Seq<char>)>,
)
    requires
        context.session is Some,
    ensures
        posted(context, first_page, first_form).1.form == Some(
            first_form.push((token_key(), context.session->0.session_token)),
        ),
        posted(posted(context, first_page, first_form).0, second_page, second_form).1.form == Some(
            second_form.push((token_key(), Seq::empty())),
        ),
{
}

/// A session does not end: a client that has one has one after every form
/// and after every answer.
pub proof fn lemma_session_is_kept(
    context: ContextModel,
    page: Seq<char>,
    form: Seq<(Seq<char>, Seq<char>)>,
)
    requires
        context.session is Some,
    ensures
        posted(context, page, form).0.session is Some,
        received(context, page).session is Some,
{
}

impl Context {
    /// A client of the router at `base_url`, not logged in.
    pub fn new(base_url: &str) -> (context: Context)
        ensures
            context.deep_view() == (ContextModel { base_url: base_url@, session: None }),
    {
        Context { base_url: String::from_str(base_url), session: None }
    }

    /// The address of the router.
    pub fn base_url(&self) -> (url: &str)
        ensures
            url@ == self.base_url@,
    {
        self.base_url.as_str()
    }

    /// The address of the page that holds the first session.
    pub fn template_url(&self) -> (url: String)
        ensures
            url@ == template_url_of(self.base_url@),
    {
        let mut url: String = self.base_url.clone();
        url.append("/template.gch");
        url
    }

    /// The address of `page`.
    pub fn next_url(&self, page: &str) -> (url: String)
        ensures
            url@ == next_url_of(self.deep_view(), page@),
    {
        let mut url: String = self.base_url.clone();
        url.append("/");
        match &self.session {
            Some(session) => {
                url.append(session.url_next());
            },
            None => {
                url.append("getpage.gch?pid=1002&nextpage=");
            },
        }
        url.append(page);
        url
    }

    /// The request that reads `page`.
    pub fn get(&self, page: &str) -> (request: Request)
        ensures
            request.deep_view() == (RequestModel {
                method: Method::Get,
                url: next_url_of(self.deep_view(), page@),
                form: None,
            }),
    {
        Request { method: Method::Get, url: self.next_url(page), form: None }
    }

    /// The request that posts to `page`; it has no form yet.
    pub fn post(&self, page: &str) -> (request: Request)
        ensures
            request.deep_view() == (RequestModel {
                method: Method::Post,
                url: next_url_of(self.deep_view(), page@),
                form: None,
            }),
    {
        Request { method: Method::Post, url: self.next_url(page), form: None }
    }

    /// The request that posts `form` to `page`. The token of the session
    /// goes with the form and is gone from the session afterwards.
    pub fn submit(&mut self, page: &str, form: Vec<(String, String)>) -> (request: Request)
        ensures
            (final(self).deep_view(), request.deep_view()) == posted(
                old(self).deep_view(),
                page@,
                form.deep_view(),
            ),
    {
        let request: Request = self.post(page);
        request.form(&mut self.session, form)
    }

    /// Takes in the answer `page` to a request, and reads its report.
    pub fn receive(&mut self, page: &str) -> (report: ApiResult)
        ensures
            final(self).deep_view() == received(old(self).deep_view(), page@),
            report.deep_view() == report_in(page@),
    {
        Request::receive(&mut self.session, page)
    }
}

} // verus!
