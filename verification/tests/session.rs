use onu_admin::onu::{ApiResult, Context, Method, Request, Session};

fn pair(key: &str, value: &str) -> (String, String) {
    (key.to_string(), value.to_string())
}

fn session(path: &str, token: &str) -> Session {
    Session::new(path.to_string(), token.to_string())
}

const PAGE: &str = "<script>\nvar session_token = \"859208547885\";\nfunction getURL(){var ret = \"getpage.gch?pid=1002&nextpage=\";\nreturn ret;}\n</script>";

#[test]
fn session_is_read_from_a_page() {
    let found = Request::parse_session(PAGE).unwrap();
    assert_eq!(found.session_token(), "859208547885");
    assert_eq!(found.url_next(), "getpage.gch?pid=1002&nextpage=");
    assert_eq!(found, session("getpage.gch?pid=1002&nextpage=", "859208547885"));
}

#[test]
fn session_needs_token_and_path() {
    assert_eq!(Request::parse_session(""), None);
    assert_eq!(Request::parse_session("var session_token = \"abc\";"), None);
    assert_eq!(Request::parse_session("function getURL(){var ret = \"next.gch?\";"), None);
    assert_eq!(
        Request::parse_session("var session_token = abc; function getURL(){var ret = next;"),
        None
    );
}

#[test]
fn the_last_token_and_the_first_path_count() {
    let page = "var session_token = \"one\";\nfunction getURL(){var ret = \"first?\";}\nvar session_token = \"two\";\nfunction getURL(){var ret = \"second?\";}";
    assert_eq!(Request::parse_session(page), Some(session("first?", "two")));
}

#[test]
fn report_is_read_from_a_page() {
    let page = "Transfer_meaning('IF_ERRORSTR','SUCC');\nTransfer_meaning('IF_ERRORPARAM','SUCC');\nTransfer_meaning('IF_ERRORTYPE','\\x2d1');";
    let report = Request::parse_api_result(page);
    assert_eq!(
        report,
        ApiResult {
            error_str: "SUCC".to_string(),
            error_param: "SUCC".to_string(),
            error_type: "-1".to_string(),
        }
    );
    assert!(report.is_success());
}

#[test]
fn only_succ_and_no_report_count_as_success() {
    let report = |status: &str| ApiResult {
        error_str: status.to_string(),
        error_param: String::new(),
        error_type: String::new(),
    };
    assert!(report("SUCC").is_success());
    assert!(report("").is_success());
    assert!(!report("FAIL").is_success());
    assert!(!report("succ").is_success());
    assert!(!report("SUCC ").is_success());
    assert!(Request::parse_api_result("<html></html>").is_success());
}

#[test]
fn addresses_are_put_together_from_the_session() {
    let mut context = Context::new("http://192.168.1.1");
    assert_eq!(context.base_url(), "http://192.168.1.1");
    assert_eq!(context.session, None);
    assert_eq!(context.template_url(), "http://192.168.1.1/template.gch");
    assert_eq!(
        context.next_url("status_ethwan_if_t.gch"),
        "http://192.168.1.1/getpage.gch?pid=1002&nextpage=status_ethwan_if_t.gch"
    );
    context.session = Some(session("next.gch?", "abc"));
    assert_eq!(context.next_url("page.gch"), "http://192.168.1.1/next.gch?page.gch");
    assert_eq!(
        context.get("page.gch"),
        Request {
            method: Method::Get,
            url: "http://192.168.1.1/next.gch?page.gch".to_string(),
            form: None,
        }
    );
    assert_eq!(
        context.post("page.gch"),
        Request {
            method: Method::Post,
            url: "http://192.168.1.1/next.gch?page.gch".to_string(),
            form: None,
        }
    );
}

#[test]
fn a_form_takes_the_token_of_the_session() {
    let mut current = Some(session("next.gch?", "abc"));
    let request = Request { method: Method::Post, url: "u".to_string(), form: None };
    let request = request.form(&mut current, vec![pair("a", "1"), pair("b", "2")]);
    assert_eq!(
        request.form,
        Some(vec![pair("a", "1"), pair("b", "2"), pair("_SESSION_TOKEN", "abc")])
    );
    assert_eq!(request.url, "u");
    assert_eq!(request.method, Method::Post);
    assert_eq!(current, Some(session("next.gch?", "")));
}

#[test]
fn a_token_is_good_for_one_form() {
    let mut context = Context::new("http://r");
    context.session = Some(session("p?", "abc"));
    let first = context.submit("x.gch", vec![pair("a", "1")]);
    let second = context.submit("x.gch", vec![pair("a", "1")]);
    assert_eq!(first.form, Some(vec![pair("a", "1"), pair("_SESSION_TOKEN", "abc")]));
    assert_eq!(second.form, Some(vec![pair("a", "1"), pair("_SESSION_TOKEN", "")]));
    assert_eq!(first.url, "http://r/p?x.gch");
}

#[test]
fn a_form_before_a_login_goes_as_it_is() {
    let mut current = None;
    let request = Request { method: Method::Post, url: "u".to_string(), form: None };
    let request = request.form(&mut current, vec![pair("a", "1")]);
    assert_eq!(request.form, Some(vec![pair("a", "1")]));
    assert_eq!(current, None);
}

#[test]
fn an_answer_with_a_session_replaces_the_session() {
    let mut context = Context::new("http://r");
    context.session = Some(session("old?", ""));
    let report = context.receive(PAGE);
    assert_eq!(context.session, Some(session("getpage.gch?pid=1002&nextpage=", "859208547885")));
    assert_eq!(report.error_str, "");
}

#[test]
fn an_answer_without_a_session_leaves_the_session() {
    let mut context = Context::new("http://r");
    context.session = Some(session("old?", ""));
    let report = context.receive("Transfer_meaning('IF_ERRORSTR','FAIL');");
    assert_eq!(context.session, Some(session("old?", "")));
    assert_eq!(report.error_str, "FAIL");
    let mut fresh = Context::new("http://r");
    let _ = fresh.receive("nothing");
    assert_eq!(fresh.session, None);
}

#[test]
fn a_session_can_be_taken_apart() {
    let mut current = session("p", "t");
    let copy = current.duplicate();
    assert_eq!(copy, current);
    assert_eq!(current.take_token(), "t");
    assert_eq!(current, session("p", ""));
}
