use onu_admin::onu::login::{
    is_login_accepted, make_login_form, read_login_token, read_rejection_message,
};
use onu_admin::onu::{
    Context, LoginExchange, LoginStage, LoginStep, Malformed, Method, OnuError, Request, Session,
};

const FRAME: &str = "<iframe width=\"808px\" height=\"67px\" src=\"top.gch\" name=\"topFrame\" scrolling=\"no\" frameborder=\"0\" id=\"topFrame\"></iframe>";

fn pair(key: &str, value: &str) -> (String, String) {
    (key.to_string(), value.to_string())
}

fn exchange(stage: LoginStage) -> LoginExchange {
    LoginExchange { stage, username: "admin".to_string(), password: "secret".to_string() }
}

#[test]
fn login_success() {
    let mut context = Context::new("http://192.168.1.1");
    let (begun, request) = context.init_session("admin", "secret");
    assert_eq!(begun, exchange(LoginStage::BasePage));
    assert_eq!(
        request,
        Request { method: Method::Get, url: "http://192.168.1.1".to_string(), form: None }
    );

    let base_page = "<script>getObj(\"Frm_Logintoken\").value = \"4\";</script>";
    let (waiting, request) = match context.login(begun, base_page) {
        LoginStep::Send(waiting, request) => (waiting, request),
        other => panic!("{:?}", other),
    };
    assert_eq!(waiting, exchange(LoginStage::Reply));
    assert_eq!(
        request,
        Request {
            method: Method::Post,
            url: "http://192.168.1.1".to_string(),
            form: Some(vec![
                pair("freshnum", ""),
                pair("action", "login"),
                pair("Frm_Logintoken", "4"),
                pair("Username", "admin"),
                pair("Password", "secret"),
            ]),
        }
    );
    assert_eq!(context.session, None);

    let reply = format!("<html><body>{}</body></html>", FRAME);
    let (waiting, request) = match context.login(waiting, &reply) {
        LoginStep::Send(waiting, request) => (waiting, request),
        other => panic!("{:?}", other),
    };
    assert_eq!(waiting, exchange(LoginStage::Template));
    assert_eq!(
        request,
        Request {
            method: Method::Get,
            url: "http://192.168.1.1/template.gch".to_string(),
            form: None,
        }
    );
    assert_eq!(context.session, None);

    let template = "var session_token = \"abc\";\nfunction getURL(){var ret = \"next.gch?\";";
    let expected = Session::new("next.gch?".to_string(), "abc".to_string());
    assert_eq!(context.login(waiting, template), LoginStep::Done(expected.duplicate()));
    assert_eq!(context.session, Some(expected));
    assert_eq!(context.next_url("x"), "http://192.168.1.1/next.gch?x");
}

#[test]
fn login_failure() {
    let mut context = Context::new("http://192.168.1.1");
    let reply = "<html><script>getObj(\"errmsg\").innerHTML = \"bad credentials\";</script></html>";
    assert_eq!(
        context.login(exchange(LoginStage::Reply), reply),
        LoginStep::Failed(OnuError::Authentication("bad credentials".to_string()))
    );
    assert_eq!(context.session, None);
}

#[test]
fn login_failure_without_a_message() {
    let context = Context::new("http://192.168.1.1");
    assert_eq!(
        exchange(LoginStage::Reply).advance(&context, "<html>something else</html>"),
        LoginStep::Failed(OnuError::Authentication("login might failed".to_string()))
    );
}

#[test]
fn login_failure_with_a_message_that_cannot_be_read() {
    let context = Context::new("http://192.168.1.1");
    assert_eq!(
        exchange(LoginStage::Reply).advance(&context, "getObj(\"errmsg\").innerHTML = none;"),
        LoginStep::Failed(OnuError::Parse(Malformed::ErrorMessage))
    );
}

#[test]
fn the_place_where_the_message_is_cleared_is_passed_over() {
    let reply = "function SetDisabled()\n{\ngetObj(\"errmsg\").innerHTML = \"\";\n}\ngetObj(\"errmsg\").innerHTML = \"用户信息有误，请重新输入。\";";
    assert_eq!(read_rejection_message(reply), Some("用户信息有误，请重新输入。".to_string()));
    let only_cleared = "function SetDisabled()\n{\ngetObj(\"errmsg\").innerHTML = \"\";\n}";
    assert_eq!(read_rejection_message(only_cleared), Some("login might failed".to_string()));
}

#[test]
fn an_empty_reply_counts_as_accepted() {
    assert!(is_login_accepted(""));
    assert!(is_login_accepted(FRAME));
    assert!(is_login_accepted(&format!("a{}b", FRAME)));
    assert!(!is_login_accepted("x"));
    assert!(!is_login_accepted(&FRAME[1..]));
}

#[test]
fn login_token_defaults_to_one() {
    assert_eq!(read_login_token("<html></html>"), Some("1".to_string()));
    assert_eq!(read_login_token(""), Some("1".to_string()));
    assert_eq!(
        read_login_token("getObj(\"Frm_Logintoken\").value = \"17\";"),
        Some("17".to_string())
    );
    assert_eq!(read_login_token("getObj(\"Frm_Logintoken\").value = 17;"), None);
}

#[test]
fn login_token_that_cannot_be_read_fails_the_login() {
    let context = Context::new("http://192.168.1.1");
    assert_eq!(
        exchange(LoginStage::BasePage).advance(&context, "getObj(\"Frm_Logintoken\").value = 17;"),
        LoginStep::Failed(OnuError::Parse(Malformed::LoginToken))
    );
}

#[test]
fn template_without_a_session_fails_the_login() {
    let mut context = Context::new("http://192.168.1.1");
    assert_eq!(
        context.login(exchange(LoginStage::Template), "var session_token = \"abc\";"),
        LoginStep::Failed(OnuError::Parse(Malformed::Session))
    );
    assert_eq!(context.session, None);
}

#[test]
fn login_form_has_five_fields() {
    assert_eq!(
        make_login_form("9".to_string(), "u".to_string(), "p".to_string()),
        vec![
            pair("freshnum", ""),
            pair("action", "login"),
            pair("Frm_Logintoken", "9"),
            pair("Username", "u"),
            pair("Password", "p"),
        ]
    );
}
