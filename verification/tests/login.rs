use place_downloader::flows::{
    LoginAction, LoginError, LoginEvent, LoginFlow, RefreshAction, RefreshEvent, RefreshFlow,
};
use place_downloader::models::Token;
use place_downloader::response::{
    csrf_token_readable, extract_csrf_token, header_is_text, read_jwt_cookie,
    read_session_cookie, set_cookie_headers_are_text, status_is_success, HeaderLine,
};
use base64::Engine;

fn header(name: &str, value: &str) -> HeaderLine {
    (name.to_string(), value.as_bytes().to_vec())
}

const PAGE: &str = "<html><form><input type=\"hidden\" name=\"csrf_token\" value=\"abc123\"><input name=\"x\"></form>";

#[test]
fn success_is_the_2xx_range() {
    assert!(status_is_success(200));
    assert!(status_is_success(299));
    assert!(!status_is_success(199));
    assert!(!status_is_success(300));
    assert!(!status_is_success(404));
}

#[test]
fn header_text_is_visible_ascii_and_tabs() {
    assert!(header_is_text(b"a=b; Path=/\t"));
    assert!(!header_is_text(b"a\nb"));
    assert!(!header_is_text("é".as_bytes()));
    assert!(set_cookie_headers_are_text(&vec![header("x-other", "\n"), header("set-cookie", "a=b")]));
    assert!(!set_cookie_headers_are_text(&vec![header("set-cookie", "a=\u{7f}")]));
}

#[test]
fn session_cookie_is_read_up_to_the_first_percent() {
    let headers = vec![
        header("content-type", "text/html"),
        header("set-cookie", "loid=1; Domain=reddit.com"),
        header("set-cookie", "reddit_session=12345%2C2023%2Cabc; Domain=reddit.com; Path=/"),
    ];
    assert_eq!(read_session_cookie(&headers), Some("12345".to_string()));
    assert_eq!(read_jwt_cookie(&headers), None);
}

#[test]
fn later_set_cookie_headers_win_and_pieces_are_matched_after_trimming() {
    let headers = vec![
        header("set-cookie", "token_v2=first; Path=/"),
        header("set-cookie", "a=b; token_v2=second; Path=/"),
        header("x-token", "token_v2=ignored"),
    ];
    // The piece " token_v2=second" matches once trimmed, but the prefix is
    // removed from the untrimmed piece, which keeps it whole.
    assert_eq!(read_jwt_cookie(&headers), Some(" token_v2=second".to_string()));
    let headers = vec![header("set-cookie", "token_v2=token_v2=x")];
    assert_eq!(read_jwt_cookie(&headers), Some("x".to_string()));
    assert_eq!(read_session_cookie(&vec![]), None);
}

#[test]
fn csrf_token_is_read_after_the_marker() {
    assert!(csrf_token_readable(PAGE));
    assert_eq!(extract_csrf_token(PAGE), "abc123");
    let no_quote = "<input type=\"hidden\" name=\"csrf_token\" value=\"tail";
    assert_eq!(extract_csrf_token(no_quote), "tail");
    let without_marker = "x".repeat(50) + "\"rest";
    assert!(csrf_token_readable(&without_marker));
    assert_eq!(extract_csrf_token(&without_marker), "xxxx");
    assert!(!csrf_token_readable("short page"));
}

fn run_login(flow: &mut LoginFlow, event: LoginEvent) -> LoginAction {
    assert!(flow.can_accept(&event));
    flow.step(event)
}

#[test]
fn a_successful_login_yields_both_cookies() {
    let mut flow = LoginFlow::new("alice".to_string(), "pw".to_string());
    assert!(matches!(run_login(&mut flow, LoginEvent::Started), LoginAction::FetchHome));
    assert!(!flow.can_accept(&LoginEvent::Started));
    assert!(matches!(
        run_login(&mut flow, LoginEvent::HomeLoaded { status: 200 }),
        LoginAction::FetchLoginPage
    ));
    match run_login(&mut flow, LoginEvent::LoginPageLoaded { page: PAGE.to_string() }) {
        LoginAction::SubmitLogin { form } => assert_eq!(
            form,
            vec![
                ("username", "alice".to_string()),
                ("password", "pw".to_string()),
                ("dest", "https://www.reddit.com/".to_string()),
                ("csrf_token", "abc123".to_string()),
            ]
        ),
        _ => panic!("expected the login form"),
    }
    let answer = LoginEvent::LoginAnswered {
        status: 200,
        headers: vec![header("set-cookie", "reddit_session=s1%2Cx; Path=/")],
    };
    assert!(matches!(run_login(&mut flow, answer), LoginAction::FetchTokenPage));
    let page = LoginEvent::TokenPageLoaded { headers: vec![header("set-cookie", "token_v2=eyJ.a.b; Path=/")] };
    match run_login(&mut flow, page) {
        LoginAction::Finish { token, session_found, jwt_found } => {
            assert_eq!(token.reddit_session, "s1");
            assert_eq!(token.jwt_token, "eyJ.a.b");
            assert!(session_found && jwt_found);
        }
        _ => panic!("expected the end of the login"),
    }
}

#[test]
fn missing_cookies_are_left_empty() {
    let mut flow = LoginFlow::new("bob".to_string(), "pw".to_string());
    run_login(&mut flow, LoginEvent::Started);
    run_login(&mut flow, LoginEvent::HomeLoaded { status: 204 });
    run_login(&mut flow, LoginEvent::LoginPageLoaded { page: PAGE.to_string() });
    run_login(&mut flow, LoginEvent::LoginAnswered { status: 200, headers: vec![] });
    match run_login(&mut flow, LoginEvent::TokenPageLoaded { headers: vec![header("set-cookie", "other=1")] }) {
        LoginAction::Finish { token, session_found, jwt_found } => {
            assert_eq!(token.reddit_session, "");
            assert_eq!(token.jwt_token, "");
            assert!(!session_found && !jwt_found);
        }
        _ => panic!("expected the end of the login"),
    }
}

#[test]
fn failed_requests_end_the_login() {
    let mut flow = LoginFlow::new("alice".to_string(), "pw".to_string());
    run_login(&mut flow, LoginEvent::Started);
    assert!(matches!(
        run_login(&mut flow, LoginEvent::HomeLoaded { status: 503 }),
        LoginAction::Fail(LoginError::HomeRequestFailed(503))
    ));
    assert!(!flow.can_accept(&LoginEvent::HomeLoaded { status: 200 }));

    let mut flow = LoginFlow::new("alice".to_string(), "pw".to_string());
    run_login(&mut flow, LoginEvent::Started);
    run_login(&mut flow, LoginEvent::HomeLoaded { status: 200 });
    run_login(&mut flow, LoginEvent::LoginPageLoaded { page: PAGE.to_string() });
    let rejected = LoginEvent::LoginAnswered { status: 400, headers: vec![header("set-cookie", "\u{1}")] };
    assert!(matches!(run_login(&mut flow, rejected), LoginAction::Fail(LoginError::LoginRejected(400))));
}

#[test]
fn unreadable_answers_are_not_accepted() {
    let mut flow = LoginFlow::new("alice".to_string(), "pw".to_string());
    run_login(&mut flow, LoginEvent::Started);
    run_login(&mut flow, LoginEvent::HomeLoaded { status: 200 });
    assert!(!flow.can_accept(&LoginEvent::LoginPageLoaded { page: "tiny".to_string() }));
    run_login(&mut flow, LoginEvent::LoginPageLoaded { page: PAGE.to_string() });
    let binary = LoginEvent::LoginAnswered { status: 200, headers: vec![("set-cookie".to_string(), vec![0xff])] };
    assert!(!flow.can_accept(&binary));
}

fn jwt_expiring_at(exp: i64) -> String {
    let engine = base64::engine::general_purpose::URL_SAFE_NO_PAD;
    format!("{}.{}.sig", engine.encode("{}"), engine.encode(format!("{{\"exp\":{}}}", exp)))
}

#[test]
fn refresh_checks_the_expiry_first() {
    let token = Token::new("sess".to_string(), jwt_expiring_at(1700000000));
    let mut flow = RefreshFlow::new(token);
    assert!(flow.can_accept(&RefreshEvent::Started));
    match flow.step(RefreshEvent::Started) {
        RefreshAction::CheckExpiry { expires_at } => assert_eq!(expires_at, 1700000000),
        _ => panic!("expected an expiry check"),
    }
    let mut flow = RefreshFlow::new(Token::new("sess".to_string(), "not a jwt".to_string()));
    match flow.step(RefreshEvent::Started) {
        RefreshAction::CheckExpiry { expires_at } => assert_eq!(expires_at, 0),
        _ => panic!("expected an expiry check"),
    }
}

#[test]
fn an_expired_token_is_kept() {
    let mut flow = RefreshFlow::new(Token::new("sess".to_string(), "old".to_string()));
    flow.step(RefreshEvent::Started);
    match flow.step(RefreshEvent::ExpiryChecked { expired: true }) {
        RefreshAction::Keep { token } => {
            assert_eq!(token.reddit_session, "sess");
            assert_eq!(token.jwt_token, "old");
        }
        _ => panic!("expected the token to be kept"),
    }
}

#[test]
fn a_live_token_is_refreshed_with_the_same_session() {
    let mut flow = RefreshFlow::new(Token::new("sess".to_string(), "old".to_string()));
    flow.step(RefreshEvent::Started);
    match flow.step(RefreshEvent::ExpiryChecked { expired: false }) {
        RefreshAction::FetchTokenPage { session_cookie } => assert_eq!(session_cookie, "reddit_session=sess"),
        _ => panic!("expected a request"),
    }
    let page = RefreshEvent::TokenPageLoaded { headers: vec![header("set-cookie", "token_v2=new; Path=/")] };
    assert!(flow.can_accept(&page));
    match flow.step(page) {
        RefreshAction::Refreshed { token, jwt_found } => {
            assert_eq!(token.reddit_session, "sess");
            assert_eq!(token.jwt_token, "new");
            assert!(jwt_found);
        }
        _ => panic!("expected a refreshed token"),
    }
}
