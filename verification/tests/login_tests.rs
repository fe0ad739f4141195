use weibo_client::api::{ApiClient, LoginState};
use weibo_client::errors::Error;
use weibo_client::mock::MockChannel;
use weibo_client::models::Conifg;
use weibo_client::requests::url_web_emoticon;
use weibo_client::session::{parse_session, serialize_session, Session};
use weibo_client::sign::generate_s;
use weibo_client::transport::{Outcome, ReplyData};

fn empty_reply() -> ReplyData {
    ReplyData {
        msg: None,
        gsid: None,
        uid: None,
        screen_name: None,
        cookie: None,
        errmsg: None,
        errno: None,
        errtype: None,
        isblock: None,
    }
}

fn send_code_ok() -> Outcome {
    Outcome::Reply {
        status: 200,
        data: ReplyData { msg: Some("success".to_string()), ..empty_reply() },
    }
}

fn login_ok(gsid: &str, uid: &str, screen_name: &str) -> Outcome {
    Outcome::Reply {
        status: 200,
        data: ReplyData {
            gsid: Some(gsid.to_string()),
            uid: Some(uid.to_string()),
            screen_name: Some(screen_name.to_string()),
            cookie: Some(vec![(
                ".example.com".to_string(),
                "SUB=abc; path=/; secure".to_string(),
            )]),
            ..empty_reply()
        },
    }
}

fn api_error_reply() -> Outcome {
    Outcome::Reply {
        status: 200,
        data: ReplyData {
            errmsg: Some("invalid code".to_string()),
            errno: Some(-100),
            errtype: Some("error".to_string()),
            isblock: Some(false),
            ..empty_reply()
        },
    }
}

#[test]
fn test_get_send_code() {
    let chan = MockChannel::new(vec![send_code_ok()]);
    let mut api = ApiClient::new(chan, Conifg::default());
    let phone_number = "1234567890".to_string();
    api.get_sms_code(phone_number.clone()).unwrap();
    assert!(
        matches!(api.login_state(), LoginState::WaitingForCode { phone_number: num } if *num == phone_number)
    );
}

#[test]
fn test_login() {
    let chan = MockChannel::new(vec![login_ok("mock_gsid", "mock_uid", "mock_screen_name")]);
    let mut api = ApiClient {
        client: weibo_client::transport::Transport::new(chan),
        config: Conifg::default(),
        login_state: LoginState::WaitingForCode { phone_number: "1234567890".to_string() },
    };
    api.login("123456").unwrap();
    assert!(matches!(api.login_state(), LoginState::LoggedIn { .. }));
    let session = api.session().unwrap();
    assert_eq!(session.gsid, "mock_gsid");
    assert_eq!(session.uid, "mock_uid");
    assert_eq!(session.screen_name, "mock_screen_name");
}

#[test]
fn test_login_with_session() {
    let chan = MockChannel::new(vec![login_ok("new_gsid", "test_uid", "test_screen_name")]);
    let mut api = ApiClient::new(chan, Conifg::default());
    let old_session = Session {
        gsid: "old_gsid".to_string(),
        uid: "test_uid".to_string(),
        screen_name: "test_screen_name".to_string(),
        cookie_store: vec![],
    };
    api.login_with_session(old_session).unwrap();
    assert!(matches!(api.login_state(), LoginState::LoggedIn { .. }));
    assert_eq!(api.session().unwrap().gsid, "new_gsid");
    // The refresh payload carried the refresh tag and a fresh signature.
    let call = &api.client.channel.calls[0];
    let expected_sign = generate_s("test_uid", "12DC195010");
    assert!(call
        .params
        .iter()
        .any(|(k, v)| k == "from" && v == "1299295010"));
    assert!(call.params.iter().any(|(k, v)| k == "s" && *v == expected_sign));
    assert!(call.params.iter().any(|(k, v)| k == "gsid" && v == "old_gsid"));
}

#[test]
fn submit_code_from_init_fails_not_logged_in() {
    let chan = MockChannel::new(vec![login_ok("g", "u", "n")]);
    let mut api = ApiClient::new(chan, Conifg::default());
    let r = api.login("123456");
    assert_eq!(r, Err(Error::NotLoggedIn));
    assert!(matches!(api.login_state(), LoginState::Init));
    // No request went out.
    assert_eq!(api.client.channel.calls.len(), 0);
}

#[test]
fn login_with_session_outside_init_fails() {
    let chan = MockChannel::new(vec![send_code_ok()]);
    let mut api = ApiClient::new(chan, Conifg::default());
    api.get_sms_code("123".to_string()).unwrap();
    let session = Session {
        gsid: "g".to_string(),
        uid: "u".to_string(),
        screen_name: "n".to_string(),
        cookie_store: vec![],
    };
    let r = api.login_with_session(session);
    assert_eq!(r, Err(Error::NotLoggedIn));
    assert!(matches!(api.login_state(), LoginState::WaitingForCode { .. }));
}

#[test]
fn session_outside_logged_in_fails() {
    let chan = MockChannel::new(vec![]);
    let api = ApiClient::new(chan, Conifg::default());
    assert!(matches!(api.session(), Err(Error::NotLoggedIn)));
}

#[test]
fn send_code_error_payload_still_advances_state() {
    // The state moves to WaitingForCode on any structurally successful
    // response, before the payload is inspected; the failure payload is
    // still reported.
    let chan = MockChannel::new(vec![api_error_reply()]);
    let mut api = ApiClient::new(chan, Conifg::default());
    let r = api.get_sms_code("1234567890".to_string());
    match r {
        Err(Error::ApiError(e)) => {
            assert_eq!(e.errmsg, "invalid code");
            assert_eq!(e.errno, -100);
            assert_eq!(e.errtype, "error");
            assert!(!e.isblock);
        }
        other => panic!("expected ApiError, got {:?}", other),
    }
    assert!(matches!(api.login_state(), LoginState::WaitingForCode { .. }));
}

#[test]
fn login_error_payload_keeps_waiting() {
    let chan = MockChannel::new(vec![send_code_ok(), api_error_reply()]);
    let mut api = ApiClient::new(chan, Conifg::default());
    api.get_sms_code("1234567890".to_string()).unwrap();
    let r = api.login("000000");
    assert!(matches!(r, Err(Error::ApiError(_))));
    assert!(matches!(api.login_state(), LoginState::WaitingForCode { .. }));
}

#[test]
fn undecodable_login_reply_is_deserialization_error() {
    // Neither the success shape nor the failure shape.
    let bad = Outcome::Reply {
        status: 200,
        data: ReplyData { gsid: Some("g".to_string()), ..empty_reply() },
    };
    let chan = MockChannel::new(vec![send_code_ok(), bad]);
    let mut api = ApiClient::new(chan, Conifg::default());
    api.get_sms_code("1234567890".to_string()).unwrap();
    let r = api.login("123456");
    assert_eq!(r, Err(Error::DeserializationError));
    assert!(matches!(api.login_state(), LoginState::WaitingForCode { .. }));
}

#[test]
fn bad_cookie_in_login_reply_is_data_conversion_error() {
    let bad_jar = Outcome::Reply {
        status: 200,
        data: ReplyData {
            gsid: Some("g".to_string()),
            uid: Some("u".to_string()),
            screen_name: Some("n".to_string()),
            cookie: Some(vec![("example.com".to_string(), "not a cookie".to_string())]),
            ..empty_reply()
        },
    };
    let chan = MockChannel::new(vec![send_code_ok(), bad_jar]);
    let mut api = ApiClient::new(chan, Conifg::default());
    api.get_sms_code("1234567890".to_string()).unwrap();
    let r = api.login("123456");
    assert!(matches!(r, Err(Error::DataConversionError(_))));
    assert!(matches!(api.login_state(), LoginState::WaitingForCode { .. }));
}

#[test]
fn test_login_flow() {
    // End to end: request the code, submit it, persist the session, load it
    // back, and make an authenticated web-host call.
    let chan = MockChannel::new(vec![send_code_ok(), login_ok("g1", "u1", "n1"), send_code_ok()]);
    let mut api = ApiClient::new(chan, Conifg::default());

    api.get_sms_code("1234567890".to_string()).unwrap();
    assert!(
        matches!(api.login_state(), LoginState::WaitingForCode { phone_number } if phone_number == "1234567890")
    );

    api.login("123456").unwrap();
    let session = api.session().unwrap().clone();
    assert_eq!(session.gsid, "g1");
    assert_eq!(session.uid, "u1");
    assert_eq!(session.screen_name, "n1");
    assert_eq!(session.cookie_store.len(), 1);
    assert_eq!(session.cookie_store[0].name, "SUB");
    assert_eq!(session.cookie_store[0].domain, "example.com");

    // Save-then-load reproduces an equal session.
    let text = serialize_session(&session);
    let loaded = parse_session(&text).unwrap();
    assert_eq!(loaded, session);

    // The same web-host request that failed before login is now routed to
    // the web profile and carries the session's cookies.
    let web_calls_before = api.client.channel.calls.len();
    let r = api.client.get(&url_web_emoticon(), &vec![], 0);
    assert!(r.is_ok());
    let call = &api.client.channel.calls[web_calls_before];
    assert!(call.web);
    assert_eq!(call.cookies, session.cookie_store);
}

#[test]
fn web_call_before_login_fails() {
    let chan = MockChannel::new(vec![send_code_ok()]);
    let mut api = ApiClient::new(chan, Conifg::default());
    let r = api.client.get(&url_web_emoticon(), &vec![], 0);
    assert_eq!(r, Err(Error::NotLoggedIn));
    assert_eq!(api.client.channel.calls.len(), 0);
}

#[test]
fn from_session_is_logged_in_with_web_profile() {
    let session = Session {
        gsid: "g".to_string(),
        uid: "u".to_string(),
        screen_name: "n".to_string(),
        cookie_store: vec![],
    };
    let chan = MockChannel::new(vec![send_code_ok()]);
    let mut api = ApiClient::from_session(chan, session);
    assert!(matches!(api.login_state(), LoginState::LoggedIn { .. }));
    // The web profile is installed from the session's jar.
    let r = api.client.get(&url_web_emoticon(), &vec![], 0);
    assert!(r.is_ok());
    assert!(api.client.channel.calls[0].web);
}

#[test]
fn network_failure_leaves_state_alone() {
    let chan = MockChannel::new(vec![Outcome::Failed { reason: "unreachable".to_string() }]);
    let mut api = ApiClient::new(chan, Conifg::default());
    let r = api.get_sms_code("1234567890".to_string());
    assert_eq!(r, Err(Error::NetworkError("unreachable".to_string())));
    assert!(matches!(api.login_state(), LoginState::Init));
}

#[test]
fn io_error_is_its_own_variant() {
    // The persisted-session I/O edge reports this variant; it is distinct
    // from every protocol failure.
    let e = Error::IoError("disk full".to_string());
    assert!(!e.is_not_logged_in());
    assert_ne!(e, Error::NotLoggedIn);
    assert_ne!(e, Error::DeserializationError);
}
