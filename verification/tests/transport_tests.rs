use weibo_client::errors::Error;
use weibo_client::mock::MockChannel;
use weibo_client::requests::{url_send_code, url_web_emoticon};
use weibo_client::transport::{is_web_url, Outcome, ReplyData, Transport};

fn empty_reply() -> ReplyData {
    ReplyData {
        msg: None,
        gsid: None,
        uid: None,
        screen_name: None,
        cookie: None,
        errmsg: None,
        errno: None,
        errtype: None,
        isblock: None,
    }
}

fn ok_reply() -> Outcome {
    Outcome::Reply {
        status: 200,
        data: ReplyData { msg: Some("success".to_string()), ..empty_reply() },
    }
}

#[test]
fn retry_succeeds_when_budget_covers_timeouts() {
    // Times out exactly twice, then succeeds: a budget of two retries makes
    // exactly three attempts and succeeds.
    let chan = MockChannel::new(vec![Outcome::TimedOut, Outcome::TimedOut, ok_reply()]);
    let mut t = Transport::new(chan);
    let r = t.get(&url_send_code(), &vec![], 2);
    assert!(r.is_ok());
    assert_eq!(t.channel.calls.len(), 3);
}

#[test]
fn retry_exhausts_when_budget_is_short() {
    // Times out twice, but the budget allows only one retry: exactly two
    // attempts, and the timeout error.
    let chan = MockChannel::new(vec![Outcome::TimedOut, Outcome::TimedOut, ok_reply()]);
    let mut t = Transport::new(chan);
    let r = t.get(&url_send_code(), &vec![], 1);
    assert_eq!(r, Err(Error::NetworkError("request timed out".to_string())));
    assert_eq!(t.channel.calls.len(), 2);
}

#[test]
fn zero_budget_means_one_attempt() {
    let chan = MockChannel::new(vec![Outcome::TimedOut]);
    let mut t = Transport::new(chan);
    let r = t.post(&url_send_code(), &vec![], 0);
    assert_eq!(r, Err(Error::NetworkError("request timed out".to_string())));
    assert_eq!(t.channel.calls.len(), 1);
}

#[test]
fn non_timeout_failures_are_not_retried() {
    let chan = MockChannel::new(vec![
        Outcome::Failed { reason: "connection refused".to_string() },
        ok_reply(),
    ]);
    let mut t = Transport::new(chan);
    let r = t.get(&url_send_code(), &vec![], 5);
    assert_eq!(r, Err(Error::NetworkError("connection refused".to_string())));
    assert_eq!(t.channel.calls.len(), 1);
}

#[test]
fn non_2xx_statuses_are_not_retried() {
    let chan = MockChannel::new(vec![
        Outcome::Reply { status: 500, data: empty_reply() },
        ok_reply(),
    ]);
    let mut t = Transport::new(chan);
    let r = t.get(&url_send_code(), &vec![], 5);
    assert_eq!(r, Err(Error::HttpStatusError(500)));
    assert_eq!(t.channel.calls.len(), 1);
}

#[test]
fn routing_is_a_pure_function_of_the_url() {
    assert!(is_web_url(&"https://weibo.com/l/api/emoticones".to_string()));
    assert!(is_web_url(&"http://weibo.com".to_string()));
    assert!(is_web_url(&"https://weibo.com:443/x".to_string()));
    assert!(!is_web_url(&"https://api.weibo.cn/2/account/login".to_string()));
    assert!(!is_web_url(&"https://www.weibo.com/".to_string()));
    assert!(!is_web_url(&"weibo.com".to_string()));
}

#[test]
fn web_host_needs_installed_profile() {
    // A web-host request before any login: refused without an attempt.
    let chan = MockChannel::new(vec![ok_reply()]);
    let mut t = Transport::new(chan);
    let r = t.get(&url_web_emoticon(), &vec![], 3);
    assert_eq!(r, Err(Error::NotLoggedIn));
    assert_eq!(t.channel.calls.len(), 0);

    // A mobile-host request works without one.
    let r = t.get(&url_send_code(), &vec![], 3);
    assert!(r.is_ok());
    assert_eq!(t.channel.calls.len(), 1);
    assert!(!t.channel.calls[0].web);
    assert!(t.channel.calls[0].cookies.is_empty());
}
