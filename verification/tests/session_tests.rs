use weibo_client::cookie::{Cookie, SameSite, translate};
use weibo_client::errors::Error;
use weibo_client::session::{parse_session, serialize_session, Session};

fn sample_cookie() -> Cookie {
    Cookie {
        name: "SUB".to_string(),
        value: "ab=c;d\nweird".to_string(),
        domain: "example.com".to_string(),
        path: "/".to_string(),
        expires: Some(1893456000),
        secure: true,
        http_only: true,
        same_site: Some(SameSite::Lax),
        partitioned: false,
    }
}

#[test]
fn session_round_trip() {
    let session = Session {
        gsid: "g1".to_string(),
        uid: "u1".to_string(),
        screen_name: "n1".to_string(),
        cookie_store: vec![
            sample_cookie(),
            Cookie {
                name: "S2".to_string(),
                value: String::new(),
                domain: "sso.example.com".to_string(),
                path: "/login".to_string(),
                expires: None,
                secure: false,
                http_only: false,
                same_site: None,
                partitioned: true,
            },
        ],
    };
    let text = serialize_session(&session);
    let loaded = parse_session(&text).unwrap();
    assert_eq!(loaded, session);
}

#[test]
fn empty_jar_round_trip() {
    let session = Session {
        gsid: String::new(),
        uid: "12345".to_string(),
        screen_name: "name with spaces".to_string(),
        cookie_store: vec![],
    };
    let text = serialize_session(&session);
    let loaded = parse_session(&text).unwrap();
    assert_eq!(loaded, session);
}

#[test]
fn translated_jar_round_trips() {
    // A jar as the translator produces it survives persisting unchanged.
    let raw = vec![(
        ".example.com".to_string(),
        "SUB=abc; expires=Tue, 01-Jan-2030 00:00:00 GMT; secure; SameSite=Strict\nALF=x; Max-Age=86400; partitioned".to_string(),
    )];
    let jar = translate(&raw, 1700000000).unwrap();
    let session = Session {
        gsid: "g".to_string(),
        uid: "u".to_string(),
        screen_name: "n".to_string(),
        cookie_store: jar,
    };
    let loaded = parse_session(&serialize_session(&session)).unwrap();
    assert_eq!(loaded, session);
}

#[test]
fn corrupt_documents_are_rejected() {
    assert_eq!(parse_session(""), Err(Error::DeserializationError));
    assert_eq!(parse_session("garbage"), Err(Error::DeserializationError));
    assert_eq!(
        parse_session("gsid:2:g1\nuid:2:u1\n"),
        Err(Error::DeserializationError)
    );
    // A well-formed document with trailing junk is rejected too.
    let good = serialize_session(&Session {
        gsid: "g".to_string(),
        uid: "u".to_string(),
        screen_name: "n".to_string(),
        cookie_store: vec![],
    });
    let mut bad = good.clone();
    bad.push('x');
    assert!(parse_session(&good).is_ok());
    assert_eq!(parse_session(&bad), Err(Error::DeserializationError));
}

#[test]
fn truncated_document_is_rejected() {
    let good = serialize_session(&Session {
        gsid: "g".to_string(),
        uid: "u".to_string(),
        screen_name: "n".to_string(),
        cookie_store: vec![sample_cookie()],
    });
    let cut: String = good.chars().take(good.chars().count() - 5).collect();
    assert_eq!(parse_session(&cut), Err(Error::DeserializationError));
}
