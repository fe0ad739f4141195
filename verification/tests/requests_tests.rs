use weibo_client::requests::{
    build_common_params, container_id, emoji_params, favorites_destroy_params, favorites_params,
    profile_statuses_params, send_code_params, statuses_show_params, TimelineKind,
};
use weibo_client::sign::generate_s;

#[test]
fn common_params_are_the_fixed_set() {
    let p = build_common_params();
    assert_eq!(
        p,
        vec![
            ("c".to_string(), "weicoabroad".to_string()),
            ("from".to_string(), "12DC195010".to_string()),
            ("source".to_string(), "4215535043".to_string()),
            ("lang".to_string(), "zh_CN".to_string()),
            ("locale".to_string(), "zh_CN".to_string()),
            ("wm".to_string(), "2468_1001".to_string()),
            ("ua".to_string(), "HONOR-PGT-AN10_9_WeiboIntlAndroid_6710".to_string()),
        ]
    );
}

#[test]
fn send_code_params_append_the_phone() {
    let p = send_code_params(&"1234567890".to_string());
    assert_eq!(p.len(), 8);
    assert_eq!(p[7], ("phone".to_string(), "1234567890".to_string()));
}

#[test]
fn container_ids_encode_the_timeline_kind() {
    assert_eq!(
        container_id(12345, TimelineKind::All),
        "23041312345_-_WEIBO_SECOND_PROFILE_WEIBO"
    );
    assert_eq!(
        container_id(12345, TimelineKind::Original),
        "23041312345_-_WEIBO_SECOND_PROFILE_WEIBO_ORI"
    );
    assert_eq!(
        container_id(12345, TimelineKind::Picture),
        "23041312345_-_WEIBO_SECOND_PROFILE_WEIBO_PIC"
    );
    assert_eq!(
        container_id(12345, TimelineKind::Video),
        "23041312345_-_WEIBO_SECOND_PROFILE_WEIBO_VIDEO"
    );
    assert_eq!(
        container_id(1786055427, TimelineKind::Article),
        "2304131786055427_-_WEIBO_SECOND_PROFILE_WEIBO_ARTICAL"
    );
}

#[test]
fn signed_calls_carry_gsid_and_signature() {
    let gsid = "test_gsid".to_string();
    let uid = "1219658392".to_string();
    let p = favorites_params(&gsid, &uid, 1, 20);
    assert!(p.iter().any(|(k, v)| k == "gsid" && v == "test_gsid"));
    assert!(p.iter().any(|(k, v)| k == "s" && *v == generate_s("1219658392", "12DC195010")));
    assert!(p.iter().any(|(k, v)| k == "page" && v == "1"));
    assert!(p.iter().any(|(k, v)| k == "count" && v == "20"));
    assert!(p.iter().any(|(k, v)| k == "mix_media_enable" && v == "1"));
}

#[test]
fn destroy_and_show_name_the_item() {
    let gsid = "g".to_string();
    let uid = "7".to_string();
    let p = favorites_destroy_params(&gsid, &uid, -123);
    assert!(p.iter().any(|(k, v)| k == "id" && v == "-123"));
    let p = statuses_show_params(&gsid, &uid, 5179586393932632);
    assert!(p.iter().any(|(k, v)| k == "id" && v == "5179586393932632"));
    assert!(p.iter().any(|(k, v)| k == "isGetLongText" && v == "1"));
}

#[test]
fn profile_statuses_params_carry_the_container() {
    let gsid = "g".to_string();
    let uid = "7".to_string();
    let p = profile_statuses_params(&gsid, &uid, 1401527553, 2, 20, TimelineKind::Original);
    assert!(p.iter().any(|(k, v)| k == "uid" && v == "1401527553"));
    assert!(p.iter().any(|(k, v)| k == "page" && v == "2"));
    assert!(p
        .iter()
        .any(|(k, v)| k == "containerid" && v == "2304131401527553_-_WEIBO_SECOND_PROFILE_WEIBO_ORI"));
}

#[test]
fn emoji_params_are_stamped() {
    let p = emoji_params(1700000000123);
    assert!(p.iter().any(|(k, v)| k == "time" && v == "1700000000123"));
    assert!(p.iter().any(|(k, v)| k == "a" && v == "expression_all"));
    assert!(p.iter().any(|(k, v)| k == "version" && v == "6710"));
}
