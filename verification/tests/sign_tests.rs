use weibo_client::sign::generate_s;

#[test]
fn generate_s_test() {
    let from = "12DC195010";
    assert_eq!(generate_s("1219658392", from), "fb111111");
    assert_eq!(generate_s("1054595560", from), "23777777");
    assert_eq!(generate_s("1229101630", from), "37222222");
    assert_eq!(generate_s("1494639172", from), "77999999");
    assert_eq!(generate_s("1568849308", from), "7ceeeeee");
    assert_eq!(generate_s("1927972896", from), "92888888");
    assert_eq!(generate_s("1683934114", from), "b8888888");
    assert_eq!(generate_s("1982981009", from), "f5666666");
}

#[test]
fn generate_s_is_pure() {
    let a = generate_s("1219658392", "12DC195010");
    let b = generate_s("1219658392", "12DC195010");
    assert_eq!(a, b);
    assert_eq!(a.len(), 8);
}

#[test]
fn generate_s_depends_on_both_arguments() {
    let base = generate_s("1219658392", "12DC195010");
    assert_ne!(generate_s("1219658393", "12DC195010"), base);
}
