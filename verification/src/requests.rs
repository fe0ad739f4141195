//! The request shapes: every endpoint's URL and parameter list. Session-bound
//! requests carry the grant token and a freshly computed signature.

use vstd::prelude::*;
use vstd::string::StringSliceAdditionalSpecFns;

use crate::cookie::entries_view;
use crate::sign::{generate_s, spec_sign};
use crate::strutil::{digits_of, digits_exec, chars_to_string};

verus! {

pub open spec fn spec_url_send_code() -> Seq<char> {
    "https://api.weibo.cn/2/account/login_sendcode"@
}

pub fn url_send_code() -> (r: String)
    ensures
        r@ == spec_url_send_code(),
{
    "https://api.weibo.cn/2/account/login_sendcode".to_owned()
}

pub open spec fn spec_url_login() -> Seq<char> {
    "https://api.weibo.cn/2/account/login"@
}

pub fn url_login() -> (r: String)
    ensures
        r@ == spec_url_login(),
{
    "https://api.weibo.cn/2/account/login".to_owned()
}

pub open spec fn spec_url_favorites() -> Seq<char> {
    "https://api.weibo.cn/2/favorites"@
}

pub fn url_favorites() -> (r: String)
    ensures
        r@ == spec_url_favorites(),
{
    "https://api.weibo.cn/2/favorites".to_owned()
}

pub open spec fn spec_url_favorites_destroy() -> Seq<char> {
    "https://api.weibo.cn/2/favorites/destroy"@
}

pub fn url_favorites_destroy() -> (r: String)
    ensures
        r@ == spec_url_favorites_destroy(),
{
    "https://api.weibo.cn/2/favorites/destroy".to_owned()
}

pub open spec fn spec_url_statuses_show() -> Seq<char> {
    "https://api.weibo.cn/2/statuses/show"@
}

pub fn url_statuses_show() -> (r: String)
    ensures
        r@ == spec_url_statuses_show(),
{
    "https://api.weibo.cn/2/statuses/show".to_owned()
}

pub open spec fn spec_url_profile_statuses() -> Seq<char> {
    "https://api.weibo.cn/2/profile/statuses"@
}

pub fn url_profile_statuses() -> (r: String)
    ensures
        r@ == spec_url_profile_statuses(),
{
    "https://api.weibo.cn/2/profile/statuses".to_owned()
}

pub open spec fn spec_url_emoji_update() -> Seq<char> {
    "https://api.weibo.cn/2/!/emotions/update"@
}

pub fn url_emoji_update() -> (r: String)
    ensures
        r@ == spec_url_emoji_update(),
{
    "https://api.weibo.cn/2/!/emotions/update".to_owned()
}

pub open spec fn spec_url_web_emoticon() -> Seq<char> {
    "https://weibo.com/l/api/emoticones"@
}

pub fn url_web_emoticon() -> (r: String)
    ensures
        r@ == spec_url_web_emoticon(),
{
    "https://weibo.com/l/api/emoticones".to_owned()
}

/// The fixed "from" tag of the mobile client.
pub open spec fn spec_from_tag() -> Seq<char> {
    "12DC195010"@
}

/// The "from" tag that marks a session refresh.
pub open spec fn spec_session_refresh_from() -> Seq<char> {
    "1299295010"@
}

/// The signature the service expects for an account identifier, under the
/// fixed "from" tag.
pub open spec fn spec_account_sign(uid: Seq<char>) -> Seq<char> {
    spec_sign(vstd::utf8::encode_utf8(uid), "12DC195010".spec_bytes())
}

/// Computes the `s` parameter for an account identifier.
pub fn account_sign(uid: &String) -> (r: String)
    ensures
        r@ == spec_account_sign(uid@),
{
    generate_s(uid.as_str(), "12DC195010")
}

/// The common parameter set every request carries: client tag, device/app
/// tag, source tag, language and locale tags.
pub open spec fn spec_common_params() -> Seq<(Seq<char>, Seq<char>)> {
    seq![
        ("c"@, "weicoabroad"@),
        ("from"@, "12DC195010"@),
        ("source"@, "4215535043"@),
        ("lang"@, "zh_CN"@),
        ("locale"@, "zh_CN"@),
        ("wm"@, "2468_1001"@),
        ("ua"@, "HONOR-PGT-AN10_9_WeiboIntlAndroid_6710"@),
    ]
}

pub fn build_common_params() -> (r: Vec<(String, String)>)
    ensures
        entries_view(r@) == spec_common_params(),
{
    let mut r: Vec<(String, String)> = Vec::new();
    r.push(("c".to_owned(), "weicoabroad".to_owned()));
    r.push(("from".to_owned(), "12DC195010".to_owned()));
    r.push(("source".to_owned(), "4215535043".to_owned()));
    r.push(("lang".to_owned(), "zh_CN".to_owned()));
    r.push(("locale".to_owned(), "zh_CN".to_owned()));
    r.push(("wm".to_owned(), "2468_1001".to_owned()));
    r.push(("ua".to_owned(), "HONOR-PGT-AN10_9_WeiboIntlAndroid_6710".to_owned()));
    proof {
        assert(entries_view(r@) =~= spec_common_params());
    }
    r
}

/// The code-request payload: the common set and the phone number.
pub open spec fn spec_send_code_params(phone: Seq<char>) -> Seq<(Seq<char>, Seq<char>)> {
    spec_common_params() + seq![("phone"@, phone)]
}

pub fn send_code_params(phone: &String) -> (r: Vec<(String, String)>)
    ensures
        entries_view(r@) == spec_send_code_params(phone@),
{
    let mut r = build_common_params();
    r.push(("phone".to_owned(), phone.clone()));
    proof {
        assert(entries_view(r@) =~= spec_send_code_params(phone@));
    }
    r
}

/// The SMS login payload: the retained phone number and the code.
pub open spec fn spec_sms_login_params(phone: Seq<char>, code: Seq<char>) -> Seq<
    (Seq<char>, Seq<char>),
> {
    seq![
        ("c"@, "weicoabroad"@),
        ("lang"@, "zh_CN"@),
        ("getuser"@, "1"@),
        ("getoauth"@, "1"@),
        ("getcookie"@, "1"@),
        ("phone"@, phone),
        ("smscode"@, code),
    ]
}

pub fn sms_login_params(phone: &String, code: &str) -> (r: Vec<(String, String)>)
    ensures
        entries_view(r@) == spec_sms_login_params(phone@, code@),
{
    let mut r: Vec<(String, String)> = Vec::new();
    r.push(("c".to_owned(), "weicoabroad".to_owned()));
    r.push(("lang".to_owned(), "zh_CN".to_owned()));
    r.push(("getuser".to_owned(), "1".to_owned()));
    r.push(("getoauth".to_owned(), "1".to_owned()));
    r.push(("getcookie".to_owned(), "1".to_owned()));
    r.push(("phone".to_owned(), phone.clone()));
    r.push(("smscode".to_owned(), code.to_owned()));
    proof {
        assert(entries_view(r@) =~= spec_sms_login_params(phone@, code@));
    }
    r
}

/// The session-refresh payload: the prior identity, the refresh "from" tag,
/// and a freshly computed signature over the account identifier.
pub open spec fn spec_refresh_params(gsid: Seq<char>, uid: Seq<char>) -> Seq<
    (Seq<char>, Seq<char>),
> {
    seq![
        ("c"@, "weicoabroad"@),
        ("lang"@, "zh_CN"@),
        ("getuser"@, "1"@),
        ("getoauth"@, "1"@),
        ("getcookie"@, "1"@),
        ("gsid"@, gsid),
        ("uid"@, uid),
        ("from"@, "1299295010"@),
        ("s"@, spec_account_sign(uid)),
    ]
}

pub fn refresh_params(gsid: &String, uid: &String) -> (r: Vec<(String, String)>)
    ensures
        entries_view(r@) == spec_refresh_params(gsid@, uid@),
{
    let mut r: Vec<(String, String)> = Vec::new();
    r.push(("c".to_owned(), "weicoabroad".to_owned()));
    r.push(("lang".to_owned(), "zh_CN".to_owned()));
    r.push(("getuser".to_owned(), "1".to_owned()));
    r.push(("getoauth".to_owned(), "1".to_owned()));
    r.push(("getcookie".to_owned(), "1".to_owned()));
    r.push(("gsid".to_owned(), gsid.clone()));
    r.push(("uid".to_owned(), uid.clone()));
    r.push(("from".to_owned(), "1299295010".to_owned()));
    r.push(("s".to_owned(), account_sign(uid)));
    proof {
        assert(entries_view(r@) =~= spec_refresh_params(gsid@, uid@));
    }
    r
}

/// A non-negative number rendered in decimal.
pub fn u64_string(n: u64) -> (r: String)
    ensures
        r@ == digits_of(n as int),
{
    let d = digits_exec(n);
    chars_to_string(&d)
}

/// A signed number rendered in decimal.
pub open spec fn spec_i64_str(n: int) -> Seq<char> {
    if n < 0 {
        seq!['-'] + digits_of(-n)
    } else {
        digits_of(n)
    }
}

pub fn i64_string(n: i64) -> (r: String)
    ensures
        r@ == spec_i64_str(n as int),
{
    if n < 0 {
        let mag: u64 = (-(n as i128)) as u64;
        let d = digits_exec(mag);
        let mut v: Vec<char> = Vec::new();
        v.push('-');
        let mut i: usize = 0;
        while i < d.len()
            invariant
                i <= d@.len(),
                v@ == seq!['-'] + d@.take(i as int),
            decreases d@.len() - i,
        {
            v.push(d[i]);
            i = i + 1;
            proof {
                assert(v@ =~= seq!['-'] + d@.take(i as int));
            }
        }
        proof {
            assert(d@.take(d@.len() as int) =~= d@);
            assert(v@ =~= spec_i64_str(n as int));
        }
        chars_to_string(&v)
    } else {
        let d = digits_exec(n as u64);
        chars_to_string(&d)
    }
}

/// The common parameters of a session-bound, signed call.
pub open spec fn spec_signed_params(gsid: Seq<char>, uid: Seq<char>) -> Seq<
    (Seq<char>, Seq<char>),
> {
    spec_common_params() + seq![("gsid"@, gsid), ("s"@, spec_account_sign(uid))]
}

pub fn signed_params(gsid: &String, uid: &String) -> (r: Vec<(String, String)>)
    ensures
        entries_view(r@) == spec_signed_params(gsid@, uid@),
{
    let mut r = build_common_params();
    r.push(("gsid".to_owned(), gsid.clone()));
    r.push(("s".to_owned(), account_sign(uid)));
    proof {
        assert(entries_view(r@) =~= spec_signed_params(gsid@, uid@));
    }
    r
}

/// The favorites-list request: a signed call with page and page size.
pub open spec fn spec_favorites_params(gsid: Seq<char>, uid: Seq<char>, page: u32, count: u8) -> Seq<
    (Seq<char>, Seq<char>),
> {
    spec_signed_params(gsid, uid) + seq![
        ("page"@, digits_of(page as int)),
        ("count"@, digits_of(count as int)),
        ("mix_media_enable"@, "1"@),
    ]
}

pub fn favorites_params(gsid: &String, uid: &String, page: u32, count: u8) -> (r: Vec<
    (String, String),
>)
    ensures
        entries_view(r@) == spec_favorites_params(gsid@, uid@, page, count),
{
    let mut r = signed_params(gsid, uid);
    r.push(("page".to_owned(), u64_string(page as u64)));
    r.push(("count".to_owned(), u64_string(count as u64)));
    r.push(("mix_media_enable".to_owned(), "1".to_owned()));
    proof {
        assert(entries_view(r@) =~= spec_favorites_params(gsid@, uid@, page, count));
    }
    r
}

/// The favorites-destroy request: a signed call naming the item.
pub open spec fn spec_favorites_destroy_params(gsid: Seq<char>, uid: Seq<char>, id: int) -> Seq<
    (Seq<char>, Seq<char>),
> {
    spec_signed_params(gsid, uid) + seq![("id"@, spec_i64_str(id))]
}

pub fn favorites_destroy_params(gsid: &String, uid: &String, id: i64) -> (r: Vec<(String, String)>)
    ensures
        entries_view(r@) == spec_favorites_destroy_params(gsid@, uid@, id as int),
{
    let mut r = signed_params(gsid, uid);
    r.push(("id".to_owned(), i64_string(id)));
    proof {
        assert(entries_view(r@) =~= spec_favorites_destroy_params(gsid@, uid@, id as int));
    }
    r
}

/// The show-status request, asking for the expanded long text.
pub open spec fn spec_statuses_show_params(gsid: Seq<char>, uid: Seq<char>, id: int) -> Seq<
    (Seq<char>, Seq<char>),
> {
    spec_signed_params(gsid, uid) + seq![("id"@, spec_i64_str(id)), ("isGetLongText"@, "1"@)]
}

pub fn statuses_show_params(gsid: &String, uid: &String, id: i64) -> (r: Vec<(String, String)>)
    ensures
        entries_view(r@) == spec_statuses_show_params(gsid@, uid@, id as int),
{
    let mut r = signed_params(gsid, uid);
    r.push(("id".to_owned(), i64_string(id)));
    r.push(("isGetLongText".to_owned(), "1".to_owned()));
    proof {
        assert(entries_view(r@) =~= spec_statuses_show_params(gsid@, uid@, id as int));
    }
    r
}

/// Which timeline subset a profile-timeline request asks for.
#[derive(Debug, Clone, Copy, PartialEq, Eq, Structural)]
pub enum TimelineKind {
    All,
    Original,
    Picture,
    Video,
    Article,
}

/// The container id encoding a timeline subset for an account.
pub open spec fn spec_container_id(uid: int, kind: TimelineKind) -> Seq<char> {
    "230413"@ + spec_i64_str(uid) + "_-_WEIBO_SECOND_PROFILE_WEIBO"@ + match kind {
        TimelineKind::All => Seq::<char>::empty(),
        TimelineKind::Original => "_ORI"@,
        TimelineKind::Picture => "_PIC"@,
        TimelineKind::Video => "_VIDEO"@,
        TimelineKind::Article => "_ARTICAL"@,
    }
}

pub fn container_id(uid: i64, kind: TimelineKind) -> (r: String)
    ensures
        r@ == spec_container_id(uid as int, kind),
{
    let mut s = String::new();
    s.append("230413");
    let num = i64_string(uid);
    s.append(num.as_str());
    s.append("_-_WEIBO_SECOND_PROFILE_WEIBO");
    match kind {
        TimelineKind::All => {
            proof {
                assert(s@ =~= spec_container_id(uid as int, kind));
            }
        },
        TimelineKind::Original => {
            s.append("_ORI");
            proof {
                assert(s@ =~= spec_container_id(uid as int, kind));
            }
        },
        TimelineKind::Picture => {
            s.append("_PIC");
            proof {
                assert(s@ =~= spec_container_id(uid as int, kind));
            }
        },
        TimelineKind::Video => {
            s.append("_VIDEO");
            proof {
                assert(s@ =~= spec_container_id(uid as int, kind));
            }
        },
        TimelineKind::Article => {
            s.append("_ARTICAL");
            proof {
                assert(s@ =~= spec_container_id(uid as int, kind));
            }
        },
    }
    s
}

/// The profile-timeline request: a signed call with the target account, the
/// page, the page size, and the container id of the wanted subset.
pub open spec fn spec_profile_statuses_params(
    gsid: Seq<char>,
    uid: Seq<char>,
    target: int,
    page: u32,
    count: u8,
    kind: TimelineKind,
) -> Seq<(Seq<char>, Seq<char>)> {
    spec_signed_params(gsid, uid) + seq![
        ("uid"@, spec_i64_str(target)),
        ("page"@, digits_of(page as int)),
        ("count"@, digits_of(count as int)),
        ("mix_media_enable"@, "1"@),
        ("containerid"@, spec_container_id(target, kind)),
    ]
}

pub fn profile_statuses_params(
    gsid: &String,
    uid: &String,
    target: i64,
    page: u32,
    count: u8,
    kind: TimelineKind,
) -> (r: Vec<(String, String)>)
    ensures
        entries_view(r@) == spec_profile_statuses_params(gsid@, uid@, target as int, page, count, kind),
{
    let mut r = signed_params(gsid, uid);
    r.push(("uid".to_owned(), i64_string(target)));
    r.push(("page".to_owned(), u64_string(page as u64)));
    r.push(("count".to_owned(), u64_string(count as u64)));
    r.push(("mix_media_enable".to_owned(), "1".to_owned()));
    r.push(("containerid".to_owned(), container_id(target, kind)));
    proof {
        assert(entries_view(r@) =~= spec_profile_statuses_params(
            gsid@,
            uid@,
            target as int,
            page,
            count,
            kind,
        ));
    }
    r
}

/// The mobile emoji-table request, stamped with the current time.
pub open spec fn spec_emoji_params(now_millis: u64) -> Seq<(Seq<char>, Seq<char>)> {
    seq![
        ("ct"@, "util"@),
        ("a"@, "expression_all"@),
        ("user_id"@, "0"@),
        ("time"@, digits_of(now_millis as int)),
        ("ua"@, "HONOR-PGT-AN10_9_WeiboIntlAndroid_6710"@),
        ("lang"@, "zh_CN"@),
        ("version"@, "6710"@),
    ]
}

pub fn emoji_params(now_millis: u64) -> (r: Vec<(String, String)>)
    ensures
        entries_view(r@) == spec_emoji_params(now_millis),
{
    let mut r: Vec<(String, String)> = Vec::new();
    r.push(("ct".to_owned(), "util".to_owned()));
    r.push(("a".to_owned(), "expression_all".to_owned()));
    r.push(("user_id".to_owned(), "0".to_owned()));
    r.push(("time".to_owned(), u64_string(now_millis)));
    r.push(("ua".to_owned(), "HONOR-PGT-AN10_9_WeiboIntlAndroid_6710".to_owned()));
    r.push(("lang".to_owned(), "zh_CN".to_owned()));
    r.push(("version".to_owned(), "6710".to_owned()));
    proof {
        assert(entries_view(r@) =~= spec_emoji_params(now_millis));
    }
    r
}

} // verus!
