//! The transport: every request goes to one of two client profiles — the
//! mobile profile, or the cookie-bearing web profile for the web host — and
//! a timed-out attempt is retried up to the caller's budget. Any other
//! failure, and any non-2xx status, returns at once.

use vstd::prelude::*;

use crate::cookie::{Cookie, CookieModel, jar_view, entries_view};
use crate::errors::Error;
use crate::strutil::{first_index_of, lemma_first_index_of, find_char, subvec};

verus! {

/// The flat shape of a reply body, after JSON decoding: the fields of the
/// success shapes of the code-request and login endpoints, and of the
/// service's failure shape. Absent fields are `None`.
#[derive(Debug, Clone, PartialEq, Eq)]
pub struct ReplyData {
    pub msg: Option<String>,
    pub gsid: Option<String>,
    pub uid: Option<String>,
    pub screen_name: Option<String>,
    pub cookie: Option<Vec<(String, String)>>,
    pub errmsg: Option<String>,
    pub errno: Option<i32>,
    pub errtype: Option<String>,
    pub isblock: Option<bool>,
}

/// The mathematical shape of a reply body.
#[verifier::ext_equal]
pub ghost struct ReplyModel {
    pub msg: Option<Seq<char>>,
    pub gsid: Option<Seq<char>>,
    pub uid: Option<Seq<char>>,
    pub screen_name: Option<Seq<char>>,
    pub cookie: Option<Seq<(Seq<char>, Seq<char>)>>,
    pub errmsg: Option<Seq<char>>,
    pub errno: Option<i32>,
    pub errtype: Option<Seq<char>>,
    pub isblock: Option<bool>,
}

pub open spec fn opt_str_view(o: Option<String>) -> Option<Seq<char>> {
    match o {
        Some(s) => Some(s@),
        None => None,
    }
}

pub open spec fn opt_entries_view(o: Option<Vec<(String, String)>>) -> Option<
    Seq<(Seq<char>, Seq<char>)>,
> {
    match o {
        Some(v) => Some(entries_view(v@)),
        None => None,
    }
}

impl View for ReplyData {
    type V = ReplyModel;

    open spec fn view(&self) -> ReplyModel {
        ReplyModel {
            msg: opt_str_view(self.msg),
            gsid: opt_str_view(self.gsid),
            uid: opt_str_view(self.uid),
            screen_name: opt_str_view(self.screen_name),
            cookie: opt_entries_view(self.cookie),
            errmsg: opt_str_view(self.errmsg),
            errno: self.errno,
            errtype: opt_str_view(self.errtype),
            isblock: self.isblock,
        }
    }
}

#[derive(Debug, Clone, Copy, PartialEq, Eq, Structural)]
pub enum Method {
    Get,
    Post,
}

/// What one attempt over the wire came to.
#[derive(Debug, Clone, PartialEq, Eq)]
pub enum Outcome {
    /// A response arrived, with its status and decoded body.
    Reply { status: u16, data: ReplyData },
    /// The attempt timed out.
    TimedOut,
    /// The attempt failed some other way.
    Failed { reason: String },
}

#[verifier::ext_equal]
pub ghost enum OutcomeModel {
    Reply { status: u16, data: ReplyModel },
    TimedOut,
    Failed { reason: Seq<char> },
}

impl View for Outcome {
    type V = OutcomeModel;

    open spec fn view(&self) -> OutcomeModel {
        match self {
            Outcome::Reply { status, data } => OutcomeModel::Reply {
                status: *status,
                data: data@,
            },
            Outcome::TimedOut => OutcomeModel::TimedOut,
            Outcome::Failed { reason } => OutcomeModel::Failed { reason: reason@ },
        }
    }
}

/// One call as a channel saw it: what was sent, and what came of it.
#[verifier::ext_equal]
pub ghost struct CallRecord {
    pub method: Method,
    pub url: Seq<char>,
    pub params: Seq<(Seq<char>, Seq<char>)>,
    pub web: bool,
    pub cookies: Seq<CookieModel>,
    pub outcome: OutcomeModel,
}

/// One attempt over the wire. A channel remembers every call it made; each
/// `attempt` appends exactly one record.
pub trait HttpChannel: Sized {
    spec fn log(&self) -> Seq<CallRecord>;

    fn attempt(
        &mut self,
        method: Method,
        url: &String,
        params: &Vec<(String, String)>,
        web: bool,
        cookies: &Vec<Cookie>,
    ) -> (r: Outcome)
        ensures
            final(self).log() == old(self).log().push(
                CallRecord {
                    method,
                    url: url@,
                    params: entries_view(params@),
                    web,
                    cookies: jar_view(cookies@),
                    outcome: r@,
                },
            ),
    ;
}

// ---------------------------------------------------------------------------
// Routing
// ---------------------------------------------------------------------------

/// The host of a URL: what stands between `://` and the next `/`, `:` or
/// `?`; empty when the URL has no `://`.
pub open spec fn spec_url_host(url: Seq<char>) -> Seq<char> {
    let i = first_index_of(url, ':');
    if i + 3 <= url.len() && url[i + 1] == '/' && url[i + 2] == '/' {
        let rest = url.skip(i + 3);
        rest.take(host_end(rest))
    } else {
        Seq::empty()
    }
}

/// Where a host part ends: at the first `/`, `:` or `?`.
pub open spec fn host_end(rest: Seq<char>) -> int {
    min3(first_index_of(rest, '/'), first_index_of(rest, ':'), first_index_of(rest, '?'))
}

pub open spec fn min3(a: int, b: int, c: int) -> int {
    if a <= b && a <= c {
        a
    } else if b <= c {
        b
    } else {
        c
    }
}

/// The designated web host.
pub open spec fn web_host() -> Seq<char> {
    seq!['w', 'e', 'i', 'b', 'o', '.', 'c', 'o', 'm']
}

/// Whether a URL routes to the web profile.
pub open spec fn spec_is_web_url(url: Seq<char>) -> bool {
    spec_url_host(url) == web_host()
}

/// The routing decision, as a pure function of the URL.
pub fn is_web_url(url: &String) -> (r: bool)
    ensures
        r == spec_is_web_url(url@),
{
    let v = crate::strutil::str_to_chars(url.as_str());
    let n = v.len();
    let i = find_char(&v, ':');
    if !(n >= 3 && i <= n - 3 && v[i + 1] == '/' && v[i + 2] == '/') {
        proof {
            assert(spec_url_host(url@) =~= Seq::<char>::empty());
            assert(web_host().len() == 9);
        }
        return false;
    }
    let rest = subvec(&v, i + 3, v.len());
    proof {
        assert(rest@ =~= v@.skip(i + 3));
    }
    let e1 = find_char(&rest, '/');
    let e2 = find_char(&rest, ':');
    let e3 = find_char(&rest, '?');
    let end = if e1 <= e2 && e1 <= e3 {
        e1
    } else if e2 <= e3 {
        e2
    } else {
        e3
    };
    proof {
        assert(end == host_end(rest@));
        lemma_first_index_of(rest@, '/');
    }
    let host = subvec(&rest, 0, end);
    proof {
        assert(host@ =~= spec_url_host(url@));
    }
    let r = host.len() == 9 && host[0] == 'w' && host[1] == 'e' && host[2] == 'i' && host[3] == 'b'
        && host[4] == 'o' && host[5] == '.' && host[6] == 'c' && host[7] == 'o' && host[8] == 'm';
    proof {
        if r {
            assert(host@ =~= web_host());
        } else {
            assert(web_host().len() == 9);
            assert(host@ != web_host());
        }
    }
    r
}

// ---------------------------------------------------------------------------
// The retrying transport
// ---------------------------------------------------------------------------

/// What every record of one request's attempts must say: the right request,
/// the right profile, and the session's cookies exactly when the web profile
/// served it.
pub open spec fn record_matches(
    rec: CallRecord,
    method: Method,
    url: Seq<char>,
    params: Seq<(Seq<char>, Seq<char>)>,
    web: bool,
    cookies: Seq<CookieModel>,
) -> bool {
    &&& rec.method == method
    &&& rec.url == url
    &&& rec.params == params
    &&& rec.web == web
    &&& rec.cookies == cookies
}

pub open spec fn timeout_reason() -> Seq<char> {
    "request timed out"@
}

/// The retry discipline over the records one request appended: every attempt
/// but the last timed out; a final timeout means the budget was spent and a
/// `NetworkError`; any other failure and any non-2xx status return at once;
/// a 2xx reply is the result.
pub open spec fn retry_outcome_ok(
    news: Seq<CallRecord>,
    max_retries: u8,
    r: Result<ReplyData, Error>,
) -> bool {
    &&& 1 <= news.len() <= max_retries + 1
    &&& forall|i: int| 0 <= i < news.len() - 1 ==> (#[trigger] news[i].outcome) is TimedOut
    &&& match news.last().outcome {
        OutcomeModel::TimedOut => news.len() == max_retries + 1 && (r matches Err(e) && e matches
            Error::NetworkError(m)
            && m@ == timeout_reason()),
        OutcomeModel::Failed { reason } => r matches Err(e) && e matches Error::NetworkError(m)
            && m@ == reason,
        OutcomeModel::Reply { status, data } => if 200 <= status < 300 {
            r matches Ok(d) && d@ == data
        } else {
            r == Err::<ReplyData, Error>(Error::HttpStatusError(status))
        },
    }
}

/// The full postcondition of one transport request against the channel log.
pub open spec fn transport_post(
    old_log: Seq<CallRecord>,
    new_log: Seq<CallRecord>,
    method: Method,
    url: Seq<char>,
    params: Seq<(Seq<char>, Seq<char>)>,
    web: bool,
    cookies: Seq<CookieModel>,
    max_retries: u8,
    r: Result<ReplyData, Error>,
) -> bool {
    &&& new_log.len() > old_log.len()
    &&& new_log.take(old_log.len() as int) == old_log
    &&& retry_outcome_ok(new_log.skip(old_log.len() as int), max_retries, r)
    &&& forall|i: int|
        old_log.len() <= i < new_log.len() ==> record_matches(
            #[trigger] new_log[i],
            method,
            url,
            params,
            web,
            cookies,
        )
}

/// The dual-profile transport over a channel. The web profile is installed
/// exactly once per login or refresh, from the jar that login produced; no
/// web-host request is served before that.
pub struct Transport<C> {
    pub channel: C,
    web_cookies: Option<Vec<Cookie>>,
}

impl<C: HttpChannel> Transport<C> {
    pub closed spec fn log(&self) -> Seq<CallRecord> {
        self.channel.log()
    }

    pub closed spec fn web_installed(&self) -> bool {
        self.web_cookies is Some
    }

    pub closed spec fn web_jar(&self) -> Seq<CookieModel> {
        jar_view(self.web_cookies->0@)
    }

    /// A transport with only the mobile profile.
    pub fn new(channel: C) -> (r: Self)
        ensures
            !r.web_installed(),
            r.log() == channel.log(),
    {
        Transport { channel, web_cookies: None }
    }

    /// Installs the web profile from a login's cookie jar.
    pub fn install_web(&mut self, jar: Vec<Cookie>)
        ensures
            final(self).web_installed(),
            final(self).web_jar() == jar_view(jar@),
            final(self).log() == old(self).log(),
    {
        self.web_cookies = Some(jar);
    }

    /// One request with retry-on-timeout: up to `max_retries` extra attempts
    /// after a timeout, and nothing retried for any other reason. A request
    /// for the web host fails with `NotLoggedIn`, without any attempt, until
    /// the web profile is installed.
    fn run(
        &mut self,
        method: Method,
        url: &String,
        params: &Vec<(String, String)>,
        max_retries: u8,
    ) -> (r: Result<ReplyData, Error>)
        ensures
            final(self).web_installed() == old(self).web_installed(),
            old(self).web_installed() ==> final(self).web_jar() == old(self).web_jar(),
            spec_is_web_url(url@) && !old(self).web_installed() ==> r == Err::<ReplyData, Error>(
                Error::NotLoggedIn,
            ) && final(self).log() == old(self).log(),
            !(spec_is_web_url(url@) && !old(self).web_installed()) ==> transport_post(
                old(self).log(),
                final(self).log(),
                method,
                url@,
                entries_view(params@),
                spec_is_web_url(url@),
                if spec_is_web_url(url@) {
                    old(self).web_jar()
                } else {
                    Seq::<CookieModel>::empty()
                },
                max_retries,
                r,
            ),
    {
        let web = is_web_url(url);
        if web && self.web_cookies.is_none() {
            return Err(Error::NotLoggedIn);
        }
        let empty_jar: Vec<Cookie> = Vec::new();
        let ghost jar_model = if web {
            self.web_jar()
        } else {
            jar_view(empty_jar@)
        };
        proof {
            if !web {
                assert(jar_view(empty_jar@) =~= Seq::<CookieModel>::empty());
            }
        }
        let ghost old_log = self.channel.log();
        let mut attempts: u8 = 0;
        loop
            invariant
                web == spec_is_web_url(url@),
                empty_jar@.len() == 0,
                web ==> self.web_cookies is Some,
                self.web_cookies == old(self).web_cookies,
                attempts <= max_retries,
                old_log == old(self).log(),
                self.channel.log().len() == old_log.len() + attempts,
                self.channel.log().take(old_log.len() as int) == old_log,
                forall|i: int|
                    old_log.len() <= i < self.channel.log().len() ==> record_matches(
                        #[trigger] self.channel.log()[i],
                        method,
                        url@,
                        entries_view(params@),
                        web,
                        if web {
                            old(self).web_jar()
                        } else {
                            Seq::<CookieModel>::empty()
                        },
                    ),
                forall|i: int|
                    old_log.len() <= i < self.channel.log().len() ==> (#[trigger] self.channel.log()[i].outcome)
                        is TimedOut,
            decreases max_retries - attempts,
        {
            let cookies: &Vec<Cookie>;
            if web {
                match &self.web_cookies {
                    Some(j) => {
                        cookies = j;
                        proof {
                            assert(jar_view(cookies@) == old(self).web_jar());
                        }
                    },
                    None => {
                        proof {
                            assert(false);
                        }
                        cookies = &empty_jar;
                    },
                }
            } else {
                cookies = &empty_jar;
                proof {
                    assert(jar_view(cookies@) =~= Seq::<CookieModel>::empty());
                }
            }
            let outcome = self.channel.attempt(method, url, params, web, cookies);
            proof {
                assert(self.channel.log().take(old_log.len() as int) =~= old_log);
            }
            match outcome {
                Outcome::Reply { status, data } => {
                    if 200 <= status && status < 300 {
                        return Ok(data);
                    } else {
                        return Err(Error::HttpStatusError(status));
                    }
                },
                Outcome::TimedOut => {
                    if attempts < max_retries {
                        attempts = attempts + 1;
                    } else {
                        return Err(Error::NetworkError(timeout_message()));
                    }
                },
                Outcome::Failed { reason } => {
                    return Err(Error::NetworkError(reason));
                },
            }
        }
    }

    /// A GET request, routed and retried as `run` says.
    pub fn get(
        &mut self,
        url: &String,
        params: &Vec<(String, String)>,
        max_retries: u8,
    ) -> (r: Result<ReplyData, Error>)
        ensures
            final(self).web_installed() == old(self).web_installed(),
            old(self).web_installed() ==> final(self).web_jar() == old(self).web_jar(),
            spec_is_web_url(url@) && !old(self).web_installed() ==> r == Err::<ReplyData, Error>(
                Error::NotLoggedIn,
            ) && final(self).log() == old(self).log(),
            !(spec_is_web_url(url@) && !old(self).web_installed()) ==> transport_post(
                old(self).log(),
                final(self).log(),
                Method::Get,
                url@,
                entries_view(params@),
                spec_is_web_url(url@),
                if spec_is_web_url(url@) {
                    old(self).web_jar()
                } else {
                    Seq::<CookieModel>::empty()
                },
                max_retries,
                r,
            ),
    {
        self.run(Method::Get, url, params, max_retries)
    }

    /// A POST request, routed and retried as `run` says.
    pub fn post(
        &mut self,
        url: &String,
        params: &Vec<(String, String)>,
        max_retries: u8,
    ) -> (r: Result<ReplyData, Error>)
        ensures
            final(self).web_installed() == old(self).web_installed(),
            old(self).web_installed() ==> final(self).web_jar() == old(self).web_jar(),
            spec_is_web_url(url@) && !old(self).web_installed() ==> r == Err::<ReplyData, Error>(
                Error::NotLoggedIn,
            ) && final(self).log() == old(self).log(),
            !(spec_is_web_url(url@) && !old(self).web_installed()) ==> transport_post(
                old(self).log(),
                final(self).log(),
                Method::Post,
                url@,
                entries_view(params@),
                spec_is_web_url(url@),
                if spec_is_web_url(url@) {
                    old(self).web_jar()
                } else {
                    Seq::<CookieModel>::empty()
                },
                max_retries,
                r,
            ),
    {
        self.run(Method::Post, url, params, max_retries)
    }
}

/// The retry decision, for a driver that performs the attempts itself: only
/// a timeout is retried, and only while attempts remain in the budget.
pub fn should_retry(attempts_done: u8, max_retries: u8, timed_out: bool) -> (r: bool)
    ensures
        r == (timed_out && attempts_done < max_retries),
{
    timed_out && attempts_done < max_retries
}

/// The message a spent retry budget reports.
fn timeout_message() -> (r: String)
    ensures
        r@ == timeout_reason(),
{
    "request timed out".to_owned()
}

/// The retry bound: against a service that times out exactly `n` times and
/// then answers with a 2xx reply, a budget of at least `n` retries succeeds
/// with that reply after exactly `n + 1` attempts, and a smaller budget
/// fails with the timeout error after exactly `max_retries + 1` attempts.
pub proof fn lemma_retry_bound(
    news: Seq<CallRecord>,
    n: int,
    status: u16,
    data: ReplyModel,
    max_retries: u8,
    r: Result<ReplyData, Error>,
)
    requires
        retry_outcome_ok(news, max_retries, r),
        0 <= n,
        forall|i: int| 0 <= i < news.len() && i < n ==> (#[trigger] news[i].outcome) is TimedOut,
        n < news.len() ==> news[n].outcome == (OutcomeModel::Reply { status, data }),
        200 <= status < 300,
    ensures
        max_retries >= n ==> news.len() == n + 1 && (r matches Ok(d) && d@ == data),
        max_retries < n ==> news.len() == max_retries + 1 && (r matches Err(e) && e matches
            Error::NetworkError(m)
            && m@ == timeout_reason()),
{
    if max_retries >= n {
        if news.len() <= n {
            assert(news.last().outcome is TimedOut);
            assert(news.len() == max_retries + 1);
        }
        assert(news.len() > n);
        if news.len() > n + 1 {
            assert(news[n].outcome is TimedOut);
        }
        assert(news.len() == n + 1);
        assert(news.last() == news[n]);
    } else {
        if news.len() > max_retries + 1 {
        }
        if news.len() < max_retries + 1 {
            assert(news.len() - 1 < n);
            assert(news.last().outcome is TimedOut);
        }
        assert(news.len() == max_retries + 1);
        assert(news.len() - 1 < n);
        assert(news.last().outcome is TimedOut);
    }
}

} // verus!
