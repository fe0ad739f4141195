//! The login state machine: request an SMS code, submit it, or resume from a
//! persisted session. A successful login produces the session and installs
//! the transport's web profile from its cookie jar; nothing else ever leaves
//! the machine logged in.

use vstd::prelude::*;

use crate::cookie::{CookieModel, translate, spec_translate, jar_view, entries_view, clone_jar};
use crate::errors::{Error, ErrResponse, ErrModel};
use crate::models::Conifg;
use crate::requests::{
    url_send_code, url_login, spec_url_send_code, spec_url_login, send_code_params,
    spec_send_code_params, sms_login_params, spec_sms_login_params, refresh_params,
    spec_refresh_params,
};
use crate::session::{Session, SessionModel};
use crate::transport::{
    Transport, HttpChannel, ReplyData, ReplyModel, Method, OutcomeModel, record_matches,
    spec_is_web_url, timeout_reason,
};
use crate::utils::now_seconds;

verus! {

/// The login state: nothing yet, an SMS under way for a phone number, or a
/// live session.
#[derive(Debug)]
pub enum LoginState {
    Init,
    WaitingForCode { phone_number: String },
    LoggedIn { session: Session },
}

impl LoginState {
    pub fn is_init(&self) -> (r: bool)
        ensures
            r == (*self is Init),
    {
        matches!(self, LoginState::Init)
    }

    pub fn is_waiting_for_code(&self) -> (r: bool)
        ensures
            r == (*self is WaitingForCode),
    {
        matches!(self, LoginState::WaitingForCode { .. })
    }

    pub fn is_logged_in(&self) -> (r: bool)
        ensures
            r == (*self is LoggedIn),
    {
        matches!(self, LoginState::LoggedIn { .. })
    }
}

/// The login state is always exactly one of its three variants: each value
/// answers true to exactly one of `is_init`, `is_waiting_for_code` and
/// `is_logged_in`.
pub proof fn lemma_login_state_exactly_one(s: &LoginState)
    ensures
        (*s is Init) || (*s is WaitingForCode) || (*s is LoggedIn),
        (*s is Init) ==> !(*s is WaitingForCode) && !(*s is LoggedIn),
        (*s is WaitingForCode) ==> !(*s is Init) && !(*s is LoggedIn),
        (*s is LoggedIn) ==> !(*s is Init) && !(*s is WaitingForCode),
{
}

/// What a reply envelope is, under the deterministic two-step decode: the
/// success shape is tried first, the failure shape second.
#[verifier::ext_equal]
pub ghost enum ReplyClass {
    SuccMsg { msg: Seq<char> },
    SuccLogin {
        gsid: Seq<char>,
        uid: Seq<char>,
        screen_name: Seq<char>,
        cookie: Seq<(Seq<char>, Seq<char>)>,
    },
    Fail { err: ErrModel },
    Undecodable,
}

pub open spec fn spec_fail_class(d: ReplyModel) -> ReplyClass {
    if d.errmsg is Some && d.errno is Some && d.errtype is Some && d.isblock is Some {
        ReplyClass::Fail {
            err: ErrModel {
                errmsg: d.errmsg->0,
                errno: d.errno->0,
                errtype: d.errtype->0,
                isblock: d.isblock->0,
            },
        }
    } else {
        ReplyClass::Undecodable
    }
}

/// The code-request envelope: success is a body with a `msg`.
pub open spec fn spec_classify_send_code(d: ReplyModel) -> ReplyClass {
    if d.msg is Some {
        ReplyClass::SuccMsg { msg: d.msg->0 }
    } else {
        spec_fail_class(d)
    }
}

/// The login envelope: success is a body with the identity fields and the
/// raw cookie mapping.
pub open spec fn spec_classify_login(d: ReplyModel) -> ReplyClass {
    if d.gsid is Some && d.uid is Some && d.screen_name is Some && d.cookie is Some {
        ReplyClass::SuccLogin {
            gsid: d.gsid->0,
            uid: d.uid->0,
            screen_name: d.screen_name->0,
            cookie: d.cookie->0,
        }
    } else {
        spec_fail_class(d)
    }
}

/// A decoded code-request reply.
#[derive(Debug, Clone, PartialEq, Eq)]
pub enum SendCodeResponse {
    Succ { msg: String },
    Fail(ErrResponse),
}

/// A decoded login reply.
#[derive(Debug, Clone, PartialEq, Eq)]
pub enum LoginResponse {
    Succ { gsid: String, uid: String, screen_name: String, cookie: Vec<(String, String)> },
    Fail(ErrResponse),
}

fn classify_fail(d: ReplyData) -> (r: Result<ErrResponse, Error>)
    ensures
        match spec_fail_class(d@) {
            ReplyClass::Fail { err } => r matches Ok(e) && e@ == err,
            ReplyClass::Undecodable => r == Err::<ErrResponse, Error>(Error::DeserializationError),
            _ => false,
        },
{
    match (d.errmsg, d.errno, d.errtype, d.isblock) {
        (Some(errmsg), Some(errno), Some(errtype), Some(isblock)) => Ok(
            ErrResponse { errmsg, errno, errtype, isblock },
        ),
        _ => Err(Error::DeserializationError),
    }
}

/// Decodes a code-request reply: the success shape first, then the failure
/// shape, then `DeserializationError`.
pub fn classify_send_code(d: ReplyData) -> (r: Result<SendCodeResponse, Error>)
    ensures
        match spec_classify_send_code(d@) {
            ReplyClass::SuccMsg { msg } => r matches Ok(sc) && (sc matches SendCodeResponse::Succ {
                msg: m,
            } && m@ == msg),
            ReplyClass::Fail { err } => r matches Ok(sc) && (sc matches SendCodeResponse::Fail(e)
                && e@ == err),
            ReplyClass::Undecodable => r == Err::<SendCodeResponse, Error>(
                Error::DeserializationError,
            ),
            _ => false,
        },
{
    match d.msg {
        Some(msg) => Ok(SendCodeResponse::Succ { msg }),
        None => {
            let d2 = ReplyData { msg: None, ..d };
            match classify_fail(d2) {
                Ok(e) => Ok(SendCodeResponse::Fail(e)),
                Err(e) => Err(e),
            }
        },
    }
}

/// Decodes a login reply: the success shape first, then the failure shape,
/// then `DeserializationError`.
pub fn classify_login(d: ReplyData) -> (r: Result<LoginResponse, Error>)
    ensures
        match spec_classify_login(d@) {
            ReplyClass::SuccLogin { gsid, uid, screen_name, cookie } => r matches Ok(lr) && (lr
                matches LoginResponse::Succ { gsid: g, uid: u, screen_name: n, cookie: c } && g@
                == gsid && u@ == uid && n@ == screen_name && entries_view(c@) == cookie),
            ReplyClass::Fail { err } => r matches Ok(lr) && (lr matches LoginResponse::Fail(e) && e@
                == err),
            ReplyClass::Undecodable => r == Err::<LoginResponse, Error>(
                Error::DeserializationError,
            ),
            _ => false,
        },
{
    let ReplyData { msg, gsid, uid, screen_name, cookie, errmsg, errno, errtype, isblock } = d;
    match (gsid, uid, screen_name, cookie) {
        (Some(gsid), Some(uid), Some(screen_name), Some(cookie)) => Ok(
            LoginResponse::Succ { gsid, uid, screen_name, cookie },
        ),
        _ => {
            let d2 = ReplyData {
                msg,
                gsid: None,
                uid: None,
                screen_name: None,
                cookie: None,
                errmsg,
                errno,
                errtype,
                isblock,
            };
            match classify_fail(d2) {
                Ok(e) => Ok(LoginResponse::Fail(e)),
                Err(e) => Err(e),
            }
        },
    }
}

/// The transport parts two calls must leave alone.
pub open spec fn web_unchanged<C: HttpChannel>(old_t: Transport<C>, new_t: Transport<C>) -> bool {
    &&& new_t.web_installed() == old_t.web_installed()
    &&& old_t.web_installed() ==> new_t.web_jar() == old_t.web_jar()
}

/// What one login-endpoint exchange leaves behind: the appended records all
/// carry the payload; at most `retry_times` timeouts are retried; and the
/// result follows the final outcome through the two-step decode, the cookie
/// translation at some reading `now` of the clock, and the session build.
pub open spec fn login_exchange_post<C: HttpChannel>(
    old_t: Transport<C>,
    new_t: Transport<C>,
    params: Seq<(Seq<char>, Seq<char>)>,
    retry_times: u8,
    r: Result<Session, Error>,
) -> bool {
    let web = spec_is_web_url(spec_url_login());
    let news = new_t.log().skip(old_t.log().len() as int);
    if web && !old_t.web_installed() {
        &&& r == Err::<Session, Error>(Error::NotLoggedIn)
        &&& new_t.log() == old_t.log()
        &&& web_unchanged(old_t, new_t)
    } else {
        &&& web_unchanged(old_t, new_t)
        &&& new_t.log().len() > old_t.log().len()
        &&& new_t.log().take(old_t.log().len() as int) == old_t.log()
        &&& 1 <= news.len() <= retry_times + 1
        &&& forall|i: int| 0 <= i < news.len() - 1 ==> (#[trigger] news[i].outcome) is TimedOut
        &&& forall|i: int|
            0 <= i < news.len() ==> record_matches(
                #[trigger] news[i],
                Method::Post,
                spec_url_login(),
                params,
                web,
                if web {
                    old_t.web_jar()
                } else {
                    Seq::<CookieModel>::empty()
                },
            )
        &&& match news.last().outcome {
            OutcomeModel::TimedOut => news.len() == retry_times + 1 && (r matches Err(e) && e
                matches Error::NetworkError(m) && m@ == timeout_reason()),
            OutcomeModel::Failed { reason } => r matches Err(e) && e matches Error::NetworkError(m)
                && m@ == reason,
            OutcomeModel::Reply { status, data } => if !(200 <= status < 300) {
                r == Err::<Session, Error>(Error::HttpStatusError(status))
            } else {
                match spec_classify_login(data) {
                    ReplyClass::SuccLogin { gsid, uid, screen_name, cookie } => exists|now: u64|
                        match #[trigger] spec_translate(cookie, now) {
                            Some(jar) => r matches Ok(s) && s@ == (SessionModel {
                                gsid,
                                uid,
                                screen_name,
                                cookie_store: jar,
                            }),
                            None => r matches Err(e) && e matches Error::DataConversionError(_),
                        },
                    ReplyClass::Fail { err } => r matches Err(e) && e matches Error::ApiError(em)
                        && em@ == err,
                    ReplyClass::SuccMsg { .. } => false,
                    ReplyClass::Undecodable => r == Err::<Session, Error>(
                        Error::DeserializationError,
                    ),
                }
            },
        }
    }
}

/// Posts a login payload and builds the session: decode the reply, translate
/// its cookie mapping at the clock's current reading, and assemble the
/// session.
fn execute_login<C: HttpChannel>(
    client: &mut Transport<C>,
    params: &Vec<(String, String)>,
    retry_times: u8,
) -> (r: Result<Session, Error>)
    ensures
        login_exchange_post(*old(client), *final(client), entries_view(params@), retry_times, r),
{
    let url = url_login();
    let res = client.post(&url, params, retry_times);
    let data = match res {
        Ok(data) => data,
        Err(e) => {
            return Err(e);
        },
    };
    match classify_login(data) {
        Ok(LoginResponse::Succ { gsid, uid, screen_name, cookie }) => {
            let now = now_seconds();
            match translate(&cookie, now) {
                Ok(jar) => {
                    let session = Session { gsid, uid, screen_name, cookie_store: jar };
                    Ok(session)
                },
                Err(e) => Err(e),
            }
        },
        Ok(LoginResponse::Fail(err)) => Err(Error::ApiError(err)),
        Err(e) => Err(e),
    }
}

/// The client: a transport, a configuration, and the login state it owns.
pub struct ApiClient<C: HttpChannel> {
    pub client: Transport<C>,
    pub config: Conifg,
    pub login_state: LoginState,
}

impl<C: HttpChannel> ApiClient<C> {
    /// The machine's current state.
    pub open spec fn state(&self) -> LoginState {
        self.login_state
    }

    /// A client that has established nothing yet.
    pub fn new(channel: C, config: Conifg) -> (r: Self)
        ensures
            r.state() is Init,
            !r.client.web_installed(),
            r.client.log() == channel.log(),
            r.config == config,
    {
        ApiClient { client: Transport::new(channel), config, login_state: LoginState::Init }
    }

    pub fn login_state(&self) -> (r: &LoginState)
        ensures
            *r == self.state(),
    {
        &self.login_state
    }

    /// A client seeded from a persisted session: directly logged in, with
    /// the web profile installed from the session's jar.
    pub fn from_session(channel: C, session: Session) -> (r: Self)
        ensures
            r.state() == (LoginState::LoggedIn { session }),
            r.client.web_installed(),
            r.client.web_jar() == jar_view(session.cookie_store@),
            r.config.fav_count == 20 && r.config.status_count == 20 && r.config.retry_times == 2,
    {
        let jar = clone_jar(&session.cookie_store);
        let mut client = Transport::new(channel);
        client.install_web(jar);
        ApiClient {
            client,
            config: Conifg { fav_count: 20, status_count: 20, retry_times: 2 },
            login_state: LoginState::LoggedIn { session },
        }
    }

    /// The live session, owed exactly when logged in.
    pub fn session(&self) -> (r: Result<&Session, Error>)
        ensures
            match self.state() {
                LoginState::LoggedIn { session } => r matches Ok(s) && *s == session,
                _ => r == Err::<&Session, Error>(Error::NotLoggedIn),
            },
    {
        match &self.login_state {
            LoginState::LoggedIn { session } => Ok(session),
            _ => Err(Error::NotLoggedIn),
        }
    }

    /// Requests an SMS code for a phone number. Tolerated from any state —
    /// the service accepts repeated requests — and the state advances to
    /// `WaitingForCode` for this number on any structurally successful
    /// response, before the payload is inspected; an embedded failure
    /// payload is still reported as `ApiError`.
    pub fn get_sms_code(&mut self, phone_number: String) -> (r: Result<(), Error>)
        ensures
            final(self).config == old(self).config,
            web_unchanged(old(self).client, final(self).client),
            ({
                let web = spec_is_web_url(spec_url_send_code());
                let news = final(self).client.log().skip(old(self).client.log().len() as int);
                if web && !old(self).client.web_installed() {
                    &&& r == Err::<(), Error>(Error::NotLoggedIn)
                    &&& final(self).state() == old(self).state()
                    &&& final(self).client.log() == old(self).client.log()
                } else {
                    &&& final(self).client.log().len() > old(self).client.log().len()
                    &&& final(self).client.log().take(old(self).client.log().len() as int)
                        == old(self).client.log()
                    &&& 1 <= news.len() <= old(self).config.retry_times + 1
                    &&& forall|i: int|
                        0 <= i < news.len() - 1 ==> (#[trigger] news[i].outcome) is TimedOut
                    &&& forall|i: int|
                        0 <= i < news.len() ==> record_matches(
                            #[trigger] news[i],
                            Method::Post,
                            spec_url_send_code(),
                            spec_send_code_params(phone_number@),
                            web,
                            if web {
                                old(self).client.web_jar()
                            } else {
                                Seq::<CookieModel>::empty()
                            },
                        )
                    &&& match news.last().outcome {
                        OutcomeModel::TimedOut => news.len() == old(self).config.retry_times + 1
                            && final(self).state() == old(self).state() && (r matches Err(e) && e
                            matches Error::NetworkError(m) && m@ == timeout_reason()),
                        OutcomeModel::Failed { reason } => final(self).state() == old(self).state()
                            && (r matches Err(e) && e matches Error::NetworkError(m) && m@
                            == reason),
                        OutcomeModel::Reply { status, data } => if !(200 <= status < 300) {
                            final(self).state() == old(self).state() && r == Err::<(), Error>(
                                Error::HttpStatusError(status),
                            )
                        } else {
                            &&& final(self).state() == (LoginState::WaitingForCode {
                                phone_number,
                            })
                            &&& match spec_classify_send_code(data) {
                                ReplyClass::SuccMsg { .. } => r == Ok::<(), Error>(()),
                                ReplyClass::Fail { err } => r matches Err(e) && e matches
                                    Error::ApiError(em) && em@ == err,
                                ReplyClass::SuccLogin { .. } => false,
                                ReplyClass::Undecodable => r == Err::<(), Error>(
                                    Error::DeserializationError,
                                ),
                            }
                        },
                    }
                }
            }),
    {
        let url = url_send_code();
        let params = send_code_params(&phone_number);
        let res = self.client.post(&url, &params, self.config.retry_times);
        match res {
            Ok(data) => {
                self.login_state = LoginState::WaitingForCode { phone_number };
                match classify_send_code(data) {
                    Ok(SendCodeResponse::Succ { msg: _ }) => Ok(()),
                    Ok(SendCodeResponse::Fail(err)) => Err(Error::ApiError(err)),
                    Err(e) => Err(e),
                }
            },
            Err(e) => Err(e),
        }
    }

    /// Submits the SMS code. Valid only while `WaitingForCode`: any other
    /// state fails with `NotLoggedIn` and changes nothing. Success produces
    /// the full session, moves to `LoggedIn`, and installs the transport's
    /// web profile from the session's jar; a failure payload leaves the
    /// machine waiting for another code.
    pub fn login(&mut self, sms_code: &str) -> (r: Result<(), Error>)
        ensures
            final(self).config == old(self).config,
            !(old(self).state() is WaitingForCode) ==> r == Err::<(), Error>(Error::NotLoggedIn)
                && final(self).state() == old(self).state()
                && final(self).client.log() == old(self).client.log()
                && web_unchanged(old(self).client, final(self).client),
            old(self).state() matches LoginState::WaitingForCode { phone_number: pn } ==> ({
                &&& self_login_post(
                    *old(self),
                    *final(self),
                    spec_sms_login_params(pn@, sms_code@),
                    r,
                )
            }),
    {
        let pn: Option<String> = match &self.login_state {
            LoginState::WaitingForCode { phone_number } => Some(phone_number.clone()),
            _ => None,
        };
        match pn {
            Some(phone_number) => {
                let params = sms_login_params(&phone_number, sms_code);
                self.finish_login(&params)
            },
            None => Err(Error::NotLoggedIn),
        }
    }

    /// Re-authenticates from a prior session's identity, with a freshly
    /// computed signature, under the session-refresh tag. Valid only from
    /// `Init`: any other state fails with `NotLoggedIn` and changes nothing.
    /// Success replaces the session wholesale.
    pub fn login_with_session(&mut self, session: Session) -> (r: Result<(), Error>)
        ensures
            final(self).config == old(self).config,
            !(old(self).state() is Init) ==> r == Err::<(), Error>(Error::NotLoggedIn)
                && final(self).state() == old(self).state()
                && final(self).client.log() == old(self).client.log()
                && web_unchanged(old(self).client, final(self).client),
            old(self).state() is Init ==> self_login_post(
                *old(self),
                *final(self),
                spec_refresh_params(session.gsid@, session.uid@),
                r,
            ),
    {
        if !self.login_state.is_init() {
            return Err(Error::NotLoggedIn);
        }
        let params = refresh_params(&session.gsid, &session.uid);
        self.finish_login(&params)
    }

    /// The shared tail of both login paths: run the exchange, and on success
    /// install the web profile and move to `LoggedIn`.
    fn finish_login(&mut self, params: &Vec<(String, String)>) -> (r: Result<(), Error>)
        ensures
            final(self).config == old(self).config,
            self_login_post(*old(self), *final(self), entries_view(params@), r),
    {
        let res = execute_login(&mut self.client, params, self.config.retry_times);
        match res {
            Ok(session) => {
                let jar = clone_jar(&session.cookie_store);
                self.client.install_web(jar);
                self.login_state = LoginState::LoggedIn { session };
                Ok(())
            },
            Err(e) => Err(e),
        }
    }
}

/// What a completed login path leaves behind, at the client level: the
/// exchange of `login_exchange_post`, with success landing in `LoggedIn`
/// with the built session and the web profile installed from its jar, and
/// every failure leaving the state alone.
pub open spec fn self_login_post<C: HttpChannel>(
    old_c: ApiClient<C>,
    new_c: ApiClient<C>,
    params: Seq<(Seq<char>, Seq<char>)>,
    r: Result<(), Error>,
) -> bool {
    let web = spec_is_web_url(spec_url_login());
    let news = new_c.client.log().skip(old_c.client.log().len() as int);
    if web && !old_c.client.web_installed() {
        &&& r == Err::<(), Error>(Error::NotLoggedIn)
        &&& new_c.state() == old_c.state()
        &&& new_c.client.log() == old_c.client.log()
        &&& web_unchanged(old_c.client, new_c.client)
    } else {
        &&& new_c.client.log().len() > old_c.client.log().len()
        &&& new_c.client.log().take(old_c.client.log().len() as int) == old_c.client.log()
        &&& 1 <= news.len() <= old_c.config.retry_times + 1
        &&& forall|i: int| 0 <= i < news.len() - 1 ==> (#[trigger] news[i].outcome) is TimedOut
        &&& forall|i: int|
            0 <= i < news.len() ==> record_matches(
                #[trigger] news[i],
                Method::Post,
                spec_url_login(),
                params,
                web,
                if web {
                    old_c.client.web_jar()
                } else {
                    Seq::<CookieModel>::empty()
                },
            )
        &&& match news.last().outcome {
            OutcomeModel::TimedOut => news.len() == old_c.config.retry_times + 1 && new_c.state()
                == old_c.state() && web_unchanged(old_c.client, new_c.client) && (r matches Err(e)
                && e matches Error::NetworkError(m) && m@ == timeout_reason()),
            OutcomeModel::Failed { reason } => new_c.state() == old_c.state() && web_unchanged(
                old_c.client,
                new_c.client,
            ) && (r matches Err(e) && e matches Error::NetworkError(m) && m@ == reason),
            OutcomeModel::Reply { status, data } => if !(200 <= status < 300) {
                new_c.state() == old_c.state() && web_unchanged(old_c.client, new_c.client) && r
                    == Err::<(), Error>(Error::HttpStatusError(status))
            } else {
                match spec_classify_login(data) {
                    ReplyClass::SuccLogin { gsid, uid, screen_name, cookie } => exists|now: u64|
                        match #[trigger] spec_translate(cookie, now) {
                            Some(jar) => {
                                &&& r == Ok::<(), Error>(())
                                &&& new_c.state() matches LoginState::LoggedIn { session }
                                    && session@ == (SessionModel {
                                    gsid,
                                    uid,
                                    screen_name,
                                    cookie_store: jar,
                                })
                                &&& new_c.client.web_installed()
                                &&& new_c.client.web_jar() == jar
                            },
                            None => new_c.state() == old_c.state() && web_unchanged(
                                old_c.client,
                                new_c.client,
                            ) && (r matches Err(e) && e matches Error::DataConversionError(_)),
                        },
                    ReplyClass::Fail { err } => new_c.state() == old_c.state() && web_unchanged(
                        old_c.client,
                        new_c.client,
                    ) && (r matches Err(e) && e matches Error::ApiError(em) && em@ == err),
                    ReplyClass::SuccMsg { .. } => false,
                    ReplyClass::Undecodable => new_c.state() == old_c.state() && web_unchanged(
                        old_c.client,
                        new_c.client,
                    ) && r == Err::<(), Error>(Error::DeserializationError),
                }
            },
        }
    }
}

} // verus!
