//! The persistable session: the identity the login handshake produced, with
//! its cookie jar. The codec here writes a structured text document with the
//! fields `gsid`, `uid`, `name` (the screen name) and `jar`; every string is
//! length-prefixed, so the document needs no escaping and decoding restores
//! the session field for field.

use vstd::prelude::*;

use crate::cookie::{Cookie, CookieModel, SameSite, jar_view};
use crate::errors::Error;
use crate::strutil::{
    first_index_of, find_char, subvec, all_digits, digits_value, parse_digits_bounded,
    str_to_chars, chars_to_string, digits_of, lemma_digits_of, digits_exec, is_digit,
};

verus! {

/// The authenticated identity: the server-issued grant token, the stable
/// account identifier, the display name, and the cookie jar.
#[derive(Debug, Clone, PartialEq, Eq)]
pub struct Session {
    pub gsid: String,
    pub uid: String,
    pub screen_name: String,
    pub cookie_store: Vec<Cookie>,
}

/// The mathematical shape of a session.
#[verifier::ext_equal]
pub ghost struct SessionModel {
    pub gsid: Seq<char>,
    pub uid: Seq<char>,
    pub screen_name: Seq<char>,
    pub cookie_store: Seq<CookieModel>,
}

impl View for Session {
    type V = SessionModel;

    open spec fn view(&self) -> SessionModel {
        SessionModel {
            gsid: self.gsid@,
            uid: self.uid@,
            screen_name: self.screen_name@,
            cookie_store: jar_view(self.cookie_store@),
        }
    }
}

/// A length-prefixed string: its character count, a colon, the characters,
/// a newline.
pub open spec fn enc_str(x: Seq<char>) -> Seq<char> {
    digits_of(x.len() as int) + seq![':'] + x + seq!['\n']
}

/// A number: its digits and a newline.
pub open spec fn enc_num(n: int) -> Seq<char> {
    digits_of(n) + seq!['\n']
}

pub open spec fn enc_flag(b: bool) -> Seq<char> {
    seq![if b { '1' } else { '0' }, '\n']
}

pub open spec fn enc_expiry(e: Option<u64>) -> Seq<char> {
    match e {
        Some(t) => seq!['E'] + digits_of(t as int) + seq!['\n'],
        None => seq!['-', '\n'],
    }
}

pub open spec fn enc_same_site(s: Option<SameSite>) -> Seq<char> {
    match s {
        Some(SameSite::Strict) => seq!['S', '\n'],
        Some(SameSite::Lax) => seq!['L', '\n'],
        Some(SameSite::NoneSite) => seq!['N', '\n'],
        None => seq!['-', '\n'],
    }
}

/// One cookie: its four strings, then expiry, secure, http-only, same-site
/// and partitioned.
pub open spec fn enc_cookie(c: CookieModel) -> Seq<char> {
    enc_str(c.name) + enc_str(c.value) + enc_str(c.domain) + enc_str(c.path) + enc_expiry(c.expires)
        + enc_flag(c.secure) + enc_flag(c.http_only) + enc_same_site(c.same_site) + enc_flag(
        c.partitioned,
    )
}

pub open spec fn enc_cookies(s: Seq<CookieModel>) -> Seq<char>
    decreases s.len(),
{
    if s.len() == 0 {
        Seq::empty()
    } else {
        enc_cookie(s[0]) + enc_cookies(s.skip(1))
    }
}

pub open spec fn tag_gsid() -> Seq<char> {
    seq!['g', 's', 'i', 'd', ':']
}

pub open spec fn tag_uid() -> Seq<char> {
    seq!['u', 'i', 'd', ':']
}

pub open spec fn tag_name() -> Seq<char> {
    seq!['n', 'a', 'm', 'e', ':']
}

pub open spec fn tag_jar() -> Seq<char> {
    seq!['j', 'a', 'r', ':']
}

/// The persisted document: the three identity fields, the jar's size, and
/// the cookies in order.
pub open spec fn enc_session(m: SessionModel) -> Seq<char> {
    tag_gsid() + enc_str(m.gsid) + tag_uid() + enc_str(m.uid) + tag_name() + enc_str(m.screen_name)
        + tag_jar() + enc_num(m.cookie_store.len() as int) + enc_cookies(m.cookie_store)
}

// ---------------------------------------------------------------------------
// Decoding, over the remaining input.
// ---------------------------------------------------------------------------

/// Strips an expected literal prefix.
pub open spec fn strip_tag(s: Seq<char>, t: Seq<char>) -> Option<Seq<char>> {
    if s.len() >= t.len() && s.take(t.len() as int) == t {
        Some(s.skip(t.len() as int))
    } else {
        None
    }
}

/// Reads a length-prefixed string.
pub open spec fn take_str(s: Seq<char>) -> Option<(Seq<char>, Seq<char>)> {
    let e = first_index_of(s, ':');
    if e >= s.len() {
        None
    } else {
        let ds = s.take(e);
        if !(ds.len() > 0 && all_digits(ds) && digits_value(ds) <= 0xffff_ffff_ffff_ffff) {
            None
        } else {
            let n = digits_value(ds);
            let rest = s.skip(e + 1);
            if rest.len() < n + 1 {
                None
            } else if rest[n] != '\n' {
                None
            } else {
                Some((rest.take(n), rest.skip(n + 1)))
            }
        }
    }
}

/// Reads a number terminated by a newline.
pub open spec fn take_num(s: Seq<char>) -> Option<(int, Seq<char>)> {
    let e = first_index_of(s, '\n');
    if e >= s.len() {
        None
    } else {
        let ds = s.take(e);
        if !(ds.len() > 0 && all_digits(ds) && digits_value(ds) <= 0xffff_ffff_ffff_ffff) {
            None
        } else {
            Some((digits_value(ds), s.skip(e + 1)))
        }
    }
}

pub open spec fn take_flag(s: Seq<char>) -> Option<(bool, Seq<char>)> {
    if s.len() >= 2 && (s[0] == '0' || s[0] == '1') && s[1] == '\n' {
        Some(((s[0] == '1'), s.skip(2)))
    } else {
        None
    }
}

pub open spec fn take_same_site(s: Seq<char>) -> Option<(Option<SameSite>, Seq<char>)> {
    if s.len() >= 2 && s[1] == '\n' && (s[0] == 'S' || s[0] == 'L' || s[0] == 'N' || s[0] == '-') {
        Some(
            (
                if s[0] == 'S' {
                    Some(SameSite::Strict)
                } else if s[0] == 'L' {
                    Some(SameSite::Lax)
                } else if s[0] == 'N' {
                    Some(SameSite::NoneSite)
                } else {
                    None
                },
                s.skip(2),
            ),
        )
    } else {
        None
    }
}

pub open spec fn take_expiry(s: Seq<char>) -> Option<(Option<u64>, Seq<char>)> {
    if s.len() >= 2 && s[0] == '-' && s[1] == '\n' {
        Some((None, s.skip(2)))
    } else if s.len() >= 1 && s[0] == 'E' {
        match take_num(s.skip(1)) {
            Some((n, rest)) => if n <= 0xffff_ffff_ffff_ffff {
                Some((Some(n as u64), rest))
            } else {
                None
            },
            None => None,
        }
    } else {
        None
    }
}

pub open spec fn dec_cookie(s: Seq<char>) -> Option<(CookieModel, Seq<char>)> {
    match take_str(s) {
        Some((name, s)) => match take_str(s) {
            Some((value, s)) => match take_str(s) {
                Some((domain, s)) => match take_str(s) {
                    Some((path, s)) => match take_expiry(s) {
                        Some((expires, s)) => match take_flag(s) {
                            Some((secure, s)) => match take_flag(s) {
                                Some((http_only, s)) => match take_same_site(s) {
                                    Some((same_site, s)) => match take_flag(s) {
                                        Some((partitioned, s)) => Some(
                                            (
                                                CookieModel {
                                                    name,
                                                    value,
                                                    domain,
                                                    path,
                                                    expires,
                                                    secure,
                                                    http_only,
                                                    same_site,
                                                    partitioned,
                                                },
                                                s,
                                            ),
                                        ),
                                        None => None,
                                    },
                                    None => None,
                                },
                                None => None,
                            },
                            None => None,
                        },
                        None => None,
                    },
                    None => None,
                },
                None => None,
            },
            None => None,
        },
        None => None,
    }
}

pub open spec fn dec_cookies(s: Seq<char>, n: int) -> Option<(Seq<CookieModel>, Seq<char>)>
    decreases n,
{
    if n <= 0 {
        Some((Seq::empty(), s))
    } else {
        match dec_cookie(s) {
            Some((c, rest)) => match dec_cookies(rest, n - 1) {
                Some((cs, rest2)) => Some((seq![c] + cs, rest2)),
                None => None,
            },
            None => None,
        }
    }
}

/// What a persisted document denotes: a session exactly when the whole text
/// is one well-formed document, nothing otherwise.
pub open spec fn spec_parse_session(s: Seq<char>) -> Option<SessionModel> {
    match strip_tag(s, tag_gsid()) {
        Some(s) => match take_str(s) {
            Some((gsid, s)) => match strip_tag(s, tag_uid()) {
                Some(s) => match take_str(s) {
                    Some((uid, s)) => match strip_tag(s, tag_name()) {
                        Some(s) => match take_str(s) {
                            Some((screen_name, s)) => match strip_tag(s, tag_jar()) {
                                Some(s) => match take_num(s) {
                                    Some((n, s)) => match dec_cookies(s, n) {
                                        Some((jar, s)) => if s.len() == 0 {
                                            Some(
                                                SessionModel {
                                                    gsid,
                                                    uid,
                                                    screen_name,
                                                    cookie_store: jar,
                                                },
                                            )
                                        } else {
                                            None
                                        },
                                        None => None,
                                    },
                                    None => None,
                                },
                                None => None,
                            },
                            None => None,
                        },
                        None => None,
                    },
                    None => None,
                },
                None => None,
            },
            None => None,
        },
        None => None,
    }
}

// ---------------------------------------------------------------------------
// Decoding reads back exactly what encoding wrote.
// ---------------------------------------------------------------------------

/// Digits carry no separator characters.
proof fn lemma_digits_no_sep(n: int)
    requires
        n >= 0,
    ensures
        forall|i: int|
            0 <= i < digits_of(n).len() ==> #[trigger] digits_of(n)[i] != ':' && digits_of(n)[i]
                != '\n',
{
    lemma_digits_of(n);
    assert forall|i: int|
        0 <= i < digits_of(n).len() implies #[trigger] digits_of(n)[i] != ':' && digits_of(n)[i]
        != '\n' by {
        assert(is_digit(digits_of(n)[i]));
    }
}

/// The first occurrence of `c` in `a + [c] + b` is right after `a` when `a`
/// avoids `c`.
proof fn lemma_fio_concat(a: Seq<char>, b: Seq<char>, c: char)
    requires
        forall|i: int| 0 <= i < a.len() ==> a[i] != c,
    ensures
        first_index_of(a + seq![c] + b, c) == a.len(),
    decreases a.len(),
{
    let s = a + seq![c] + b;
    if a.len() == 0 {
        assert(s[0] == c);
    } else {
        assert(s[0] == a[0]);
        assert(s.skip(1) =~= a.skip(1) + seq![c] + b);
        assert(forall|i: int| 0 <= i < a.skip(1).len() ==> #[trigger] a.skip(1)[i] != c);
        lemma_fio_concat(a.skip(1), b, c);
    }
}

proof fn lemma_strip_tag_enc(t: Seq<char>, rest: Seq<char>)
    ensures
        strip_tag(t + rest, t) == Some(rest),
{
    assert((t + rest).take(t.len() as int) =~= t);
    assert((t + rest).skip(t.len() as int) =~= rest);
}

proof fn lemma_take_str_enc(x: Seq<char>, rest: Seq<char>)
    requires
        x.len() <= 0xffff_ffff_ffff_ffff,
    ensures
        take_str(enc_str(x) + rest) == Some((x, rest)),
{
    let n = x.len() as int;
    let d = digits_of(n);
    lemma_digits_of(n);
    lemma_digits_no_sep(n);
    let tail = x + seq!['\n'] + rest;
    let s = enc_str(x) + rest;
    assert(s =~= d + seq![':'] + tail);
    lemma_fio_concat(d, tail, ':');
    let e = first_index_of(s, ':');
    assert(e == d.len());
    assert(s.take(e) =~= d);
    let r = s.skip(e + 1);
    assert(r =~= tail);
    assert(r.len() == x.len() + 1 + rest.len());
    assert(r[n] == '\n');
    assert(r.take(n) =~= x);
    assert(r.skip(n + 1) =~= rest);
}

proof fn lemma_take_num_enc(n: int, rest: Seq<char>)
    requires
        0 <= n <= 0xffff_ffff_ffff_ffff,
    ensures
        take_num(enc_num(n) + rest) == Some((n, rest)),
{
    let d = digits_of(n);
    lemma_digits_of(n);
    lemma_digits_no_sep(n);
    let s = enc_num(n) + rest;
    assert(s =~= d + seq!['\n'] + rest);
    lemma_fio_concat(d, rest, '\n');
    let e = first_index_of(s, '\n');
    assert(e == d.len());
    assert(s.take(e) =~= d);
    assert(s.skip(e + 1) =~= rest);
}

proof fn lemma_take_flag_enc(b: bool, rest: Seq<char>)
    ensures
        take_flag(enc_flag(b) + rest) == Some((b, rest)),
{
    let s = enc_flag(b) + rest;
    assert(s.skip(2) =~= rest);
}

proof fn lemma_take_same_site_enc(ss: Option<SameSite>, rest: Seq<char>)
    ensures
        take_same_site(enc_same_site(ss) + rest) == Some((ss, rest)),
{
    let s = enc_same_site(ss) + rest;
    assert(s.skip(2) =~= rest);
}

proof fn lemma_take_expiry_enc(e: Option<u64>, rest: Seq<char>)
    ensures
        take_expiry(enc_expiry(e) + rest) == Some((e, rest)),
{
    let s = enc_expiry(e) + rest;
    match e {
        None => {
            assert(s.skip(2) =~= rest);
        },
        Some(t) => {
            assert(s[0] == 'E');
            assert(s.skip(1) =~= enc_num(t as int) + rest);
            lemma_take_num_enc(t as int, rest);
        },
    }
}

#[verifier::rlimit(100)]
#[verifier::spinoff_prover]
proof fn lemma_dec_cookie_enc(c: CookieModel, rest: Seq<char>)
    requires
        c.name.len() <= 0xffff_ffff_ffff_ffff,
        c.value.len() <= 0xffff_ffff_ffff_ffff,
        c.domain.len() <= 0xffff_ffff_ffff_ffff,
        c.path.len() <= 0xffff_ffff_ffff_ffff,
    ensures
        dec_cookie(enc_cookie(c) + rest) == Some((c, rest)),
{
    let r8 = enc_flag(c.partitioned) + rest;
    let r7 = enc_same_site(c.same_site) + r8;
    let r6 = enc_flag(c.http_only) + r7;
    let r5 = enc_flag(c.secure) + r6;
    let r4 = enc_expiry(c.expires) + r5;
    let r3 = enc_str(c.path) + r4;
    let r2 = enc_str(c.domain) + r3;
    let r1 = enc_str(c.value) + r2;
    let s = enc_str(c.name) + r1;
    assert(enc_cookie(c) + rest =~= s);
    lemma_take_str_enc(c.name, r1);
    lemma_take_str_enc(c.value, r2);
    lemma_take_str_enc(c.domain, r3);
    lemma_take_str_enc(c.path, r4);
    lemma_take_expiry_enc(c.expires, r5);
    lemma_take_flag_enc(c.secure, r6);
    lemma_take_flag_enc(c.http_only, r7);
    lemma_take_same_site_enc(c.same_site, r8);
    lemma_take_flag_enc(c.partitioned, rest);
    assert(dec_cookie(s) == Some(
        (
            CookieModel {
                name: c.name,
                value: c.value,
                domain: c.domain,
                path: c.path,
                expires: c.expires,
                secure: c.secure,
                http_only: c.http_only,
                same_site: c.same_site,
                partitioned: c.partitioned,
            },
            rest,
        ),
    ));
    assert(CookieModel {
        name: c.name,
        value: c.value,
        domain: c.domain,
        path: c.path,
        expires: c.expires,
        secure: c.secure,
        http_only: c.http_only,
        same_site: c.same_site,
        partitioned: c.partitioned,
    } =~= c);
}

/// Whether every string of every cookie is machine-representable.
pub open spec fn bounded_jar(jar: Seq<CookieModel>) -> bool {
    forall|i: int|
        0 <= i < jar.len() ==> (#[trigger] jar[i]).name.len() <= 0xffff_ffff_ffff_ffff
            && jar[i].value.len() <= 0xffff_ffff_ffff_ffff && jar[i].domain.len()
            <= 0xffff_ffff_ffff_ffff && jar[i].path.len() <= 0xffff_ffff_ffff_ffff
}

proof fn lemma_dec_cookies_enc(jar: Seq<CookieModel>, rest: Seq<char>)
    requires
        bounded_jar(jar),
    ensures
        dec_cookies(enc_cookies(jar) + rest, jar.len() as int) == Some((jar, rest)),
    decreases jar.len(),
{
    if jar.len() == 0 {
        assert(enc_cookies(jar) + rest =~= rest);
        assert(dec_cookies(rest, 0) == Some((Seq::<CookieModel>::empty(), rest)));
        assert(jar =~= Seq::<CookieModel>::empty());
    } else {
        let tail = jar.skip(1);
        assert(bounded_jar(tail)) by {
            assert(forall|i: int| 0 <= i < tail.len() ==> #[trigger] tail[i] == jar[i + 1]);
        }
        let s = enc_cookie(jar[0]) + (enc_cookies(tail) + rest);
        assert(enc_cookies(jar) + rest =~= s);
        lemma_dec_cookie_enc(jar[0], enc_cookies(tail) + rest);
        lemma_dec_cookies_enc(tail, rest);
        assert(seq![jar[0]] + tail =~= jar);
    }
}

/// Whether a session's strings and jar are machine-representable; every
/// `Session` value is, since its fields live in memory.
pub open spec fn bounded_session(m: SessionModel) -> bool {
    &&& m.gsid.len() <= 0xffff_ffff_ffff_ffff
    &&& m.uid.len() <= 0xffff_ffff_ffff_ffff
    &&& m.screen_name.len() <= 0xffff_ffff_ffff_ffff
    &&& m.cookie_store.len() <= 0xffff_ffff_ffff_ffff
    &&& bounded_jar(m.cookie_store)
}

/// Decoding a persisted session document restores the session exactly,
/// cookie jar, expiries and flags included.
pub proof fn lemma_session_round_trip(m: SessionModel)
    requires
        bounded_session(m),
    ensures
        spec_parse_session(enc_session(m)) == Some(m),
{
    let jar = m.cookie_store;
    let r8 = enc_cookies(jar);
    let r7 = enc_num(jar.len() as int) + r8;
    let r6 = tag_jar() + r7;
    let r5 = enc_str(m.screen_name) + r6;
    let r4 = tag_name() + r5;
    let r3 = enc_str(m.uid) + r4;
    let r2 = tag_uid() + r3;
    let r1 = enc_str(m.gsid) + r2;
    let s = tag_gsid() + r1;
    assert(enc_session(m) =~= s);
    lemma_strip_tag_enc(tag_gsid(), r1);
    lemma_take_str_enc(m.gsid, r2);
    lemma_strip_tag_enc(tag_uid(), r3);
    lemma_take_str_enc(m.uid, r4);
    lemma_strip_tag_enc(tag_name(), r5);
    lemma_take_str_enc(m.screen_name, r6);
    lemma_strip_tag_enc(tag_jar(), r7);
    lemma_take_num_enc(jar.len() as int, r8);
    assert(r8 =~= enc_cookies(jar) + Seq::<char>::empty());
    lemma_dec_cookies_enc(jar, Seq::<char>::empty());
    assert(spec_parse_session(enc_session(m)) == Some(
        SessionModel { gsid: m.gsid, uid: m.uid, screen_name: m.screen_name, cookie_store: jar },
    ));
    assert(SessionModel {
        gsid: m.gsid,
        uid: m.uid,
        screen_name: m.screen_name,
        cookie_store: jar,
    } =~= m);
}

// ---------------------------------------------------------------------------
// The executable codec.
// ---------------------------------------------------------------------------


fn push_all(dst: &mut Vec<char>, src: &Vec<char>)
    ensures
        final(dst)@ == old(dst)@ + src@,
{
    let ghost base = old(dst)@;
    let mut i: usize = 0;
    while i < src.len()
        invariant
            i <= src@.len(),
            dst@ == base + src@.take(i as int),
        decreases src@.len() - i,
    {
        dst.push(src[i]);
        i = i + 1;
        proof {
            assert(dst@ =~= base + src@.take(i as int));
        }
    }
    proof {
        assert(dst@ =~= base + src@);
    }
}

fn enc_str_into(dst: &mut Vec<char>, s: &String)
    ensures
        final(dst)@ == old(dst)@ + enc_str(s@),
{
    let ghost base = old(dst)@;
    let chars = str_to_chars(s.as_str());
    let d = digits_exec(chars.len() as u64);
    push_all(dst, &d);
    dst.push(':');
    push_all(dst, &chars);
    dst.push('\n');
    proof {
        assert(dst@ =~= base + enc_str(s@));
    }
}

fn enc_num_into(dst: &mut Vec<char>, n: u64)
    ensures
        final(dst)@ == old(dst)@ + enc_num(n as int),
{
    let ghost base = old(dst)@;
    let d = digits_exec(n);
    push_all(dst, &d);
    dst.push('\n');
    proof {
        assert(dst@ =~= base + enc_num(n as int));
    }
}

fn enc_flag_into(dst: &mut Vec<char>, b: bool)
    ensures
        final(dst)@ == old(dst)@ + enc_flag(b),
{
    let ghost base = old(dst)@;
    if b {
        dst.push('1');
    } else {
        dst.push('0');
    }
    dst.push('\n');
    proof {
        assert(dst@ =~= base + enc_flag(b));
    }
}

fn enc_expiry_into(dst: &mut Vec<char>, e: &Option<u64>)
    ensures
        final(dst)@ == old(dst)@ + enc_expiry(*e),
{
    let ghost base = old(dst)@;
    match e {
        Some(t) => {
            dst.push('E');
            let d = digits_exec(*t);
            push_all(dst, &d);
            dst.push('\n');
            proof {
                assert(dst@ =~= base + enc_expiry(*e));
            }
        },
        None => {
            dst.push('-');
            dst.push('\n');
            proof {
                assert(dst@ =~= base + enc_expiry(*e));
            }
        },
    }
}

fn enc_same_site_into(dst: &mut Vec<char>, s: &Option<SameSite>)
    ensures
        final(dst)@ == old(dst)@ + enc_same_site(*s),
{
    let ghost base = old(dst)@;
    match s {
        Some(SameSite::Strict) => dst.push('S'),
        Some(SameSite::Lax) => dst.push('L'),
        Some(SameSite::NoneSite) => dst.push('N'),
        None => dst.push('-'),
    }
    dst.push('\n');
    proof {
        assert(dst@ =~= base + enc_same_site(*s));
    }
}

#[verifier::rlimit(60)]
#[verifier::spinoff_prover]
fn enc_cookie_into(dst: &mut Vec<char>, c: &Cookie)
    ensures
        final(dst)@ == old(dst)@ + enc_cookie(c@),
{
    let ghost base = old(dst)@;
    enc_str_into(dst, &c.name);
    enc_str_into(dst, &c.value);
    enc_str_into(dst, &c.domain);
    enc_str_into(dst, &c.path);
    enc_expiry_into(dst, &c.expires);
    enc_flag_into(dst, c.secure);
    enc_flag_into(dst, c.http_only);
    enc_same_site_into(dst, &c.same_site);
    enc_flag_into(dst, c.partitioned);
    proof {
        assert(dst@ =~= base + enc_cookie(c@));
    }
}

fn enc_cookies_into(dst: &mut Vec<char>, jar: &Vec<Cookie>, from: usize)
    requires
        from <= jar@.len(),
    ensures
        final(dst)@ == old(dst)@ + enc_cookies(jar_view(jar@).skip(from as int)),
    decreases jar@.len() - from,
{
    if from < jar.len() {
        let ghost base = dst@;
        enc_cookie_into(dst, &jar[from]);
        enc_cookies_into(dst, jar, from + 1);
        proof {
            let jv = jar_view(jar@);
            assert(jv.skip(from as int).len() > 0);
            assert(jv.skip(from as int)[0] == jar@[from as int]@);
            assert(jv.skip(from as int).skip(1) =~= jv.skip(from + 1));
            assert(dst@ =~= base + enc_cookies(jv.skip(from as int)));
        }
    } else {
        proof {
            assert(jar_view(jar@).skip(from as int) =~= Seq::<CookieModel>::empty());
            assert(dst@ =~= dst@ + enc_cookies(jar_view(jar@).skip(from as int)));
        }
    }
}

/// Writes the session as its persisted document.
pub fn serialize_session(s: &Session) -> (r: String)
    ensures
        r@ == enc_session(s@),
{
    let mut out: Vec<char> = Vec::new();
    out.push('g');
    out.push('s');
    out.push('i');
    out.push('d');
    out.push(':');
    proof {
        assert(out@ =~= tag_gsid());
    }
    enc_str_into(&mut out, &s.gsid);
    out.push('u');
    out.push('i');
    out.push('d');
    out.push(':');
    enc_str_into(&mut out, &s.uid);
    out.push('n');
    out.push('a');
    out.push('m');
    out.push('e');
    out.push(':');
    enc_str_into(&mut out, &s.screen_name);
    out.push('j');
    out.push('a');
    out.push('r');
    out.push(':');
    enc_num_into(&mut out, s.cookie_store.len() as u64);
    enc_cookies_into(&mut out, &s.cookie_store, 0);
    proof {
        assert(jar_view(s.cookie_store@).skip(0) =~= jar_view(s.cookie_store@));
        assert(out@ =~= enc_session(s@));
    }
    chars_to_string(&out)
}

/// Reads a length-prefixed string at `pos`.
fn take_str_exec(v: &Vec<char>, pos: usize) -> (r: Option<(String, usize)>)
    requires
        pos <= v@.len(),
    ensures
        match r {
            Some(p) => pos <= p.1 <= v@.len() && take_str(v@.skip(pos as int)) == Some(
                (p.0@, v@.skip(p.1 as int)),
            ),
            None => take_str(v@.skip(pos as int)) is None,
        },
{
    let rest = subvec(v, pos, v.len());
    proof {
        assert(rest@ =~= v@.skip(pos as int));
    }
    let e = find_char(&rest, ':');
    if e >= rest.len() {
        return None;
    }
    let ds = subvec(&rest, 0, e);
    proof {
        assert(ds@ =~= rest@.take(e as int));
    }
    let n = match parse_digits_bounded(&ds, 0xffff_ffff_ffff_ffff) {
        Some(n) => n,
        None => {
            return None;
        },
    };
    let after = rest.len() - (e + 1);
    if n >= after as u64 {
        proof {
            assert(rest@.skip(e + 1).len() < n + 1);
        }
        return None;
    }
    let n_us = n as usize;
    if rest[e + 1 + n_us] != '\n' {
        proof {
            assert(rest@.skip(e + 1)[n as int] == rest@[e + 1 + n as int]);
        }
        return None;
    }
    let val = subvec(&rest, e + 1, e + 1 + n_us);
    let np = pos + e + 1 + n_us + 1;
    proof {
        assert(rest@.skip(e + 1)[n as int] == rest@[e + 1 + n as int]);
        assert(val@ =~= rest@.skip(e + 1).take(n as int));
        assert(v@.skip(np as int) =~= rest@.skip(e + 1).skip(n + 1));
    }
    Some((chars_to_string(&val), np))
}

/// Reads a newline-terminated number at `pos`.
fn take_num_exec(v: &Vec<char>, pos: usize) -> (r: Option<(u64, usize)>)
    requires
        pos <= v@.len(),
    ensures
        match r {
            Some(p) => pos <= p.1 <= v@.len() && take_num(v@.skip(pos as int)) == Some(
                (p.0 as int, v@.skip(p.1 as int)),
            ),
            None => take_num(v@.skip(pos as int)) is None,
        },
{
    let rest = subvec(v, pos, v.len());
    proof {
        assert(rest@ =~= v@.skip(pos as int));
    }
    let e = find_char(&rest, '\n');
    if e >= rest.len() {
        return None;
    }
    let ds = subvec(&rest, 0, e);
    proof {
        assert(ds@ =~= rest@.take(e as int));
    }
    match parse_digits_bounded(&ds, 0xffff_ffff_ffff_ffff) {
        Some(n) => {
            let np = pos + e + 1;
            proof {
                assert(v@.skip(np as int) =~= rest@.skip(e + 1));
            }
            Some((n, np))
        },
        None => None,
    }
}

fn take_flag_exec(v: &Vec<char>, pos: usize) -> (r: Option<(bool, usize)>)
    requires
        pos <= v@.len(),
    ensures
        match r {
            Some(p) => pos <= p.1 <= v@.len() && take_flag(v@.skip(pos as int)) == Some(
                (p.0, v@.skip(p.1 as int)),
            ),
            None => take_flag(v@.skip(pos as int)) is None,
        },
{
    let rem = v.len() - pos;
    if rem >= 2 && (v[pos] == '0' || v[pos] == '1') && v[pos + 1] == '\n' {
        proof {
            assert(v@.skip(pos as int)[0] == v@[pos as int]);
            assert(v@.skip(pos as int)[1] == v@[pos + 1]);
            assert(v@.skip(pos + 2) =~= v@.skip(pos as int).skip(2));
        }
        Some((v[pos] == '1', pos + 2))
    } else {
        proof {
            if v@.skip(pos as int).len() >= 2 {
                assert(v@.skip(pos as int)[0] == v@[pos as int]);
                assert(v@.skip(pos as int)[1] == v@[pos + 1]);
            }
        }
        None
    }
}

fn take_same_site_exec(v: &Vec<char>, pos: usize) -> (r: Option<(Option<SameSite>, usize)>)
    requires
        pos <= v@.len(),
    ensures
        match r {
            Some(p) => pos <= p.1 <= v@.len() && take_same_site(v@.skip(pos as int)) == Some(
                (p.0, v@.skip(p.1 as int)),
            ),
            None => take_same_site(v@.skip(pos as int)) is None,
        },
{
    let rem = v.len() - pos;
    if rem >= 2 && v[pos + 1] == '\n' && (v[pos] == 'S' || v[pos] == 'L' || v[pos] == 'N'
        || v[pos] == '-') {
        proof {
            assert(v@.skip(pos as int)[0] == v@[pos as int]);
            assert(v@.skip(pos as int)[1] == v@[pos + 1]);
            assert(v@.skip(pos + 2) =~= v@.skip(pos as int).skip(2));
        }
        let ss = if v[pos] == 'S' {
            Some(SameSite::Strict)
        } else if v[pos] == 'L' {
            Some(SameSite::Lax)
        } else if v[pos] == 'N' {
            Some(SameSite::NoneSite)
        } else {
            None
        };
        Some((ss, pos + 2))
    } else {
        proof {
            if v@.skip(pos as int).len() >= 2 {
                assert(v@.skip(pos as int)[0] == v@[pos as int]);
                assert(v@.skip(pos as int)[1] == v@[pos + 1]);
            }
        }
        None
    }
}

fn take_expiry_exec(v: &Vec<char>, pos: usize) -> (r: Option<(Option<u64>, usize)>)
    requires
        pos <= v@.len(),
    ensures
        match r {
            Some(p) => pos <= p.1 <= v@.len() && take_expiry(v@.skip(pos as int)) == Some(
                (p.0, v@.skip(p.1 as int)),
            ),
            None => take_expiry(v@.skip(pos as int)) is None,
        },
{
    proof {
        if v@.skip(pos as int).len() >= 1 {
            assert(v@.skip(pos as int)[0] == v@[pos as int]);
        }
        if v@.skip(pos as int).len() >= 2 {
            assert(v@.skip(pos as int)[1] == v@[pos + 1]);
        }
    }
    let rem = v.len() - pos;
    if rem >= 2 && v[pos] == '-' && v[pos + 1] == '\n' {
        proof {
            assert(v@.skip(pos + 2) =~= v@.skip(pos as int).skip(2));
        }
        Some((None, pos + 2))
    } else if rem >= 1 && v[pos] == 'E' {
        proof {
            assert(v@.skip(pos + 1) =~= v@.skip(pos as int).skip(1));
        }
        match take_num_exec(v, pos + 1) {
            Some((n, np)) => Some((Some(n), np)),
            None => None,
        }
    } else {
        None
    }
}

/// Strips an expected literal tag at `pos`; the tag is given as characters.
fn strip_tag_exec(v: &Vec<char>, pos: usize, tag: &Vec<char>) -> (r: Option<usize>)
    requires
        pos <= v@.len(),
    ensures
        match r {
            Some(np) => pos <= np <= v@.len() && strip_tag(v@.skip(pos as int), tag@) == Some(
                v@.skip(np as int),
            ),
            None => strip_tag(v@.skip(pos as int), tag@) is None,
        },
{
    let n = v.len();
    let rem = n - pos;
    if tag.len() > rem {
        return None;
    }
    let mut i: usize = 0;
    while i < tag.len()
        invariant
            n == v@.len(),
            pos + tag@.len() <= n,
            i <= tag@.len(),
            forall|j: int| 0 <= j < i ==> v@[pos + j] == tag@[j],
        decreases tag@.len() - i,
    {
        if v[pos + i] != tag[i] {
            proof {
                let s = v@.skip(pos as int);
                assert(s[i as int] == v@[pos + i]);
                if s.take(tag@.len() as int) == tag@ {
                    assert(s.take(tag@.len() as int)[i as int] == tag@[i as int]);
                }
            }
            return None;
        }
        i = i + 1;
    }
    proof {
        let s = v@.skip(pos as int);
        assert forall|j: int| 0 <= j < tag@.len() implies s.take(tag@.len() as int)[j] == tag@[j] by {
            assert(s[j] == v@[pos + j]);
        }
        assert(s.take(tag@.len() as int) =~= tag@);
        assert(v@.skip(pos + tag@.len()) =~= s.skip(tag@.len() as int));
    }
    Some(pos + tag.len())
}

fn dec_cookie_exec(v: &Vec<char>, pos: usize) -> (r: Option<(Cookie, usize)>)
    requires
        pos <= v@.len(),
    ensures
        match r {
            Some(p) => pos <= p.1 <= v@.len() && dec_cookie(v@.skip(pos as int)) == Some(
                (p.0@, v@.skip(p.1 as int)),
            ),
            None => dec_cookie(v@.skip(pos as int)) is None,
        },
{
    let (name, pos) = match take_str_exec(v, pos) {
        Some(p) => p,
        None => {
            return None;
        },
    };
    let (value, pos) = match take_str_exec(v, pos) {
        Some(p) => p,
        None => {
            return None;
        },
    };
    let (domain, pos) = match take_str_exec(v, pos) {
        Some(p) => p,
        None => {
            return None;
        },
    };
    let (path, pos) = match take_str_exec(v, pos) {
        Some(p) => p,
        None => {
            return None;
        },
    };
    let (expires, pos) = match take_expiry_exec(v, pos) {
        Some(p) => p,
        None => {
            return None;
        },
    };
    let (secure, pos) = match take_flag_exec(v, pos) {
        Some(p) => p,
        None => {
            return None;
        },
    };
    let (http_only, pos) = match take_flag_exec(v, pos) {
        Some(p) => p,
        None => {
            return None;
        },
    };
    let (same_site, pos) = match take_same_site_exec(v, pos) {
        Some(p) => p,
        None => {
            return None;
        },
    };
    let (partitioned, pos) = match take_flag_exec(v, pos) {
        Some(p) => p,
        None => {
            return None;
        },
    };
    let c = Cookie { name, value, domain, path, expires, secure, http_only, same_site, partitioned };
    Some((c, pos))
}

fn dec_cookies_exec(v: &Vec<char>, pos: usize, n: u64) -> (r: Option<(Vec<Cookie>, usize)>)
    requires
        pos <= v@.len(),
    ensures
        match r {
            Some(p) => pos <= p.1 <= v@.len() && dec_cookies(v@.skip(pos as int), n as int) == Some(
                (jar_view(p.0@), v@.skip(p.1 as int)),
            ),
            None => dec_cookies(v@.skip(pos as int), n as int) is None,
        },
    decreases n,
{
    if n == 0 {
        let jar: Vec<Cookie> = Vec::new();
        proof {
            assert(jar_view(jar@) =~= Seq::<CookieModel>::empty());
        }
        return Some((jar, pos));
    }
    let (c, pos2) = match dec_cookie_exec(v, pos) {
        Some(p) => p,
        None => {
            return None;
        },
    };
    match dec_cookies_exec(v, pos2, n - 1) {
        Some((mut jar, pos3)) => {
            let ghost tail = jar_view(jar@);
            jar.insert(0, c);
            proof {
                assert forall|j: int| 0 <= j < jar@.len() implies #[trigger] jar_view(jar@)[j] == (
                seq![c@] + tail)[j] by {
                    if j == 0 {
                        assert(jar@[0] == c);
                    } else {
                        assert(jar@[j]@ == tail[j - 1]);
                    }
                }
                assert(jar_view(jar@) =~= seq![c@] + tail);
            }
            Some((jar, pos3))
        },
        None => None,
    }
}

/// Reads a persisted session document back. Returns the session exactly when
/// the whole text is one well-formed document, and `DeserializationError`
/// otherwise.
pub fn parse_session(text: &str) -> (r: Result<Session, Error>)
    ensures
        match spec_parse_session(text@) {
            Some(m) => r matches Ok(s) && s@ == m,
            None => r == Err::<Session, Error>(Error::DeserializationError),
        },
{
    let v = str_to_chars(text);
    let mut tag: Vec<char> = Vec::new();
    tag.push('g');
    tag.push('s');
    tag.push('i');
    tag.push('d');
    tag.push(':');
    proof {
        assert(tag@ =~= tag_gsid());
        assert(v@.skip(0) =~= v@);
    }
    let pos = match strip_tag_exec(&v, 0, &tag) {
        Some(p) => p,
        None => {
            return Err(Error::DeserializationError);
        },
    };
    let (gsid, pos) = match take_str_exec(&v, pos) {
        Some(p) => p,
        None => {
            return Err(Error::DeserializationError);
        },
    };
    let mut tag: Vec<char> = Vec::new();
    tag.push('u');
    tag.push('i');
    tag.push('d');
    tag.push(':');
    proof {
        assert(tag@ =~= tag_uid());
    }
    let pos = match strip_tag_exec(&v, pos, &tag) {
        Some(p) => p,
        None => {
            return Err(Error::DeserializationError);
        },
    };
    let (uid, pos) = match take_str_exec(&v, pos) {
        Some(p) => p,
        None => {
            return Err(Error::DeserializationError);
        },
    };
    let mut tag: Vec<char> = Vec::new();
    tag.push('n');
    tag.push('a');
    tag.push('m');
    tag.push('e');
    tag.push(':');
    proof {
        assert(tag@ =~= tag_name());
    }
    let pos = match strip_tag_exec(&v, pos, &tag) {
        Some(p) => p,
        None => {
            return Err(Error::DeserializationError);
        },
    };
    let (screen_name, pos) = match take_str_exec(&v, pos) {
        Some(p) => p,
        None => {
            return Err(Error::DeserializationError);
        },
    };
    let mut tag: Vec<char> = Vec::new();
    tag.push('j');
    tag.push('a');
    tag.push('r');
    tag.push(':');
    proof {
        assert(tag@ =~= tag_jar());
    }
    let pos = match strip_tag_exec(&v, pos, &tag) {
        Some(p) => p,
        None => {
            return Err(Error::DeserializationError);
        },
    };
    let (count, pos) = match take_num_exec(&v, pos) {
        Some(p) => p,
        None => {
            return Err(Error::DeserializationError);
        },
    };
    let (jar, pos) = match dec_cookies_exec(&v, pos, count) {
        Some(p) => p,
        None => {
            return Err(Error::DeserializationError);
        },
    };
    if pos != v.len() {
        proof {
            assert(v@.skip(pos as int).len() != 0);
        }
        return Err(Error::DeserializationError);
    }
    proof {
        assert(v@.skip(pos as int).len() == 0);
    }
    Ok(Session { gsid, uid, screen_name, cookie_store: jar })
}

} // verus!
