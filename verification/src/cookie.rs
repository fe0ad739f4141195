//! The cookie translator: the service delivers cookies as per-domain
//! multi-line text embedded in JSON, one cookie per line in a loose
//! `Set-Cookie` shape. Parsing is permissive — unknown attributes are
//! ignored, bad dates leave the expiry unset — and fails only on an entry
//! with no `name=value` pair.

use vstd::prelude::*;

use crate::dates::spec_parse_http_date;
use crate::dates::parse_http_date;
use crate::errors::Error;
use crate::strutil::{
    first_index_of, find_char, subvec, split_on, split_on_exec, trim, trim_exec, spec_lower,
    lower_char, spec_parse_int, parse_digits_bounded, str_to_chars, chars_to_string,
    lemma_first_index_of, all_digits, lemma_digits_value_nonneg,
};

verus! {

/// The `SameSite` policy of a cookie.
#[derive(Debug, Clone, Copy, PartialEq, Eq, Structural)]
pub enum SameSite {
    Strict,
    Lax,
    NoneSite,
}

/// One entry of the cookie jar.
#[derive(Debug, Clone, PartialEq, Eq)]
pub struct Cookie {
    pub name: String,
    pub value: String,
    pub domain: String,
    pub path: String,
    /// Expiry instant in seconds since the Unix epoch; a cookie without one
    /// is session-scoped.
    pub expires: Option<u64>,
    pub secure: bool,
    pub http_only: bool,
    pub same_site: Option<SameSite>,
    pub partitioned: bool,
}

/// The mathematical shape of a cookie: its strings as character sequences.
#[verifier::ext_equal]
pub ghost struct CookieModel {
    pub name: Seq<char>,
    pub value: Seq<char>,
    pub domain: Seq<char>,
    pub path: Seq<char>,
    pub expires: Option<u64>,
    pub secure: bool,
    pub http_only: bool,
    pub same_site: Option<SameSite>,
    pub partitioned: bool,
}

impl View for Cookie {
    type V = CookieModel;

    open spec fn view(&self) -> CookieModel {
        CookieModel {
            name: self.name@,
            value: self.value@,
            domain: self.domain@,
            path: self.path@,
            expires: self.expires,
            secure: self.secure,
            http_only: self.http_only,
            same_site: self.same_site,
            partitioned: self.partitioned,
        }
    }
}

/// The state while a cookie line's attributes are folded in: the cookie so
/// far, and a `Max-Age` kept apart because it outranks `Expires`.
pub ghost struct AttrState {
    pub c: CookieModel,
    pub max_age: Option<int>,
}

/// A domain with a leading dot stripped.
pub open spec fn strip_dot(s: Seq<char>) -> Seq<char> {
    if s.len() > 0 && s[0] == '.' {
        s.skip(1)
    } else {
        s
    }
}

pub open spec fn kw_secure(s: Seq<char>) -> bool {
    s.len() == 6 && spec_lower(s[0]) == 's' && spec_lower(s[1]) == 'e' && spec_lower(s[2]) == 'c'
        && spec_lower(s[3]) == 'u' && spec_lower(s[4]) == 'r' && spec_lower(s[5]) == 'e'
}

pub open spec fn kw_httponly(s: Seq<char>) -> bool {
    s.len() == 8 && spec_lower(s[0]) == 'h' && spec_lower(s[1]) == 't' && spec_lower(s[2]) == 't'
        && spec_lower(s[3]) == 'p' && spec_lower(s[4]) == 'o' && spec_lower(s[5]) == 'n'
        && spec_lower(s[6]) == 'l' && spec_lower(s[7]) == 'y'
}

pub open spec fn kw_partitioned(s: Seq<char>) -> bool {
    s.len() == 11 && spec_lower(s[0]) == 'p' && spec_lower(s[1]) == 'a' && spec_lower(s[2]) == 'r'
        && spec_lower(s[3]) == 't' && spec_lower(s[4]) == 'i' && spec_lower(s[5]) == 't'
        && spec_lower(s[6]) == 'i' && spec_lower(s[7]) == 'o' && spec_lower(s[8]) == 'n'
        && spec_lower(s[9]) == 'e' && spec_lower(s[10]) == 'd'
}

pub open spec fn kw_samesite(s: Seq<char>) -> bool {
    s.len() == 8 && spec_lower(s[0]) == 's' && spec_lower(s[1]) == 'a' && spec_lower(s[2]) == 'm'
        && spec_lower(s[3]) == 'e' && spec_lower(s[4]) == 's' && spec_lower(s[5]) == 'i'
        && spec_lower(s[6]) == 't' && spec_lower(s[7]) == 'e'
}

pub open spec fn kw_domain(s: Seq<char>) -> bool {
    s.len() == 6 && spec_lower(s[0]) == 'd' && spec_lower(s[1]) == 'o' && spec_lower(s[2]) == 'm'
        && spec_lower(s[3]) == 'a' && spec_lower(s[4]) == 'i' && spec_lower(s[5]) == 'n'
}

pub open spec fn kw_path(s: Seq<char>) -> bool {
    s.len() == 4 && spec_lower(s[0]) == 'p' && spec_lower(s[1]) == 'a' && spec_lower(s[2]) == 't'
        && spec_lower(s[3]) == 'h'
}

pub open spec fn kw_max_age(s: Seq<char>) -> bool {
    s.len() == 7 && spec_lower(s[0]) == 'm' && spec_lower(s[1]) == 'a' && spec_lower(s[2]) == 'x'
        && s[3] == '-' && spec_lower(s[4]) == 'a' && spec_lower(s[5]) == 'g' && spec_lower(s[6])
        == 'e'
}

pub open spec fn kw_expires(s: Seq<char>) -> bool {
    s.len() == 7 && spec_lower(s[0]) == 'e' && spec_lower(s[1]) == 'x' && spec_lower(s[2]) == 'p'
        && spec_lower(s[3]) == 'i' && spec_lower(s[4]) == 'r' && spec_lower(s[5]) == 'e'
        && spec_lower(s[6]) == 's'
}

pub open spec fn val_strict(s: Seq<char>) -> bool {
    s.len() == 6 && spec_lower(s[0]) == 's' && spec_lower(s[1]) == 't' && spec_lower(s[2]) == 'r'
        && spec_lower(s[3]) == 'i' && spec_lower(s[4]) == 'c' && spec_lower(s[5]) == 't'
}

pub open spec fn val_lax(s: Seq<char>) -> bool {
    s.len() == 3 && spec_lower(s[0]) == 'l' && spec_lower(s[1]) == 'a' && spec_lower(s[2]) == 'x'
}

pub open spec fn val_none(s: Seq<char>) -> bool {
    s.len() == 4 && spec_lower(s[0]) == 'n' && spec_lower(s[1]) == 'o' && spec_lower(s[2]) == 'n'
        && spec_lower(s[3]) == 'e'
}

/// A `Max-Age` value is honoured only when it fits a signed 64-bit integer;
/// anything else is ignored like any other unrecognised value.
pub open spec fn parse_max_age(s: Seq<char>) -> Option<int> {
    match spec_parse_int(s) {
        Some(n) => if -0x8000_0000_0000_0000 <= n <= 0x7fff_ffff_ffff_ffff {
            Some(n)
        } else {
            None
        },
        None => None,
    }
}

/// Folds one `;`-separated attribute into the state. The part before the
/// first `=` (or the whole segment) names the attribute, case-insensitively;
/// segments naming nothing known are ignored.
pub open spec fn apply_attr(st: AttrState, seg: Seq<char>) -> AttrState {
    let eq = first_index_of(seg, '=');
    let key = if eq >= seg.len() {
        trim(seg)
    } else {
        trim(seg.take(eq))
    };
    let val = if eq >= seg.len() {
        Seq::<char>::empty()
    } else {
        trim(seg.skip(eq + 1))
    };
    if kw_secure(key) {
        AttrState { c: CookieModel { secure: true, ..st.c }, ..st }
    } else if kw_httponly(key) {
        AttrState { c: CookieModel { http_only: true, ..st.c }, ..st }
    } else if kw_partitioned(key) {
        AttrState { c: CookieModel { partitioned: true, ..st.c }, ..st }
    } else if kw_samesite(key) {
        if val_strict(val) {
            AttrState { c: CookieModel { same_site: Some(SameSite::Strict), ..st.c }, ..st }
        } else if val_lax(val) {
            AttrState { c: CookieModel { same_site: Some(SameSite::Lax), ..st.c }, ..st }
        } else if val_none(val) {
            AttrState { c: CookieModel { same_site: Some(SameSite::NoneSite), ..st.c }, ..st }
        } else {
            st
        }
    } else if kw_domain(key) {
        if val.len() > 0 {
            AttrState { c: CookieModel { domain: strip_dot(val), ..st.c }, ..st }
        } else {
            st
        }
    } else if kw_path(key) {
        if val.len() > 0 {
            AttrState { c: CookieModel { path: val, ..st.c }, ..st }
        } else {
            st
        }
    } else if kw_max_age(key) {
        match parse_max_age(val) {
            Some(n) => AttrState { max_age: Some(n), ..st },
            None => st,
        }
    } else if kw_expires(key) {
        match spec_parse_http_date(val) {
            Some(t) => AttrState { c: CookieModel { expires: Some(t), ..st.c }, ..st },
            None => st,
        }
    } else {
        st
    }
}

/// Folds the attribute segments in, left to right.
pub open spec fn apply_attrs(st: AttrState, segs: Seq<Seq<char>>) -> AttrState
    decreases segs.len(),
{
    if segs.len() == 0 {
        st
    } else {
        apply_attr(apply_attrs(st, segs.drop_last()), segs.last())
    }
}

/// Resolves the expiry: a `Max-Age`, clamped to zero remaining lifetime when
/// negative, outranks an `Expires` date; the sum saturates.
pub open spec fn resolve_expiry(st: AttrState, now: u64) -> CookieModel {
    match st.max_age {
        Some(a) => CookieModel {
            expires: Some(
                if a <= 0 {
                    now
                } else if now + a > 0xffff_ffff_ffff_ffff {
                    0xffff_ffff_ffff_ffffu64
                } else {
                    (now + a) as u64
                },
            ),
            ..st.c
        },
        None => st.c,
    }
}

/// What one cookie line denotes for a default domain, read at instant `now`:
/// nothing when the part before the first `;` has no `=` or an empty name;
/// otherwise the cookie under its recognised attributes, with path `/` and
/// the default domain unless overridden.
pub open spec fn spec_parse_cookie(line: Seq<char>, default_domain: Seq<char>, now: u64) -> Option<
    CookieModel,
> {
    let segs = split_on(line, ';');
    let first = segs[0];
    let eq = first_index_of(first, '=');
    if eq >= first.len() {
        None
    } else {
        let name = trim(first.take(eq));
        let value = trim(first.skip(eq + 1));
        if name.len() == 0 {
            None
        } else {
            let st0 = AttrState {
                c: CookieModel {
                    name: name,
                    value: value,
                    domain: default_domain,
                    path: seq!['/'],
                    expires: None,
                    secure: false,
                    http_only: false,
                    same_site: None,
                    partitioned: false,
                },
                max_age: None,
            };
            Some(resolve_expiry(apply_attrs(st0, segs.skip(1)), now))
        }
    }
}

fn kw_secure_exec(v: &Vec<char>) -> (r: bool)
    ensures
        r == kw_secure(v@),
{
    v.len() == 6 && lower_char(v[0]) == 's' && lower_char(v[1]) == 'e' && lower_char(v[2]) == 'c'
        && lower_char(v[3]) == 'u' && lower_char(v[4]) == 'r' && lower_char(v[5]) == 'e'
}

fn kw_httponly_exec(v: &Vec<char>) -> (r: bool)
    ensures
        r == kw_httponly(v@),
{
    v.len() == 8 && lower_char(v[0]) == 'h' && lower_char(v[1]) == 't' && lower_char(v[2]) == 't'
        && lower_char(v[3]) == 'p' && lower_char(v[4]) == 'o' && lower_char(v[5]) == 'n'
        && lower_char(v[6]) == 'l' && lower_char(v[7]) == 'y'
}

fn kw_partitioned_exec(v: &Vec<char>) -> (r: bool)
    ensures
        r == kw_partitioned(v@),
{
    v.len() == 11 && lower_char(v[0]) == 'p' && lower_char(v[1]) == 'a' && lower_char(v[2]) == 'r'
        && lower_char(v[3]) == 't' && lower_char(v[4]) == 'i' && lower_char(v[5]) == 't'
        && lower_char(v[6]) == 'i' && lower_char(v[7]) == 'o' && lower_char(v[8]) == 'n'
        && lower_char(v[9]) == 'e' && lower_char(v[10]) == 'd'
}

fn kw_samesite_exec(v: &Vec<char>) -> (r: bool)
    ensures
        r == kw_samesite(v@),
{
    v.len() == 8 && lower_char(v[0]) == 's' && lower_char(v[1]) == 'a' && lower_char(v[2]) == 'm'
        && lower_char(v[3]) == 'e' && lower_char(v[4]) == 's' && lower_char(v[5]) == 'i'
        && lower_char(v[6]) == 't' && lower_char(v[7]) == 'e'
}

fn kw_domain_exec(v: &Vec<char>) -> (r: bool)
    ensures
        r == kw_domain(v@),
{
    v.len() == 6 && lower_char(v[0]) == 'd' && lower_char(v[1]) == 'o' && lower_char(v[2]) == 'm'
        && lower_char(v[3]) == 'a' && lower_char(v[4]) == 'i' && lower_char(v[5]) == 'n'
}

fn kw_path_exec(v: &Vec<char>) -> (r: bool)
    ensures
        r == kw_path(v@),
{
    v.len() == 4 && lower_char(v[0]) == 'p' && lower_char(v[1]) == 'a' && lower_char(v[2]) == 't'
        && lower_char(v[3]) == 'h'
}

fn kw_max_age_exec(v: &Vec<char>) -> (r: bool)
    ensures
        r == kw_max_age(v@),
{
    v.len() == 7 && lower_char(v[0]) == 'm' && lower_char(v[1]) == 'a' && lower_char(v[2]) == 'x'
        && v[3] == '-' && lower_char(v[4]) == 'a' && lower_char(v[5]) == 'g' && lower_char(v[6])
        == 'e'
}

fn kw_expires_exec(v: &Vec<char>) -> (r: bool)
    ensures
        r == kw_expires(v@),
{
    v.len() == 7 && lower_char(v[0]) == 'e' && lower_char(v[1]) == 'x' && lower_char(v[2]) == 'p'
        && lower_char(v[3]) == 'i' && lower_char(v[4]) == 'r' && lower_char(v[5]) == 'e'
        && lower_char(v[6]) == 's'
}

fn val_strict_exec(v: &Vec<char>) -> (r: bool)
    ensures
        r == val_strict(v@),
{
    v.len() == 6 && lower_char(v[0]) == 's' && lower_char(v[1]) == 't' && lower_char(v[2]) == 'r'
        && lower_char(v[3]) == 'i' && lower_char(v[4]) == 'c' && lower_char(v[5]) == 't'
}

fn val_lax_exec(v: &Vec<char>) -> (r: bool)
    ensures
        r == val_lax(v@),
{
    v.len() == 3 && lower_char(v[0]) == 'l' && lower_char(v[1]) == 'a' && lower_char(v[2]) == 'x'
}

fn val_none_exec(v: &Vec<char>) -> (r: bool)
    ensures
        r == val_none(v@),
{
    v.len() == 4 && lower_char(v[0]) == 'n' && lower_char(v[1]) == 'o' && lower_char(v[2]) == 'n'
        && lower_char(v[3]) == 'e'
}

/// Parses a `Max-Age` value; `None` exactly where the spec ignores it.
fn parse_max_age_exec(v: &Vec<char>) -> (r: Option<i64>)
    ensures
        match r {
            Some(n) => parse_max_age(v@) == Some(n as int),
            None => parse_max_age(v@) is None,
        },
{
    if v.len() > 0 && v[0] == '-' {
        let digits = subvec(v, 1, v.len());
        proof {
            assert(digits@ =~= v@.skip(1));
        }
        match parse_digits_bounded(&digits, 0x8000_0000_0000_0000) {
            Some(n) => {
                proof {
                    if all_digits(digits@) {
                        lemma_digits_value_nonneg(digits@);
                    }
                }
                if n == 0x8000_0000_0000_0000 {
                    Some(i64::MIN)
                } else {
                    Some(-(n as i64))
                }
            },
            None => {
                proof {
                    if digits@.len() > 0 && all_digits(digits@) {
                        lemma_digits_value_nonneg(digits@);
                    }
                }
                None
            },
        }
    } else {
        match parse_digits_bounded(v, 0x7fff_ffff_ffff_ffff) {
            Some(n) => {
                proof {
                    if all_digits(v@) {
                        lemma_digits_value_nonneg(v@);
                    }
                }
                Some(n as i64)
            },
            None => {
                proof {
                    if v@.len() > 0 && all_digits(v@) {
                        lemma_digits_value_nonneg(v@);
                    }
                }
                None
            },
        }
    }
}

/// The exec attribute-fold state.
struct Building {
    c: Cookie,
    max_age: Option<i64>,
}

impl Building {
    spec fn view(&self) -> AttrState {
        AttrState {
            c: self.c@,
            max_age: match self.max_age {
                Some(a) => Some(a as int),
                None => None,
            },
        }
    }
}

/// Folds one attribute segment into the state.
fn apply_attr_exec(b: Building, seg: Vec<char>) -> (r: Building)
    ensures
        r.view() == apply_attr(b.view(), seg@),
{
    let eq = find_char(&seg, '=');
    let key;
    let val;
    if eq >= seg.len() {
        key = trim_exec(subvec(&seg, 0, seg.len()));
        val = Vec::<char>::new();
        proof {
            assert(seg@.subrange(0, seg@.len() as int) =~= seg@);
            assert(val@ =~= Seq::<char>::empty());
        }
    } else {
        let k = subvec(&seg, 0, eq);
        let w = subvec(&seg, eq + 1, seg.len());
        proof {
            assert(k@ =~= seg@.take(eq as int));
            assert(w@ =~= seg@.skip(eq + 1));
        }
        key = trim_exec(k);
        val = trim_exec(w);
    }
    let mut b = b;
    if kw_secure_exec(&key) {
        b.c.secure = true;
        b
    } else if kw_httponly_exec(&key) {
        b.c.http_only = true;
        b
    } else if kw_partitioned_exec(&key) {
        b.c.partitioned = true;
        b
    } else if kw_samesite_exec(&key) {
        if val_strict_exec(&val) {
            b.c.same_site = Some(SameSite::Strict);
        } else if val_lax_exec(&val) {
            b.c.same_site = Some(SameSite::Lax);
        } else if val_none_exec(&val) {
            b.c.same_site = Some(SameSite::NoneSite);
        }
        b
    } else if kw_domain_exec(&key) {
        if val.len() > 0 {
            if val[0] == '.' {
                let stripped = subvec(&val, 1, val.len());
                proof {
                    assert(stripped@ =~= val@.skip(1));
                }
                b.c.domain = chars_to_string(&stripped);
            } else {
                b.c.domain = chars_to_string(&val);
            }
        }
        b
    } else if kw_path_exec(&key) {
        if val.len() > 0 {
            b.c.path = chars_to_string(&val);
        }
        b
    } else if kw_max_age_exec(&key) {
        match parse_max_age_exec(&val) {
            Some(n) => {
                b.max_age = Some(n);
            },
            None => {},
        }
        b
    } else if kw_expires_exec(&key) {
        match parse_http_date(&val) {
            Some(t) => {
                b.c.expires = Some(t);
            },
            None => {},
        }
        b
    } else {
        b
    }
}

/// Parses one cookie line against a default domain, reading `Max-Age`
/// relative to `now` (seconds since the Unix epoch). Fails, with the line in
/// the error, exactly on a line whose first segment has no `=` or an empty
/// name.
pub fn parse_cookie(line: &str, default_domain: &str, now: u64) -> (r: Result<Cookie, Error>)
    ensures
        match spec_parse_cookie(line@, default_domain@, now) {
            Some(m) => r matches Ok(c) && c@ == m,
            None => r matches Err(e) && (e matches Error::DataConversionError(s) && s@ == line@),
        },
{
    let chars = str_to_chars(line);
    let ghost line_view = chars@;
    let segs = split_on_exec(chars, ';');
    let ghost segs_view = segs.deep_view();
    proof {
        assert(split_on(line_view, ';').len() > 0) by {
            lemma_first_index_of(line_view, ';');
        }
    }
    let first = &segs[0];
    proof {
        assert(first@ == segs_view[0]);
    }
    let eq = find_char(first, '=');
    if eq >= first.len() {
        return Err(Error::DataConversionError(line.to_owned()));
    }
    let name_part = subvec(first, 0, eq);
    let value_part = subvec(first, eq + 1, first.len());
    proof {
        assert(name_part@ =~= segs_view[0].take(eq as int));
        assert(value_part@ =~= segs_view[0].skip(eq + 1));
    }
    let name = trim_exec(name_part);
    let value = trim_exec(value_part);
    if name.len() == 0 {
        return Err(Error::DataConversionError(line.to_owned()));
    }
    let mut path0: Vec<char> = Vec::new();
    path0.push('/');
    proof {
        assert(path0@ =~= seq!['/']);
    }
    let mut b = Building {
        c: Cookie {
            name: chars_to_string(&name),
            value: chars_to_string(&value),
            domain: default_domain.to_owned(),
            path: chars_to_string(&path0),
            expires: None,
            secure: false,
            http_only: false,
            same_site: None,
            partitioned: false,
        },
        max_age: None,
    };
    let ghost st0 = b.view();
    let mut k: usize = 1;
    proof {
        assert(segs_view.skip(1).take(0) =~= Seq::<Seq<char>>::empty());
        assert(apply_attrs(st0, segs_view.skip(1).take(0)) == st0);
    }
    while k < segs.len()
        invariant
            1 <= k <= segs@.len(),
            segs.deep_view() == segs_view,
            segs_view.len() == segs@.len(),
            b.view() == apply_attrs(st0, segs_view.skip(1).take(k - 1)),
        decreases segs@.len() - k,
    {
        let seg = subvec(&segs[k], 0, segs[k].len());
        proof {
            assert(segs@[k as int]@ == segs_view[k as int]);
            assert(seg@ =~= segs_view[k as int]);
        }
        b = apply_attr_exec(b, seg);
        k = k + 1;
        proof {
            let tail = segs_view.skip(1);
            assert(tail.take(k - 1).drop_last() =~= tail.take(k - 2));
            assert(tail.take(k - 1).last() == segs_view[k - 1]);
        }
    }
    proof {
        assert(segs_view.skip(1).take(segs_view.len() - 1) =~= segs_view.skip(1));
    }
    let cookie = finish(b, now);
    proof {
        assert(cookie@ == spec_parse_cookie(line_view, default_domain@, now)->Some_0);
    }
    Ok(cookie)
}

/// A field-for-field copy of a cookie.
pub fn clone_cookie(c: &Cookie) -> (r: Cookie)
    ensures
        r == *c,
{
    Cookie {
        name: c.name.clone(),
        value: c.value.clone(),
        domain: c.domain.clone(),
        path: c.path.clone(),
        expires: c.expires,
        secure: c.secure,
        http_only: c.http_only,
        same_site: c.same_site,
        partitioned: c.partitioned,
    }
}

/// An element-for-element copy of a jar.
pub fn clone_jar(v: &Vec<Cookie>) -> (r: Vec<Cookie>)
    ensures
        r@ == v@,
{
    let mut r: Vec<Cookie> = Vec::new();
    let mut i: usize = 0;
    while i < v.len()
        invariant
            i <= v@.len(),
            r@ == v@.take(i as int),
        decreases v@.len() - i,
    {
        r.push(clone_cookie(&v[i]));
        i = i + 1;
        proof {
            assert(r@ =~= v@.take(i as int));
        }
    }
    proof {
        assert(r@ =~= v@);
    }
    r
}

/// An element-for-element copy of a key-value list.
pub fn clone_pairs(v: &Vec<(String, String)>) -> (r: Vec<(String, String)>)
    ensures
        r@ == v@,
{
    let mut r: Vec<(String, String)> = Vec::new();
    let mut i: usize = 0;
    while i < v.len()
        invariant
            i <= v@.len(),
            r@ == v@.take(i as int),
        decreases v@.len() - i,
    {
        r.push((v[i].0.clone(), v[i].1.clone()));
        i = i + 1;
        proof {
            assert(r@ =~= v@.take(i as int));
        }
    }
    proof {
        assert(r@ =~= v@);
    }
    r
}

/// A line with a trailing carriage return stripped.
pub open spec fn strip_cr(l: Seq<char>) -> Seq<char> {
    if l.len() > 0 && l.last() == '\r' {
        l.drop_last()
    } else {
        l
    }
}

/// The lines of a text: split at `\n`, each without a trailing `\r`, and
/// without the empty line after a final newline.
pub open spec fn spec_lines(text: Seq<char>) -> Seq<Seq<char>> {
    let segs = split_on(text, '\n').map_values(|l: Seq<char>| strip_cr(l));
    if segs.len() > 0 && segs.last().len() == 0 {
        segs.drop_last()
    } else {
        segs
    }
}

/// The models of a jar's cookies.
pub open spec fn jar_view(s: Seq<Cookie>) -> Seq<CookieModel> {
    s.map_values(|c: Cookie| c@)
}

/// What a sequence of cookie lines denotes: every line must parse.
pub open spec fn spec_translate_lines(
    lines: Seq<Seq<char>>,
    dd: Seq<char>,
    now: u64,
) -> Option<Seq<CookieModel>>
    decreases lines.len(),
{
    if lines.len() == 0 {
        Some(Seq::empty())
    } else {
        match (
            spec_translate_lines(lines.drop_last(), dd, now),
            spec_parse_cookie(lines.last(), dd, now),
        ) {
            (Some(rest), Some(c)) => Some(rest.push(c)),
            _ => None,
        }
    }
}

/// What one per-domain entry denotes: its lines against the dot-normalised
/// domain key.
pub open spec fn spec_translate_entry(
    domain: Seq<char>,
    text: Seq<char>,
    now: u64,
) -> Option<Seq<CookieModel>> {
    spec_translate_lines(spec_lines(text), strip_dot(domain), now)
}

/// What a whole raw cookie mapping denotes: the concatenation of its
/// entries' cookies, in order; nothing as soon as any line fails.
pub open spec fn spec_translate(
    entries: Seq<(Seq<char>, Seq<char>)>,
    now: u64,
) -> Option<Seq<CookieModel>>
    decreases entries.len(),
{
    if entries.len() == 0 {
        Some(Seq::empty())
    } else {
        match (
            spec_translate(entries.drop_last(), now),
            spec_translate_entry(entries.last().0, entries.last().1, now),
        ) {
            (Some(a), Some(b)) => Some(a + b),
            _ => None,
        }
    }
}

pub open spec fn entries_view(entries: Seq<(String, String)>) -> Seq<(Seq<char>, Seq<char>)> {
    entries.map_values(|p: (String, String)| (p.0@, p.1@))
}

/// Once a prefix of the lines fails, the whole sequence fails.
proof fn lemma_lines_none(lines: Seq<Seq<char>>, dd: Seq<char>, now: u64, j: int)
    requires
        0 <= j <= lines.len(),
        spec_translate_lines(lines.take(j), dd, now) is None,
    ensures
        spec_translate_lines(lines, dd, now) is None,
    decreases lines.len() - j,
{
    if j == lines.len() {
        assert(lines.take(j) =~= lines);
    } else {
        assert(lines.take(j + 1).drop_last() =~= lines.take(j));
        lemma_lines_none(lines, dd, now, j + 1);
    }
}

/// Once a prefix of the entries fails, the whole mapping fails.
proof fn lemma_entries_none(entries: Seq<(Seq<char>, Seq<char>)>, now: u64, j: int)
    requires
        0 <= j <= entries.len(),
        spec_translate(entries.take(j), now) is None,
    ensures
        spec_translate(entries, now) is None,
    decreases entries.len() - j,
{
    if j == entries.len() {
        assert(entries.take(j) =~= entries);
    } else {
        assert(entries.take(j + 1).drop_last() =~= entries.take(j));
        lemma_entries_none(entries, now, j + 1);
    }
}

proof fn lemma_jar_view_push(s: Seq<Cookie>, c: Cookie)
    ensures
        jar_view(s.push(c)) =~= jar_view(s).push(c@),
{
}

proof fn lemma_jar_view_add(a: Seq<Cookie>, b: Seq<Cookie>)
    ensures
        jar_view(a + b) =~= jar_view(a) + jar_view(b),
{
}

/// The lines of a text, as `spec_lines` says.
fn lines_exec(text: Vec<char>) -> (r: Vec<Vec<char>>)
    ensures
        r.deep_view() == spec_lines(text@),
{
    let ghost tv = text@;
    let segs = split_on_exec(text, '\n');
    let ghost segs_view = segs.deep_view();
    let ghost mapped = split_on(tv, '\n').map_values(|l: Seq<char>| strip_cr(l));
    let mut out: Vec<Vec<char>> = Vec::new();
    let mut k: usize = 0;
    proof {
        assert(out.deep_view() =~~= mapped.take(0));
    }
    while k < segs.len()
        invariant
            k <= segs@.len(),
            segs.deep_view() == segs_view,
            segs_view == split_on(tv, '\n'),
            segs_view.len() == segs@.len(),
            mapped == split_on(tv, '\n').map_values(|l: Seq<char>| strip_cr(l)),
            mapped.len() == segs_view.len(),
            out.deep_view() == mapped.take(k as int),
        decreases segs@.len() - k,
    {
        let n = segs[k].len();
        let stripped;
        if n > 0 && segs[k][n - 1] == '\r' {
            stripped = subvec(&segs[k], 0, n - 1);
            proof {
                assert(segs@[k as int]@ == segs_view[k as int]);
                assert(stripped@ =~= strip_cr(segs_view[k as int]));
            }
        } else {
            stripped = subvec(&segs[k], 0, n);
            proof {
                assert(segs@[k as int]@ == segs_view[k as int]);
                assert(stripped@ =~= strip_cr(segs_view[k as int]));
            }
        }
        let ghost prev_dv = out.deep_view();
        let ghost oldv = out@;
        let ghost stripped_view = stripped@;
        out.push(stripped);
        k = k + 1;
        proof {
            assert(prev_dv.len() == oldv.len());
            assert(out@ == oldv.push(out@.last()));
            assert forall|j: int| 0 <= j < out@.len() implies #[trigger] out.deep_view()[j]
                == mapped.take(k as int)[j] by {
                assert(out.deep_view()[j] == out@[j].deep_view());
                if j < oldv.len() {
                    assert(out@[j] == oldv[j]);
                    assert(prev_dv[j] == oldv[j].deep_view());
                    assert(prev_dv[j] == mapped.take(k - 1)[j]);
                } else {
                    assert(out@[j]@ == stripped_view);
                    assert(out@[j].deep_view() =~= out@[j]@);
                }
            }
            assert(out.deep_view().len() == mapped.take(k as int).len());
            assert(out.deep_view() =~= mapped.take(k as int));
        }
    }
    proof {
        assert(mapped.take(mapped.len() as int) =~= mapped);
    }
    if out.len() > 0 && out[out.len() - 1].len() == 0 {
        proof {
            assert(mapped.last().len() == 0);
        }
        let _ = out.pop();
        proof {
            assert(out.deep_view() =~~= mapped.drop_last());
        }
    }
    out
}

/// Translates one per-domain entry's lines, against the already-normalised
/// domain.
fn translate_lines_exec(lines: &Vec<Vec<char>>, dd: &String, now: u64) -> (r: Result<
    Vec<Cookie>,
    Error,
>)
    ensures
        match spec_translate_lines(lines.deep_view(), dd@, now) {
            Some(m) => r matches Ok(jar) && jar_view(jar@) == m,
            None => r matches Err(e) && e matches Error::DataConversionError(_),
        },
{
    let ghost lv = lines.deep_view();
    let mut acc: Vec<Cookie> = Vec::new();
    let mut k: usize = 0;
    proof {
        assert(lv.take(0) =~= Seq::<Seq<char>>::empty());
        assert(jar_view(acc@) =~= Seq::<CookieModel>::empty());
    }
    while k < lines.len()
        invariant
            k <= lines@.len(),
            lines.deep_view() == lv,
            lv.len() == lines@.len(),
            spec_translate_lines(lv.take(k as int), dd@, now) == Some(jar_view(acc@)),
        decreases lines@.len() - k,
    {
        let line_chars = subvec(&lines[k], 0, lines[k].len());
        proof {
            assert(lines@[k as int]@ == lv[k as int]);
            assert(line_chars@ =~= lv[k as int]);
        }
        let line = chars_to_string(&line_chars);
        proof {
            assert(lv.take(k + 1).drop_last() =~= lv.take(k as int));
            assert(lv.take(k + 1).last() == lv[k as int]);
        }
        match parse_cookie(line.as_str(), dd.as_str(), now) {
            Ok(c) => {
                proof {
                    lemma_jar_view_push(acc@, c);
                }
                acc.push(c);
            },
            Err(e) => {
                proof {
                    lemma_lines_none(lv, dd@, now, k + 1);
                }
                return Err(e);
            },
        }
        k = k + 1;
    }
    proof {
        assert(lv.take(lv.len() as int) =~= lv);
    }
    Ok(acc)
}

/// Translates the service's raw per-domain cookie mapping, read at instant
/// `now` (seconds since the Unix epoch), into a cookie jar. Fails with
/// `DataConversionError` exactly when some line of some entry has no
/// `name=value` pair; every recognised attribute of every other line is
/// kept.
pub fn translate(entries: &Vec<(String, String)>, now: u64) -> (r: Result<Vec<Cookie>, Error>)
    ensures
        match spec_translate(entries_view(entries@), now) {
            Some(m) => r matches Ok(jar) && jar_view(jar@) == m,
            None => r matches Err(e) && e matches Error::DataConversionError(_),
        },
{
    let ghost ev = entries_view(entries@);
    let mut acc: Vec<Cookie> = Vec::new();
    let mut k: usize = 0;
    proof {
        assert(ev.take(0) =~= Seq::<(Seq<char>, Seq<char>)>::empty());
        assert(jar_view(acc@) =~= Seq::<CookieModel>::empty());
    }
    while k < entries.len()
        invariant
            k <= entries@.len(),
            ev == entries_view(entries@),
            ev.len() == entries@.len(),
            spec_translate(ev.take(k as int), now) == Some(jar_view(acc@)),
        decreases entries@.len() - k,
    {
        proof {
            assert(ev[k as int] == (entries@[k as int].0@, entries@[k as int].1@));
            assert(ev.take(k + 1).drop_last() =~= ev.take(k as int));
            assert(ev.take(k + 1).last() == ev[k as int]);
        }
        let domain_chars = str_to_chars(entries[k].0.as_str());
        let dd_chars;
        if domain_chars.len() > 0 && domain_chars[0] == '.' {
            dd_chars = subvec(&domain_chars, 1, domain_chars.len());
            proof {
                assert(dd_chars@ =~= strip_dot(ev[k as int].0));
            }
        } else {
            dd_chars = domain_chars;
            proof {
                assert(dd_chars@ =~= strip_dot(ev[k as int].0));
            }
        }
        let dd = chars_to_string(&dd_chars);
        let text = str_to_chars(entries[k].1.as_str());
        let lines = lines_exec(text);
        match translate_lines_exec(&lines, &dd, now) {
            Ok(mut jar) => {
                proof {
                    lemma_jar_view_add(acc@, jar@);
                }
                acc.append(&mut jar);
            },
            Err(e) => {
                proof {
                    lemma_entries_none(ev, now, k + 1);
                }
                return Err(e);
            },
        }
        k = k + 1;
    }
    proof {
        assert(ev.take(ev.len() as int) =~= ev);
    }
    Ok(acc)
}

/// Resolves the expiry as `resolve_expiry` says.
fn finish(b: Building, now: u64) -> (r: Cookie)
    ensures
        r@ == resolve_expiry(b.view(), now),
{
    let mut b = b;
    match b.max_age {
        Some(a) => {
            if a <= 0 {
                b.c.expires = Some(now);
            } else {
                let au = a as u64;
                if now > u64::MAX - au {
                    b.c.expires = Some(u64::MAX);
                } else {
                    b.c.expires = Some(now + au);
                }
            }
            b.c
        },
        None => b.c,
    }
}

} // verus!
