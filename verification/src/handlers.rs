//! The decisions of the request handlers.
//!
//! Routing, form decoding and response assembly live in the application;
//! the decisions they act on are stated here: how a login probe's outcome
//! maps to a response, how the cookie headers are spelled, which magnet
//! links and form values an add request accepts, and how a redirect target
//! is built from a job's hash.

use vstd::prelude::*;
use vstd::string::StrSliceExecFns;
use vstd::string::StringExecFns;

use crate::cookie_codec::spec_cookie_chars;
use crate::session::SessionSecret;
use crate::text::str_eq_chars;
use crate::text::str_starts_with;

verus! {

/// The credentials a login form carries.
#[derive(Clone, Debug)]
pub struct LoginQuery {
    pub username: String,
    pub password: String,
}

/// How a login attempt ends, decided by the probe request made with the
/// offered credentials.
#[derive(Clone, Copy, PartialEq, Eq, Structural, Debug)]
pub enum LoginOutcome {
    /// The upstream rejected the credentials.
    Unauthorized,
    /// The upstream refused the server's origin.
    Forbidden,
    /// Some other upstream failure, with its status.
    Error(u16),
    /// The credentials work: a session is created.
    Success,
}

/// Maps the probe's classified result to the login outcome: bad credentials
/// and a refused origin each answer in kind, any other failure is passed
/// through, and only a successful probe creates a session.
pub fn login_outcome(probe: Result<(), u16>) -> (r: LoginOutcome)
    ensures
        match probe {
            Err(c) => {
                if c == 401 {
                    r is Unauthorized
                } else if c == 403 {
                    r is Forbidden
                } else {
                    r == LoginOutcome::Error(c)
                }
            },
            Ok(_) => r is Success,
        },
{
    match probe {
        Err(401u16) => LoginOutcome::Unauthorized,
        Err(403u16) => LoginOutcome::Forbidden,
        Err(c) => LoginOutcome::Error(c),
        Ok(()) => LoginOutcome::Success,
    }
}

/// The seconds from `now` until `expires`, or nothing when the expiration
/// is not ahead of the clock — the cookie then simply gets no `Max-Age`.
pub fn remaining_secs(expires: u64, now: u64) -> (r: Option<u64>)
    ensures
        now <= expires ==> r == Some((expires - now) as u64),
        now > expires ==> r is None,
{
    if now <= expires {
        Some(expires - now)
    } else {
        None
    }
}

/// The full `Set-Cookie` value of a fresh session: the cookie name, the
/// fixed-width secret, and the attributes.
pub fn session_cookie_header(secret: &SessionSecret, secure_attr: bool, expire: Option<u64>) -> (r:
    String)
    ensures
        r@ == "session_secret="@ + spec_cookie_chars(secret.spec_value(), secure_attr, expire),
{
    let mut s = String::from_str("session_secret=");
    let rendered = secret.as_cookie(secure_attr, expire).cookie_string();
    s.append(rendered.as_str());
    s
}

/// The `Set-Cookie` value that logs a client out: an empty secret that the
/// browser drops at once.
pub fn logout_cookie_header() -> (r: String)
    ensures
        r@ == "session_secret=; Secure; HttpOnly; SameSite=Lax; Max-Age=-1;"@,
{
    String::from_str("session_secret=; Secure; HttpOnly; SameSite=Lax; Max-Age=-1;")
}

/// Whether an add request's link is a magnet link: it must carry the exact
/// `magnet:?xt=urn:btih:` prefix.
pub fn valid_magnet(link: &str) -> (r: bool)
    ensures
        r == (link@.len() >= "magnet:?xt=urn:btih:"@.len() && link@.subrange(
            0,
            "magnet:?xt=urn:btih:"@.len() as int,
        ) == "magnet:?xt=urn:btih:"@),
{
    str_starts_with(link, "magnet:?xt=urn:btih:")
}

/// Reads the add form's `paused` value: an absent box is off, `on` is on,
/// and anything else is no value a browser sends — the request is refused.
pub fn paused_flag(paused: Option<&str>) -> (r: Result<bool, ()>)
    ensures
        paused is None ==> r == Ok::<bool, ()>(false),
        paused matches Some(p) && p@ == "on"@ ==> r == Ok::<bool, ()>(true),
        paused matches Some(p) && p@ != "on"@ ==> r is Err,
{
    match paused {
        None => Ok(false),
        Some(p) => {
            if str_eq_chars(p, "on") {
                Ok(true)
            } else {
                Err(())
            }
        },
    }
}

/// What `char::is_alphanumeric` holds of a character.
pub uninterp spec fn alnum(c: char) -> bool;

/// Relies on `char::is_alphanumeric`: a property of the character alone.
#[verifier::external_body]
fn char_is_alphanumeric(c: char) -> (r: bool)
    ensures
        r == alnum(c),
{
    c.is_alphanumeric()
}

/// Whether every character of `s` is alphanumeric.  A hash is checked with
/// this before it is spliced into a redirect header, so nothing else can
/// ride along in the header value.
pub fn all_alphanumeric(s: &str) -> (r: bool)
    ensures
        r == (forall|i: int| 0 <= i < s@.len() ==> alnum(#[trigger] s@[i])),
{
    let len = s.unicode_len();
    let mut i: usize = 0;
    while i < len
        invariant
            0 <= i <= len,
            len == s@.len(),
            forall|k: int| 0 <= k < i ==> alnum(#[trigger] s@[k]),
        decreases len - i,
    {
        if !char_is_alphanumeric(s.get_char(i)) {
            return false;
        }
        i = i + 1;
    }
    true
}

/// The redirect target for one job's page.
pub fn torrent_location(hash: &str) -> (r: String)
    ensures
        r@ == "/torrent/"@ + hash@,
{
    let mut s = String::from_str("/torrent/");
    s.append(hash);
    s
}

} // verus!
