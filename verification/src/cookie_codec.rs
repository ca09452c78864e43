//! Session-secret cookie encoding and decoding.
//!
//! A secret serializes to a fixed-width decimal string, zero-padded to the
//! maximum digit-width of `u128`, so that the encoded length never depends on
//! the value.  The encoded form is embedded in a cookie attribute string
//! carrying `HttpOnly`, `SameSite=Lax`, optionally `Secure` and optionally a
//! `Max-Age`.  Decoding reads the decimal value back out of the `Cookie`
//! request header.

use vstd::prelude::*;
use vstd::string::StrSliceExecFns;
use vstd::string::StringExecFns;

use crate::session::SessionSecret;
use crate::text::str_eq_chars;

verus! {

/// The number of decimal digits of `u128::MAX`: every secret is zero-padded
/// to this width.
pub const U128_DEC_WIDTH: usize = 39;

/// Ten to the `n`.
pub open spec fn pow10(n: nat) -> nat
    decreases n,
{
    if n == 0 {
        1
    } else {
        10 * pow10((n - 1) as nat)
    }
}

/// The character for one decimal digit.
pub open spec fn digit_char(d: int) -> char {
    if d == 0 {
        '0'
    } else if d == 1 {
        '1'
    } else if d == 2 {
        '2'
    } else if d == 3 {
        '3'
    } else if d == 4 {
        '4'
    } else if d == 5 {
        '5'
    } else if d == 6 {
        '6'
    } else if d == 7 {
        '7'
    } else if d == 8 {
        '8'
    } else {
        '9'
    }
}

/// The decimal digit a character stands for, or -1 if it is no digit.
pub open spec fn char_digit(c: char) -> int {
    if c == '0' {
        0
    } else if c == '1' {
        1
    } else if c == '2' {
        2
    } else if c == '3' {
        3
    } else if c == '4' {
        4
    } else if c == '5' {
        5
    } else if c == '6' {
        6
    } else if c == '7' {
        7
    } else if c == '8' {
        8
    } else if c == '9' {
        9
    } else {
        -1
    }
}

pub open spec fn is_digit(c: char) -> bool {
    char_digit(c) >= 0
}

pub open spec fn all_digits(s: Seq<char>) -> bool {
    forall|i: int| 0 <= i < s.len() ==> is_digit(#[trigger] s[i])
}

/// The last `width` decimal digits of `v`, most significant first,
/// zero-padded on the left.
pub open spec fn dec_digits(v: nat, width: nat) -> Seq<char>
    decreases width,
{
    if width == 0 {
        Seq::empty()
    } else {
        dec_digits(v / 10, (width - 1) as nat).push(digit_char((v % 10) as int))
    }
}

/// The number a digit string denotes, read most significant digit first.
pub open spec fn dec_value(s: Seq<char>) -> int
    decreases s.len(),
{
    if s.len() == 0 {
        0
    } else {
        dec_value(s.drop_last()) * 10 + char_digit(s.last())
    }
}

/// The width of the unpadded decimal form of `v`.
pub open spec fn dec_width(v: nat) -> nat
    decreases v,
{
    if v < 10 {
        1
    } else {
        1 + dec_width(v / 10)
    }
}

/// A digit string is fixed-width: encoding any value to a given width gives
/// exactly that many characters, and only digit characters.
pub proof fn lemma_dec_digits_shape(v: nat, width: nat)
    ensures
        dec_digits(v, width).len() == width,
        all_digits(dec_digits(v, width)),
    decreases width,
{
    if width > 0 {
        lemma_dec_digits_shape(v / 10, (width - 1) as nat);
        let s = dec_digits(v, width);
        assert forall|i: int| 0 <= i < s.len() implies is_digit(s[i]) by {
            if i < width - 1 {
                assert(s[i] == dec_digits(v / 10, (width - 1) as nat)[i]);
            }
        }
    }
}

/// Encoding then reading back: the digit string of any `v` below
/// `pow10(width)` denotes `v` itself.
pub proof fn lemma_dec_round_trip(v: nat, width: nat)
    requires
        v < pow10(width),
    ensures
        dec_value(dec_digits(v, width)) == v,
    decreases width,
{
    if width == 0 {
        assert(pow10(0) == 1);
    } else {
        assert(pow10(width) == 10 * pow10((width - 1) as nat));
        assert(v / 10 < pow10((width - 1) as nat)) by (nonlinear_arith)
            requires
                v < 10 * pow10((width - 1) as nat),
        ;
        lemma_dec_round_trip(v / 10, (width - 1) as nat);
        let s = dec_digits(v, width);
        assert(s.drop_last() =~= dec_digits(v / 10, (width - 1) as nat));
        assert(char_digit(digit_char((v % 10) as int)) == v % 10);
        assert(v == (v / 10) * 10 + v % 10) by (nonlinear_arith);
    }
}

/// A digit string never denotes a negative number.
pub proof fn lemma_dec_value_nonneg(s: Seq<char>)
    requires
        all_digits(s),
    ensures
        dec_value(s) >= 0,
    decreases s.len(),
{
    if s.len() > 0 {
        assert(all_digits(s.drop_last())) by {
            assert(forall|i: int|
                0 <= i < s.len() - 1 ==> s.drop_last()[i] == #[trigger] s[i]);
        }
        lemma_dec_value_nonneg(s.drop_last());
    }
}

/// Longer prefixes of a digit string denote no smaller numbers, so once a
/// prefix overflows, the whole string does.
pub proof fn lemma_dec_value_prefix(s: Seq<char>, i: int)
    requires
        all_digits(s),
        0 <= i <= s.len(),
    ensures
        dec_value(s) >= dec_value(s.take(i)),
    decreases s.len() - i,
{
    if i < s.len() {
        lemma_dec_value_prefix(s, i + 1);
        assert(s.take(i + 1).drop_last() =~= s.take(i));
        assert(s.take(i + 1).last() == s[i]);
        assert(all_digits(s.take(i))) by {
            assert(forall|k: int| 0 <= k < i ==> s.take(i)[k] == #[trigger] s[k]);
        }
        lemma_dec_value_nonneg(s.take(i));
        assert(dec_value(s.take(i + 1)) == dec_value(s.take(i)) * 10 + char_digit(s[i]));
        assert(dec_value(s.take(i)) * 10 >= dec_value(s.take(i))) by (nonlinear_arith)
            requires
                dec_value(s.take(i)) >= 0,
        ;
    } else {
        assert(s.take(i) =~= s);
    }
}

/// `u128::MAX` has 39 digits, so every `u128` fits the fixed width.
pub proof fn lemma_u128_fits_width()
    ensures
        u128::MAX < pow10(U128_DEC_WIDTH as nat),
{
    reveal_with_fuel(pow10, 40);
}

/// One decimal digit as a string slice.
fn digit_str(d: u8) -> (r: &'static str)
    requires
        d < 10,
    ensures
        r@ == seq![digit_char(d as int)],
{
    let r: &'static str = match d {
        0 => "0",
        1 => "1",
        2 => "2",
        3 => "3",
        4 => "4",
        5 => "5",
        6 => "6",
        7 => "7",
        8 => "8",
        _ => "9",
    };
    proof {
        reveal_strlit("0");
        reveal_strlit("1");
        reveal_strlit("2");
        reveal_strlit("3");
        reveal_strlit("4");
        reveal_strlit("5");
        reveal_strlit("6");
        reveal_strlit("7");
        reveal_strlit("8");
        reveal_strlit("9");
        assert(r@ =~= seq![digit_char(d as int)]);
    }
    r
}

/// Appends the `width`-digit zero-padded decimal form of `v` to `s`.
pub fn push_dec_digits(s: &mut String, v: u128, width: usize)
    ensures
        final(s)@ == old(s)@ + dec_digits(v as nat, width as nat),
    decreases width,
{
    if width == 0 {
        assert(final(s)@ =~= old(s)@ + dec_digits(v as nat, 0));
    } else {
        push_dec_digits(s, v / 10, width - 1);
        s.append(digit_str((v % 10) as u8));
        assert(final(s)@ =~= old(s)@ + dec_digits(v as nat, width as nat));
    }
}

/// The width of the unpadded decimal form of `v`.
pub fn unpadded_width(v: u128) -> (w: usize)
    ensures
        w == dec_width(v as nat),
{
    proof {
        lemma_u128_fits_width();
        lemma_dec_width_le(v as nat, U128_DEC_WIDTH as nat);
    }
    let mut w: usize = 1;
    let mut x: u128 = v;
    while x >= 10
        invariant
            1 <= w,
            dec_width(v as nat) == w - 1 + dec_width(x as nat),
            dec_width(v as nat) <= U128_DEC_WIDTH,
        decreases x,
    {
        proof {
            assert(dec_width(x as nat) == 1 + dec_width(x as nat / 10));
        }
        x = x / 10;
        w = w + 1;
    }
    w
}

/// No more digits than the power of ten above the value.
pub proof fn lemma_dec_width_le(v: nat, n: nat)
    requires
        v < pow10(n),
        n >= 1,
    ensures
        dec_width(v) <= n,
    decreases n,
{
    if v >= 10 {
        if n == 1 {
            // v < pow10(1) == 10 contradicts v >= 10
            reveal_with_fuel(pow10, 2);
        } else {
            assert(v / 10 < pow10((n - 1) as nat)) by (nonlinear_arith)
                requires
                    v < 10 * pow10((n - 1) as nat),
            ;
            lemma_dec_width_le(v / 10, (n - 1) as nat);
        }
    }
}

/// Parses an unsigned decimal number, rejecting empty strings, non-digit
/// characters and values that do not fit in 128 bits — exactly the strings a
/// secret does not encode to.
pub fn parse_u128_decimal(s: &str) -> (r: Option<u128>)
    ensures
        (r is Some) <==> (s@.len() > 0 && all_digits(s@) && dec_value(s@) <= u128::MAX),
        r is Some ==> r->Some_0 == dec_value(s@),
{
    let len = s.unicode_len();
    if len == 0 {
        return None;
    }
    let mut acc: u128 = 0;
    let mut i: usize = 0;
    while i < len
        invariant
            0 <= i <= len,
            len == s@.len(),
            all_digits(s@.take(i as int)),
            acc == dec_value(s@.take(i as int)),
        decreases len - i,
    {
        let c = s.get_char(i);
        let d: u128 = match c {
            '0' => 0,
            '1' => 1,
            '2' => 2,
            '3' => 3,
            '4' => 4,
            '5' => 5,
            '6' => 6,
            '7' => 7,
            '8' => 8,
            '9' => 9,
            _ => {
                proof {
                    assert(!is_digit(s@[i as int]));
                }
                return None;
            },
        };
        proof {
            assert(char_digit(s@[i as int]) == d);
            assert(s@.take(i + 1).drop_last() =~= s@.take(i as int));
            assert(s@.take(i + 1).last() == s@[i as int]);
        }
        if acc > (u128::MAX - d) / 10 {
            proof {
                assert(all_digits(s@.take(i + 1)));
                assert(dec_value(s@.take(i + 1)) == acc * 10 + d);
                assert(acc * 10 + d > u128::MAX) by (nonlinear_arith)
                    requires
                        acc > (u128::MAX - d) / 10,
                        0 <= d < 10,
                        acc >= 0,
                ;
                if all_digits(s@) {
                    lemma_dec_value_prefix(s@, i + 1);
                }
            }
            return None;
        }
        proof {
            assert(acc * 10 + d <= u128::MAX) by (nonlinear_arith)
                requires
                    acc <= (u128::MAX - d) / 10,
                    0 <= d < 10,
                    acc >= 0,
            ;
        }
        acc = acc * 10 + d;
        i = i + 1;
    }
    proof {
        assert(s@.take(len as int) =~= s@);
    }
    Some(acc)
}

/// Renders the value and attributes of the session cookie, excluding the
/// `cookie_name=` component.  The value is the fixed-width decimal form of
/// the secret; `Secure` and `Max-Age` are attached on demand.
pub struct SessionCookieDisplay {
    secret: u128,
    secure_attr: bool,
    expire: Option<u64>,
}

impl SessionCookieDisplay {
    pub closed spec fn spec_secret(&self) -> u128 {
        self.secret
    }

    pub closed spec fn spec_secure_attr(&self) -> bool {
        self.secure_attr
    }

    pub closed spec fn spec_expire(&self) -> Option<u64> {
        self.expire
    }

    pub(crate) fn new(secret: u128, secure_attr: bool, expire: Option<u64>) -> (r: Self)
        ensures
            r.spec_secret() == secret,
            r.spec_secure_attr() == secure_attr,
            r.spec_expire() == expire,
    {
        Self { secret, secure_attr, expire }
    }

    /// The full rendered cookie text.
    pub fn cookie_string(&self) -> (r: String)
        ensures
            r@ == spec_cookie_chars(self.spec_secret(), self.spec_secure_attr(), self.spec_expire()),
    {
        let mut s = String::new();
        push_dec_digits(&mut s, self.secret, U128_DEC_WIDTH);
        s.append("; HttpOnly; SameSite=Lax;");
        if self.secure_attr {
            s.append(" Secure;");
        }
        if let Some(expire) = self.expire {
            s.append(" Max-Age=");
            let w = unpadded_width(expire as u128);
            push_dec_digits(&mut s, expire as u128, w);
            s.append(";");
        }
        proof {
            assert(s@ =~= spec_cookie_chars(
                self.spec_secret(),
                self.spec_secure_attr(),
                self.spec_expire(),
            ));
        }
        s
    }
}

/// The exact character sequence of the rendered cookie.
pub open spec fn spec_cookie_chars(secret: u128, secure_attr: bool, expire: Option<u64>) -> Seq<
    char,
> {
    dec_digits(secret as nat, U128_DEC_WIDTH as nat) + "; HttpOnly; SameSite=Lax;"@ + (if secure_attr {
        " Secure;"@
    } else {
        Seq::<char>::empty()
    }) + (match expire {
        Some(e) => " Max-Age="@ + dec_digits(e as nat, dec_width(e as nat)) + ";"@,
        None => Seq::<char>::empty(),
    })
}

/// Cookie round trip: the first characters of the rendered cookie are the
/// fixed-width digits of the secret, and they denote the secret itself.
pub proof fn lemma_cookie_round_trip(secret: u128, secure_attr: bool, expire: Option<u64>)
    ensures
        spec_cookie_chars(secret, secure_attr, expire).take(U128_DEC_WIDTH as int) == dec_digits(
            secret as nat,
            U128_DEC_WIDTH as nat,
        ),
        dec_value(
            spec_cookie_chars(secret, secure_attr, expire).take(U128_DEC_WIDTH as int),
        ) == secret,
        all_digits(spec_cookie_chars(secret, secure_attr, expire).take(U128_DEC_WIDTH as int)),
{
    lemma_dec_digits_shape(secret as nat, U128_DEC_WIDTH as nat);
    assert(spec_cookie_chars(secret, secure_attr, expire).take(U128_DEC_WIDTH as int)
        =~= dec_digits(secret as nat, U128_DEC_WIDTH as nat));
    lemma_u128_fits_width();
    lemma_dec_round_trip(secret as nat, U128_DEC_WIDTH as nat);
}

/// Authentication failures while reading the session cookie.
#[derive(Clone, Copy, PartialEq, Eq, Structural, Debug)]
pub enum AuthError {
    /// No usable `session_secret` cookie was presented.
    Unauthorized,
    /// A `session_secret` cookie was presented but its value is no secret.
    BadRequest,
}

/// What the cookie crate reads out of a `Cookie` request header: the
/// name/value pairs of the cookies that parse, in order.
pub uninterp spec fn cookie_pairs(s: Seq<char>) -> Seq<(Seq<char>, Seq<char>)>;

/// Relies on `cookie::Cookie::split_parse`: splits a `Cookie` header on `;`
/// and parses each `name=value` pair; pairs that fail to parse are dropped.
#[verifier::external_body]
fn split_cookie_header(s: &str) -> (r: Vec<(String, String)>)
    ensures
        r.deep_view() == cookie_pairs(s@),
{
    cookie::Cookie::split_parse(s).filter_map(|c| c.ok()).map(|c| (
        c.name().to_string(),
        c.value().to_string(),
    )).collect()
}

/// The value of the first `session_secret` cookie among the parsed pairs.
pub open spec fn spec_secret_cookie_value(pairs: Seq<(Seq<char>, Seq<char>)>) -> Option<
    Seq<char>,
>
    decreases pairs.len(),
{
    if pairs.len() == 0 {
        None
    } else if pairs.first().0 == "session_secret"@ {
        Some(pairs.first().1)
    } else {
        spec_secret_cookie_value(pairs.drop_first())
    }
}

/// Reads the session secret out of a `Cookie` request header.  Absence of a
/// `session_secret` cookie is `Unauthorized`; a present value that is not a
/// decimal 128-bit number is `BadRequest`, exactly as the contract states.
pub fn session_secret_from_cookie_header(header: &str) -> (r: Result<SessionSecret, AuthError>)
    ensures
        ({
            let found = spec_secret_cookie_value(cookie_pairs(header@));
            match found {
                None => r == Err::<SessionSecret, AuthError>(AuthError::Unauthorized),
                Some(v) => {
                    if v.len() > 0 && all_digits(v) && dec_value(v) <= u128::MAX {
                        &&& r is Ok
                        &&& r->Ok_0.spec_value() == dec_value(v)
                    } else {
                        r == Err::<SessionSecret, AuthError>(AuthError::BadRequest)
                    }
                },
            }
        }),
{
    let pairs = split_cookie_header(header);
    proof {
        assert(pairs.deep_view().skip(0) =~= pairs.deep_view());
    }
    let mut i: usize = 0;
    while i < pairs.len()
        invariant
            0 <= i <= pairs@.len(),
            pairs.deep_view() == cookie_pairs(header@),
            spec_secret_cookie_value(cookie_pairs(header@)) == spec_secret_cookie_value(
                pairs.deep_view().skip(i as int),
            ),
        decreases pairs@.len() - i,
    {
        let pair = &pairs[i];
        proof {
            assert(pairs.deep_view().skip(i as int).first() == pairs@[i as int].deep_view());
            assert(pairs.deep_view().skip(i as int).drop_first() =~= pairs.deep_view().skip(
                i + 1,
            ));
        }
        if str_eq_chars(pair.0.as_str(), "session_secret") {
            match parse_u128_decimal(pair.1.as_str()) {
                Some(v) => {
                    return Ok(SessionSecret::new(v));
                },
                None => {
                    return Err(AuthError::BadRequest);
                },
            }
        }
        i = i + 1;
    }
    proof {
        assert(pairs.deep_view().skip(i as int) =~= Seq::<(Seq<char>, Seq<char>)>::empty());
    }
    Err(AuthError::Unauthorized)
}

} // verus!
