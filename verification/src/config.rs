//! Configuration values and their validation.
//!
//! The file format and the command line are read outside the library; what
//! is stated here is the validation the raw values must pass — an octal
//! permission string, a URL path's leading slash, the `unix:` prefix of a
//! socket address — and the defaults.

use vstd::prelude::*;
use vstd::string::StrSliceExecFns;

use crate::text::str_starts_with;

verus! {

/// Command-line arguments: the path to the configuration file.
#[derive(Clone, Debug)]
pub struct Args {
    pub config: String,
}

/// Security settings.
#[derive(Clone, Debug)]
pub struct ConfigSecurity {
    /// Whether the `Secure` attribute is set on cookies.  If true, the
    /// browser must connect over HTTPS, localhost, or an onion service.
    /// Otherwise, authentication won't work correctly.
    pub secure_cookie_attribute: bool,
}

impl Default for ConfigSecurity {
    /// The `Secure` attribute is on unless switched off.
    fn default() -> (r: Self)
        ensures
            r.secure_cookie_attribute == true,
    {
        Self { secure_cookie_attribute: true }
    }
}

/// Performance settings.
#[derive(Clone, Debug)]
pub struct ConfigPerformance {
    /// The interval in milliseconds at which the server polls the upstream
    /// for each live-update connection.
    pub poll_interval_ms: u64,
}

impl Default for ConfigPerformance {
    /// One poll a second.
    fn default() -> (r: Self)
        ensures
            r.poll_interval_ms == 1000,
    {
        Self { poll_interval_ms: 1000 }
    }
}

/// Where the upstream's RPC endpoint lives: a URL base and a path that must
/// begin with a slash.
#[derive(Clone, Debug)]
pub struct RpcUrl {
    rpc_url_base: String,
    rpc_url_path: String,
}

impl RpcUrl {
    /// The URL base used to connect to the upstream's RPC server.
    pub closed spec fn spec_base(&self) -> Seq<char> {
        self.rpc_url_base@
    }

    /// The URL path used to connect to the upstream's RPC server.
    pub closed spec fn spec_path(&self) -> Seq<char> {
        self.rpc_url_path@
    }

    /// Accepts the endpoint exactly when the path has its leading slash.
    pub fn new(base: String, path: String) -> (r: Result<Self, &'static str>)
        ensures
            (path@.len() >= 1 && path@[0] == '/') ==> {
                &&& r matches Ok(u)
                &&& u.spec_base() == base@
                &&& u.spec_path() == path@
            },
            !(path@.len() >= 1 && path@[0] == '/') ==> r is Err,
    {
        proof {
            reveal_strlit("/");
        }
        if str_starts_with(path.as_str(), "/") {
            proof {
                assert(path@.subrange(0, 1)[0] == path@[0]);
            }
            Ok(Self { rpc_url_base: base, rpc_url_path: path })
        } else {
            proof {
                if path@.len() >= 1 && path@[0] == '/' {
                    assert(path@.subrange(0, 1) =~= "/"@);
                }
            }
            Err("the url path must have a leading slash")
        }
    }

    /// The full endpoint: base and path, joined.
    pub fn url_string(&self) -> (r: String)
        ensures
            r@ == self.spec_base() + self.spec_path(),
    {
        let mut s = self.rpc_url_base.clone();
        s.append(self.rpc_url_path.as_str());
        s
    }
}

/// A Unix-domain socket address, written `unix:<path>` in configuration.
#[derive(Clone, Debug)]
pub struct UnixSocketAddr(String);

impl UnixSocketAddr {
    /// The filesystem path of the socket.
    pub closed spec fn spec_path(&self) -> Seq<char> {
        self.0@
    }

    /// Reads the `unix:<path>` form; anything without the prefix is no
    /// Unix-socket address.
    pub fn from_str(s: &str) -> (r: Result<Self, &'static str>)
        ensures
            (s@.len() >= 5 && s@.subrange(0, 5) == "unix:"@) ==> {
                &&& r matches Ok(a)
                &&& a.spec_path() == s@.skip(5)
            },
            !(s@.len() >= 5 && s@.subrange(0, 5) == "unix:"@) ==> r is Err,
    {
        proof {
            reveal_strlit("unix:");
        }
        if str_starts_with(s, "unix:") {
            let path = s.substring_char(5, s.unicode_len()).to_owned();
            proof {
                assert(path@ =~= s@.skip(5));
            }
            Ok(Self(path))
        } else {
            Err("string did not contain the 'unix:' prefix")
        }
    }

    /// The filesystem path of the socket.
    pub fn path(&self) -> (r: &str)
        ensures
            r@ == self.spec_path(),
    {
        self.0.as_str()
    }

    /// The address as configuration writes it: `unix:<path>`.
    pub fn display_string(&self) -> (r: String)
        ensures
            r@ == "unix:"@ + self.spec_path(),
    {
        let mut s = String::from_str("unix:");
        s.append(self.0.as_str());
        s
    }
}

/// The octal digit a character stands for, or -1 if it is none.
pub open spec fn char_oct_digit(c: char) -> int {
    if c == '0' {
        0
    } else if c == '1' {
        1
    } else if c == '2' {
        2
    } else if c == '3' {
        3
    } else if c == '4' {
        4
    } else if c == '5' {
        5
    } else if c == '6' {
        6
    } else if c == '7' {
        7
    } else {
        -1
    }
}

pub open spec fn is_oct_digit(c: char) -> bool {
    char_oct_digit(c) >= 0
}

pub open spec fn all_oct_digits(s: Seq<char>) -> bool {
    forall|i: int| 0 <= i < s.len() ==> is_oct_digit(#[trigger] s[i])
}

/// The number an octal digit string denotes.
pub open spec fn oct_value(s: Seq<char>) -> int
    decreases s.len(),
{
    if s.len() == 0 {
        0
    } else {
        oct_value(s.drop_last()) * 8 + char_oct_digit(s.last())
    }
}

/// An octal digit string never denotes a negative number.
proof fn lemma_oct_value_nonneg(s: Seq<char>)
    requires
        all_oct_digits(s),
    ensures
        oct_value(s) >= 0,
    decreases s.len(),
{
    if s.len() > 0 {
        assert(forall|i: int| 0 <= i < s.len() - 1 ==> s.drop_last()[i] == #[trigger] s[i]);
        lemma_oct_value_nonneg(s.drop_last());
    }
}

/// Longer prefixes of an octal digit string denote no smaller numbers.
proof fn lemma_oct_value_prefix(s: Seq<char>, i: int)
    requires
        all_oct_digits(s),
        0 <= i <= s.len(),
    ensures
        oct_value(s) >= oct_value(s.take(i)),
    decreases s.len() - i,
{
    if i < s.len() {
        lemma_oct_value_prefix(s, i + 1);
        assert(s.take(i + 1).drop_last() =~= s.take(i));
        assert(s.take(i + 1).last() == s[i]);
        assert(forall|k: int| 0 <= k < i ==> s.take(i)[k] == #[trigger] s[k]);
        lemma_oct_value_nonneg(s.take(i));
        assert(oct_value(s.take(i)) * 8 >= oct_value(s.take(i))) by (nonlinear_arith)
            requires
                oct_value(s.take(i)) >= 0,
        ;
    } else {
        assert(s.take(i) =~= s);
    }
}

/// Parses an octal permission string, as the configuration file writes
/// `bind_unix_perms`: accepted exactly when non-empty, all octal digits,
/// and within 32 bits.
pub fn parse_octal(s: &str) -> (r: Option<u32>)
    ensures
        (r is Some) <==> (s@.len() > 0 && all_oct_digits(s@) && oct_value(s@) <= u32::MAX),
        r is Some ==> r->Some_0 == oct_value(s@),
{
    let len = s.unicode_len();
    if len == 0 {
        return None;
    }
    let mut acc: u32 = 0;
    let mut i: usize = 0;
    while i < len
        invariant
            0 <= i <= len,
            len == s@.len(),
            all_oct_digits(s@.take(i as int)),
            acc == oct_value(s@.take(i as int)),
        decreases len - i,
    {
        let c = s.get_char(i);
        let d: u32 = match c {
            '0' => 0,
            '1' => 1,
            '2' => 2,
            '3' => 3,
            '4' => 4,
            '5' => 5,
            '6' => 6,
            '7' => 7,
            _ => {
                proof {
                    assert(!is_oct_digit(s@[i as int]));
                }
                return None;
            },
        };
        proof {
            assert(char_oct_digit(s@[i as int]) == d);
            assert(s@.take(i + 1).drop_last() =~= s@.take(i as int));
            assert(s@.take(i + 1).last() == s@[i as int]);
        }
        if acc > (u32::MAX - d) / 8 {
            proof {
                assert(all_oct_digits(s@.take(i + 1)));
                assert(oct_value(s@.take(i + 1)) == acc * 8 + d);
                assert(acc * 8 + d > u32::MAX) by (nonlinear_arith)
                    requires
                        acc > (u32::MAX - d) / 8,
                        0 <= d < 8,
                        acc >= 0,
                ;
                if all_oct_digits(s@) {
                    lemma_oct_value_prefix(s@, i + 1);
                }
            }
            return None;
        }
        proof {
            assert(acc * 8 + d <= u32::MAX) by (nonlinear_arith)
                requires
                    acc <= (u32::MAX - d) / 8,
                    0 <= d < 8,
                    acc >= 0,
            ;
        }
        acc = acc * 8 + d;
        i = i + 1;
    }
    proof {
        assert(s@.take(len as int) =~= s@);
    }
    Some(acc)
}

/// The default socket-file permission: owner read and write, octal `600`.
pub fn default_octal_600() -> (r: u32)
    ensures
        r == 384,
{
    let parsed = parse_octal("600");
    proof {
        reveal_strlit("600");
        reveal_with_fuel(oct_value, 5);
        let s = "600"@;
        assert(s =~= seq!['6', '0', '0']);
        assert(s.drop_last() =~= seq!['6', '0']);
        assert(s.drop_last().drop_last() =~= seq!['6']);
        assert(s.drop_last().drop_last().drop_last() =~= Seq::<char>::empty());
        assert(oct_value(s.drop_last().drop_last()) == 6);
        assert(oct_value(s.drop_last()) == 48);
        assert(oct_value(s) == 384);
        assert(all_oct_digits(s));
    }
    match parsed {
        Some(v) => v,
        None => 0,
    }
}

} // verus!
