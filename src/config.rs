//! Settings of the service, with their defaults.
use vstd::prelude::*;
use crate::text::chars_of;

verus! {

/// Whether `c` is an ASCII decimal digit.
pub open spec fn is_digit(c: char) -> bool {
    '0' <= c && c <= '9'
}

/// The value of a string of decimal digits.
pub open spec fn decimal(s: Seq<char>) -> int
    decreases s.len(),
{
    if s.len() == 0 {
        0
    } else {
        decimal(s.drop_last()) * 10 + (s.last() as int - '0' as int)
    }
}

/// Whether `s` starts with a minus sign that counts.
pub open spec fn is_negative(s: Seq<char>, signed: bool) -> bool {
    signed && s.len() > 0 && s[0] == '-'
}

/// The length of the sign in front of the digits: 0 or 1.
pub open spec fn sign_len(s: Seq<char>, signed: bool) -> int {
    if s.len() > 0 && (s[0] == '+' || is_negative(s, signed)) {
        1
    } else {
        0
    }
}

/// One or more decimal digits and nothing else.
pub open spec fn all_digits(d: Seq<char>) -> bool {
    d.len() > 0 && forall|i: int| 0 <= i < d.len() ==> is_digit(#[trigger] d[i])
}

/// The integer that `s` writes: an optional `+` (or `-` when `signed`),
/// then one or more decimal digits and nothing else. This is the syntax of
/// `str::parse` for integers, before the range check.
pub open spec fn written_integer(s: Seq<char>, signed: bool) -> Option<int> {
    let d = s.subrange(sign_len(s, signed), s.len() as int);
    if all_digits(d) {
        Some(if is_negative(s, signed) { -decimal(d) } else { decimal(d) })
    } else {
        None
    }
}

proof fn lemma_decimal_grows(s: Seq<char>, i: int)
    requires
        0 <= i <= s.len(),
        forall|k: int| 0 <= k < s.len() ==> is_digit(#[trigger] s[k]),
    ensures
        decimal(s.subrange(0, i)) <= decimal(s),
        decimal(s) >= 0,
    decreases s.len(),
{
    if s.len() > 0 {
        let p = s.drop_last();
        if i < s.len() {
            assert(p.subrange(0, i) == s.subrange(0, i));
            lemma_decimal_grows(p, i);
        } else {
            assert(s.subrange(0, i) == s);
            lemma_decimal_grows(p, 0);
        }
    }
}

fn digit_value(c: char) -> (r: u64)
    requires
        is_digit(c),
    ensures
        r == c as int - '0' as int,
        r <= 9,
{
    (c as u32 - '0' as u32) as u64
}

/// The magnitude of the digits `v[from..]` if it is at most `bound`, with
/// `Err(true)` for a digit string beyond it and `Err(false)` for anything but
/// one or more digits.
fn digits_value(v: &Vec<char>, from: usize, bound: u64) -> (r: Result<u64, bool>)
    requires
        from <= v@.len(),
        bound >= 9,
    ensures
        ({
            let d = v@.subrange(from as int, v@.len() as int);
            match r {
                Ok(x) => all_digits(d) && x == decimal(d) && x <= bound,
                Err(true) => all_digits(d) && decimal(d) > bound,
                Err(false) => !all_digits(d),
            }
        }),
{
    let n = v.len();
    let ghost d = v@.subrange(from as int, n as int);
    if from == n {
        return Err(false);
    }
    let mut k: usize = from;
    while k < n
        invariant
            from <= k <= n == v@.len(),
            d == v@.subrange(from as int, n as int),
            forall|i: int| from <= i < k ==> is_digit(#[trigger] v@[i]),
        decreases n - k,
    {
        if v[k] < '0' || v[k] > '9' {
            assert(!is_digit(d[k - from]));
            return Err(false);
        }
        k = k + 1;
    }
    assert forall|i: int| 0 <= i < d.len() implies is_digit(#[trigger] d[i]) by {
        assert(d[i] == v@[from + i]);
    }
    let mut acc: u64 = 0;
    let mut j: usize = from;
    assert(d.subrange(0, 0) =~= Seq::<char>::empty());
    while j < n
        invariant
            from <= j <= n == v@.len(),
            d == v@.subrange(from as int, n as int),
            forall|i: int| 0 <= i < d.len() ==> is_digit(#[trigger] d[i]),
            acc == decimal(d.subrange(0, j - from)),
            acc <= bound,
            bound >= 9,
        decreases n - j,
    {
        assert(d[j - from] == v@[j as int]);
        assert(is_digit(v@[j as int]));
        assert(d.subrange(0, j + 1 - from).drop_last() == d.subrange(0, j - from));
        let digit = digit_value(v[j]);
        if acc > (bound - digit) / 10 {
            proof {
                assert(acc * 10 + digit > bound) by (nonlinear_arith)
                    requires
                        acc > (bound - digit) / 10,
                        digit <= 9,
                ;
                lemma_decimal_grows(d, j + 1 - from);
            }
            return Err(true);
        }
        assert(acc * 10 + digit <= bound) by (nonlinear_arith)
            requires
                acc <= (bound - digit) / 10,
                digit <= bound,
        ;
        acc = acc * 10 + digit;
        j = j + 1;
    }
    assert(d.subrange(0, n - from) == d);
    Ok(acc)
}

/// `s` read as an `i64`, as `str::parse` reads it: `None` when it is not an
/// integer or does not fit.
pub fn parse_i64(s: &str) -> (r: Option<i64>)
    ensures
        match written_integer(s@, true) {
            Some(x) => if i64::MIN <= x <= i64::MAX {
                r == Some(x as i64)
            } else {
                r is None
            },
            None => r is None,
        },
{
    let v = chars_of(s);
    let neg = v.len() > 0 && v[0] == '-';
    let skip: usize = if v.len() > 0 && (v[0] == '+' || neg) { 1 } else { 0 };
    let bound: u64 = if neg { 0x8000_0000_0000_0000 } else { 0x7fff_ffff_ffff_ffff };
    assert(v@ == s@);
    assert(neg == is_negative(s@, true));
    assert(skip == sign_len(s@, true));
    match digits_value(&v, skip, bound) {
        Ok(x) => if neg {
            if x == 0x8000_0000_0000_0000 {
                Some(i64::MIN)
            } else {
                Some(-(x as i64))
            }
        } else {
            Some(x as i64)
        },
        Err(_) => None,
    }
}

/// `s` read as a `u16`, as `str::parse` reads it: `None` when it is not an
/// unsigned integer or does not fit.
pub fn parse_u16(s: &str) -> (r: Option<u16>)
    ensures
        match written_integer(s@, false) {
            Some(x) => if x <= u16::MAX {
                r == Some(x as u16)
            } else {
                r is None
            },
            None => r is None,
        },
        written_integer(s@, false) matches Some(x) ==> x >= 0,
{
    let v = chars_of(s);
    let skip: usize = if v.len() > 0 && v[0] == '+' { 1 } else { 0 };
    assert(v@ == s@);
    assert(skip == sign_len(s@, false));
    proof {
        let d = s@.subrange(skip as int, s@.len() as int);
        if all_digits(d) {
            lemma_decimal_grows(d, 0);
        }
    }
    match digits_value(&v, skip, 0xffff) {
        Ok(x) => Some(x as u16),
        Err(_) => None,
    }
}

/// Where the store lives when nothing else is configured.
pub const DEFAULT_DATABASE_URL: &'static str = "sqlite://./data/customer_tracker.db";

/// The settings of the service.
#[derive(Debug, Clone, PartialEq, Eq)]
pub struct Config {
    pub database_url: String,
    pub jwt_secret: String,
    pub jwt_expire_hours: i64,
    pub server_host: String,
    pub server_port: u16,
    pub cors_origin: String,
    pub log_level: String,
}

/// Why the settings could not be assembled.
#[derive(Debug, Clone, Copy, PartialEq, Eq)]
pub enum ConfigError {
    /// No secret to sign tokens with was given.
    MissingJwtSecret,
}

/// The text given for a setting, or its default.
pub open spec fn or_default(given: Option<String>, default: Seq<char>) -> Seq<char> {
    match given {
        Some(s) => s@,
        None => default,
    }
}

fn text_or(given: Option<String>, default: &str) -> (r: String)
    ensures
        r@ == or_default(given, default@),
{
    match given {
        Some(s) => s,
        None => default.to_owned(),
    }
}

impl Config {
    /// The settings from the values given for them, each `None` when unset.
    /// Only the token secret is required. An hour count or port that is
    /// unset or unreadable falls back to 24 hours or port 3000.
    pub fn from_values(
        database_url: Option<String>,
        jwt_secret: Option<String>,
        jwt_expire_hours: Option<String>,
        server_host: Option<String>,
        server_port: Option<String>,
        cors_origin: Option<String>,
        log_level: Option<String>,
    ) -> (r: Result<Config, ConfigError>)
        ensures
            jwt_secret is None <==> r == Err::<Config, ConfigError>(ConfigError::MissingJwtSecret),
            r matches Ok(c) ==> {
                &&& c.database_url@ == or_default(database_url, DEFAULT_DATABASE_URL@)
                &&& c.jwt_secret@ == jwt_secret->0@
                &&& c.jwt_expire_hours == match jwt_expire_hours {
                    Some(h) => match written_integer(h@, true) {
                        Some(x) => if i64::MIN <= x <= i64::MAX { x } else { 24 },
                        None => 24,
                    },
                    None => 24,
                }
                &&& c.server_host@ == or_default(server_host, "0.0.0.0"@)
                &&& c.server_port == match server_port {
                    Some(p) => match written_integer(p@, false) {
                        Some(x) => if x <= u16::MAX { x } else { 3000 },
                        None => 3000,
                    },
                    None => 3000,
                }
                &&& c.cors_origin@ == or_default(cors_origin, "*"@)
                &&& c.log_level@ == or_default(log_level, "info"@)
            },
    {
        let jwt_secret = match jwt_secret {
            Some(s) => s,
            None => return Err(ConfigError::MissingJwtSecret),
        };
        let hours: i64 = match &jwt_expire_hours {
            Some(h) => match parse_i64(h.as_str()) {
                Some(x) => x,
                None => 24,
            },
            None => 24,
        };
        let port: u16 = match &server_port {
            Some(p) => match parse_u16(p.as_str()) {
                Some(x) => x,
                None => 3000,
            },
            None => 3000,
        };
        Ok(Config {
            database_url: text_or(database_url, DEFAULT_DATABASE_URL),
            jwt_secret,
            jwt_expire_hours: hours,
            server_host: text_or(server_host, "0.0.0.0"),
            server_port: port,
            cors_origin: text_or(cors_origin, "*"),
            log_level: text_or(log_level, "info"),
        })
    }
}

} // verus!
