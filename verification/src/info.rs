//! The `info` endpoint's payload: a fresh 32-bit entropy value per
//! response, the websocket flag, the cookie flag, and the fixed origins
//! list, rendered as the exact JSON document.

use vstd::prelude::*;

verus! {

/// The `info` payload.
pub struct Info {
    /// A uniform 32-bit value drawn per response.
    pub entropy: u32,
    /// Whether the websocket transport is enabled.
    pub websocket: bool,
    /// Whether the server wants `JSESSIONID` cookies.
    pub cookie_needed: bool,
}

impl Info {
    pub fn new(entropy: u32, websocket: bool, cookie_needed: bool) -> (r: Info)
        ensures
            r == (Info { entropy, websocket, cookie_needed }),
    {
        Info { entropy, websocket, cookie_needed }
    }
}

/// Relies on `rand::random`: draws a value from the standard
/// distribution. Nothing can be promised of a random value.
pub assume_specification<T>[ rand::random::<T> ]() -> (r: T)
    where
        rand::distributions::Standard: rand::distributions::Distribution<T>,
;

/// A fresh uniform 32-bit value.
pub fn entropy() -> u32 {
    rand::random::<u32>()
}

/// The decimal digit character for `d`.
pub open spec fn digit_char(d: int) -> char {
    if d == 0 {
        '0'
    } else if d == 1 {
        '1'
    } else if d == 2 {
        '2'
    } else if d == 3 {
        '3'
    } else if d == 4 {
        '4'
    } else if d == 5 {
        '5'
    } else if d == 6 {
        '6'
    } else if d == 7 {
        '7'
    } else if d == 8 {
        '8'
    } else {
        '9'
    }
}

/// The decimal digits of `n`, most significant first.
pub open spec fn dec_digits(n: int) -> Seq<char>
    decreases n,
{
    if n < 10 {
        seq![digit_char(n)]
    } else {
        dec_digits(n / 10) + seq![digit_char(n % 10)]
    }
}

/// The one-character string for a digit.
fn digit_str(d: u32) -> (r: &'static str)
    requires
        d < 10,
    ensures
        r@ == seq![digit_char(d as int)],
{
    let r: &'static str = match d {
        0 => "0",
        1 => "1",
        2 => "2",
        3 => "3",
        4 => "4",
        5 => "5",
        6 => "6",
        7 => "7",
        8 => "8",
        _ => "9",
    };
    proof {
        reveal_strlit("0");
        reveal_strlit("1");
        reveal_strlit("2");
        reveal_strlit("3");
        reveal_strlit("4");
        reveal_strlit("5");
        reveal_strlit("6");
        reveal_strlit("7");
        reveal_strlit("8");
        reveal_strlit("9");
        assert(r@ =~= seq![digit_char(d as int)]);
    }
    r
}

/// Renders `n` in decimal.
pub fn u32_to_dec(n: u32) -> (r: String)
    ensures
        r@ == dec_digits(n as int),
    decreases n,
{
    if n < 10 {
        String::from_str(digit_str(n))
    } else {
        let mut s = u32_to_dec(n / 10);
        s.append(digit_str(n % 10));
        s
    }
}

/// The characters of a JSON boolean.
pub open spec fn bool_chars(b: bool) -> Seq<char> {
    if b {
        "true"@
    } else {
        "false"@
    }
}

/// The exact JSON document the `info` endpoint returns.
pub open spec fn info_json_chars(entropy: u32, websocket: bool, cookie_needed: bool) -> Seq<
    char,
> {
    "{\"entropy\":"@ + dec_digits(entropy as int) + ",\"websocket\":"@ + bool_chars(websocket)
        + ",\"cookie_needed\":"@ + bool_chars(cookie_needed) + ",\"origins\":[\"*:*\"]}"@
}

/// Renders the `info` payload: entropy, the websocket flag, the cookie
/// flag, and the constant origins list `["*:*"]`, in that order.
pub fn info_body(info: &Info) -> (r: String)
    ensures
        r@ == info_json_chars(info.entropy, info.websocket, info.cookie_needed),
{
    let mut s: String = String::from_str("{\"entropy\":");
    let digits = u32_to_dec(info.entropy);
    s.append(digits.as_str());
    s.append(",\"websocket\":");
    s.append(if info.websocket { "true" } else { "false" });
    s.append(",\"cookie_needed\":");
    s.append(if info.cookie_needed { "true" } else { "false" });
    s.append(",\"origins\":[\"*:*\"]}");
    s
}

} // verus!
