//! Environment-sourced configuration: ports, proxy host, router override.
//!
//! The process boundary reads the environment; the functions here turn what
//! it read into the values the relay runs with, falling back to the stock
//! defaults on anything absent or malformed.

use vstd::prelude::*;

use crate::strings::{contains_str, find_char, first_at, second_segment, second_segment_spec,
    str_contains};

verus! {

/// Stock application port.
pub const DEFAULT_APP_PORT: u16 = 5555;

/// Stock port of the anonymous transport's local HTTP proxy.
pub const DEFAULT_HTTP_PROXY_PORT: u16 = 4242;

/// An ASCII decimal digit.
pub open spec fn is_digit(c: char) -> bool {
    48 <= (c as u32) <= 57
}

/// Value of a digit string, most significant first.
pub open spec fn digits_val(s: Seq<char>) -> nat
    decreases s.len(),
{
    if s.len() == 0 {
        0
    } else {
        digits_val(s.drop_last()) * 10 + (if is_digit(s.last()) {
            ((s.last() as u32) - 48) as nat
        } else {
            0
        })
    }
}

/// Every character is a digit.
pub open spec fn all_digits(s: Seq<char>) -> bool {
    forall|i: int| 0 <= i < s.len() ==> is_digit(#[trigger] s[i])
}

/// The digits of a number text, with one optional leading plus sign
/// removed.
pub open spec fn plus_stripped(s: Seq<char>) -> Seq<char> {
    if s.len() > 0 && s[0] == '+' {
        s.skip(1)
    } else {
        s
    }
}

/// How `str::parse::<u16>` reads a string: an optional plus sign, then one
/// or more digits whose value fits.
pub open spec fn parse_u16_s(s: Seq<char>) -> Option<u16> {
    if plus_stripped(s).len() > 0 && all_digits(plus_stripped(s)) && digits_val(plus_stripped(s))
        <= 65535 {
        Option::Some(digits_val(plus_stripped(s)) as u16)
    } else {
        Option::None
    }
}

/// Reads a port number the way the standard parser does.
pub fn parse_u16(s: &str) -> (r: Option<u16>)
    ensures
        r == parse_u16_s(s@),
{
    let n = s.unicode_len();
    let start: usize = if n >= 1 && s.get_char(0) == '+' {
        1
    } else {
        0
    };
    let ghost body = plus_stripped(s@);
    if start >= n {
        return Option::None;
    }
    let mut acc: u32 = 0;
    let mut i: usize = start;
    while i < n
        invariant
            start <= i <= n,
            n == s@.len(),
            start <= 1,
            start == 1 ==> n > 0 && s@[0] == '+',
            start == 0 ==> !(s@.len() > 0 && s@[0] == '+'),
            body == plus_stripped(s@),
            forall|j: int| start <= j < i ==> is_digit(#[trigger] s@[j]),
            (acc <= 65535 && acc == digits_val(s@.subrange(start as int, i as int))) || (acc
                == 70000 && digits_val(s@.subrange(start as int, i as int)) > 65535),
        decreases n - i,
    {
        let c = s.get_char(i);
        let d = c as u32;
        if d < 48 || d > 57 {
            proof {
                if start == 1 {
                    assert(body == s@.skip(1));
                    assert(body[i - 1] == s@[i as int]);
                } else {
                    assert(body == s@);
                }
                assert(!all_digits(plus_stripped(s@))) by {
                    assert(0 <= i - start < body.len());
                    assert(!is_digit(body[i - start]));
                };
                assert(parse_u16_s(s@) is None);
            }
            return Option::None;
        }
        let digit = d - 48;
        proof {
            let pre = s@.subrange(start as int, i as int);
            let ext = s@.subrange(start as int, i + 1);
            assert(ext.drop_last() =~= pre);
            assert(ext.last() == s@[i as int]);
            assert(digits_val(ext) == digits_val(pre) * 10 + digit);
        }
        if acc > 65535 {
            // saturated: the value is already out of range
        } else {
            let next = acc * 10 + digit;
            if next > 65535 {
                acc = 70000;
            } else {
                acc = next;
            }
        }
        i = i + 1;
    }
    proof {
        assert(s@.subrange(start as int, n as int) =~= body);
    }
    if acc <= 65535 {
        Option::Some(acc as u16)
    } else {
        Option::None
    }
}

/// The port a stored environment value yields: its parsed value, or the
/// stock port when it is absent or malformed.
pub open spec fn port_or_default(s: Seq<char>) -> u16 {
    match parse_u16_s(s) {
        Option::Some(p) => p,
        Option::None => DEFAULT_APP_PORT,
    }
}

/// The application port: the parsed environment value, or the stock port.
pub fn get_app_port(env_value: &Option<String>) -> (r: u16)
    ensures
        env_value is None ==> r == DEFAULT_APP_PORT,
        env_value matches Some(v) ==> r == port_or_default(v@),
{
    match env_value {
        Option::None => DEFAULT_APP_PORT,
        Option::Some(v) => match parse_u16(v.as_str()) {
            Option::Some(p) => p,
            Option::None => DEFAULT_APP_PORT,
        },
    }
}

/// The anonymous transport's local HTTP proxy host: the environment value,
/// or the stock host and port.
pub fn get_i2p_http_proxy(env_value: &Option<String>) -> (r: String)
    ensures
        env_value matches Some(v) ==> r@ == v@,
        env_value is None ==> r@ == "127.0.0.1:4242"@,
{
    match env_value {
        Option::Some(v) => v.clone(),
        Option::None => String::from_str("127.0.0.1:4242"),
    }
}

/// Cuts the port out of a `host:port` proxy string.
pub fn get_i2p_proxy_port(proxy_host: &str) -> (r: String)
    requires
        first_at(proxy_host@, ':', 0) < proxy_host@.len(),
    ensures
        r@ == second_segment_spec(proxy_host@, ':'),
{
    second_segment(proxy_host, ':')
}

/// Whether the managed router stays mandatory: the override must be set
/// explicitly (a non-empty environment value) to let startup proceed
/// degraded beside an existing router; an absent or empty value is no
/// override.
pub fn router_override_disabled(env_value: &Option<String>) -> (r: bool)
    ensures
        r == !(env_value matches Some(v) && v@.len() > 0),
{
    match env_value {
        Option::None => true,
        Option::Some(v) => v.as_str().unicode_len() == 0,
    }
}

/// Whether a failed router bring-up aborts startup: fatal exactly when the
/// router failed and no explicit override lets the process run degraded
/// beside an existing router.
pub fn startup_fatal(router_failed: bool, override_disabled: bool) -> (r: bool)
    ensures
        r == (router_failed && override_disabled),
{
    router_failed && override_disabled
}

/// The external port named by a router config line: the text between the
/// first `=` and the next, on the line that names the UDP port setting.
pub fn parse_router_port_line(line: &str) -> (r: Option<String>)
    ensures
        (r is Some) == (str_contains(line@, "i2np.udp.port"@) && first_at(line@, '=', 0)
            < line@.len()),
        r matches Some(p) ==> p@ == second_segment_spec(line@, '='),
{
    if contains_str(line, "i2np.udp.port") {
        let n = line.unicode_len();
        let i = find_char(line, '=', 0);
        if i < n {
            Option::Some(second_segment(line, '='))
        } else {
            Option::None
        }
    } else {
        Option::None
    }
}

} // verus!
