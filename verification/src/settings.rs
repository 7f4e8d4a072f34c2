//! Where the server listens.

use vstd::prelude::*;

use crate::text;

verus! {

/// The host to listen on if none is set.
pub const DEFAULT_HOST: &'static str = "0.0.0.0";

/// The port to listen on if none is set.
pub const DEFAULT_PORT: u16 = 8080;

/// The value of the decimal digit `c`.
pub open spec fn digit_value(c: char) -> int {
    c as int - '0' as int
}

/// The number that the decimal digits of `s` write.
pub open spec fn number(s: Seq<char>) -> int
    decreases s.len(),
{
    if s.len() == 0 {
        0
    } else {
        10 * number(s.drop_last()) + digit_value(s.last())
    }
}

/// Each character of `s` is a decimal digit.
pub open spec fn all_digits(s: Seq<char>) -> bool {
    forall|i: int| 0 <= i < s.len() ==> '0' <= #[trigger] s[i] <= '9'
}

/// The port that `s` writes: an optional `+` and at least one decimal digit, and nothing else, with
/// a value that a port can have.
pub open spec fn port_in(s: Seq<char>) -> Option<u16> {
    let digits = if s.len() > 0 && s[0] == '+' {
        s.skip(1)
    } else {
        s
    };
    if digits.len() > 0 && all_digits(digits) && number(digits) <= u16::MAX {
        Some(number(digits) as u16)
    } else {
        None
    }
}

/// Calls `str::parse` for `u16`: an optional `+` sign followed by only digits, read in base 10;
/// anything else, or a number that is too large, is an error.
#[verifier::external_body]
fn parse_u16(s: &str) -> (port: Option<u16>)
    ensures
        port == port_in(s@),
{
    s.parse::<u16>().ok()
}

/// The port to listen on: the one that `port` writes, or the default.
pub open spec fn port_or_default(port: Option<Seq<char>>) -> u16 {
    match port {
        Some(s) => match port_in(s) {
            Some(n) => n,
            None => DEFAULT_PORT,
        },
        None => DEFAULT_PORT,
    }
}

/// The address to listen on, from what is set for the host and the port.
pub fn listen_addr(host: Option<String>, port: Option<String>) -> (addr: String)
    ensures
        addr@ == (match host {
            Some(h) => h@,
            None => DEFAULT_HOST@,
        }) + ":"@ + text::decimal(port_or_default(text::opt_view(port)) as nat),
        port is None ==> addr@ == (match host {
            Some(h) => h@,
            None => "0.0.0.0"@,
        }) + ":"@ + text::decimal(8080),
        port matches Some(p) ==> addr@ == (match host {
            Some(h) => h@,
            None => "0.0.0.0"@,
        }) + ":"@ + text::decimal(
            (match port_in(p@) {
                Some(n) => n,
                None => 8080,
            }) as nat,
        ),
{
    let mut addr = match host {
        Some(host) => host,
        None => DEFAULT_HOST.to_string(),
    };
    let port: u16 = match port {
        Some(port) => match parse_u16(&port) {
            Some(n) => n,
            None => DEFAULT_PORT,
        },
        None => DEFAULT_PORT,
    };
    addr.append(":");
    addr.append(&text::decimal_text(port as usize));
    addr
}

/// `n` is read back from its decimal text.
proof fn decimal_is_read_back(n: nat)
    ensures
        text::decimal(n).len() > 0,
        forall|i: int|
            0 <= i < text::decimal(n).len() ==> '0' <= #[trigger] text::decimal(n)[i] <= '9',
        number(text::decimal(n)) == n,
    decreases n,
{
    reveal_strlit("0123456789abcdef");
    if n < 10 {
        let s = text::decimal(n);
        assert(s.drop_last() =~= Seq::empty());
        assert(number(s.drop_last()) == 0);
    } else {
        decimal_is_read_back(n / 10);
        assert(text::decimal(n).drop_last() =~= text::decimal(n / 10));
    }
}

/// A port that is set in plain decimal is the one that the server listens on.
pub proof fn port_is_honoured(n: u16)
    ensures
        port_or_default(Some(text::decimal(n as nat))) == n,
{
    decimal_is_read_back(n as nat);
}

/// Whatever writes a port is honoured, whichever port it is; with anything else, or nothing, the
/// server listens on 8080.
pub proof fn port_or_8080(s: Seq<char>)
    ensures
        port_in(s) matches Some(n) ==> port_or_default(Some(s)) == n,
        port_in(s) is None ==> port_or_default(Some(s)) == 8080,
        port_or_default(None) == 8080,
{
}

/// A text with a character that is no digit, but for a leading `+`, sets no port.
pub proof fn port_needs_digits(s: Seq<char>, i: int)
    requires
        0 <= i < s.len(),
        !('0' <= s[i] <= '9'),
        i == 0 ==> s[0] != '+',
    ensures
        port_or_default(Some(s)) == 8080,
{
    if s[0] == '+' {
        assert(s.skip(1)[i - 1] == s[i]);
    }
}

/// A plus sign before a port changes nothing.
pub proof fn plus_sign_changes_nothing(s: Seq<char>)
    requires
        s.len() > 0,
        s[0] != '+',
    ensures
        port_or_default(Some(seq!['+'] + s)) == port_or_default(Some(s)),
{
    assert((seq!['+'] + s).skip(1) =~= s);
}

} // verus!
