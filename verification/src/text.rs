//! Text the gateway builds: host names from bytes, dotted IPv4 addresses and
//! `ip:port` socket addresses.
use vstd::prelude::*;
use vstd::utf8::{decode_utf8, valid_utf8};

verus! {

/// `String::from_utf8`, with the error dropped.  The standard library
/// documents that the conversion succeeds exactly on valid UTF-8 and then
/// holds the decoded characters; that is what the contract states.
#[verifier::external_body]
pub(crate) fn string_from_utf8(v: Vec<u8>) -> (r: Option<String>)
    ensures
        r is Some <==> valid_utf8(v@),
        r matches Some(s) ==> s@ == decode_utf8(v@),
{
    String::from_utf8(v).ok()
}

/// The decimal digit `d` (0 to 9) as a character.
pub open spec fn digit_char(d: nat) -> char {
    if d == 0 {
        '0'
    } else if d == 1 {
        '1'
    } else if d == 2 {
        '2'
    } else if d == 3 {
        '3'
    } else if d == 4 {
        '4'
    } else if d == 5 {
        '5'
    } else if d == 6 {
        '6'
    } else if d == 7 {
        '7'
    } else if d == 8 {
        '8'
    } else {
        '9'
    }
}

/// The decimal notation of `n`, without leading zeros.
pub open spec fn decimal(n: nat) -> Seq<char>
    decreases n,
{
    if n < 10 {
        seq![digit_char(n)]
    } else {
        decimal(n / 10).push(digit_char(n % 10))
    }
}

fn digit_str(d: u64) -> (r: &'static str)
    requires
        d < 10,
    ensures
        r@ == seq![digit_char(d as nat)],
{
    proof {
        reveal_strlit("0");
        reveal_strlit("1");
        reveal_strlit("2");
        reveal_strlit("3");
        reveal_strlit("4");
        reveal_strlit("5");
        reveal_strlit("6");
        reveal_strlit("7");
        reveal_strlit("8");
        reveal_strlit("9");
    }
    if d == 0 {
        "0"
    } else if d == 1 {
        "1"
    } else if d == 2 {
        "2"
    } else if d == 3 {
        "3"
    } else if d == 4 {
        "4"
    } else if d == 5 {
        "5"
    } else if d == 6 {
        "6"
    } else if d == 7 {
        "7"
    } else if d == 8 {
        "8"
    } else {
        "9"
    }
}

/// Appends the decimal notation of `n` to `s`.
pub fn append_decimal(s: &mut String, n: u64)
    ensures
        final(s)@ == old(s)@ + decimal(n as nat),
    decreases n,
{
    if n >= 10 {
        append_decimal(s, n / 10);
    }
    s.append(digit_str(n % 10));
    proof {
        if n >= 10 {
            assert(decimal(n as nat) == decimal((n / 10) as nat).push(digit_char((n % 10) as nat)));
        }
    }
    assert(final(s)@ =~= old(s)@ + decimal(n as nat));
}

/// Dotted-quad notation of an IPv4 address (most significant byte first).
pub open spec fn ipv4_text(addr: u32) -> Seq<char> {
    decimal(((addr >> 24u32) & 0xffu32) as nat) + seq!['.'] + decimal(((addr >> 16u32) & 0xffu32) as nat)
        + seq!['.'] + decimal(((addr >> 8u32) & 0xffu32) as nat) + seq!['.'] + decimal(
        (addr & 0xffu32) as nat,
    )
}

/// The address `a.b.c.d` of an IPv4 address given as a `u32`.
pub fn ipv4_string(addr: u32) -> (r: String)
    ensures
        r@ == ipv4_text(addr),
{
    proof {
        reveal_strlit(".");
    }
    let mut s = String::new();
    append_decimal(&mut s, ((addr >> 24u32) & 0xffu32) as u64);
    s.append(".");
    append_decimal(&mut s, ((addr >> 16u32) & 0xffu32) as u64);
    s.append(".");
    append_decimal(&mut s, ((addr >> 8u32) & 0xffu32) as u64);
    s.append(".");
    append_decimal(&mut s, (addr & 0xffu32) as u64);
    assert(s@ =~= ipv4_text(addr));
    s
}

/// `ip:port` text of a socket address.
pub open spec fn socket_address_text(ip: Seq<char>, port: u16) -> Seq<char> {
    ip + seq![':'] + decimal(port as nat)
}

pub fn socket_address(ip: &String, port: u16) -> (r: String)
    ensures
        r@ == socket_address_text(ip@, port),
{
    proof {
        reveal_strlit(":");
    }
    let mut s = ip.clone();
    s.append(":");
    append_decimal(&mut s, port as u64);
    assert(s@ =~= socket_address_text(ip@, port));
    s
}

} // verus!
