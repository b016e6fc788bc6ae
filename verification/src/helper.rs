//! Small validation helpers: port syntax, loose dotted-quad syntax, and the
//! DVRIP protocol header check.

use vstd::prelude::*;

use crate::text::{dec_str_val, split_of, split_str, valid_dec};

verus! {

/// Whether a string names a usable TCP port: a decimal number from 1 to
/// 65535, in the standard parser's grammar.
pub fn check_port(port: &str) -> (r: bool)
    ensures
        r == (valid_dec(port@) && 1 <= dec_str_val(port@) <= 65535),
{
    match crate::text::parse_u16(port) {
        Some(p) => p >= 1,
        None => false,
    }
}

/// Four dot-separated fields that each parse as a byte (the standard `u8`
/// parser: an optional plus sign and any number of digits are fine).
pub open spec fn loose_quad(s: Seq<char>) -> bool {
    let ps = split_of(s, seq!['.']);
    ps.len() == 4 && forall|i: int|
        0 <= i < 4 ==> valid_dec(#[trigger] ps[i]) && dec_str_val(ps[i]) <= 255
}

/// Whether a string looks like an IPv4 address, field by field.
pub fn check_ip(ip: &str) -> (r: bool)
    ensures
        r == loose_quad(ip@),
{
    proof {
        reveal_strlit(".");
        assert("."@ =~= seq!['.']);
    }
    let parts = split_str(ip, ".");
    proof {
        assert(forall|i: int|
            0 <= i < parts@.len() ==> parts.deep_view()[i] == #[trigger] parts@[i]@);
    }
    if parts.len() != 4 {
        return false;
    }
    let mut i: usize = 0;
    while i < 4
        invariant
            0 <= i <= 4,
            parts@.len() == 4,
            parts.deep_view() == split_of(ip@, seq!['.']),
            forall|j: int|
                0 <= j < i ==> valid_dec(#[trigger] parts.deep_view()[j]) && dec_str_val(
                    parts.deep_view()[j],
                ) <= 255,
        decreases 4 - i,
    {
        proof {
            assert(parts.deep_view()[i as int] == parts@[i as int]@);
        }
        match crate::text::parse_u8(parts[i].as_str()) {
            Some(_) => {},
            None => {
                return false;
            },
        }
        i += 1;
    }
    true
}

/// The two-byte frame headers of the DVRIP protocol family.
pub open spec fn is_dvrip_header(a: u8, b: u8) -> bool {
    ||| (a == 0xa0 && b == 0x00)  // 3DES login
    ||| (a == 0xa0 && b == 0x01)  // send request realm
    ||| (a == 0xa0 && b == 0x05)  // send login details
    ||| (a == 0xb0 && b == 0x00)  // receive
    ||| (a == 0xb0 && b == 0x01)  // receive
    ||| (a == 0xa3 && b == 0x01)  // discover request
    ||| (a == 0xb3 && b == 0x00)  // discover response
    ||| (a == 0xf6 && b == 0x00)  // JSON framing

}

/// Whether a raw frame opens with one of the DVRIP headers.
pub fn dahua_proto(proto: &[u8]) -> (r: bool)
    ensures
        r == (proto@.len() >= 2 && is_dvrip_header(proto@[0], proto@[1])),
{
    if proto.len() < 2 {
        return false;
    }
    let a = proto[0];
    let b = proto[1];
    (a == 0xa0 && b == 0x00) || (a == 0xa0 && b == 0x01) || (a == 0xa0 && b == 0x05) || (a == 0xb0
        && b == 0x00) || (a == 0xb0 && b == 0x01) || (a == 0xa3 && b == 0x01) || (a == 0xb3 && b
        == 0x00) || (a == 0xf6 && b == 0x00)
}

/// Whether a host is alive: the loopback block is the scanning host
/// itself, so it counts as alive without a probe; everything else gets an
/// ICMP echo with the given timeout.
pub fn alive_check(ip: &str, timeout: u64) -> (r: bool)
    ensures
        crate::net::valid_ipv4(ip@) && crate::net::ipv4_val(ip@) / 0x1000000 == 127 ==> r,
{
    match crate::net::parse_ipv4(ip) {
        Some(addr) => {
            if addr / 0x1000000 == 127 {
                return true;
            }
            crate::outside::ping_helper(ip, 166, timeout)
        },
        None => crate::outside::ping_helper(ip, 166, timeout),
    }
}

} // verus!
