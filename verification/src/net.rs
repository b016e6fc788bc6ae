//! Target expansion: the grammar of address specifications (single host,
//! CIDR block, dashed range, `host:port`), the count of targets each one
//! yields, and their lazy, restartable enumeration.

use vstd::prelude::*;

use crate::text::{
    all_digits, dec_of, dec_str_val, dec_val, parse_u16, parse_u8, push_dec_u64, seq_contains,
    split_of, split_str, strip_plus, valid_dec,
};

verus! {

// ---------------------------------------------------------------------------
// Dotted-quad IPv4 addresses (the standard grammar: four octets, each one to
// three digits, no sign, no leading zero)
// ---------------------------------------------------------------------------

/// A well-formed octet of a dotted-quad address.
pub open spec fn valid_octet(s: Seq<char>) -> bool {
    1 <= s.len() <= 3 && all_digits(s) && dec_val(s) <= 255 && (s.len() > 1 ==> s[0] != '0')
}

pub open spec fn dotted_parts(s: Seq<char>) -> Seq<Seq<char>> {
    split_of(s, seq!['.'])
}

/// A well-formed dotted-quad IPv4 address.
pub open spec fn valid_ipv4(s: Seq<char>) -> bool {
    let ps = dotted_parts(s);
    &&& ps.len() == 4
    &&& valid_octet(ps[0])
    &&& valid_octet(ps[1])
    &&& valid_octet(ps[2])
    &&& valid_octet(ps[3])
}

/// The numeric value of a well-formed dotted-quad address.
pub open spec fn ipv4_val(s: Seq<char>) -> int {
    let ps = dotted_parts(s);
    dec_val(ps[0]) * 0x1000000 + dec_val(ps[1]) * 0x10000 + dec_val(ps[2]) * 0x100 + dec_val(
        ps[3],
    )
}

/// The dotted-quad rendering of a 32-bit address value.
pub open spec fn ipv4_str_of(a: int) -> Seq<char> {
    dec_of(((a / 0x1000000) % 0x100) as nat) + seq!['.'] + dec_of(((a / 0x10000) % 0x100) as nat)
        + seq!['.'] + dec_of(((a / 0x100) % 0x100) as nat) + seq!['.'] + dec_of((a % 0x100) as nat)
}

/// Parses one octet: one to three digits, no sign, no leading zero, at most
/// 255.
fn parse_octet(s: &str) -> (r: Option<u8>)
    ensures
        r is Some <==> valid_octet(s@),
        r matches Some(v) ==> v == dec_val(s@),
{
    let len = s.unicode_len();
    if len == 0 || len > 3 {
        return None;
    }
    if len > 1 && s.get_char(0) as u32 == '0' as u32 {
        return None;
    }
    let mut acc: u16 = 0;
    let mut i: usize = 0;
    while i < len
        invariant
            0 <= i <= len,
            len == s@.len(),
            1 <= len <= 3,
            all_digits(s@.take(i as int)),
            acc == dec_val(s@.take(i as int)),
            acc < 1000,
            i == 0 ==> acc == 0,
            i == 1 ==> acc <= 9,
            i == 2 ==> acc <= 99,
        decreases len - i,
    {
        let c = s.get_char(i) as u32;
        if c < '0' as u32 || c > '9' as u32 {
            proof {
                assert(!crate::text::is_dec_digit(s@[i as int]));
                assert(s@.take(len as int) =~= s@);
                assert(all_digits(s@) ==> crate::text::is_dec_digit(s@[i as int]));
            }
            return None;
        }
        let d: u16 = (c - '0' as u32) as u16;
        proof {
            let pre = s@.take(i + 1);
            assert(pre.drop_last() =~= s@.take(i as int));
            assert(pre.last() == s@[i as int]);
            assert(forall|j: int| 0 <= j < pre.len() - 1 ==> pre[j] == #[trigger] s@.take(
                i as int,
            )[j]);
        }
        acc = acc * 10 + d;
        i += 1;
    }
    proof {
        assert(s@.take(len as int) =~= s@);
    }
    if acc > 255 {
        return None;
    }
    Some(acc as u8)
}

/// Parses a dotted-quad IPv4 address into its 32-bit value.
pub fn parse_ipv4(s: &str) -> (r: Option<u32>)
    ensures
        r is Some <==> valid_ipv4(s@),
        r matches Some(v) ==> v == ipv4_val(s@),
{
    proof {
        reveal_strlit(".");
        assert("."@ =~= seq!['.']);
    }
    let parts = split_str(s, ".");
    if parts.len() != 4 {
        return None;
    }
    proof {
        assert(forall|i: int| 0 <= i < 4 ==> parts.deep_view()[i] == #[trigger] parts@[i]@);
    }
    let o0 = match parse_octet(parts[0].as_str()) {
        Some(v) => v,
        None => {
            return None;
        },
    };
    let o1 = match parse_octet(parts[1].as_str()) {
        Some(v) => v,
        None => {
            return None;
        },
    };
    let o2 = match parse_octet(parts[2].as_str()) {
        Some(v) => v,
        None => {
            return None;
        },
    };
    let o3 = match parse_octet(parts[3].as_str()) {
        Some(v) => v,
        None => {
            return None;
        },
    };
    Some((o0 as u32) * 0x1000000 + (o1 as u32) * 0x10000 + (o2 as u32) * 0x100 + (o3 as u32))
}

/// Renders a 32-bit address value as a dotted quad.
pub fn ip_string(a: u32) -> (r: String)
    ensures
        r@ == ipv4_str_of(a as int),
{
    proof {
        reveal_strlit(".");
        assert("."@ =~= seq!['.']);
    }
    let mut s = String::new();
    push_dec_u64(&mut s, (((a / 0x1000000) % 0x100) as u64));
    s.append(".");
    push_dec_u64(&mut s, (((a / 0x10000) % 0x100) as u64));
    s.append(".");
    push_dec_u64(&mut s, (((a / 0x100) % 0x100) as u64));
    s.append(".");
    push_dec_u64(&mut s, ((a % 0x100) as u64));
    proof {
        assert(s@ =~= ipv4_str_of(a as int));
    }
    s
}

// ---------------------------------------------------------------------------
// Target specifications: CIDR block, dashed range, host:port, bare host
// ---------------------------------------------------------------------------

pub open spec fn slash_parts(s: Seq<char>) -> Seq<Seq<char>> {
    split_of(s, seq!['/'])
}

pub open spec fn dash_parts(s: Seq<char>) -> Seq<Seq<char>> {
    split_of(s, seq!['-'])
}

pub open spec fn colon_parts(s: Seq<char>) -> Seq<Seq<char>> {
    split_of(s, seq![':'])
}

/// Whether a 32-bit value is the contiguous netmask of prefix length `p`:
/// `p` one-bits from the top.
pub open spec fn is_netmask_for(m: int, p: int) -> bool {
    0 <= p <= 32 && m == vstd::arithmetic::power2::pow2(32) - vstd::arithmetic::power2::pow2(
        (32 - p) as nat,
    )
}

/// The prefix length a netmask value denotes, scanned upward from `p`.
pub open spec fn netmask_prefix_from(m: int, p: int) -> Option<int>
    decreases 33 - p,
{
    if p < 0 || p > 32 {
        None
    } else if is_netmask_for(m, p) {
        Some(p)
    } else {
        netmask_prefix_from(m, p + 1)
    }
}

/// The prefix length a netmask value denotes, if it is contiguous.
pub open spec fn netmask_prefix_of(m: int) -> Option<int> {
    netmask_prefix_from(m, 0)
}

proof fn lemma_netmask_prefix_spec(m: int, p: int)
    requires
        0 <= p <= 33,
    ensures
        ({
            match netmask_prefix_from(m, p) {
                Some(q) => p <= q <= 32 && is_netmask_for(m, q),
                None => forall|q: int| p <= q <= 32 ==> !is_netmask_for(m, q),
            }
        }),
    decreases 33 - p,
{
    if p <= 32 && !is_netmask_for(m, p) {
        lemma_netmask_prefix_spec(m, p + 1);
    }
}

/// What the slash may be followed by: a numeric prefix length, or a dotted
/// quad that is a contiguous netmask (tried first, as a quad is never a
/// plain number).
pub open spec fn valid_prefix_part(x: Seq<char>) -> bool {
    if valid_ipv4(x) {
        netmask_prefix_of(ipv4_val(x)) is Some
    } else {
        valid_dec(x) && dec_str_val(x) <= 32
    }
}

pub open spec fn prefix_part_val(x: Seq<char>) -> int {
    if valid_ipv4(x) {
        netmask_prefix_of(ipv4_val(x))->0
    } else {
        dec_str_val(x)
    }
}

/// A CIDR specification: a dotted quad, optionally followed by a slash and
/// either a prefix length of at most 32 or a contiguous dotted netmask (a
/// bare address is a /32 block).
pub open spec fn is_cidr(s: Seq<char>) -> bool {
    let ps = slash_parts(s);
    ||| (ps.len() == 1 && valid_ipv4(ps[0]))
    ||| (ps.len() == 2 && valid_ipv4(ps[0]) && valid_prefix_part(ps[1]))
}

pub open spec fn cidr_prefix(s: Seq<char>) -> int {
    let ps = slash_parts(s);
    if ps.len() == 1 {
        32
    } else {
        prefix_part_val(ps[1])
    }
}

pub open spec fn cidr_addr(s: Seq<char>) -> int {
    ipv4_val(slash_parts(s)[0])
}

/// How many addresses a CIDR block holds.
pub open spec fn cidr_size(s: Seq<char>) -> nat {
    vstd::arithmetic::power2::pow2((32 - cidr_prefix(s)) as nat)
}

/// The network address of a CIDR block: the given address with its host bits
/// cleared.
pub open spec fn cidr_base(s: Seq<char>) -> int {
    cidr_addr(s) / cidr_size(s) as int * cidr_size(s) as int
}

/// A dashed range whose endpoints are both dotted quads in order.
pub open spec fn is_expandable_range(s: Seq<char>) -> bool {
    let ps = dash_parts(s);
    ps.len() == 2 && valid_ipv4(ps[0]) && valid_ipv4(ps[1]) && ipv4_val(ps[0]) <= ipv4_val(ps[1])
}

/// How many targets one specification yields: `2^(32-prefix)` for a CIDR
/// block, `B-A+1` for an in-order dashed range, and one for everything else
/// (a malformed range or any other line degrades to a single unit).
pub open spec fn count_of(s: Seq<char>) -> nat {
    if is_cidr(s) {
        cidr_size(s)
    } else if seq_contains(s, seq!['-']) && is_expandable_range(s) {
        (ipv4_val(dash_parts(s)[1]) - ipv4_val(dash_parts(s)[0]) + 1) as nat
    } else {
        1
    }
}

/// The targets one specification yields, in enumeration order. Only IPv4
/// blocks and ranges expand; an IPv6 line is opaque and yields itself as
/// its single unit, slash and all.
pub open spec fn expand_of(s: Seq<char>) -> Seq<Seq<char>> {
    if is_cidr(s) {
        Seq::new(cidr_size(s), |i: int| ipv4_str_of(cidr_base(s) + i))
    } else if seq_contains(s, seq!['-']) {
        if is_expandable_range(s) {
            Seq::new(
                (ipv4_val(dash_parts(s)[1]) - ipv4_val(dash_parts(s)[0]) + 1) as nat,
                |i: int| ipv4_str_of(ipv4_val(dash_parts(s)[0]) + i),
            )
        } else {
            seq![s]
        }
    } else if seq_contains(s, seq![':']) {
        if colon_parts(s).len() == 2 {
            seq![colon_parts(s)[0]]
        } else {
            seq![s]
        }
    } else {
        seq![s]
    }
}

/// Counting and enumerating agree: every specification's count equals the
/// length of its expansion.
pub proof fn lemma_count_matches_expand(s: Seq<char>)
    ensures
        count_of(s) == expand_of(s).len(),
{
}

/// A dashed range `A-B` with `A` at most `B` yields one target per address:
/// `B-A+1` of them. Out of order or otherwise malformed, it degrades to a
/// single unexpandable unit rather than erroring.
pub proof fn lemma_range_count(s: Seq<char>)
    requires
        seq_contains(s, seq!['-']),
        !is_cidr(s),
    ensures
        is_expandable_range(s) ==> count_of(s) == ipv4_val(dash_parts(s)[1]) - ipv4_val(
            dash_parts(s)[0],
        ) + 1,
        !is_expandable_range(s) ==> count_of(s) == 1,
{
}

/// An address value fits in 32 bits.
pub proof fn lemma_ipv4_val_bounds(s: Seq<char>)
    requires
        valid_ipv4(s),
    ensures
        0 <= ipv4_val(s) < 0x100000000,
{
    let ps = dotted_parts(s);
    crate::text::lemma_dec_val_nonneg(ps[0]);
    crate::text::lemma_dec_val_nonneg(ps[1]);
    crate::text::lemma_dec_val_nonneg(ps[2]);
    crate::text::lemma_dec_val_nonneg(ps[3]);
}

/// A CIDR prefix is between 0 and 32.
pub proof fn lemma_cidr_prefix_bounds(s: Seq<char>)
    requires
        is_cidr(s),
    ensures
        0 <= cidr_prefix(s) <= 32,
{
    let ps = slash_parts(s);
    if ps.len() == 2 {
        if valid_ipv4(ps[1]) {
            lemma_netmask_prefix_spec(ipv4_val(ps[1]), 0);
        } else {
            crate::text::lemma_dec_val_nonneg(strip_plus(ps[1]));
        }
    }
}

/// Every specification yields at least one and at most `2^32` targets.
pub proof fn lemma_count_of_bounds(s: Seq<char>)
    ensures
        1 <= count_of(s) <= 0x100000000,
{
    if is_cidr(s) {
        lemma_cidr_prefix_bounds(s);
        let e = (32 - cidr_prefix(s)) as nat;
        vstd::arithmetic::power2::lemma_pow2_pos(e);
        if e < 32 {
            vstd::arithmetic::power2::lemma_pow2_strictly_increases(e, 32);
        }
        vstd::arithmetic::power2::lemma2_to64();
    } else if seq_contains(s, seq!['-']) && is_expandable_range(s) {
        lemma_ipv4_val_bounds(dash_parts(s)[0]);
        lemma_ipv4_val_bounds(dash_parts(s)[1]);
    }
}

/// The numeric addresses a CIDR block spans stay within 32 bits.
pub proof fn lemma_cidr_base_bounds(s: Seq<char>)
    requires
        is_cidr(s),
    ensures
        0 <= cidr_base(s),
        cidr_base(s) + cidr_size(s) <= 0x100000000,
        cidr_base(s) <= cidr_addr(s),
{
    let a = cidr_addr(s);
    let m = cidr_size(s) as int;
    lemma_cidr_prefix_bounds(s);
    let e = (32 - cidr_prefix(s)) as nat;
    lemma_ipv4_val_bounds(slash_parts(s)[0]);
    lemma_count_of_bounds(s);
    vstd::arithmetic::power2::lemma_pow2_pos(e);
    // the block size divides 2^32, so [base, base + size) cannot cross it
    assert(0x100000000 as int % m == 0) by {
        vstd::arithmetic::power2::lemma2_to64();
        let q = vstd::arithmetic::power2::pow2((32 - e) as nat) as int;
        assert(vstd::arithmetic::power2::pow2(32) == q * m) by {
            vstd::arithmetic::power2::lemma_pow2_adds((32 - e) as nat, e);
        }
        assert(q * m % m == 0) by (nonlinear_arith)
            requires
                m > 0,
        ;
    }
    assert(a / m * m <= a && a / m * m >= 0) by (nonlinear_arith)
        requires
            m > 0,
            a >= 0,
    ;
    assert(a / m * m + m <= 0x100000000) by (nonlinear_arith)
        requires
            m > 0,
            0 <= a < 0x100000000,
            m <= 0x100000000,
            0x100000000 as int % m == 0,
    ;
}

// ---------------------------------------------------------------------------
// Executable expansion
// ---------------------------------------------------------------------------

fn pow2_u64(k: u32) -> (r: u64)
    requires
        k <= 32,
    ensures
        r == vstd::arithmetic::power2::pow2(k as nat),
{
    let mut r: u64 = 1;
    let mut i: u32 = 0;
    proof {
        vstd::arithmetic::power2::lemma2_to64();
    }
    while i < k
        invariant
            0 <= i <= k <= 32,
            r == vstd::arithmetic::power2::pow2(i as nat),
        decreases k - i,
    {
        proof {
            vstd::arithmetic::power2::lemma2_to64();
            if (i as nat) < 32 {
                vstd::arithmetic::power2::lemma_pow2_strictly_increases(i as nat, 32);
            }
            vstd::arithmetic::power2::lemma_pow2_unfold((i + 1) as nat);
        }
        r = r * 2;
        i += 1;
    }
    r
}

/// The prefix length a netmask value denotes, if it is contiguous.
fn netmask_prefix(m: u32) -> (r: Option<u8>)
    ensures
        r is Some <==> netmask_prefix_of(m as int) is Some,
        r matches Some(p) ==> netmask_prefix_of(m as int) == Some(p as int),
{
    let mut p: u8 = 0;
    while p <= 32
        invariant
            0 <= p <= 33,
            netmask_prefix_of(m as int) == netmask_prefix_from(m as int, p as int),
        decreases 33 - p,
    {
        let whole = pow2_u64(32);
        let hosts = pow2_u64(32 - p as u32);
        proof {
            if p > 0 {
                vstd::arithmetic::power2::lemma_pow2_strictly_increases(
                    (32 - p) as nat,
                    32,
                );
            }
        }
        if m as u64 == whole - hosts {
            proof {
                assert(is_netmask_for(m as int, p as int));
            }
            return Some(p);
        }
        proof {
            assert(!is_netmask_for(m as int, p as int));
        }
        p += 1;
    }
    None
}

/// Parses a CIDR specification into its address value and prefix length.
pub fn parse_cidr(s: &str) -> (r: Option<(u32, u8)>)
    ensures
        r is Some <==> is_cidr(s@),
        r matches Some(v) ==> v.0 == cidr_addr(s@) && v.1 == cidr_prefix(s@),
{
    proof {
        reveal_strlit("/");
        assert("/"@ =~= seq!['/']);
    }
    let parts = split_str(s, "/");
    proof {
        assert(forall|i: int|
            0 <= i < parts@.len() ==> parts.deep_view()[i] == #[trigger] parts@[i]@);
    }
    if parts.len() == 1 {
        match parse_ipv4(parts[0].as_str()) {
            Some(addr) => Some((addr, 32)),
            None => None,
        }
    } else if parts.len() == 2 {
        match parse_ipv4(parts[0].as_str()) {
            Some(addr) => match parse_ipv4(parts[1].as_str()) {
                Some(mask) => match netmask_prefix(mask) {
                    Some(p) => Some((addr, p)),
                    None => None,
                },
                None => match parse_u8(parts[1].as_str()) {
                    Some(p) if p <= 32 => Some((addr, p)),
                    _ => None,
                },
            },
            None => None,
        }
    } else {
        None
    }
}

/// How many scan targets one input line yields; agrees with `get_all_ip`.
pub fn get_ip_seg_len(target: &str) -> (r: u64)
    ensures
        r == count_of(target@),
{
    proof {
        reveal_strlit("-");
        assert("-"@ =~= seq!['-']);
    }
    match parse_cidr(target) {
        Some((_, p)) => {
            proof {
                lemma_cidr_prefix_bounds(target@);
            }
            return pow2_u64(32 - p as u32);
        },
        None => {},
    }
    if crate::text::str_contains_str(target, "-") {
        let parts = split_str(target, "-");
        proof {
            assert(forall|i: int|
                0 <= i < parts@.len() ==> parts.deep_view()[i] == #[trigger] parts@[i]@);
        }
        if parts.len() == 2 {
            match (parse_ipv4(parts[0].as_str()), parse_ipv4(parts[1].as_str())) {
                (Some(start), Some(end)) => {
                    if end >= start {
                        return (end - start) as u64 + 1;
                    }
                },
                _ => {},
            }
        }
    }
    1
}

/// The `k`-th target an input line yields, without materializing the rest.
pub fn nth_target(target: &str, k: u64) -> (r: String)
    requires
        k < count_of(target@),
    ensures
        r@ == expand_of(target@)[k as int],
{
    proof {
        reveal_strlit("-");
        assert("-"@ =~= seq!['-']);
        reveal_strlit(":");
        assert(":"@ =~= seq![':']);
    }
    match parse_cidr(target) {
        Some((addr, p)) => {
            proof {
                lemma_cidr_prefix_bounds(target@);
                lemma_cidr_base_bounds(target@);
            }
            let size = pow2_u64(32 - p as u32);
            let base = (addr as u64) / size * size;
            return ip_string((base + k) as u32);
        },
        None => {},
    }
    if crate::text::str_contains_str(target, "-") {
        let parts = split_str(target, "-");
        proof {
            assert(forall|i: int|
                0 <= i < parts@.len() ==> parts.deep_view()[i] == #[trigger] parts@[i]@);
        }
        if parts.len() == 2 {
            match (parse_ipv4(parts[0].as_str()), parse_ipv4(parts[1].as_str())) {
                (Some(start), Some(end)) => {
                    if end >= start {
                        proof {
                            lemma_ipv4_val_bounds(dash_parts(target@)[1]);
                        }
                        return ip_string(start + k as u32);
                    }
                },
                _ => {},
            }
        }
        return String::from_str(target);
    }
    if crate::text::str_contains_str(target, ":") {
        let parts = split_str(target, ":");
        proof {
            assert(forall|i: int|
                0 <= i < parts@.len() ==> parts.deep_view()[i] == #[trigger] parts@[i]@);
        }
        if parts.len() == 2 {
            return parts[0].clone();
        }
        return String::from_str(target);
    }
    String::from_str(target)
}

/// Materializes every target an input line yields, in enumeration order.
pub fn get_all_ip(target: &str) -> (r: Vec<String>)
    ensures
        r.deep_view() == expand_of(target@),
{
    let count = get_ip_seg_len(target);
    proof {
        lemma_count_matches_expand(target@);
    }
    let mut out: Vec<String> = Vec::new();
    let mut k: u64 = 0;
    proof {
        assert(out.deep_view() =~= expand_of(target@).take(0));
    }
    while k < count
        invariant
            0 <= k <= count,
            count == count_of(target@),
            count == expand_of(target@).len(),
            out.deep_view() == expand_of(target@).take(k as int),
        decreases count - k,
    {
        let item = nth_target(target, k);
        let ghost prev = out.deep_view();
        out.push(item);
        proof {
            assert(out.deep_view().len() == prev.len() + 1);
            assert(forall|i: int| 0 <= i < prev.len() ==> out.deep_view()[i] == #[trigger] prev[i]);
            assert(out.deep_view()[k as int] == expand_of(target@)[k as int]);
            assert(out.deep_view() =~= expand_of(target@).take(k as int + 1));
        }
        k += 1;
    }
    proof {
        assert(expand_of(target@).take(count as int) =~= expand_of(target@));
    }
    out
}

/// Splits a `host:port` pair; a lone host carries no explicit port, and a
/// string with more than one colon is rejected.
pub fn parse_target(target: &str) -> (r: Option<(String, Option<u16>)>)
    ensures
        r is Some <==> (!seq_contains(target@, seq![':']) || colon_parts(target@).len() == 2),
        r matches Some(pair) ==> if seq_contains(target@, seq![':']) {
            pair.0@ == colon_parts(target@)[0] && (pair.1 is Some <==> valid_dec(
                colon_parts(target@)[1],
            ) && dec_str_val(colon_parts(target@)[1]) <= u16::MAX) && (pair.1 matches Some(p)
                ==> p == dec_str_val(colon_parts(target@)[1]))
        } else {
            pair.0@ == target@ && pair.1 is None
        },
{
    proof {
        reveal_strlit(":");
        assert(":"@ =~= seq![':']);
    }
    if crate::text::str_contains_str(target, ":") {
        let parts = split_str(target, ":");
        proof {
            assert(forall|i: int|
                0 <= i < parts@.len() ==> parts.deep_view()[i] == #[trigger] parts@[i]@);
        }
        if parts.len() == 2 {
            let port = parse_u16(parts[1].as_str());
            Some((parts[0].clone(), port))
        } else {
            None
        }
    } else {
        Some((String::from_str(target), None))
    }
}

// ---------------------------------------------------------------------------
// The lazy target stream: enumerates the concatenated expansions of an input
// list and can skip ahead, which is how an interrupted scan resumes
// ---------------------------------------------------------------------------

/// The concatenated expansions of a list of specifications.
pub open spec fn stream_seq(specs: Seq<Seq<char>>) -> Seq<Seq<char>>
    decreases specs.len(),
{
    if specs.len() == 0 {
        Seq::empty()
    } else {
        expand_of(specs.first()) + stream_seq(specs.drop_first())
    }
}

/// The number of targets the first `idx` specifications yield.
pub open spec fn prefix_count(specs: Seq<Seq<char>>, idx: int) -> nat
    decreases idx,
{
    if idx <= 0 {
        0
    } else {
        prefix_count(specs, idx - 1) + count_of(specs[idx - 1])
    }
}

proof fn lemma_prefix_count_drop(specs: Seq<Seq<char>>, idx: int)
    requires
        1 <= idx <= specs.len(),
    ensures
        prefix_count(specs, idx) == count_of(specs[0]) + prefix_count(specs.drop_first(), idx - 1),
    decreases idx,
{
    if idx == 1 {
        assert(prefix_count(specs, 0) == 0);
        assert(prefix_count(specs.drop_first(), 0) == 0);
    } else {
        lemma_prefix_count_drop(specs, idx - 1);
        assert(specs.drop_first()[idx - 2] == specs[idx - 1]);
        assert(prefix_count(specs.drop_first(), idx - 1) == prefix_count(
            specs.drop_first(),
            idx - 2,
        ) + count_of(specs.drop_first()[idx - 2]));
    }
}

/// The stream is as long as the sum of the counts.
pub proof fn lemma_stream_len(specs: Seq<Seq<char>>)
    ensures
        stream_seq(specs).len() == prefix_count(specs, specs.len() as int),
    decreases specs.len(),
{
    if specs.len() > 0 {
        lemma_stream_len(specs.drop_first());
        lemma_count_matches_expand(specs.first());
        lemma_prefix_count_drop(specs, specs.len() as int);
    }
}

proof fn lemma_prefix_count_mono(specs: Seq<Seq<char>>, i: int, j: int)
    requires
        0 <= i <= j,
    ensures
        prefix_count(specs, i) <= prefix_count(specs, j),
    decreases j - i,
{
    if i < j {
        lemma_prefix_count_mono(specs, i, j - 1);
    }
}

/// Within the stream, the item at a specification's own offset is that
/// specification's expansion item.
pub proof fn lemma_stream_index(specs: Seq<Seq<char>>, idx: int, off: int)
    requires
        0 <= idx < specs.len(),
        0 <= off < count_of(specs[idx]),
    ensures
        prefix_count(specs, idx) + off < stream_seq(specs).len(),
        stream_seq(specs)[prefix_count(specs, idx) + off] == expand_of(specs[idx])[off],
    decreases idx,
{
    lemma_count_matches_expand(specs[idx]);
    if idx == 0 {
        lemma_stream_len(specs);
        lemma_prefix_count_mono(specs, 1, specs.len() as int);
    } else {
        lemma_stream_index(specs.drop_first(), idx - 1, off);
        lemma_prefix_count_drop(specs, idx);
        lemma_count_matches_expand(specs.first());
        assert(specs.drop_first()[idx - 1] == specs[idx]);
    }
}

/// A restartable cursor over the targets of an input list. Targets are
/// derived one at a time from the specification lines, so a large block
/// never has to be materialized.
pub struct TargetStream {
    specs: Vec<String>,
    idx: usize,
    offset: u64,
}

impl TargetStream {
    /// The cursor sits inside the current specification (counts are never
    /// zero), or one past the last specification with a zero offset.
    pub closed spec fn wf(self) -> bool {
        &&& self.idx <= self.specs@.len()
        &&& (self.idx < self.specs@.len() ==> self.offset < count_of(
            self.specs.deep_view()[self.idx as int],
        ))
        &&& (self.idx == self.specs@.len() ==> self.offset == 0)
    }

    /// Every target the stream will ever yield, in order.
    pub closed spec fn targets(self) -> Seq<Seq<char>> {
        stream_seq(self.specs.deep_view())
    }

    /// How many targets have already been passed.
    pub closed spec fn pos(self) -> nat {
        (prefix_count(self.specs.deep_view(), self.idx as int) + self.offset) as nat
    }

    /// The position never runs past the end.
    proof fn lemma_pos_le_len(self)
        requires
            self.wf(),
        ensures
            self.pos() <= self.targets().len(),
            self.idx == self.specs@.len() ==> self.pos() == self.targets().len(),
    {
        let sv = self.specs.deep_view();
        lemma_stream_len(sv);
        if self.idx < self.specs@.len() {
            assert(prefix_count(sv, self.idx as int) + count_of(sv[self.idx as int])
                == prefix_count(sv, self.idx as int + 1));
            lemma_prefix_count_mono(sv, self.idx as int + 1, sv.len() as int);
        }
    }

    /// Starts at the first target of the first specification.
    pub fn new(specs: Vec<String>) -> (r: Self)
        ensures
            r.wf(),
            r.targets() == stream_seq(specs.deep_view()),
            r.pos() == 0,
    {
        proof {
            if specs@.len() > 0 {
                lemma_count_of_bounds(specs.deep_view()[0]);
            }
        }
        TargetStream { specs, idx: 0, offset: 0 }
    }

    /// Yields the next target, or nothing once the stream is exhausted.
    pub fn next(&mut self) -> (r: Option<String>)
        requires
            old(self).wf(),
        ensures
            final(self).wf(),
            final(self).targets() == old(self).targets(),
            old(self).pos() < old(self).targets().len() ==> (r matches Some(item) && item@ == old(
                self,
            ).targets()[old(self).pos() as int] && final(self).pos() == old(self).pos() + 1),
            old(self).pos() >= old(self).targets().len() ==> (r is None && final(self).pos()
                == old(self).pos()),
    {
        let ghost sv = self.specs.deep_view();
        if self.idx >= self.specs.len() {
            proof {
                old(self).lemma_pos_le_len();
            }
            return None;
        }
        proof {
            lemma_stream_index(sv, self.idx as int, self.offset as int);
            assert(self.specs.deep_view()[self.idx as int] == self.specs@[self.idx as int]@);
        }
        let item = nth_target(self.specs[self.idx].as_str(), self.offset);
        let cnt = get_ip_seg_len(self.specs[self.idx].as_str());
        proof {
            lemma_count_of_bounds(sv[self.idx as int]);
        }
        self.offset += 1;
        if self.offset == cnt {
            self.idx += 1;
            self.offset = 0;
            proof {
                if self.idx < self.specs@.len() {
                    lemma_count_of_bounds(sv[self.idx as int]);
                }
            }
        }
        Some(item)
    }

    /// Moves the cursor forward by `k` targets (or to the end, if fewer are
    /// left). Skipping and restarting reproduces exactly the sequence an
    /// uninterrupted run would have seen.
    pub fn skip(&mut self, k: u64)
        requires
            old(self).wf(),
        ensures
            final(self).wf(),
            final(self).targets() == old(self).targets(),
            final(self).pos() == if old(self).pos() + k <= old(self).targets().len() {
                old(self).pos() + k
            } else {
                old(self).targets().len() as int
            },
    {
        let ghost sv = self.specs.deep_view();
        let ghost goal: int = if old(self).pos() + k <= old(self).targets().len() {
            old(self).pos() + k
        } else {
            old(self).targets().len() as int
        };
        let mut left: u64 = k;
        proof {
            old(self).lemma_pos_le_len();
        }
        while left > 0 && self.idx < self.specs.len()
            invariant
                self.wf(),
                self.specs.deep_view() == sv,
                self.targets() == old(self).targets(),
                goal == if old(self).pos() + k <= old(self).targets().len() {
                    old(self).pos() + k
                } else {
                    old(self).targets().len() as int
                },
                goal == if self.pos() + left <= self.targets().len() {
                    self.pos() + left
                } else {
                    self.targets().len() as int
                },
            decreases self.specs@.len() - self.idx, left,
        {
            let cnt = get_ip_seg_len(self.specs[self.idx].as_str());
            proof {
                lemma_count_of_bounds(sv[self.idx as int]);
                assert(sv[self.idx as int] == self.specs@[self.idx as int]@);
                self.lemma_pos_le_len();
            }
            let remaining = cnt - self.offset;
            if left < remaining {
                self.offset += left;
                left = 0;
            } else {
                left -= remaining;
                self.idx += 1;
                self.offset = 0;
                proof {
                    if self.idx < self.specs@.len() {
                        lemma_count_of_bounds(sv[self.idx as int]);
                    }
                    assert(prefix_count(sv, self.idx as int) == prefix_count(sv, self.idx as int
                        - 1) + count_of(sv[self.idx as int - 1]));
                }
            }
            proof {
                self.lemma_pos_le_len();
            }
        }
        proof {
            self.lemma_pos_le_len();
        }
    }
}

} // verus!
