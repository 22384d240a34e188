//! Dotted-decimal IPv4 nameserver addresses.
//!
//! A nameserver override is honoured only when it parses as four
//! decimal octets separated by dots, each at most 255 and without
//! leading zeros; anything else falls back silently to the configured
//! address, so a malformed override behaves exactly like no override.

use vstd::prelude::*;
use crate::text::{find_char, find_char_from};

verus! {

/// A nameserver address as four plain octets.
#[derive(Clone, Copy, Debug, PartialEq, Eq, Structural)]
pub struct Ipv4Address {
    pub a: u8,
    pub b: u8,
    pub c: u8,
    pub d: u8,
}

/// A decimal digit.
pub open spec fn is_digit_char(c: char) -> bool {
    48 <= c as u32 && c as u32 <= 57
}

/// The value of a decimal digit.
pub open spec fn digit_val(c: char) -> int {
    c as u32 - 48
}

/// The decimal value of a one- to three-digit octet string.
pub open spec fn octet_val(p: Seq<char>) -> int {
    if p.len() == 1 {
        digit_val(p[0])
    } else if p.len() == 2 {
        10 * digit_val(p[0]) + digit_val(p[1])
    } else if p.len() == 3 {
        100 * digit_val(p[0]) + 10 * digit_val(p[1]) + digit_val(p[2])
    } else {
        0
    }
}

/// A well-formed octet: one to three digits, no leading zero, at most 255.
pub open spec fn octet_ok(p: Seq<char>) -> bool {
    &&& 1 <= p.len() <= 3
    &&& (forall|i: int| 0 <= i < p.len() ==> is_digit_char(#[trigger] p[i]))
    &&& (p.len() > 1 ==> p[0] != '0')
    &&& octet_val(p) <= 255
}

/// The address `s` denotes in dotted-decimal form, if it is one:
/// exactly four well-formed octets separated by single dots.
pub open spec fn parse_ipv4_spec(s: Seq<char>) -> Option<Ipv4Address> {
    match find_char(s, '.') {
        None => None,
        Some(i) => {
            let p0 = s.subrange(0, i);
            let r1 = s.subrange(i + 1, s.len() as int);
            match find_char(r1, '.') {
                None => None,
                Some(j) => {
                    let p1 = r1.subrange(0, j);
                    let r2 = r1.subrange(j + 1, r1.len() as int);
                    match find_char(r2, '.') {
                        None => None,
                        Some(k) => {
                            let p2 = r2.subrange(0, k);
                            let p3 = r2.subrange(k + 1, r2.len() as int);
                            if octet_ok(p0) && octet_ok(p1) && octet_ok(p2) && octet_ok(p3) {
                                Some(
                                    Ipv4Address {
                                        a: octet_val(p0) as u8,
                                        b: octet_val(p1) as u8,
                                        c: octet_val(p2) as u8,
                                        d: octet_val(p3) as u8,
                                    },
                                )
                            } else {
                                None
                            }
                        },
                    }
                },
            }
        },
    }
}

fn is_digit(c: char) -> (b: bool)
    ensures
        b == is_digit_char(c),
{
    let u = c as u32;
    48 <= u && u <= 57
}

/// Parses the character range `[lo, hi)` of `s` as one decimal octet.
fn parse_octet_range(s: &str, lo: usize, hi: usize) -> (r: Option<u8>)
    requires
        lo <= hi <= s@.len(),
    ensures
        match r {
            Some(v) => octet_ok(s@.subrange(lo as int, hi as int)) && v as int == octet_val(
                s@.subrange(lo as int, hi as int),
            ),
            None => !octet_ok(s@.subrange(lo as int, hi as int)),
        },
{
    let ghost p = s@.subrange(lo as int, hi as int);
    let n = hi - lo;
    if n < 1 || n > 3 {
        return None;
    }
    let c0 = s.get_char(lo);
    proof {
        assert(p[0] == s@[lo as int]);
    }
    if !is_digit(c0) {
        return None;
    }
    let d0 = c0 as u32 - 48;
    if n == 1 {
        return Some(d0 as u8);
    }
    if c0 == '0' {
        return None;
    }
    let c1 = s.get_char(lo + 1);
    proof {
        assert(p[1] == s@[lo as int + 1]);
    }
    if !is_digit(c1) {
        return None;
    }
    let d1 = c1 as u32 - 48;
    if n == 2 {
        return Some((10 * d0 + d1) as u8);
    }
    let c2 = s.get_char(lo + 2);
    proof {
        assert(p[2] == s@[lo as int + 2]);
    }
    if !is_digit(c2) {
        return None;
    }
    let d2 = c2 as u32 - 48;
    let v = 100 * d0 + 10 * d1 + d2;
    if v > 255 {
        return None;
    }
    Some(v as u8)
}

/// Parses `s` as a dotted-decimal IPv4 address.
pub fn parse_ipv4(s: &str) -> (r: Option<Ipv4Address>)
    ensures
        r == parse_ipv4_spec(s@),
{
    let len = s.unicode_len();
    proof {
        assert(s@.subrange(0, s@.len() as int) =~= s@);
    }
    let i1 = match find_char_from(s, 0, '.') {
        None => {
            return None;
        },
        Some(p) => p,
    };
    let ghost r1 = s@.subrange(i1 + 1, s@.len() as int);
    let i2 = match find_char_from(s, i1 + 1, '.') {
        None => {
            return None;
        },
        Some(p) => p,
    };
    let ghost r2 = r1.subrange(i2 - i1, r1.len() as int);
    proof {
        assert(r2 =~= s@.subrange(i2 + 1, s@.len() as int));
    }
    let i3 = match find_char_from(s, i2 + 1, '.') {
        None => {
            return None;
        },
        Some(p) => p,
    };
    proof {
        assert(r1.subrange(0, i2 - i1 - 1) =~= s@.subrange(i1 + 1, i2 as int));
        assert(r2.subrange(0, i3 - i2 - 1) =~= s@.subrange(i2 + 1, i3 as int));
        assert(r2.subrange(i3 - i2, r2.len() as int) =~= s@.subrange(i3 + 1, s@.len() as int));
    }
    let o0 = match parse_octet_range(s, 0, i1) {
        None => {
            return None;
        },
        Some(v) => v,
    };
    let o1 = match parse_octet_range(s, i1 + 1, i2) {
        None => {
            return None;
        },
        Some(v) => v,
    };
    let o2 = match parse_octet_range(s, i2 + 1, i3) {
        None => {
            return None;
        },
        Some(v) => v,
    };
    let o3 = match parse_octet_range(s, i3 + 1, len) {
        None => {
            return None;
        },
        Some(v) => v,
    };
    Some(Ipv4Address { a: o0, b: o1, c: o2, d: o3 })
}

/// The well-known public resolver used when no nameserver was chosen.
pub open spec fn default_nameserver_spec() -> Ipv4Address {
    Ipv4Address { a: 8, b: 8, c: 8, d: 8 }
}

/// Returns the built-in default nameserver address.
pub fn default_nameserver() -> (r: Ipv4Address)
    ensures
        r == default_nameserver_spec(),
{
    Ipv4Address { a: 8, b: 8, c: 8, d: 8 }
}

/// The nameserver a batch call uses: a parsable override wins, anything
/// else leaves the fallback in force.
pub open spec fn effective_nameserver_spec(ns: Option<Seq<char>>, fallback: Ipv4Address) -> Ipv4Address {
    match ns {
        None => fallback,
        Some(s) => match parse_ipv4_spec(s) {
            Some(ip) => ip,
            None => fallback,
        },
    }
}

/// Picks the nameserver for one batch call from an optional override.
pub fn effective_nameserver(dns_server: Option<&str>, fallback: Ipv4Address) -> (r: Ipv4Address)
    ensures
        r == effective_nameserver_spec(dns_server.deep_view(), fallback),
{
    match dns_server {
        None => fallback,
        Some(s) => match parse_ipv4(s) {
            Some(ip) => ip,
            None => fallback,
        },
    }
}

/// Law: an override that does not parse as an IPv4 address changes
/// nothing — the call behaves exactly as if no override had been given.
pub proof fn lemma_invalid_override_ignored(s: Seq<char>, fallback: Ipv4Address)
    requires
        parse_ipv4_spec(s) is None,
    ensures
        effective_nameserver_spec(Some(s), fallback) == effective_nameserver_spec(None, fallback),
{
}

} // verus!
