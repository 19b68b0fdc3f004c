//! IPv4 address literals: validation, parsing and rendering.
//!
//! An address field of an input line can never contain `:` (the line is
//! split on `:` first), and every textual IPv6 address contains one, so the
//! only IP literals that can reach this parser are IPv4. The accepted
//! grammar matches the standard library's: four decimal octets separated by
//! dots, each octet one or more digits with no leading zero, value at most
//! 255.

use vstd::prelude::*;
use crate::digits::{all_digits, dec_val, dec_str, is_digit, u32_string};
use crate::text::{first_occ_from, find_from};

verus! {

/// A parsed IPv4 address, one field per octet.
#[derive(Clone, Copy, Debug, PartialEq, Eq, Structural, Hash)]
pub struct Ipv4 {
    pub a: u8,
    pub b: u8,
    pub c: u8,
    pub d: u8,
}

/// The text of one octet: decimal digits, no leading zero, at most 255.
pub open spec fn is_octet_text(s: Seq<char>) -> bool {
    &&& s.len() >= 1
    &&& all_digits(s)
    &&& (s.len() == 1 || s[0] != '0')
    &&& dec_val(s) <= 255
}

/// The address an IPv4 literal denotes, or `None` when `s` is no literal.
pub open spec fn ipv4_of_text(s: Seq<char>) -> Option<Ipv4> {
    let d1 = first_occ_from(s, '.', 0);
    let d2 = first_occ_from(s, '.', d1 + 1);
    let d3 = first_occ_from(s, '.', d2 + 1);
    let d4 = first_occ_from(s, '.', d3 + 1);
    if d3 < s.len() && d4 == s.len() {
        let p0 = s.subrange(0, d1);
        let p1 = s.subrange(d1 + 1, d2);
        let p2 = s.subrange(d2 + 1, d3);
        let p3 = s.subrange(d3 + 1, s.len() as int);
        if is_octet_text(p0) && is_octet_text(p1) && is_octet_text(p2) && is_octet_text(p3) {
            Some(Ipv4 {
                a: dec_val(p0) as u8,
                b: dec_val(p1) as u8,
                c: dec_val(p2) as u8,
                d: dec_val(p3) as u8,
            })
        } else {
            None
        }
    } else {
        None
    }
}

/// Parse the characters `s[from..to]` as one octet.
fn parse_octet(s: &str, from: usize, to: usize) -> (r: Option<u8>)
    requires
        from <= to <= s@.len(),
    ensures
        ({
            let part = s@.subrange(from as int, to as int);
            match r {
                Some(v) => is_octet_text(part) && v == dec_val(part),
                None => !is_octet_text(part),
            }
        }),
{
    let ghost part = s@.subrange(from as int, to as int);
    if to == from {
        return None;
    }
    if to - from > 1 && s.get_char(from) == '0' {
        return None;
    }
    let mut acc: u32 = 0;
    let mut i: usize = from;
    while i < to
        invariant
            from <= i <= to <= s@.len(),
            part == s@.subrange(from as int, to as int),
            all_digits(part.take(i - from)),
            acc == dec_val(part.take(i - from)),
            acc <= 255,
        decreases to - i,
    {
        let c = s.get_char(i);
        let u: u32 = c as u32;
        proof {
            assert(part[i - from] == c);
        }
        if u < 48 || u > 57 {
            proof {
                assert(!is_digit(part[i - from]));
                assert(!all_digits(part));
            }
            return None;
        }
        let d: u32 = u - 48;
        let next: u32 = acc * 10 + d;
        proof {
            assert(part.take(i - from + 1).drop_last() =~= part.take(i - from));
            assert(part.take(i - from + 1).last() == part[i - from]);
        }
        if next > 255 {
            proof {
                crate::digits::lemma_dec_val_prefix(part, i - from + 1);
            }
            return None;
        }
        acc = next;
        i = i + 1;
    }
    proof {
        assert(part.take(to - from) =~= part);
    }
    Some(acc as u8)
}

/// Parse a whole string as an IPv4 literal.
pub fn parse_ipv4(s: &str) -> (r: Option<Ipv4>)
    ensures
        r == ipv4_of_text(s@),
{
    let n: usize = s.unicode_len();
    let d1 = find_from(s, 0, '.');
    if d1 == n {
        return None;
    }
    let d2 = find_from(s, d1 + 1, '.');
    if d2 == n {
        return None;
    }
    let d3 = find_from(s, d2 + 1, '.');
    if d3 == n {
        return None;
    }
    let d4 = find_from(s, d3 + 1, '.');
    if d4 < n {
        return None;
    }
    let p0 = parse_octet(s, 0, d1);
    let p1 = parse_octet(s, d1 + 1, d2);
    let p2 = parse_octet(s, d2 + 1, d3);
    let p3 = parse_octet(s, d3 + 1, n);
    match (p0, p1, p2, p3) {
        (Some(a), Some(b), Some(c), Some(d)) => Some(Ipv4 { a, b, c, d }),
        _ => None,
    }
}

/// Decimal dotted rendering of an address.
pub open spec fn ipv4_str(ip: Ipv4) -> Seq<char> {
    dec_str(ip.a as nat) + seq!['.'] + dec_str(ip.b as nat) + seq!['.'] + dec_str(ip.c as nat)
        + seq!['.'] + dec_str(ip.d as nat)
}

/// Render an address as dotted decimal text.
pub fn ipv4_string(ip: &Ipv4) -> (r: String)
    ensures
        r@ == ipv4_str(*ip),
{
    let dot = ".";
    proof {
        reveal_strlit(".");
        assert(dot@ =~= seq!['.']);
    }
    let r = u32_string(ip.a as u32)
        .concat(dot)
        .concat(u32_string(ip.b as u32).as_str())
        .concat(dot)
        .concat(u32_string(ip.c as u32).as_str())
        .concat(dot)
        .concat(u32_string(ip.d as u32).as_str());
    proof {
        assert(r@ =~= ipv4_str(*ip));
    }
    r
}

} // verus!
