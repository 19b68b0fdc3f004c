//! Proxy protocol types and their textual tokens.
//!
//! A type token in an input line is recognized in any casing; the canonical
//! rendering used in the output document is the lowercase token.

use vstd::prelude::*;

verus! {

/// Protocol of a proxy server.
#[derive(Clone, Copy, Debug, PartialEq, Eq, Structural, Hash)]
pub enum ProxyType {
    Http,
    Https,
    Socks4,
    Socks5,
}

/// `c` is one of the two casings of a letter.
pub open spec fn eq_ci(c: char, lo: char, up: char) -> bool {
    c == lo || c == up
}

/// `s` spells `http`, in any casing.
pub open spec fn is_http_token(s: Seq<char>) -> bool {
    &&& s.len() == 4
    &&& eq_ci(s[0], 'h', 'H')
    &&& eq_ci(s[1], 't', 'T')
    &&& eq_ci(s[2], 't', 'T')
    &&& eq_ci(s[3], 'p', 'P')
}

/// `s` spells `https`, in any casing.
pub open spec fn is_https_token(s: Seq<char>) -> bool {
    &&& s.len() == 5
    &&& eq_ci(s[0], 'h', 'H')
    &&& eq_ci(s[1], 't', 'T')
    &&& eq_ci(s[2], 't', 'T')
    &&& eq_ci(s[3], 'p', 'P')
    &&& eq_ci(s[4], 's', 'S')
}

/// `s` spells `socks4`, in any casing.
pub open spec fn is_socks4_token(s: Seq<char>) -> bool {
    &&& s.len() == 6
    &&& eq_ci(s[0], 's', 'S')
    &&& eq_ci(s[1], 'o', 'O')
    &&& eq_ci(s[2], 'c', 'C')
    &&& eq_ci(s[3], 'k', 'K')
    &&& eq_ci(s[4], 's', 'S')
    &&& s[5] == '4'
}

/// `s` spells `socks5`, in any casing.
pub open spec fn is_socks5_token(s: Seq<char>) -> bool {
    &&& s.len() == 6
    &&& eq_ci(s[0], 's', 'S')
    &&& eq_ci(s[1], 'o', 'O')
    &&& eq_ci(s[2], 'c', 'C')
    &&& eq_ci(s[3], 'k', 'K')
    &&& eq_ci(s[4], 's', 'S')
    &&& s[5] == '5'
}

/// The type a token denotes, or `None` for an unrecognized token.
pub open spec fn type_of_token(s: Seq<char>) -> Option<ProxyType> {
    if is_http_token(s) {
        Some(ProxyType::Http)
    } else if is_https_token(s) {
        Some(ProxyType::Https)
    } else if is_socks4_token(s) {
        Some(ProxyType::Socks4)
    } else if is_socks5_token(s) {
        Some(ProxyType::Socks5)
    } else {
        None
    }
}

/// Recognize a type token, case-insensitively.
pub fn parse_type_token(s: &str) -> (r: Option<ProxyType>)
    ensures
        r == type_of_token(s@),
{
    let n: usize = s.unicode_len();
    if n == 4 {
        let ok = (s.get_char(0) == 'h' || s.get_char(0) == 'H')
            && (s.get_char(1) == 't' || s.get_char(1) == 'T')
            && (s.get_char(2) == 't' || s.get_char(2) == 'T')
            && (s.get_char(3) == 'p' || s.get_char(3) == 'P');
        if ok {
            Some(ProxyType::Http)
        } else {
            None
        }
    } else if n == 5 {
        let ok = (s.get_char(0) == 'h' || s.get_char(0) == 'H')
            && (s.get_char(1) == 't' || s.get_char(1) == 'T')
            && (s.get_char(2) == 't' || s.get_char(2) == 'T')
            && (s.get_char(3) == 'p' || s.get_char(3) == 'P')
            && (s.get_char(4) == 's' || s.get_char(4) == 'S');
        if ok {
            Some(ProxyType::Https)
        } else {
            None
        }
    } else if n == 6 {
        let socks = (s.get_char(0) == 's' || s.get_char(0) == 'S')
            && (s.get_char(1) == 'o' || s.get_char(1) == 'O')
            && (s.get_char(2) == 'c' || s.get_char(2) == 'C')
            && (s.get_char(3) == 'k' || s.get_char(3) == 'K')
            && (s.get_char(4) == 's' || s.get_char(4) == 'S');
        if socks && s.get_char(5) == '4' {
            Some(ProxyType::Socks4)
        } else if socks && s.get_char(5) == '5' {
            Some(ProxyType::Socks5)
        } else {
            None
        }
    } else {
        None
    }
}

/// Canonical lowercase token of a type.
pub open spec fn token_of(t: ProxyType) -> Seq<char> {
    match t {
        ProxyType::Http => seq!['h', 't', 't', 'p'],
        ProxyType::Https => seq!['h', 't', 't', 'p', 's'],
        ProxyType::Socks4 => seq!['s', 'o', 'c', 'k', 's', '4'],
        ProxyType::Socks5 => seq!['s', 'o', 'c', 'k', 's', '5'],
    }
}

/// Canonical lowercase token of a type, as a string slice.
pub fn token_str(t: &ProxyType) -> (r: &'static str)
    ensures
        r@ == token_of(*t),
{
    let r = match t {
        ProxyType::Http => "http",
        ProxyType::Https => "https",
        ProxyType::Socks4 => "socks4",
        ProxyType::Socks5 => "socks5",
    };
    proof {
        reveal_strlit("http");
        reveal_strlit("https");
        reveal_strlit("socks4");
        reveal_strlit("socks5");
        assert(r@ =~= token_of(*t));
    }
    r
}

} // verus!
