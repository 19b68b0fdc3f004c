//! Proxy records and the line parser.
//!
//! One input line has the form `<ip>:<port>[:<type>[:...]]`, fields
//! separated by `:`. A line with no `:` at all has fewer than two fields and
//! is skipped; a third field, when present, overrides the default proxy
//! type; fields beyond the third are ignored. Every malformed field skips
//! the line and reports a reason — no line aborts the run.

use vstd::prelude::*;
use crate::digits::u32_text_value;
use crate::ip::{Ipv4, ipv4_of_text, parse_ipv4};
use crate::ptype::{ProxyType, type_of_token, parse_type_token};
use crate::text::{first_occ_from, find_from};

verus! {

/// One proxy entry.
pub struct Proxy {
    /// Display label, `"<address text> - <port text>"`.
    pub name: String,
    /// The parsed address.
    pub addr: Ipv4,
    /// The parsed port. No range check beyond fitting the integer width.
    pub port: u32,
    /// The protocol type.
    pub ptype: ProxyType,
}

/// Mathematical model of a [`Proxy`].
#[verifier::ext_equal]
pub struct ProxyView {
    pub name: Seq<char>,
    pub addr: Ipv4,
    pub port: u32,
    pub ptype: ProxyType,
}

impl View for Proxy {
    type V = ProxyView;

    open spec fn view(&self) -> ProxyView {
        ProxyView { name: self.name@, addr: self.addr, port: self.port, ptype: self.ptype }
    }
}

impl DeepView for Proxy {
    type V = ProxyView;

    open spec fn deep_view(&self) -> ProxyView {
        self.view()
    }
}

impl PartialEq for Proxy {
    /// Records are equal exactly when all four fields are equal.
    fn eq(&self, other: &Proxy) -> (r: bool) {
        let r = self.name == other.name && self.addr == other.addr && self.port == other.port
            && self.ptype == other.ptype;
        proof {
            if r {
                assert(self@ =~= other@);
            }
        }
        r
    }
}

impl vstd::std_specs::cmp::PartialEqSpecImpl for Proxy {
    open spec fn obeys_eq_spec() -> bool {
        true
    }

    open spec fn eq_spec(&self, other: &Proxy) -> bool {
        self@ == other@
    }
}

/// Why a line was skipped.
#[derive(Clone, Copy, Debug, PartialEq, Eq, Structural)]
pub enum SkipReason {
    /// Fewer than two `:`-separated fields.
    TooFewFields,
    /// The first field is no IP literal.
    BadAddress,
    /// The second field is no unsigned integer.
    BadPort,
    /// The third field is no recognized type token.
    BadType,
}

/// What the parser makes of one line.
pub enum LineOutcome {
    /// The line yielded a record.
    Parsed(Proxy),
    /// The line was skipped, with the reason.
    Skipped(SkipReason),
}

/// Position of the first `:`, or the line length when there is none.
pub open spec fn line_c1(line: Seq<char>) -> int {
    first_occ_from(line, ':', 0)
}

/// Position of the second `:`, or the line length.
pub open spec fn line_c2(line: Seq<char>) -> int {
    first_occ_from(line, ':', line_c1(line) + 1)
}

/// Position of the third `:`, or the line length.
pub open spec fn line_c3(line: Seq<char>) -> int {
    first_occ_from(line, ':', line_c2(line) + 1)
}

/// Field 0: the address text.
pub open spec fn addr_field(line: Seq<char>) -> Seq<char> {
    line.subrange(0, line_c1(line))
}

/// Field 1: the port text.
pub open spec fn port_field(line: Seq<char>) -> Seq<char> {
    line.subrange(line_c1(line) + 1, line_c2(line))
}

/// Field 2: the type text (meaningful only when a second `:` exists).
pub open spec fn type_field(line: Seq<char>) -> Seq<char> {
    line.subrange(line_c2(line) + 1, line_c3(line))
}

/// The separator between address text and port text in a record name.
pub open spec fn name_sep() -> Seq<char> {
    seq![' ', '-', ' ']
}

/// The display label a line yields.
pub open spec fn record_name(line: Seq<char>) -> Seq<char> {
    addr_field(line) + name_sep() + port_field(line)
}

/// The type a line selects: the third field when present, else the default.
pub open spec fn line_type(line: Seq<char>, default_type: ProxyType) -> Option<ProxyType> {
    if line_c2(line) == line.len() {
        Some(default_type)
    } else {
        type_of_token(type_field(line))
    }
}

/// The record a line yields, or `None` when it is skipped.
pub open spec fn parsed_record(line: Seq<char>, default_type: ProxyType) -> Option<ProxyView> {
    if line_c1(line) == line.len() {
        None
    } else if ipv4_of_text(addr_field(line)) is None {
        None
    } else if u32_text_value(port_field(line)) is None {
        None
    } else if line_type(line, default_type) is None {
        None
    } else {
        Some(
            ProxyView {
                name: record_name(line),
                addr: ipv4_of_text(addr_field(line)).unwrap(),
                port: u32_text_value(port_field(line)).unwrap(),
                ptype: line_type(line, default_type).unwrap(),
            },
        )
    }
}

/// Why a line yields no record (meaningful only in that case).
pub open spec fn skip_reason_of(line: Seq<char>, default_type: ProxyType) -> SkipReason {
    if line_c1(line) == line.len() {
        SkipReason::TooFewFields
    } else if ipv4_of_text(addr_field(line)) is None {
        SkipReason::BadAddress
    } else if u32_text_value(port_field(line)) is None {
        SkipReason::BadPort
    } else {
        SkipReason::BadType
    }
}

/// Convert one text line into a record or a skip reason.
pub fn parse_line(line: &str, default_type: ProxyType) -> (r: LineOutcome)
    ensures
        match r {
            LineOutcome::Parsed(p) => parsed_record(line@, default_type) == Some(p@),
            LineOutcome::Skipped(why) => {
                &&& parsed_record(line@, default_type) is None
                &&& why == skip_reason_of(line@, default_type)
            },
        },
{
    let n: usize = line.unicode_len();
    let c1 = find_from(line, 0, ':');
    if c1 == n {
        return LineOutcome::Skipped(SkipReason::TooFewFields);
    }
    let c2 = find_from(line, c1 + 1, ':');
    let f0 = line.substring_char(0, c1);
    let f1 = line.substring_char(c1 + 1, c2);

    let addr = match parse_ipv4(f0) {
        Some(a) => a,
        None => {
            return LineOutcome::Skipped(SkipReason::BadAddress);
        },
    };
    let port = match crate::digits::parse_u32_text(f1) {
        Some(p) => p,
        None => {
            return LineOutcome::Skipped(SkipReason::BadPort);
        },
    };
    let ptype = if c2 == n {
        default_type
    } else {
        let c3 = find_from(line, c2 + 1, ':');
        let f2 = line.substring_char(c2 + 1, c3);
        match parse_type_token(f2) {
            Some(t) => t,
            None => {
                return LineOutcome::Skipped(SkipReason::BadType);
            },
        }
    };
    let sep = " - ";
    proof {
        reveal_strlit(" - ");
        assert(sep@ =~= name_sep());
    }
    let name = String::from_str(f0).concat(sep).concat(f1);
    proof {
        assert(name@ =~= record_name(line@));
    }
    let p = Proxy { name, addr, port, ptype };
    proof {
        assert(parsed_record(line@, default_type) == Some(p@));
    }
    LineOutcome::Parsed(p)
}

/// A well-formed two-field line `<ip>:<port>` yields a record whose name is
/// `"<ip> - <port>"` and whose type is the configured default.
pub proof fn lemma_two_field_line(line: Seq<char>, default_type: ProxyType)
    requires
        line_c1(line) < line.len(),
        line_c2(line) == line.len(),
        ipv4_of_text(addr_field(line)) is Some,
        u32_text_value(port_field(line)) is Some,
    ensures
        parsed_record(line, default_type) == Some(
            ProxyView {
                name: addr_field(line) + name_sep() + port_field(line),
                addr: ipv4_of_text(addr_field(line)).unwrap(),
                port: u32_text_value(port_field(line)).unwrap(),
                ptype: default_type,
            },
        ),
{
}

/// A well-formed three-field line whose type token is recognized (in any
/// casing) yields a record whose type is the token's canonical value.
pub proof fn lemma_three_field_line(line: Seq<char>, default_type: ProxyType, t: ProxyType)
    requires
        line_c1(line) < line.len(),
        line_c2(line) < line.len(),
        ipv4_of_text(addr_field(line)) is Some,
        u32_text_value(port_field(line)) is Some,
        type_of_token(type_field(line)) == Some(t),
    ensures
        parsed_record(line, default_type) is Some,
        parsed_record(line, default_type).unwrap().ptype == t,
        parsed_record(line, default_type).unwrap().name == record_name(line),
{
}

/// A line with no `:` at all has fewer than two fields and is skipped.
pub proof fn lemma_no_colon_skipped(line: Seq<char>, default_type: ProxyType)
    requires
        line_c1(line) == line.len(),
    ensures
        parsed_record(line, default_type) is None,
        skip_reason_of(line, default_type) == SkipReason::TooFewFields,
{
}

/// A line whose address field is no IP literal is skipped.
pub proof fn lemma_bad_address_skipped(line: Seq<char>, default_type: ProxyType)
    requires
        line_c1(line) < line.len(),
        ipv4_of_text(addr_field(line)) is None,
    ensures
        parsed_record(line, default_type) is None,
        skip_reason_of(line, default_type) == SkipReason::BadAddress,
{
}

} // verus!
