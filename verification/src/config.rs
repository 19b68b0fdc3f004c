//! The output configuration document: the deduplicated proxies, one
//! selector group named after the output path with its extension stripped,
//! and the fixed catch-all routing rule.

use vstd::prelude::*;
use crate::paths::strip_ext;
use crate::record::{Proxy, ProxyView};

verus! {

/// The one selector group of a document.
pub struct ProxyGroup {
    /// Display name: the output path with its extension stripped.
    pub name: String,
    /// Group kind; always the selector kind.
    pub gtype: String,
    /// The `name` of every proxy, in the proxies' order.
    pub proxies: Vec<String>,
}

/// Mathematical model of a [`ProxyGroup`].
#[verifier::ext_equal]
pub struct GroupView {
    pub name: Seq<char>,
    pub gtype: Seq<char>,
    pub proxies: Seq<Seq<char>>,
}

impl View for ProxyGroup {
    type V = GroupView;

    open spec fn view(&self) -> GroupView {
        GroupView { name: self.name@, gtype: self.gtype@, proxies: self.proxies.deep_view() }
    }
}

/// One output document.
pub struct ProxyConfig {
    /// The deduplicated records.
    pub proxies: Vec<Proxy>,
    /// The single selector group.
    pub group: ProxyGroup,
    /// The single routing rule.
    pub rule: String,
}

/// Mathematical model of a [`ProxyConfig`].
#[verifier::ext_equal]
pub struct ConfigView {
    pub proxies: Seq<ProxyView>,
    pub group: GroupView,
    pub rule: Seq<char>,
}

impl View for ProxyConfig {
    type V = ConfigView;

    open spec fn view(&self) -> ConfigView {
        ConfigView { proxies: self.proxies.deep_view(), group: self.group@, rule: self.rule@ }
    }
}

/// The selector group kind.
pub open spec fn select_token() -> Seq<char> {
    seq!['s', 'e', 'l', 'e', 'c', 't']
}

/// The fixed catch-all rule.
pub open spec fn match_direct_rule() -> Seq<char> {
    seq!['M', 'A', 'T', 'C', 'H', ',', 'D', 'I', 'R', 'E', 'C', 'T']
}

/// The names of a record sequence, in order.
pub open spec fn names_of(ps: Seq<ProxyView>) -> Seq<Seq<char>> {
    ps.map_values(|p: ProxyView| p.name)
}

/// The document a record sequence and an output path determine.
pub open spec fn config_of(ps: Seq<ProxyView>, out_path: Seq<char>) -> ConfigView {
    ConfigView {
        proxies: ps,
        group: GroupView {
            name: strip_ext(out_path),
            gtype: select_token(),
            proxies: names_of(ps),
        },
        rule: match_direct_rule(),
    }
}

/// Assemble the document for a record sequence and an output path.
pub fn build_config(proxies: Vec<Proxy>, out_path: &str) -> (c: ProxyConfig)
    ensures
        c@ == config_of(proxies.deep_view(), out_path@),
{
    let n = proxies.len();
    let mut names: Vec<String> = Vec::new();
    let mut i: usize = 0;
    while i < n
        invariant
            0 <= i <= n,
            n == proxies.len(),
            names.deep_view() =~= names_of(proxies.deep_view()).take(i as int),
        decreases n - i,
    {
        let ghost old_names = names.deep_view();
        names.push(proxies[i].name.clone());
        proof {
            assert(names.deep_view() =~= old_names.push(proxies.deep_view()[i as int].name));
            assert(names.deep_view() =~= names_of(proxies.deep_view()).take(i + 1));
        }
        i = i + 1;
    }
    let gtype = String::from_str("select");
    let rule = String::from_str("MATCH,DIRECT");
    proof {
        reveal_strlit("select");
        reveal_strlit("MATCH,DIRECT");
        assert(gtype@ =~= select_token());
        assert(rule@ =~= match_direct_rule());
        assert(names.deep_view() =~= names_of(proxies.deep_view()));
    }
    let group = ProxyGroup { name: crate::paths::strip_extension(out_path), gtype, proxies: names };
    let c = ProxyConfig { proxies, group, rule };
    proof {
        assert(c@ =~= config_of(c.proxies.deep_view(), out_path@));
    }
    c
}

} // verus!
