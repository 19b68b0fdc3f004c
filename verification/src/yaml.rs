//! Rendering a configuration document as YAML text.
//!
//! The document has three top-level keys. `proxies` lists every record with
//! the keys `name`, `server`, `port` and `type`; the in-memory address is
//! emitted under the key `server`, and the type as its lowercase token.
//! `proxy-groups` holds the single selector group; `rules` the single
//! catch-all rule. String values are emitted double-quoted, with `"` and
//! `\` escaped; an empty list is emitted as `[]`.

use vstd::prelude::*;
use crate::config::{ConfigView, GroupView, ProxyConfig, ProxyGroup};
use crate::digits::{dec_str, u32_string};
use crate::ip::{ipv4_str, ipv4_string};
use crate::ptype::{token_of, token_str};
use crate::record::{Proxy, ProxyView};

verus! {

/// A character as it appears inside a double-quoted scalar.
pub open spec fn esc_char(c: char) -> Seq<char> {
    if c == '"' {
        seq!['\\', '"']
    } else if c == '\\' {
        seq!['\\', '\\']
    } else {
        seq![c]
    }
}

/// A string as it appears inside a double-quoted scalar.
pub open spec fn esc(s: Seq<char>) -> Seq<char>
    decreases s.len(),
{
    if s.len() == 0 {
        Seq::empty()
    } else {
        esc(s.drop_last()) + esc_char(s.last())
    }
}

/// The block of one record in the `proxies` list.
pub open spec fn record_block(p: ProxyView) -> Seq<char> {
    "  - name: \""@ + esc(p.name) + "\"\n    server: "@ + ipv4_str(p.addr) + "\n    port: "@
        + dec_str(p.port as nat) + "\n    type: "@ + token_of(p.ptype) + "\n"@
}

/// The blocks of a record sequence, in order.
pub open spec fn record_blocks(ps: Seq<ProxyView>) -> Seq<char>
    decreases ps.len(),
{
    if ps.len() == 0 {
        Seq::empty()
    } else {
        record_blocks(ps.drop_last()) + record_block(ps.last())
    }
}

/// The `proxies` section; an empty record sequence yields an empty list.
pub open spec fn proxies_section(ps: Seq<ProxyView>) -> Seq<char> {
    if ps.len() == 0 {
        "proxies: []\n"@
    } else {
        "proxies:\n"@ + record_blocks(ps)
    }
}

/// One entry of the group's name list.
pub open spec fn name_item(name: Seq<char>) -> Seq<char> {
    "      - \""@ + esc(name) + "\"\n"@
}

/// The entries of the group's name list, in order.
pub open spec fn name_items(names: Seq<Seq<char>>) -> Seq<char>
    decreases names.len(),
{
    if names.len() == 0 {
        Seq::empty()
    } else {
        name_items(names.drop_last()) + name_item(names.last())
    }
}

/// The group's name list; empty yields an empty list.
pub open spec fn group_list(names: Seq<Seq<char>>) -> Seq<char> {
    if names.len() == 0 {
        "    proxies: []\n"@
    } else {
        "    proxies:\n"@ + name_items(names)
    }
}

/// The `proxy-groups` section.
pub open spec fn group_section(g: GroupView) -> Seq<char> {
    "proxy-groups:\n  - name: \""@ + esc(g.name) + "\"\n    type: "@ + g.gtype + "\n"@
        + group_list(g.proxies)
}

/// The `rules` section.
pub open spec fn rules_section(rule: Seq<char>) -> Seq<char> {
    "rules:\n  - \""@ + esc(rule) + "\"\n"@
}

/// The whole document.
pub open spec fn yaml_doc(c: ConfigView) -> Seq<char> {
    proxies_section(c.proxies) + group_section(c.group) + rules_section(c.rule)
}

/// Append `s` to `out` as it appears inside a double-quoted scalar.
fn append_escaped(out: &mut String, s: &str)
    ensures
        final(out)@ == old(out)@ + esc(s@),
{
    let n: usize = s.unicode_len();
    let mut i: usize = 0;
    while i < n
        invariant
            0 <= i <= n,
            n == s@.len(),
            out@ == old(out)@ + esc(s@.take(i as int)),
        decreases n - i,
    {
        let c = s.get_char(i);
        proof {
            assert(s@.take(i + 1).drop_last() =~= s@.take(i as int));
            assert(s@.take(i + 1).last() == s@[i as int]);
        }
        if c == '"' {
            let piece = "\\\"";
            proof {
                reveal_strlit("\\\"");
                assert(piece@ =~= seq!['\\', '"']);
            }
            out.append(piece);
        } else if c == '\\' {
            let piece = "\\\\";
            proof {
                reveal_strlit("\\\\");
                assert(piece@ =~= seq!['\\', '\\']);
            }
            out.append(piece);
        } else {
            let piece = s.substring_char(i, i + 1);
            proof {
                assert(piece@ =~= seq![s@[i as int]]);
            }
            out.append(piece);
        }
        proof {
            assert(out@ =~= old(out)@ + esc(s@.take(i + 1)));
        }
        i = i + 1;
    }
    proof {
        assert(s@.take(n as int) =~= s@);
    }
}

/// Render the `proxies` section.
fn proxies_section_string(ps: &Vec<Proxy>) -> (r: String)
    ensures
        r@ == proxies_section(ps.deep_view()),
{
    let mut out = String::new();
    let n = ps.len();
    if n == 0 {
        out.append("proxies: []\n");
        return out;
    }
    out.append("proxies:\n");
    let mut i: usize = 0;
    while i < n
        invariant
            0 <= i <= n,
            n == ps.len(),
            n > 0,
            out@ == "proxies:\n"@ + record_blocks(ps.deep_view().take(i as int)),
        decreases n - i,
    {
        let ghost pre = ps.deep_view().take(i as int);
        let ghost post = ps.deep_view().take(i + 1);
        proof {
            assert(post.drop_last() =~= pre);
            assert(post.last() == ps.deep_view()[i as int]);
            assert(ps.deep_view()[i as int] == ps[i as int]@);
        }
        out.append("  - name: \"");
        append_escaped(&mut out, ps[i].name.as_str());
        out.append("\"\n    server: ");
        let addr_text = ipv4_string(&ps[i].addr);
        out.append(addr_text.as_str());
        out.append("\n    port: ");
        let port_text = u32_string(ps[i].port);
        out.append(port_text.as_str());
        out.append("\n    type: ");
        out.append(token_str(&ps[i].ptype));
        out.append("\n");
        proof {
            assert(out@ =~= "proxies:\n"@ + record_blocks(post));
        }
        i = i + 1;
    }
    proof {
        assert(ps.deep_view().take(n as int) =~= ps.deep_view());
    }
    out
}

/// Render the `proxy-groups` section.
fn group_section_string(g: &ProxyGroup) -> (r: String)
    ensures
        r@ == group_section(g@),
{
    let mut out = String::new();
    out.append("proxy-groups:\n  - name: \"");
    append_escaped(&mut out, g.name.as_str());
    out.append("\"\n    type: ");
    out.append(g.gtype.as_str());
    out.append("\n");
    let ghost head = "proxy-groups:\n  - name: \""@ + esc(g@.name) + "\"\n    type: "@ + g@.gtype
        + "\n"@;
    proof {
        assert(out@ =~= head);
    }
    let n = g.proxies.len();
    if n == 0 {
        out.append("    proxies: []\n");
        proof {
            assert(out@ =~= group_section(g@));
        }
        return out;
    }
    out.append("    proxies:\n");
    let mut i: usize = 0;
    while i < n
        invariant
            0 <= i <= n,
            n == g.proxies.len(),
            n > 0,
            head == "proxy-groups:\n  - name: \""@ + esc(g@.name) + "\"\n    type: "@ + g@.gtype
                + "\n"@,
            out@ == head + "    proxies:\n"@ + name_items(g.proxies.deep_view().take(i as int)),
        decreases n - i,
    {
        let ghost pre = g.proxies.deep_view().take(i as int);
        let ghost post = g.proxies.deep_view().take(i + 1);
        proof {
            assert(post.drop_last() =~= pre);
            assert(post.last() == g.proxies.deep_view()[i as int]);
            assert(g.proxies.deep_view()[i as int] == g.proxies[i as int]@);
        }
        out.append("      - \"");
        append_escaped(&mut out, g.proxies[i].as_str());
        out.append("\"\n");
        proof {
            assert(out@ =~= head + "    proxies:\n"@ + name_items(post));
        }
        i = i + 1;
    }
    proof {
        assert(g.proxies.deep_view().take(n as int) =~= g.proxies.deep_view());
        assert(out@ =~= group_section(g@));
    }
    out
}

/// Render the `rules` section.
fn rules_section_string(rule: &String) -> (r: String)
    ensures
        r@ == rules_section(rule@),
{
    let mut out = String::new();
    out.append("rules:\n  - \"");
    append_escaped(&mut out, rule.as_str());
    out.append("\"\n");
    proof {
        assert(out@ =~= rules_section(rule@));
    }
    out
}

/// Render a whole document.
pub fn render_config(c: &ProxyConfig) -> (r: String)
    ensures
        r@ == yaml_doc(c@),
{
    let mut out = proxies_section_string(&c.proxies);
    let group_text = group_section_string(&c.group);
    out.append(group_text.as_str());
    let rules_text = rules_section_string(&c.rule);
    out.append(rules_text.as_str());
    proof {
        assert(out@ =~= yaml_doc(c@));
    }
    out
}

} // verus!
