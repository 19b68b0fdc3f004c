//! The whole conversion of one source: lines in, document text and
//! diagnostics out. Reading the source and writing the document are the
//! caller's business.

use vstd::prelude::*;
use crate::collect::{Diag, collect_diags, collect_records, collect_views};
use crate::config::{build_config, config_of};
use crate::ptype::ProxyType;
use crate::yaml::{render_config, yaml_doc};

verus! {

/// The document text that a source's lines, a default type and an output
/// path determine.
pub open spec fn pipeline_doc(
    lines: Seq<Seq<char>>,
    default_type: ProxyType,
    out_path: Seq<char>,
) -> Seq<char> {
    yaml_doc(config_of(collect_views(lines, default_type), out_path))
}

/// Convert one source: parse and deduplicate the lines, assemble the
/// document for the output path, and render it, returning the text and the
/// per-line diagnostics.
pub fn generate_config_text(lines: &Vec<String>, default_type: ProxyType, out_path: &str) -> (r: (
    String,
    Vec<Diag>,
))
    ensures
        r.0@ == pipeline_doc(lines.deep_view(), default_type, out_path@),
        r.1@ == collect_diags(lines.deep_view(), default_type),
{
    let (recs, diags) = collect_records(lines, default_type);
    let config = build_config(recs, out_path);
    let text = render_config(&config);
    (text, diags)
}

} // verus!
