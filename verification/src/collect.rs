//! Collecting the records of one source: parse every line, drop the
//! skipped ones with a diagnostic, and deduplicate the rest by full
//! structural equality, keeping the first occurrence's position.

use vstd::prelude::*;
use crate::ptype::ProxyType;
use crate::record::{
    LineOutcome, Proxy, ProxyView, SkipReason, parse_line, parsed_record, skip_reason_of,
};

verus! {

/// One per-line diagnostic: the 1-based line number and why it was skipped.
#[derive(Clone, Copy, Debug, PartialEq, Eq, Structural)]
pub struct Diag {
    pub line_no: usize,
    pub reason: SkipReason,
}

/// The deduplicated record sequence of a source, in first-occurrence order.
pub open spec fn collect_views(lines: Seq<Seq<char>>, default_type: ProxyType) -> Seq<ProxyView>
    decreases lines.len(),
{
    if lines.len() == 0 {
        Seq::empty()
    } else {
        let prev = collect_views(lines.drop_last(), default_type);
        match parsed_record(lines.last(), default_type) {
            Some(v) => if prev.contains(v) {
                prev
            } else {
                prev.push(v)
            },
            None => prev,
        }
    }
}

/// The diagnostics of a source, in line order.
pub open spec fn collect_diags(lines: Seq<Seq<char>>, default_type: ProxyType) -> Seq<Diag>
    decreases lines.len(),
{
    if lines.len() == 0 {
        Seq::empty()
    } else {
        let prev = collect_diags(lines.drop_last(), default_type);
        if parsed_record(lines.last(), default_type) is None {
            prev.push(
                Diag {
                    line_no: lines.len() as usize,
                    reason: skip_reason_of(lines.last(), default_type),
                },
            )
        } else {
            prev
        }
    }
}

/// Whether a record with view `v` is already present.
fn contains_record(recs: &Vec<Proxy>, p: &Proxy) -> (r: bool)
    ensures
        r == recs.deep_view().contains(p@),
{
    let n = recs.len();
    let mut j: usize = 0;
    while j < n
        invariant
            0 <= j <= n,
            n == recs.len(),
            forall|k: int| 0 <= k < j ==> recs.deep_view()[k] != p@,
        decreases n - j,
    {
        if recs[j] == *p {
            assert(recs.deep_view()[j as int] == p@);
            return true;
        }
        assert(recs.deep_view()[j as int] == recs[j as int]@);
        j = j + 1;
    }
    assert(!recs.deep_view().contains(p@));
    false
}

/// Parse every line of one source and accumulate the deduplicated records
/// and the per-line diagnostics.
pub fn collect_records(lines: &Vec<String>, default_type: ProxyType) -> (r: (Vec<Proxy>, Vec<
    Diag,
>))
    ensures
        r.0.deep_view() == collect_views(lines.deep_view(), default_type),
        r.1@ == collect_diags(lines.deep_view(), default_type),
{
    let n = lines.len();
    let mut recs: Vec<Proxy> = Vec::new();
    let mut diags: Vec<Diag> = Vec::new();
    proof {
        assert(lines.deep_view().take(0) =~= Seq::<Seq<char>>::empty());
        assert(recs.deep_view() =~= Seq::<ProxyView>::empty());
    }
    let mut i: usize = 0;
    while i < n
        invariant
            0 <= i <= n,
            n == lines.len(),
            lines.deep_view().len() == n,
            recs.deep_view() == collect_views(lines.deep_view().take(i as int), default_type),
            diags@ == collect_diags(lines.deep_view().take(i as int), default_type),
        decreases n - i,
    {
        let ghost pre = lines.deep_view().take(i as int);
        let ghost post = lines.deep_view().take(i + 1);
        proof {
            assert(post.drop_last() =~= pre);
            assert(post.last() == lines.deep_view()[i as int]);
            assert(lines.deep_view()[i as int] == lines[i as int]@);
        }
        match parse_line(lines[i].as_str(), default_type) {
            LineOutcome::Parsed(p) => {
                if !contains_record(&recs, &p) {
                    let ghost old_recs = recs.deep_view();
                    recs.push(p);
                    proof {
                        assert(recs.deep_view() =~= old_recs.push(p@));
                    }
                }
            },
            LineOutcome::Skipped(why) => {
                diags.push(Diag { line_no: i + 1, reason: why });
            },
        }
        proof {
            assert(recs.deep_view() == collect_views(post, default_type));
            assert(diags@ == collect_diags(post, default_type));
        }
        i = i + 1;
    }
    proof {
        assert(lines.deep_view().take(n as int) =~= lines.deep_view());
    }
    (recs, diags)
}

/// The output of one source never holds the same record twice: duplicates
/// among the input lines collapse to a single entry.
pub proof fn lemma_collect_no_duplicates(lines: Seq<Seq<char>>, default_type: ProxyType)
    ensures
        forall|i: int, j: int|
            0 <= i < j < collect_views(lines, default_type).len()
                ==> collect_views(lines, default_type)[i] != collect_views(
                lines,
                default_type,
            )[j],
    decreases lines.len(),
{
    if lines.len() > 0 {
        lemma_collect_no_duplicates(lines.drop_last(), default_type);
        let prev = collect_views(lines.drop_last(), default_type);
        let cur = collect_views(lines, default_type);
        if cur != prev {
            let v = parsed_record(lines.last(), default_type).unwrap();
            assert(!prev.contains(v));
            assert(forall|i: int| 0 <= i < prev.len() ==> prev[i] != v);
            assert(forall|i: int| 0 <= i < prev.len() ==> cur[i] == prev[i]);
        }
    }
}

/// A record appears in the output of one source exactly when some input
/// line parses to it: skipped lines contribute nothing, every well-formed
/// line's record is kept, and nothing else is made up.
pub proof fn lemma_collect_membership(
    lines: Seq<Seq<char>>,
    default_type: ProxyType,
    v: ProxyView,
)
    ensures
        collect_views(lines, default_type).contains(v) <==> exists|i: int|
            0 <= i < lines.len() && parsed_record(lines[i], default_type) == Some(v),
    decreases lines.len(),
{
    if lines.len() > 0 {
        lemma_collect_membership(lines.drop_last(), default_type, v);
        let prev = collect_views(lines.drop_last(), default_type);
        let cur = collect_views(lines, default_type);
        if prev.contains(v) {
            let i = choose|i: int|
                0 <= i < lines.drop_last().len() && parsed_record(
                    lines.drop_last()[i],
                    default_type,
                ) == Some(v);
            assert(lines[i] == lines.drop_last()[i]);
            assert(parsed_record(lines[i], default_type) == Some(v));
            if cur != prev {
                assert(forall|k: int| 0 <= k < prev.len() ==> cur[k] == prev[k]);
                let k = choose|k: int| 0 <= k < prev.len() && prev[k] == v;
                assert(cur[k] == v);
                assert(cur.contains(v));
            }
        } else if parsed_record(lines.last(), default_type) == Some(v) {
            assert(lines[lines.len() - 1] == lines.last());
            assert(cur == prev.push(v));
            assert(cur[cur.len() - 1] == v);
            assert(cur.contains(v));
        }
        if cur.contains(v) && !prev.contains(v) {
            assert(parsed_record(lines.last(), default_type) == Some(v)) by {
                let k = choose|k: int| 0 <= k < cur.len() && cur[k] == v;
                match parsed_record(lines.last(), default_type) {
                    Some(w) => {
                        if w != v {
                            if prev.contains(w) {
                                assert(cur == prev);
                            } else {
                                assert(cur == prev.push(w));
                                if k < prev.len() {
                                    assert(prev[k] == v);
                                    assert(prev.contains(v));
                                }
                            }
                        }
                    },
                    None => {
                        assert(cur == prev);
                    },
                }
            }
            assert(lines[lines.len() - 1] == lines.last());
        }
        if (exists|i: int| 0 <= i < lines.len() && parsed_record(lines[i], default_type) == Some(
            v,
        )) && !cur.contains(v) {
            let i = choose|i: int|
                0 <= i < lines.len() && parsed_record(lines[i], default_type) == Some(v);
            if i < lines.len() - 1 {
                assert(lines.drop_last()[i] == lines[i]);
                assert(prev.contains(v));
                if parsed_record(lines.last(), default_type) is Some && !prev.contains(
                    parsed_record(lines.last(), default_type).unwrap(),
                ) {
                    let k = choose|k: int| 0 <= k < prev.len() && prev[k] == v;
                    assert(cur[k] == v);
                } else {
                    assert(cur == prev);
                }
                assert(cur.contains(v));
            } else {
                assert(lines[i] == lines.last());
                if prev.contains(v) {
                    assert(cur.contains(v)) by {
                        let k = choose|k: int| 0 <= k < prev.len() && prev[k] == v;
                        assert(cur[k] == v);
                    }
                } else {
                    assert(cur == prev.push(v));
                    assert(cur[cur.len() - 1] == v);
                }
                assert(cur.contains(v));
            }
        }
    }
}

/// Regenerating from the same source is stable: the output's records, taken
/// as a set, are exactly the records that some input line parses to, and
/// each appears exactly once. Any two runs over the same lines therefore
/// hold the same record set.
pub proof fn lemma_output_record_set(lines: Seq<Seq<char>>, default_type: ProxyType)
    ensures
        forall|v: ProxyView|
            collect_views(lines, default_type).contains(v) <==> exists|i: int|
                0 <= i < lines.len() && parsed_record(lines[i], default_type) == Some(v),
        forall|i: int, j: int|
            0 <= i < j < collect_views(lines, default_type).len()
                ==> collect_views(lines, default_type)[i] != collect_views(
                lines,
                default_type,
            )[j],
{
    assert forall|v: ProxyView|
        collect_views(lines, default_type).contains(v) <==> exists|i: int|
            0 <= i < lines.len() && parsed_record(lines[i], default_type) == Some(v) by {
        lemma_collect_membership(lines, default_type, v);
    }
    lemma_collect_no_duplicates(lines, default_type);
}

/// A line that parses to no record leaves the collected records unchanged:
/// the run goes on, and the remaining lines alone decide the output.
pub proof fn lemma_skipped_line_dropped(lines: Seq<Seq<char>>, default_type: ProxyType, i: int)
    requires
        0 <= i < lines.len(),
        parsed_record(lines[i], default_type) is None,
    ensures
        collect_views(lines, default_type) == collect_views(lines.remove(i), default_type),
    decreases lines.len(),
{
    if i == lines.len() - 1 {
        assert(lines.remove(i) =~= lines.drop_last());
    } else {
        assert(lines.remove(i).drop_last() =~= lines.drop_last().remove(i));
        assert(lines.remove(i).last() == lines.last());
        assert(lines.drop_last()[i] == lines[i]);
        lemma_skipped_line_dropped(lines.drop_last(), default_type, i);
    }
}

} // verus!
