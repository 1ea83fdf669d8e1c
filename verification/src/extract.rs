//! The extractor: walks the result containers of a page in document order,
//! drops every container whose link is empty, lacks the recognized scheme or
//! contains an exclusion substring, trims the excerpt of each kept one, and
//! stops the walk the instant the wall-clock budget is exhausted.

use vstd::prelude::*;
use crate::clock::{elapsed_at_least, instant_now};
use crate::scan::{candidates_of, pairs_viewed, scan_result_blocks};
use crate::text::{contains_seq, contains_sub, has_prefix, starts_with_seq, trim_spec, trim_str};

verus! {

/// One extracted search hit: a link and its excerpt text.
pub struct ResultRecord {
    pub url: String,
    pub resume: String,
}

pub open spec fn record_view(r: ResultRecord) -> (Seq<char>, Seq<char>) {
    (r.url@, r.resume@)
}

pub open spec fn records_viewed(rs: Seq<ResultRecord>) -> Seq<(Seq<char>, Seq<char>)> {
    rs.map_values(|r: ResultRecord| record_view(r))
}

pub open spec fn strings_viewed(ss: Seq<String>) -> Seq<Seq<char>> {
    ss.map_values(|s: String| s@)
}

/// A candidate link is kept when it starts with the recognized scheme prefix
/// (which also makes it non-empty) and contains none of the exclusion
/// substrings.
pub open spec fn spec_link_ok(link: Seq<char>, excluded: Seq<Seq<char>>) -> bool {
    starts_with_seq(link, "http"@) && (forall|k: int|
        0 <= k < excluded.len() ==> !contains_seq(link, excluded[k]))
}

/// The record a kept container yields: its link and its trimmed excerpt.
pub open spec fn spec_record_of(c: (Seq<char>, Seq<char>)) -> (Seq<char>, Seq<char>) {
    (c.0, trim_spec(c.1))
}

/// The records of a full, untimed walk over the containers `cs`.
pub open spec fn spec_extract(cs: Seq<(Seq<char>, Seq<char>)>, excluded: Seq<Seq<char>>) -> Seq<
    (Seq<char>, Seq<char>),
>
    decreases cs.len(),
{
    if cs.len() == 0 {
        Seq::empty()
    } else {
        let rest = spec_extract(cs.drop_last(), excluded);
        if spec_link_ok(cs.last().0, excluded) {
            rest.push(spec_record_of(cs.last()))
        } else {
            rest
        }
    }
}

/// The link test on a container, as a function value.
pub open spec fn link_pred(excluded: Seq<Seq<char>>) -> spec_fn((Seq<char>, Seq<char>)) -> bool {
    |c: (Seq<char>, Seq<char>)| spec_link_ok(c.0, excluded)
}

/// The record of a container, as a function value.
pub open spec fn record_fn() -> spec_fn((Seq<char>, Seq<char>)) -> (Seq<char>, Seq<char>) {
    |c: (Seq<char>, Seq<char>)| spec_record_of(c)
}

/// A full walk emits exactly one record, in document order, for each
/// container that passes the link test, and none for a container that fails
/// it: it is the filter of the containers by the link test, mapped to their
/// records.
pub proof fn lemma_extract_is_filter_map(cs: Seq<(Seq<char>, Seq<char>)>, excluded: Seq<Seq<char>>)
    ensures
        spec_extract(cs, excluded) =~= cs.filter(link_pred(excluded)).map_values(record_fn()),
    decreases cs.len(),
{
    reveal(Seq::filter);
    let pred = link_pred(excluded);
    let f = record_fn();
    if cs.len() == 0 {
    } else {
        lemma_extract_is_filter_map(cs.drop_last(), excluded);
        if pred(cs.last()) {
            assert(cs.drop_last().filter(pred).push(cs.last()).map_values(f) =~= cs.drop_last()
                .filter(pred).map_values(f).push(f(cs.last())));
        }
    }
}

/// Every record a walk emits carries a link that passed the test: one that
/// starts with the recognized scheme (so it is never empty) and holds no
/// exclusion substring.
pub proof fn lemma_emitted_links_ok(cs: Seq<(Seq<char>, Seq<char>)>, excluded: Seq<Seq<char>>, j: int)
    requires
        0 <= j < spec_extract(cs, excluded).len(),
    ensures
        spec_link_ok(spec_extract(cs, excluded)[j].0, excluded),
{
    lemma_extract_is_filter_map(cs, excluded);
    let filtered = cs.filter(link_pred(excluded));
    Seq::lemma_filter_pred(cs, link_pred(excluded), j);
    assert(spec_extract(cs, excluded)[j] == record_fn()(filtered[j]));
}

/// A walk over containers of which none passes the link test yields nothing.
pub proof fn lemma_all_rejected_empty(cs: Seq<(Seq<char>, Seq<char>)>, excluded: Seq<Seq<char>>)
    requires
        forall|i: int| 0 <= i < cs.len() ==> !spec_link_ok(cs[i].0, excluded),
    ensures
        spec_extract(cs, excluded) =~= Seq::<(Seq<char>, Seq<char>)>::empty(),
    decreases cs.len(),
{
    if cs.len() > 0 {
        assert(forall|i: int|
            0 <= i < cs.drop_last().len() ==> !spec_link_ok(#[trigger] cs.drop_last()[i].0, excluded));
        lemma_all_rejected_empty(cs.drop_last(), excluded);
    }
}

/// The fixed exclusion list as the contracts speak of it.
pub open spec fn default_exclusions_spec() -> Seq<Seq<char>> {
    seq!["yahoo"@]
}

/// The static exclusion list: substrings that disqualify a candidate link
/// (used to filter the engine's self-referential links).
pub fn default_exclusions() -> (r: Vec<String>)
    ensures
        strings_viewed(r@) == default_exclusions_spec(),
{
    let mut v: Vec<String> = Vec::new();
    v.push(String::from_str("yahoo"));
    proof {
        assert(strings_viewed(v@) =~= default_exclusions_spec());
    }
    v
}

/// Returns whether a candidate link is kept: it starts with the recognized
/// scheme and holds no exclusion substring.
pub fn link_passes(link: &str, excluded: &Vec<String>) -> (r: bool)
    ensures
        r == spec_link_ok(link@, strings_viewed(excluded@)),
{
    if !has_prefix(link, "http") {
        return false;
    }
    let mut k: usize = 0;
    while k < excluded.len()
        invariant
            0 <= k <= excluded@.len(),
            starts_with_seq(link@, "http"@),
            forall|j: int| 0 <= j < k ==> !contains_seq(link@, strings_viewed(excluded@)[j]),
        decreases excluded@.len() - k,
    {
        if contains_sub(link, excluded[k].as_str()) {
            assert(contains_seq(link@, strings_viewed(excluded@)[k as int]));
            return false;
        }
        k += 1;
    }
    true
}

/// Extracts the result records of `html` with no time bound: the full walk
/// over every container, exactly `spec_extract` of the page's candidates.
/// This is the walk that a timed extraction completes when the budget
/// outlasts it.
pub fn extract_all(html: &str, excluded: &Vec<String>) -> (r: Vec<ResultRecord>)
    ensures
        records_viewed(r@) == spec_extract(candidates_of(html@), strings_viewed(excluded@)),
{
    let cands = scan_result_blocks(html);
    let ghost gcs = candidates_of(html@);
    let ghost gex = strings_viewed(excluded@);
    let mut out: Vec<ResultRecord> = Vec::new();
    let mut i: usize = 0;
    proof {
        assert(gcs.take(0) =~= Seq::<(Seq<char>, Seq<char>)>::empty());
    }
    while i < cands.len()
        invariant
            0 <= i <= cands@.len(),
            gcs == candidates_of(html@),
            gex == strings_viewed(excluded@),
            pairs_viewed(cands@) == gcs,
            records_viewed(out@) == spec_extract(gcs.take(i as int), gex),
        decreases cands@.len() - i,
    {
        proof {
            assert(gcs[i as int] == (cands@[i as int].0@, cands@[i as int].1@));
        }
        let keep = link_passes(cands[i].0.as_str(), excluded);
        if keep {
            let url = cands[i].0.clone();
            let resume = trim_str(cands[i].1.as_str());
            let ghost old_out = out@;
            out.push(ResultRecord { url, resume });
            proof {
                assert(records_viewed(out@) =~= records_viewed(old_out).push(
                    spec_record_of(gcs[i as int]),
                ));
            }
        }
        proof {
            assert(gcs.take(i as int + 1).drop_last() =~= gcs.take(i as int));
            assert(gcs.take(i as int + 1).last() == gcs[i as int]);
            assert(records_viewed(out@) == spec_extract(gcs.take(i as int + 1), gex));
        }
        i += 1;
    }
    proof {
        assert(gcs.take(gcs.len() as int) =~= gcs);
    }
    out
}

/// Extracts the result records of `html` under a wall-clock budget of
/// `timeout_secs` seconds. The walk visits containers in document order and
/// checks the clock before each one, so whatever comes back is a full walk
/// over some prefix of the containers: the records of the containers
/// processed before the budget ran out, and none after. A zero budget is
/// exhausted before the first container.
pub fn extract_with(html: &str, timeout_secs: u64, excluded: &Vec<String>) -> (r: Vec<ResultRecord>)
    ensures
        exists|k: int|
            0 <= k <= candidates_of(html@).len() && records_viewed(r@) == spec_extract(
                candidates_of(html@).take(k),
                strings_viewed(excluded@),
            ),
        timeout_secs == 0 ==> r@.len() == 0,
        candidates_of(html@).len() == 0 ==> r@.len() == 0,
{
    let cands = scan_result_blocks(html);
    let ghost gcs = candidates_of(html@);
    let ghost gex = strings_viewed(excluded@);
    let mut out: Vec<ResultRecord> = Vec::new();
    let start = instant_now();
    let mut i: usize = 0;
    proof {
        assert(gcs.take(0) =~= Seq::<(Seq<char>, Seq<char>)>::empty());
    }
    while i < cands.len()
        invariant
            0 <= i <= cands@.len(),
            gcs == candidates_of(html@),
            gex == strings_viewed(excluded@),
            pairs_viewed(cands@) == gcs,
            records_viewed(out@) == spec_extract(gcs.take(i as int), gex),
            timeout_secs == 0 ==> out@.len() == 0,
        decreases cands@.len() - i,
    {
        proof {
            assert(gcs.len() == cands@.len());
        }
        // A zero budget is exhausted by definition: no elapsed time is below it.
        if timeout_secs == 0 || elapsed_at_least(&start, timeout_secs) {
            proof {
                assert(0 <= i as int <= gcs.len() && records_viewed(out@) == spec_extract(
                    gcs.take(i as int),
                    gex,
                ));
            }
            return out;
        }
        proof {
            assert(gcs[i as int] == (cands@[i as int].0@, cands@[i as int].1@));
        }
        let keep = link_passes(cands[i].0.as_str(), excluded);
        if keep {
            let url = cands[i].0.clone();
            let resume = trim_str(cands[i].1.as_str());
            let ghost old_out = out@;
            out.push(ResultRecord { url, resume });
            proof {
                assert(records_viewed(out@) =~= records_viewed(old_out).push(
                    spec_record_of(gcs[i as int]),
                ));
            }
        }
        proof {
            assert(gcs.take(i as int + 1).drop_last() =~= gcs.take(i as int));
            assert(gcs.take(i as int + 1).last() == gcs[i as int]);
            assert(records_viewed(out@) == spec_extract(gcs.take(i as int + 1), gex));
        }
        i += 1;
    }
    proof {
        assert(gcs.take(gcs.len() as int) =~= gcs);
        assert(0 <= gcs.len() as int <= gcs.len() && records_viewed(out@) == spec_extract(
            gcs.take(gcs.len() as int),
            gex,
        ));
        if gcs.len() == 0 {
            assert(records_viewed(out@).len() == 0);
        }
    }
    out
}

/// `extract_with` under the service's fixed exclusion list.
pub fn extract(html: &str, timeout_secs: u64) -> (r: Vec<ResultRecord>)
    ensures
        exists|k: int|
            0 <= k <= candidates_of(html@).len() && records_viewed(r@) == spec_extract(
                candidates_of(html@).take(k),
                default_exclusions_spec(),
            ),
        timeout_secs == 0 ==> r@.len() == 0,
        candidates_of(html@).len() == 0 ==> r@.len() == 0,
{
    let excluded = default_exclusions();
    extract_with(html, timeout_secs, &excluded)
}

} // verus!
