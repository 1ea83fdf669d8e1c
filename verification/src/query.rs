//! The query dispatcher's two pure stages: decoding the inbound payload into
//! a query, and turning the outcome of the one outbound fetch into the
//! response's result set.

use vstd::prelude::*;
use crate::extract::{default_exclusions_spec, records_viewed, spec_extract, ResultRecord};
use crate::scan::candidates_of;
use crate::text::{digits_part, digits_val, eq_str, parse_u64_str, valid_u64_digits};

verus! {

/// One decoded request: the text to search for and the wall-clock budget,
/// in seconds, for the extraction walk.
#[derive(Debug)]
pub struct Query {
    pub search_text: String,
    pub timeout_secs: u64,
}

/// Why a payload was rejected.
#[derive(Debug, PartialEq, Eq)]
pub enum DecodeError {
    /// The body is not a JSON object whose values are all strings.
    MalformedPayload,
    /// The `timeout` field does not hold a decimal number of seconds that
    /// fits in 64 bits.
    InvalidTimeout,
}

/// What deserializing `s` as a map of strings yields: `None` when `s` is not
/// a JSON object whose values are all strings, else the object's entries.
pub uninterp spec fn json_string_map_of(s: Seq<char>) -> Option<Map<Seq<char>, Seq<char>>>;

/// Relies on `serde_json::from_str::<HashMap<String, String>>`: it succeeds
/// exactly on a JSON object whose values are all strings, yielding its
/// entries as a finite map (the last value winning for a repeated key); and
/// on `HashMap`, whose length is its number of keys and whose iterator
/// yields every entry exactly once, in no promised order.
#[verifier::external_body]
fn parse_string_map(s: &str) -> (r: Option<Vec<(String, String)>>)
    ensures
        r is Some <==> json_string_map_of(s@) is Some,
        r is Some ==> {
            let m = json_string_map_of(s@)->0;
            &&& m.dom().finite()
            &&& r->0@.len() == m.dom().len()
            &&& forall|i: int|
                0 <= i < r->0@.len() ==> m.contains_pair(#[trigger] r->0@[i].0@, r->0@[i].1@)
            &&& forall|key: Seq<char>|
                #[trigger] m.contains_key(key) ==> exists|i: int|
                    0 <= i < r->0@.len() && #[trigger] r->0@[i].0@ == key
        },
{
    match serde_json::from_str::<std::collections::HashMap<String, String>>(s) {
        Ok(m) => Some(m.into_iter().collect()),
        Err(_) => None,
    }
}

/// The search text a decoded object carries: its `value` field when present;
/// failing that, the sole value of a one-entry object (the legacy shape);
/// otherwise empty.
pub open spec fn chosen_text(m: Map<Seq<char>, Seq<char>>) -> Seq<char> {
    if m.contains_key("value"@) {
        m["value"@]
    } else if m.dom().len() == 1 {
        m[m.dom().choose()]
    } else {
        Seq::empty()
    }
}

/// The object's `timeout` field, if present, holds a valid number of seconds.
pub open spec fn timeout_ok(m: Map<Seq<char>, Seq<char>>) -> bool {
    m.contains_key("timeout"@) ==> valid_u64_digits(digits_part(m["timeout"@]))
}

/// The budget a decoded object carries: its `timeout` field, or 10 seconds.
pub open spec fn chosen_timeout(m: Map<Seq<char>, Seq<char>>) -> int {
    if m.contains_key("timeout"@) {
        digits_val(digits_part(m["timeout"@]))
    } else {
        10
    }
}

proof fn lemma_singleton_choose(s: Set<Seq<char>>, x: Seq<char>)
    requires
        s.finite(),
        s.len() == 1,
        s.contains(x),
    ensures
        s.choose() == x,
{
    Set::<Seq<char>>::lemma_is_singleton(s);
    assert(s.contains(s.choose()));
}

/// Returns the index of the first pair whose key equals `key`.
fn find_key(pairs: &Vec<(String, String)>, key: &str) -> (r: Option<usize>)
    ensures
        r is Some ==> 0 <= r->0 < pairs@.len() && pairs@[r->0 as int].0@ == key@,
        r is None ==> forall|i: int| 0 <= i < pairs@.len() ==> pairs@[i].0@ != key@,
{
    let mut i: usize = 0;
    while i < pairs.len()
        invariant
            0 <= i <= pairs@.len(),
            forall|j: int| 0 <= j < i ==> pairs@[j].0@ != key@,
        decreases pairs@.len() - i,
    {
        if eq_str(pairs[i].0.as_str(), key) {
            return Some(i);
        }
        i += 1;
    }
    None
}

/// Decodes a request payload. The payload must be a JSON object of strings:
/// the structured shape carries the search text under `value` and an
/// optional decimal `timeout` in seconds; a single-entry object of any other
/// key is the legacy shape, its sole value the text. Absent fields fall back
/// to an empty text and a 10 second budget. A payload that is not such an
/// object is rejected as malformed; one whose timeout does not parse is
/// rejected as an invalid timeout.
pub fn decode_payload(raw: &str) -> (r: Result<Query, DecodeError>)
    ensures
        r is Ok <==> (json_string_map_of(raw@) is Some && timeout_ok(json_string_map_of(raw@)->0)),
        json_string_map_of(raw@) is None ==> r == Err::<Query, DecodeError>(
            DecodeError::MalformedPayload,
        ),
        json_string_map_of(raw@) is Some && !timeout_ok(json_string_map_of(raw@)->0) ==> r
            == Err::<Query, DecodeError>(DecodeError::InvalidTimeout),
        r is Ok ==> r->Ok_0.search_text@ == chosen_text(json_string_map_of(raw@)->0),
        r is Ok ==> r->Ok_0.timeout_secs == chosen_timeout(json_string_map_of(raw@)->0),
{
    let pairs_opt = parse_string_map(raw);
    match pairs_opt {
        None => Err(DecodeError::MalformedPayload),
        Some(pairs) => {
            let ghost m = json_string_map_of(raw@)->0;
            let timeout_secs: u64 = match find_key(&pairs, "timeout") {
                Some(i) => {
                    match parse_u64_str(pairs[i].1.as_str()) {
                        Some(t) => t,
                        None => {
                            return Err(DecodeError::InvalidTimeout);
                        },
                    }
                },
                None => {
                    assert(!m.contains_key("timeout"@));
                    10
                },
            };
            let text: String = match find_key(&pairs, "value") {
                Some(i) => pairs[i].1.clone(),
                None => {
                    assert(!m.contains_key("value"@));
                    if pairs.len() == 1 {
                        proof {
                            lemma_singleton_choose(m.dom(), pairs@[0].0@);
                        }
                        pairs[0].1.clone()
                    } else {
                        String::new()
                    }
                },
            };
            Ok(Query { search_text: text, timeout_secs })
        },
    }
}

/// The dispatcher's response handling: a failed fetch (no readable body)
/// yields an empty result set, not an error, while a fetched body goes to
/// the extractor with the caller's budget and its records come back
/// verbatim.
pub fn results_from_fetch(body: Option<String>, timeout_secs: u64) -> (r: Vec<ResultRecord>)
    ensures
        body is None ==> r@.len() == 0,
        body is Some ==> exists|k: int|
            0 <= k <= candidates_of(body->0@).len() && records_viewed(r@) == spec_extract(
                candidates_of(body->0@).take(k),
                default_exclusions_spec(),
            ),
        timeout_secs == 0 ==> r@.len() == 0,
        body is Some && candidates_of(body->0@).len() == 0 ==> r@.len() == 0,
{
    match body {
        None => Vec::new(),
        Some(b) => crate::extract::extract(b.as_str(), timeout_secs),
    }
}

} // verus!
