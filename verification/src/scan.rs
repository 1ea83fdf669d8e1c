//! The selector engine boundary: one pass over the upstream result page that
//! hands every result container back as plain text, one `(link, excerpt)`
//! pair per container, in document order. The link is the href of the
//! container's title anchor, or empty when that anchor is absent; the excerpt
//! is the concatenated text of the container's excerpt element, untrimmed, or
//! empty when that element is absent.

use vstd::prelude::*;

verus! {

/// The `(link, raw excerpt)` pair of every result container of `html`, in
/// document order. What it holds is fixed by the HTML alone; the wrapper
/// below is the only place that produces it.
pub uninterp spec fn candidates_of(html: Seq<char>) -> Seq<(Seq<char>, Seq<char>)>;

pub open spec fn pairs_viewed(ps: Seq<(String, String)>) -> Seq<(Seq<char>, Seq<char>)> {
    ps.map_values(|p: (String, String)| (p.0@, p.1@))
}

/// Relies on scraper's `Html::parse_document`, `Selector::parse`,
/// `Html::select`, `ElementRef::select`, `ElementRef::attr` and
/// `ElementRef::text`: parsing a document and selecting over it is a function
/// of the document text alone, `select` yields matches in document order,
/// `attr` returns the element's attribute value, and `text` yields the text
/// of the element's descendants in order. The three selector strings are the
/// fixed markup schema of the upstream result page: `.relsrch` marks one
/// result container, `.compTitle a` its title anchor, `.fc-falcon` its
/// excerpt element.
#[verifier::external_body]
pub(crate) fn scan_result_blocks(html: &str) -> (r: Vec<(String, String)>)
    ensures
        pairs_viewed(r@) == candidates_of(html@),
{
    let doc = scraper::Html::parse_document(html);
    let container = scraper::Selector::parse(".relsrch").unwrap();
    let anchor = scraper::Selector::parse(".compTitle a").unwrap();
    let excerpt = scraper::Selector::parse(".fc-falcon").unwrap();
    doc.select(&container).map(|e| {
        let link = e.select(&anchor).next().and_then(|a| a.attr("href")).unwrap_or("").to_string();
        let text = e.select(&excerpt).next().map(|t| t.text().collect::<Vec<_>>().join("")).unwrap_or_default();
        (link, text)
    }).collect()
}

} // verus!
