//! The search provider's logic: the request URL, the formatting of fetched
//! results, and the best-effort sentinels for empty or unreadable responses.

use vstd::prelude::*;
use crate::text::{fmt_u64, dec_str, urlenc_of, url_encode};

verus! {

/// One fetched search result.
pub struct SearchItem {
    pub title: String,
    pub link: String,
    pub snippet: Option<String>,
    pub html_snippet: Option<String>,
    pub display_link: Option<String>,
}

/// The search endpoint's reply: the result list, absent when the upstream
/// returned none.
pub struct GoogleSearchResponse {
    pub items: Option<Vec<SearchItem>>,
}

/// The search request URL: key, engine and the percent-encoded query, asking
/// for the top three results.
pub fn search_url(api_key: &str, engine_id: &str, query: &str) -> (r: String)
    ensures
        r@ == "https://www.googleapis.com/customsearch/v1?key="@ + api_key@ + "&cx="@ + engine_id@
            + "&q="@ + urlenc_of(query@) + "&num=3"@,
{
    let mut u = String::new();
    u.append("https://www.googleapis.com/customsearch/v1?key=");
    u.append(api_key);
    u.append("&cx=");
    u.append(engine_id);
    u.append("&q=");
    let q = url_encode(query);
    u.append(q.as_str());
    u.append("&num=3");
    proof {
        assert(u@ =~= "https://www.googleapis.com/customsearch/v1?key="@ + api_key@ + "&cx="@
            + engine_id@ + "&q="@ + urlenc_of(query@) + "&num=3"@);
    }
    u
}

/// One result formatted for the classifier's context: rank and title, the
/// snippet when present, and the link.
pub open spec fn spec_format_item(rank: nat, item: SearchItem) -> Seq<char> {
    dec_str(rank) + ". "@ + item.title@ + "\n"@ + (match item.snippet {
        Some(s) => "   "@ + s@ + "\n"@,
        None => Seq::<char>::empty(),
    }) + "   "@ + item.link@ + "\n\n"@
}

/// The first `n` results formatted in order, ranked from one.
pub open spec fn spec_format_results(items: Seq<SearchItem>, n: int) -> Seq<char>
    decreases n,
{
    if n <= 0 {
        Seq::<char>::empty()
    } else {
        spec_format_results(items, n - 1) + spec_format_item(n as nat, items[n - 1])
    }
}

/// Formats the fetched results as the classifier's plain-text context.
pub fn format_search_results(items: &Vec<SearchItem>) -> (r: String)
    ensures
        r@ == spec_format_results(items@, items@.len() as int),
{
    let mut context = String::new();
    let mut i: usize = 0;
    while i < items.len()
        invariant
            i <= items.len(),
            context@ == spec_format_results(items@, i as int),
        decreases items.len() - i,
    {
        let rank = fmt_u64((i as u64) + 1);
        context.append(rank.as_str());
        context.append(". ");
        context.append(items[i].title.as_str());
        context.append("\n");
        match &items[i].snippet {
            Some(s) => {
                context.append("   ");
                context.append(s.as_str());
                context.append("\n");
            },
            None => {},
        }
        context.append("   ");
        context.append(items[i].link.as_str());
        context.append("\n\n");
        proof {
            assert(context@ =~= spec_format_results(items@, i + 1));
        }
        i = i + 1;
    }
    context
}

/// What the search call hands the classifier for a query: the formatted
/// results; a deterministic no-results sentinel when the upstream returned
/// none; and an uninformative but valid context when the response could not
/// be read, since search is best-effort.
pub open spec fn spec_search_summary(
    parsed: Option<GoogleSearchResponse>,
    query: Seq<char>,
) -> Seq<char> {
    match parsed {
        Some(resp) => match resp.items {
            Some(items) => if spec_format_results(items@, items@.len() as int).len() == 0 {
                "No relevant information found for: "@ + query
            } else {
                spec_format_results(items@, items@.len() as int)
            },
            None => "No relevant information found for: "@ + query,
        },
        None => "Search completed for: "@ + query,
    }
}

/// Settles a search reply into the classifier's context: `parsed` holds the
/// decoded response, or nothing when the response could not be decoded.
pub fn summarize_search(parsed: &Option<GoogleSearchResponse>, query: &str) -> (r: String)
    ensures
        r@ == spec_search_summary(*parsed, query@),
{
    match parsed {
        Some(resp) => {
            let formatted = match &resp.items {
                Some(items) => format_search_results(items),
                None => String::new(),
            };
            if formatted.as_str().is_empty() {
                let mut s = String::new();
                s.append("No relevant information found for: ");
                s.append(query);
                proof {
                    assert(s@ =~= "No relevant information found for: "@ + query@);
                }
                s
            } else {
                formatted
            }
        },
        None => {
            let mut s = String::new();
            s.append("Search completed for: ");
            s.append(query);
            proof {
                assert(s@ =~= "Search completed for: "@ + query@);
            }
            s
        },
    }
}

} // verus!
