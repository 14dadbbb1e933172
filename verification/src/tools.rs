//! The text of the web-search and weather tools.  The HTTP request to the
//! search service is made by the caller.
use vstd::prelude::*;
use vstd::string::*;
use crate::text::{append_str, str_chars, string_from_chars};

verus! {

pub const TAVILY_SEARCH_URL: &'static str = "https://api.tavily.com/search";

pub const TAVILY_SEARCH_DEPTH: &'static str = "basic";

pub const TAVILY_MAX_RESULTS: u8 = 5;

/// The body of a search request.
#[derive(Debug, Clone)]
pub struct TavilySearchRequest {
    pub api_key: String,
    pub query: String,
    pub search_depth: String,
    pub include_answer: bool,
    pub max_results: u8,
}

pub fn search_request(api_key: &str, query: &str) -> (r: TavilySearchRequest)
    ensures
        r.api_key@ == api_key@,
        r.query@ == query@,
        r.search_depth@ == TAVILY_SEARCH_DEPTH@,
        r.include_answer,
        r.max_results == TAVILY_MAX_RESULTS,
{
    TavilySearchRequest {
        api_key: String::from_str(api_key),
        query: String::from_str(query),
        search_depth: String::from_str(TAVILY_SEARCH_DEPTH),
        include_answer: true,
        max_results: TAVILY_MAX_RESULTS,
    }
}

#[derive(Debug, Clone)]
pub struct TavilyResult {
    pub title: String,
    pub url: String,
    pub content: String,
}

#[derive(Debug, Clone)]
pub struct TavilySearchResponse {
    pub answer: Option<String>,
    pub results: Vec<TavilyResult>,
}

pub open spec fn result_block(r: TavilyResult) -> Seq<char> {
    "**"@ + r.title@ + "**\n"@ + r.url@ + "\n"@ + r.content@ + "\n\n"@
}

pub open spec fn results_text(rs: Seq<TavilyResult>) -> Seq<char>
    decreases rs.len(),
{
    if rs.len() == 0 {
        Seq::empty()
    } else {
        results_text(rs.drop_last()) + result_block(rs.last())
    }
}

/// The answer (followed by a blank line) and each result as a bold title,
/// its URL and its content; `No results found.` when that is empty.
pub open spec fn spec_search_text(response: TavilySearchResponse) -> Seq<char> {
    let text = match response.answer {
        Some(a) => a@ + "\n\n"@,
        None => Seq::empty(),
    } + results_text(response.results@);
    if text.len() == 0 {
        "No results found."@
    } else {
        text
    }
}

pub fn format_search_response(response: &TavilySearchResponse) -> (s: String)
    ensures
        s@ == spec_search_text(*response),
{
    let mut out: Vec<char> = Vec::new();
    match &response.answer {
        Some(a) => {
            append_str(&mut out, a.as_str());
            append_str(&mut out, "\n\n");
        },
        None => {},
    }
    let ghost head = out@;
    let mut i: usize = 0;
    assert(response.results@.take(0) =~= Seq::<TavilyResult>::empty());
    while i < response.results.len()
        invariant
            i <= response.results@.len(),
            out@ == head + results_text(response.results@.take(i as int)),
        decreases response.results.len() - i,
    {
        let r = &response.results[i];
        append_str(&mut out, "**");
        append_str(&mut out, r.title.as_str());
        append_str(&mut out, "**\n");
        append_str(&mut out, r.url.as_str());
        append_str(&mut out, "\n");
        append_str(&mut out, r.content.as_str());
        append_str(&mut out, "\n\n");
        proof {
            assert(response.results@.take(i + 1).drop_last() =~= response.results@.take(i as int));
            assert(response.results@.take(i + 1).last() == response.results@[i as int]);
        }
        i = i + 1;
    }
    assert(response.results@.take(response.results@.len() as int) =~= response.results@);
    if out.len() == 0 {
        String::from_str("No results found.")
    } else {
        string_from_chars(out.as_slice())
    }
}

/// The canned weather report for a place.
pub fn weather_report(location: &str) -> (s: String)
    ensures
        s@ == "The weather in "@ + location@ + " is sunny with a high of 25°C."@,
{
    let mut v = str_chars("The weather in ");
    append_str(&mut v, location);
    append_str(&mut v, " is sunny with a high of 25°C.");
    string_from_chars(v.as_slice())
}

} // verus!
