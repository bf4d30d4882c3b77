//! YouTube search.
use vstd::prelude::*;
use crate::plugins::web::spec_url_encode;
use crate::plugins::{action_v, item_v, items_view, one_action, ResultItem, ResultItemView};
use crate::settings::AppSettings;
use crate::text::{cat, cat3, from_chars, lit, trim, trim_str};

verus! {

pub struct YouTubeSearchPlugin;

/// Percent-encodes `input` for a URL query (the same encoding as web search).
pub fn url_encode(input: &str) -> (r: String)
    ensures
        r@ == spec_url_encode(input@),
{
    crate::plugins::web::url_encode(input)
}

/// The configured results URL, or YouTube's own when none is configured.
pub open spec fn results_url(configured: Seq<char>) -> Seq<char> {
    if configured.len() == 0 {
        "https://youtube.com/results?search_query="@
    } else {
        configured
    }
}

/// One YouTube search for the trimmed query; nothing for a blank query.
pub open spec fn youtube_results(query: Seq<char>, configured_url: Seq<char>) -> Seq<ResultItemView> {
    let q = trim(query);
    if q.len() == 0 {
        Seq::empty()
    } else {
        seq![
            item_v(
                "youtube-search"@,
                "Search YouTube for '"@ + q + "'"@,
                Some("Search and watch videos on YouTube"@),
                Some("youtube.svg"@),
                "YouTube Search"@,
                35,
                seq![action_v("Search YouTube"@, "open-url"@, results_url(configured_url) + spec_url_encode(q))],
            ),
        ]
    }
}

impl YouTubeSearchPlugin {
    pub fn new() -> Self {
        YouTubeSearchPlugin
    }

    pub fn id(&self) -> (r: &'static str)
        ensures
            r@ == "youtube"@,
    {
        "youtube"
    }

    pub fn name(&self) -> (r: &'static str)
        ensures
            r@ == "YouTube Search"@,
    {
        "YouTube Search"
    }

    /// This provider answers every query: it has no mode keyword.
    pub fn mode_keyword(&self) -> (r: Option<&'static str>)
        ensures
            r is None,
    {
        None
    }

    /// This provider is not limited to a mode.
    pub fn is_mode_only(&self) -> (r: bool)
        ensures
            !r,
    {
        false
    }

    pub fn query(&self, query_text: &str, settings: &AppSettings) -> (r: Vec<ResultItem>)
        ensures
            items_view(r@) == youtube_results(query_text@, settings.youtube_url@),
    {
        let t = trim_str(query_text);
        if t.len() == 0 {
            return Vec::new();
        }
        let q = from_chars(t.as_slice());
        let encoded = url_encode(q.as_str());
        let base_url = if settings.youtube_url.as_str().is_empty() {
            lit("https://youtube.com/results?search_query=")
        } else {
            lit(settings.youtube_url.as_str())
        };
        let r = vec![
            ResultItem {
                id: lit("youtube-search"),
                title: cat3("Search YouTube for '", q.as_str(), "'"),
                subtitle: Some(lit("Search and watch videos on YouTube")),
                icon: Some(lit("youtube.svg")),
                category: lit("YouTube Search"),
                score: 35,
                actions: one_action(lit("Search YouTube"), lit("open-url"), cat(base_url.as_str(), encoded.as_str())),
            },
        ];
        assert(items_view(r@) =~= youtube_results(query_text@, settings.youtube_url@));
        r
    }
}

} // verus!
