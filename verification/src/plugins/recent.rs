//! Recently used files, as GTK's recent-files list reports them.
use vstd::prelude::*;
use crate::plugins::ranking::{firsts, pair_view, sort_by_rank, sort_ranked, Ranked};
use crate::plugins::{
    action_v, item_v, items_view, lemma_filter_map_step, lemma_take_all, one_action, ResultItem,
    ResultItemView,
};
use crate::text::{
    cat, contains, from_chars, has_prefix, has_substring, lit, lower_chars, replace_all,
    replace_text, same_chars, starts_with, str_lower, to_chars, trim, trim_str,
};

verus! {

pub struct RecentFilesPlugin;

/// One entry of the recent-files list.
#[derive(Debug)]
pub struct RecentInfo {
    pub display_name: String,
    pub uri: String,
    pub mime_type: String,
}

pub struct RecentInfoView {
    pub display_name: Seq<char>,
    pub uri: Seq<char>,
    pub mime_type: Seq<char>,
}

impl View for RecentInfo {
    type V = RecentInfoView;

    open spec fn view(&self) -> RecentInfoView {
        RecentInfoView { display_name: self.display_name@, uri: self.uri@, mime_type: self.mime_type@ }
    }
}

pub open spec fn recents_view(v: Seq<RecentInfo>) -> Seq<RecentInfoView> {
    v.map_values(|r: RecentInfo| r@)
}

/// The symbolic icon for a MIME type.
pub open spec fn mime_icon(mime: Seq<char>) -> Seq<char> {
    if mime == "inode/directory"@ {
        "folder-symbolic"@
    } else if starts_with(mime, "image/"@) {
        "image-x-generic-symbolic"@
    } else if starts_with(mime, "audio/"@) {
        "audio-x-generic-symbolic"@
    } else if starts_with(mime, "video/"@) {
        "video-x-generic-symbolic"@
    } else if contains(mime, "pdf"@) {
        "x-office-document-symbolic"@
    } else if starts_with(mime, "text/"@) || contains(mime, "json"@) || contains(mime, "javascript"@)
        || contains(mime, "python"@) {
        "text-x-generic-symbolic"@
    } else if contains(mime, "compressed"@) || contains(mime, "archive"@) || contains(mime, "zip"@)
        || contains(mime, "tar"@) {
        "package-x-generic-symbolic"@
    } else {
        "text-x-generic-symbolic"@
    }
}

/// An exact (lower-cased) name ranks first, then a prefix.
pub open spec fn recent_score(name_lower: Seq<char>, q: Seq<char>) -> i32 {
    if name_lower == q {
        75
    } else if starts_with(name_lower, q) {
        65
    } else {
        45
    }
}

/// The location shown under a recent file: its URI without `file://` and
/// with `%20` read as a space.
pub open spec fn shown_location(uri: Seq<char>) -> Seq<char> {
    replace_all(replace_all(uri, "file://"@, ""@), "%20"@, " "@)
}

pub open spec fn recent_item(r: RecentInfoView, q: Seq<char>) -> ResultItemView {
    item_v(
        "recent-"@ + r.uri,
        r.display_name,
        Some(shown_location(r.uri)),
        Some(mime_icon(r.mime_type)),
        "Recent Files"@,
        recent_score(str_lower(r.display_name), q),
        seq![action_v("Open File"@, "open-url"@, r.uri)],
    )
}

pub open spec fn recent_pick(q: Seq<char>) -> spec_fn(RecentInfoView) -> Option<Ranked> {
    |r: RecentInfoView|
        if contains(str_lower(r.display_name), q) {
            Some((recent_item(r, q), r.display_name))
        } else {
            None
        }
}

/// The recent files whose name contains the query (ignoring case), ranked
/// by score then name, at most ten; none for a blank query.
pub open spec fn recent_results(query: Seq<char>, items: Seq<RecentInfoView>) -> Seq<ResultItemView> {
    let t = trim(query);
    if t.len() == 0 {
        Seq::empty()
    } else {
        let ranked = firsts(sort_ranked(items.filter_map(recent_pick(str_lower(t)))));
        if ranked.len() > 10 {
            ranked.take(10)
        } else {
            ranked
        }
    }
}

fn icon_for_mime(mime: &Vec<char>) -> (r: &'static str)
    ensures
        r@ == mime_icon(mime@),
{
    if same_chars(mime, &to_chars("inode/directory")) {
        "folder-symbolic"
    } else if has_prefix(mime, &to_chars("image/")) {
        "image-x-generic-symbolic"
    } else if has_prefix(mime, &to_chars("audio/")) {
        "audio-x-generic-symbolic"
    } else if has_prefix(mime, &to_chars("video/")) {
        "video-x-generic-symbolic"
    } else if has_substring(mime, &to_chars("pdf")) {
        "x-office-document-symbolic"
    } else if has_prefix(mime, &to_chars("text/")) || has_substring(mime, &to_chars("json"))
        || has_substring(mime, &to_chars("javascript")) || has_substring(mime, &to_chars("python")) {
        "text-x-generic-symbolic"
    } else if has_substring(mime, &to_chars("compressed")) || has_substring(
        mime,
        &to_chars("archive"),
    ) || has_substring(mime, &to_chars("zip")) || has_substring(mime, &to_chars("tar")) {
        "package-x-generic-symbolic"
    } else {
        "text-x-generic-symbolic"
    }
}

/// The location shown for `uri`.
pub fn location_of(uri: &str) -> (r: String)
    ensures
        r@ == shown_location(uri@),
{
    let scheme = to_chars("file://");
    let pct = to_chars("%20");
    proof {
        reveal_strlit("file://");
        reveal_strlit("%20");
    }
    let a = replace_text(&to_chars(uri), &scheme, &to_chars(""));
    let b = replace_text(&a, &pct, &to_chars(" "));
    from_chars(b.as_slice())
}

impl RecentFilesPlugin {
    pub fn new() -> Self {
        RecentFilesPlugin
    }

    pub fn id(&self) -> (r: &'static str)
        ensures
            r@ == "recent"@,
    {
        "recent"
    }

    pub fn name(&self) -> (r: &'static str)
        ensures
            r@ == "Recent Files"@,
    {
        "Recent Files"
    }

    /// This provider answers every query: it has no mode keyword.
    pub fn mode_keyword(&self) -> (r: Option<&'static str>)
        ensures
            r is None,
    {
        None
    }

    /// This provider is not limited to a mode.
    pub fn is_mode_only(&self) -> (r: bool)
        ensures
            !r,
    {
        false
    }

    /// The results for the recent-files list `items`.
    pub fn results(&self, query_text: &str, items: Vec<RecentInfo>) -> (r: Vec<ResultItem>)
        ensures
            items_view(r@) == recent_results(query_text@, recents_view(items@)),
    {
        let t = trim_str(query_text);
        if t.len() == 0 {
            return Vec::new();
        }
        let q = lower_chars(&t);
        let ghost iv = recents_view(items@);
        let ghost pick = recent_pick(q@);
        let mut ranked: Vec<(ResultItem, Vec<char>)> = Vec::new();
        let mut rest = items;
        let ghost mut done: int = 0;
        while rest.len() > 0
            invariant
                0 <= done <= iv.len(),
                recents_view(rest@) == iv.skip(done),
                pair_view(ranked@) == iv.take(done).filter_map(pick),
                pick == recent_pick(q@),
            decreases rest.len(),
        {
            let ghost rv = recents_view(rest@);
            let ghost before = pair_view(ranked@);
            let it = rest.remove(0);
            let ghost itv = it@;
            proof {
                assert(recents_view(rest@) =~= rv.drop_first());
                assert(rv[0] == itv);
                assert(iv.skip(done)[0] == iv[done]);
            }
            let name_lower = lower_chars(&to_chars(it.display_name.as_str()));
            if has_substring(&name_lower, &q) {
                let score = if same_chars(&name_lower, &q) {
                    75
                } else if has_prefix(&name_lower, &q) {
                    65
                } else {
                    45
                };
                let icon = icon_for_mime(&to_chars(it.mime_type.as_str()));
                let key = to_chars(it.display_name.as_str());
                let item = ResultItem {
                    id: cat("recent-", it.uri.as_str()),
                    title: it.display_name,
                    subtitle: Some(location_of(it.uri.as_str())),
                    icon: Some(lit(icon)),
                    category: lit("Recent Files"),
                    score,
                    actions: one_action(lit("Open File"), lit("open-url"), it.uri),
                };
                let ghost v = item@;
                assert(v == recent_item(itv, q@));
                ranked.push((item, key));
                assert(pair_view(ranked@) =~= before.push((v, itv.display_name)));
            }
            proof {
                lemma_filter_map_step(iv, done, pick);
                assert(pair_view(ranked@) =~= iv.take(done + 1).filter_map(pick));
                done = done + 1;
            }
        }
        proof {
            assert(iv.take(done) =~= iv);
        }
        let mut sorted = sort_by_rank(ranked);
        if sorted.len() > 10 {
            sorted.truncate(10);
            proof {
                assert(items_view(sorted@) =~= firsts(sort_ranked(iv.filter_map(pick))).take(10));
            }
        }
        sorted
    }
}

} // verus!
