//! Window switcher mode (`sw`): the open windows listed by `wmctrl -l`.
use vstd::prelude::*;
use crate::plugins::{
    action_v, item_v, items_view, lemma_filter_map_step, lemma_take_all, lower_contains,
    two_actions, Action, ResultItem, ResultItemView,
};
use crate::text::{
    cat, contains, find_char, find_char_from, from_chars, lemma_find_char, lines, lines_of, lit,
    lowercase, same_chars, slice, str_lower, to_chars, trim, trim_chars,
};

verus! {

pub struct WindowSwitcherPlugin;

/// A `wmctrl -l` line: the window id, then (after two more fields) the
/// title; kept when the title is not blank and is not the launcher's own.
pub open spec fn window_entry(line: Seq<char>) -> Option<(Seq<char>, Seq<char>)> {
    match find_char(line, ' ') {
        None => None,
        Some(a) => {
            let r1 = line.skip(a + 1);
            match find_char(r1, ' ') {
                None => None,
                Some(b) => {
                    let r2 = r1.skip(b + 1);
                    match find_char(r2, ' ') {
                        None => None,
                        Some(c) => {
                            let title = trim(r2.skip(c + 1));
                            if title.len() > 0 && title != "Spear Launcher"@ {
                                Some((line.take(a), title))
                            } else {
                                None
                            }
                        },
                    }
                },
            }
        },
    }
}

pub open spec fn entry_pick() -> spec_fn(Seq<char>) -> Option<(Seq<char>, Seq<char>)> {
    |l: Seq<char>| window_entry(l)
}

/// The windows (id, title) listed in the output of `wmctrl -l`.
pub open spec fn open_windows(output: Seq<char>) -> Seq<(Seq<char>, Seq<char>)> {
    lines(output).filter_map(entry_pick())
}

pub open spec fn window_item(id: Seq<char>, title: Seq<char>) -> ResultItemView {
    item_v(
        "window-"@ + id,
        title,
        Some("Open Window"@),
        Some("window-new-symbolic"@),
        "Windows"@,
        95,
        seq![
            action_v("Switch to Window"@, "run-command"@, "wmctrl -i -a "@ + id),
            action_v("Close Window"@, "run-command"@, "wmctrl -i -c "@ + id),
        ],
    )
}

pub open spec fn switch_pick(q: Seq<char>) -> spec_fn((Seq<char>, Seq<char>)) -> Option<ResultItemView> {
    |w: (Seq<char>, Seq<char>)|
        if contains(str_lower(w.1), str_lower(q)) {
            Some(window_item(w.0, w.1))
        } else {
            None
        }
}

/// The windows whose title contains the query, ignoring case.
pub open spec fn switcher_results(windows: Seq<(Seq<char>, Seq<char>)>, q: Seq<char>) -> Seq<ResultItemView> {
    windows.filter_map(switch_pick(q))
}

pub open spec fn windows_view(v: Seq<(String, String)>) -> Seq<(Seq<char>, Seq<char>)> {
    v.map_values(|w: (String, String)| (w.0@, w.1@))
}

pub open spec fn lines_view(v: Seq<Vec<char>>) -> Seq<Seq<char>> {
    v.map_values(|l: Vec<char>| l@)
}

fn window_line(line: &Vec<char>) -> (r: Option<(String, String)>)
    ensures
        match (r, window_entry(line@)) {
            (Some((i, t)), Some((si, st))) => i@ == si && t@ == st,
            (None, None) => true,
            _ => false,
        },
{
    let a = match find_char_from(line, ' ', 0) {
        Some(a) => a,
        None => {
            assert(line@.skip(0) =~= line@);
            return None;
        },
    };
    assert(line@.skip(0) =~= line@);
    let ghost r1 = line@.skip(a + 1);
    let b = match find_char_from(line, ' ', a + 1) {
        Some(b) => b,
        None => return None,
    };
    let ghost r2 = r1.skip(b - a);
    assert(r2 =~= line@.skip(b + 1));
    let c = match find_char_from(line, ' ', b + 1) {
        Some(c) => c,
        None => return None,
    };
    assert(r2.skip(c - b) =~= line@.skip(c + 1));
    let title = trim_chars(&slice(line, c + 1, line.len()));
    assert(line@.subrange(c + 1, line@.len() as int) =~= line@.skip(c + 1));
    if title.len() == 0 || same_chars(&title, &to_chars("Spear Launcher")) {
        return None;
    }
    let id = slice(line, 0, a);
    assert(id@ =~= line@.take(a as int));
    Some((from_chars(id.as_slice()), from_chars(title.as_slice())))
}

impl WindowSwitcherPlugin {
    pub fn new() -> Self {
        WindowSwitcherPlugin
    }

    pub fn id(&self) -> (r: &'static str)
        ensures
            r@ == "window-switcher"@,
    {
        "window-switcher"
    }

    pub fn name(&self) -> (r: &'static str)
        ensures
            r@ == "Window Switcher"@,
    {
        "Window Switcher"
    }

    pub fn mode_keyword(&self) -> (r: Option<&'static str>)
        ensures
            r matches Some(k) && k@ == "sw"@,
    {
        Some("sw")
    }

    pub fn is_mode_only(&self) -> (r: bool)
        ensures
            r,
    {
        true
    }

    /// The (id, title) of each window listed in `wmctrl -l` output.
    pub fn parse_window_list(&self, output: &str) -> (r: Vec<(String, String)>)
        ensures
            windows_view(r@) == open_windows(output@),
    {
        let all = lines_of(&to_chars(output));
        let ghost ls = lines_view(all@);
        let mut r: Vec<(String, String)> = Vec::new();
        let mut i: usize = 0;
        while i < all.len()
            invariant
                i <= all.len(),
                ls == lines_view(all@),
                ls == lines(output@),
                windows_view(r@) == ls.take(i as int).filter_map(entry_pick()),
            decreases all.len() - i,
        {
            assert(ls[i as int] == all@[i as int]@);
            let ghost before = windows_view(r@);
            match window_line(&all[i]) {
                Some(w) => {
                    let ghost wv = (w.0@, w.1@);
                    r.push(w);
                    assert(windows_view(r@) =~= before.push(wv));
                },
                None => {},
            }
            proof {
                lemma_filter_map_step(ls, i as int, entry_pick());
            }
            i = i + 1;
        }
        proof {
            lemma_take_all(ls);
        }
        r
    }

    /// Results for the windows whose title contains the query.
    pub fn results(&self, windows: Vec<(String, String)>, query_text: &str) -> (r: Vec<ResultItem>)
        ensures
            items_view(r@) == switcher_results(windows_view(windows@), query_text@),
    {
        let query_lower = to_chars(lowercase(query_text).as_str());
        let ghost wv = windows_view(windows@);
        let mut results: Vec<ResultItem> = Vec::new();
        let mut i: usize = 0;
        while i < windows.len()
            invariant
                i <= windows.len(),
                wv == windows_view(windows@),
                query_lower@ == str_lower(query_text@),
                items_view(results@) == wv.take(i as int).filter_map(switch_pick(query_text@)),
            decreases windows.len() - i,
        {
            let (id, title) = (&windows[i].0, &windows[i].1);
            assert(wv[i as int] == (id@, title@));
            let ghost before = items_view(results@);
            if lower_contains(title.as_str(), &query_lower) {
                let actions = two_actions(
                    Action::new(lit("Switch to Window"), lit("run-command"), cat("wmctrl -i -a ", id.as_str())),
                    Action::new(lit("Close Window"), lit("run-command"), cat("wmctrl -i -c ", id.as_str())),
                );
                let item = ResultItem {
                    id: cat("window-", id.as_str()),
                    title: lit(title.as_str()),
                    subtitle: Some(lit("Open Window")),
                    icon: Some(lit("window-new-symbolic")),
                    category: lit("Windows"),
                    score: 95,
                    actions,
                };
                let ghost iv = item@;
                assert(iv == window_item(id@, title@));
                results.push(item);
                assert(items_view(results@) =~= before.push(iv));
            }
            proof {
                lemma_filter_map_step(wv, i as int, switch_pick(query_text@));
            }
            i = i + 1;
        }
        proof {
            lemma_take_all(wv);
        }
        results
    }
}

} // verus!
