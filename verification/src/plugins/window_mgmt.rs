//! Window management mode (`win`): tiling and window actions.
use vstd::prelude::*;
use crate::plugins::emojis::{triples_view, Triple};
use crate::plugins::{
    action_v, item_v, items_view, lemma_filter_map_step, lemma_take_all, lower_contains,
    one_action, ResultItem, ResultItemView,
};
use crate::settings::AppSettings;
use crate::text::{
    cat, cat3, contains, from_chars, lit, lower_chars, lowercase, replace_char, replace_char_with,
    str_lower, to_chars,
};

verus! {

pub struct WindowManagementPlugin;

/// The window actions, as (name, description, shortcut).
pub open spec fn window_actions() -> Seq<Triple> {
    seq![
        ("Tile Left"@, "Split window to the left half"@, "Super+Left"@),
        ("Tile Right"@, "Split window to the right half"@, "Super+Right"@),
        ("Maximize"@, "Make window fullscreen"@, "Super+Up"@),
        ("Minimize"@, "Hide window"@, "Super+H"@),
        ("Close Window"@, "Close the active window"@, "Alt+F4"@),
        ("Center Window"@, "Move window to center"@, ""@),
    ]
}

pub open spec fn window_item(name: Seq<char>, desc: Seq<char>, shortcut: Seq<char>) -> ResultItemView {
    item_v(
        "win-"@ + replace_char(str_lower(name), ' ', "-"@),
        name,
        Some(
            desc + " "@ + (if shortcut.len() == 0 {
                Seq::<char>::empty()
            } else {
                "("@ + shortcut + ")"@
            }),
        ),
        Some("window-new-symbolic"@),
        "Window Management"@,
        100,
        seq![action_v("Apply Layout"@, "run-command"@, "echo 'Tiling action "@ + name + " triggered'"@)],
    )
}

pub open spec fn window_pick(q: Seq<char>) -> spec_fn(Triple) -> Option<ResultItemView> {
    |w: Triple|
        if contains(str_lower(w.0), str_lower(q)) || contains(str_lower(w.1), str_lower(q)) {
            Some(window_item(w.0, w.1, w.2))
        } else {
            None
        }
}

/// The actions whose name or description contains the query, ignoring case.
pub open spec fn window_results(q: Seq<char>) -> Seq<ResultItemView> {
    window_actions().filter_map(window_pick(q))
}

impl WindowManagementPlugin {
    pub fn new() -> Self {
        WindowManagementPlugin
    }

    pub fn id(&self) -> (r: &'static str)
        ensures
            r@ == "window-mgmt"@,
    {
        "window-mgmt"
    }

    pub fn name(&self) -> (r: &'static str)
        ensures
            r@ == "Window Management"@,
    {
        "Window Management"
    }

    pub fn mode_keyword(&self) -> (r: Option<&'static str>)
        ensures
            r matches Some(k) && k@ == "win"@,
    {
        Some("win")
    }

    pub fn is_mode_only(&self) -> (r: bool)
        ensures
            r,
    {
        true
    }

    pub fn query(&self, query_text: &str, _settings: &AppSettings) -> (r: Vec<ResultItem>)
        ensures
            items_view(r@) == window_results(query_text@),
    {
        let table = vec![
            ("Tile Left", "Split window to the left half", "Super+Left"),
            ("Tile Right", "Split window to the right half", "Super+Right"),
            ("Maximize", "Make window fullscreen", "Super+Up"),
            ("Minimize", "Hide window", "Super+H"),
            ("Close Window", "Close the active window", "Alt+F4"),
            ("Center Window", "Move window to center", ""),
        ];
        assert(triples_view(table@) =~= window_actions());
        let query_lower = to_chars(lowercase(query_text).as_str());
        let dash = to_chars("-");
        let mut results: Vec<ResultItem> = Vec::new();
        let mut i: usize = 0;
        while i < table.len()
            invariant
                i <= table.len(),
                triples_view(table@) == window_actions(),
                query_lower@ == str_lower(query_text@),
                dash@ == "-"@,
                items_view(results@) == window_actions().take(i as int).filter_map(
                    window_pick(query_text@),
                ),
            decreases table.len() - i,
        {
            let (name, desc, shortcut) = table[i];
            let ghost before = items_view(results@);
            if lower_contains(name, &query_lower) || lower_contains(desc, &query_lower) {
                let slug = replace_char_with(&lower_chars(&to_chars(name)), ' ', &dash);
                let slug = from_chars(slug.as_slice());
                let mut subtitle = cat(desc, " ");
                if !shortcut.is_empty() {
                    subtitle.append("(");
                    subtitle.append(shortcut);
                    subtitle.append(")");
                }
                assert(subtitle@ =~= desc@ + " "@ + (if shortcut@.len() == 0 {
                    Seq::<char>::empty()
                } else {
                    "("@ + shortcut@ + ")"@
                }));
                results.push(
                    ResultItem {
                        id: cat("win-", slug.as_str()),
                        title: lit(name),
                        subtitle: Some(subtitle),
                        icon: Some(lit("window-new-symbolic")),
                        category: lit("Window Management"),
                        score: 100,
                        actions: one_action(
                            lit("Apply Layout"),
                            lit("run-command"),
                            cat3("echo 'Tiling action ", name, " triggered'"),
                        ),
                    },
                );
            }
            proof {
                lemma_filter_map_step(window_actions(), i as int, window_pick(query_text@));
                assert(window_actions()[i as int] == (name@, desc@, shortcut@));
                if window_pick(query_text@)(window_actions()[i as int]) is Some {
                                        assert(items_view(results@) =~= before.push(window_item(name@, desc@, shortcut@)));
                } else {
                    assert(items_view(results@) =~= before);
                }
            }
            i = i + 1;
        }
        proof {
            lemma_take_all(window_actions());
        }
        results
    }
}

} // verus!
