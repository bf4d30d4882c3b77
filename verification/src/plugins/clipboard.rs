//! Clipboard history mode (`clip`).
use vstd::prelude::*;
use vstd::utf8::{decode_utf8, encode_utf8, is_char_boundary};
use crate::plugins::{
    action_v, item_v, items_view, lemma_filter_map_step, lemma_take_all, lower_contains,
    strings_view, two_actions, Action, ResultItem, ResultItemView,
};
use crate::settings::AppSettings;
use crate::text::{byte_len, cat, contains, decimal, decimal_string, lit, lowercase, str_lower, to_chars};

verus! {

/// The clipboard history, oldest first.
pub struct ClipboardPlugin {
    history: Vec<String>,
}

impl ClipboardPlugin {
    /// An entry longer than fifty bytes can be cut after its first
    /// forty-seven bytes.
    #[verifier::type_invariant]
    spec fn cuttable(self) -> bool {
        forall|i: int|
            0 <= i < self.history@.len() ==> (byte_len(#[trigger] self.history@[i]@) > 50
                ==> is_char_boundary(encode_utf8(self.history@[i]@), 47))
    }
}

impl View for ClipboardPlugin {
    type V = Seq<Seq<char>>;

    closed spec fn view(&self) -> Seq<Seq<char>> {
        strings_view(self.history@)
    }
}

/// The title shown for an entry: entries longer than fifty bytes are cut
/// to their first forty-seven bytes and marked with `...`.
pub open spec fn clip_title(entry: Seq<char>) -> Seq<char> {
    if byte_len(entry) > 50 {
        decode_utf8(encode_utf8(entry).take(47)) + "..."@
    } else {
        entry
    }
}

pub open spec fn clip_item(entry: Seq<char>, i: nat) -> ResultItemView {
    item_v(
        "clip-"@ + decimal(i),
        clip_title(entry),
        Some("Clipboard History"@),
        Some("edit-paste-symbolic"@),
        "Clipboard"@,
        70,
        seq![
            action_v("Copy to Clipboard"@, "copy-to-clipboard"@, entry),
            action_v("Remove from History"@, "run-command"@, "echo 'Remove functionality not implemented'"@),
        ],
    )
}

/// The entries among the first `n` whose lower-cased text contains the
/// lower-cased query, each numbered by its position in the history.
pub open spec fn clip_results(history: Seq<Seq<char>>, q: Seq<char>, n: nat) -> Seq<ResultItemView>
    decreases n,
{
    if n == 0 {
        Seq::empty()
    } else {
        let k = (n - 1) as nat;
        clip_results(history, q, k) + (if contains(str_lower(history[k as int]), str_lower(q)) {
            seq![clip_item(history[k as int], k)]
        } else {
            Seq::empty()
        })
    }
}

impl ClipboardPlugin {
    pub fn new() -> (p: Self)
        ensures
            p@ == seq![
                "Example clipboard item 1"@,
                "https://github.com/vicinaehq/vicinae"@,
                "Spear Launcher is awesome!"@,
            ],
    {
        let history = vec![
            lit("Example clipboard item 1"),
            lit("https://github.com/vicinaehq/vicinae"),
            lit("Spear Launcher is awesome!"),
        ];
        proof {
            reveal_strlit("Example clipboard item 1");
            reveal_strlit("https://github.com/vicinaehq/vicinae");
            reveal_strlit("Spear Launcher is awesome!");
            assert forall|i: int| 0 <= i < history@.len() implies byte_len(#[trigger] history@[i]@) <= 50 by {
                let s = history@[i]@;
                assert(vstd::utf8::is_ascii_chars(s));
                vstd::utf8::is_ascii_chars_encode_utf8(s);
            }
        }
        let p = ClipboardPlugin { history };
        assert(p@ =~= seq![
            "Example clipboard item 1"@,
            "https://github.com/vicinaehq/vicinae"@,
            "Spear Launcher is awesome!"@,
        ]);
        p
    }

    pub fn id(&self) -> (r: &'static str)
        ensures
            r@ == "clipboard"@,
    {
        "clipboard"
    }

    pub fn name(&self) -> (r: &'static str)
        ensures
            r@ == "Clipboard Manager"@,
    {
        "Clipboard Manager"
    }

    pub fn mode_keyword(&self) -> (r: Option<&'static str>)
        ensures
            r matches Some(k) && k@ == "clip"@,
    {
        Some("clip")
    }

    pub fn is_mode_only(&self) -> (r: bool)
        ensures
            r,
    {
        true
    }

    pub fn query(&self, query_text: &str, _settings: &AppSettings) -> (r: Vec<ResultItem>)
        ensures
            items_view(r@) == clip_results(self@, query_text@, self@.len()),
    {
        proof {
            use_type_invariant(self);
        }
        let query_lower = to_chars(lowercase(query_text).as_str());
        let mut results: Vec<ResultItem> = Vec::new();
        let mut i: usize = 0;
        while i < self.history.len()
            invariant
                i <= self.history.len(),
                query_lower@ == str_lower(query_text@),
                items_view(results@) == clip_results(self@, query_text@, i as nat),
                forall|k: int|
                    0 <= k < self.history@.len() ==> (byte_len(#[trigger] self.history@[k]@) > 50
                        ==> is_char_boundary(encode_utf8(self.history@[k]@), 47)),
            decreases self.history.len() - i,
        {
            let item = &self.history[i];
            assert(self@[i as int] == item@);
            let ghost before = items_view(results@);
            if lower_contains(item.as_str(), &query_lower) {
                let title = if item.as_str().len() > 50 {
                    let (head, _) = item.as_str().split_at(47);
                    proof {
                        vstd::utf8::encode_utf8_decode_utf8(head@);
                    }
                    cat(head, "...")
                } else {
                    lit(item.as_str())
                };
                let entry = ResultItem {
                    id: cat("clip-", decimal_string(i).as_str()),
                    title,
                    subtitle: Some(lit("Clipboard History")),
                    icon: Some(lit("edit-paste-symbolic")),
                    category: lit("Clipboard"),
                    score: 70,
                    actions: two_actions(
                        Action::new(lit("Copy to Clipboard"), lit("copy-to-clipboard"), lit(item.as_str())),
                        Action::new(
                            lit("Remove from History"),
                            lit("run-command"),
                            lit("echo 'Remove functionality not implemented'"),
                        ),
                    ),
                };
                let ghost v = entry@;
                assert(v == clip_item(item@, i as nat));
                results.push(entry);
                assert(items_view(results@) =~= before.push(v));
            }
            i = i + 1;
        }
        results
    }
}

} // verus!
