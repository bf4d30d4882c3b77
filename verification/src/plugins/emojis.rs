//! Emoji picker mode (`emoji`).
use vstd::prelude::*;
use crate::plugins::{
    action_v, item_v, items_view, lemma_filter_map_step, lemma_take_all, lower_contains,
    one_action, ResultItem, ResultItemView,
};
use crate::settings::AppSettings;
use crate::text::{cat, cat3, contains, lit, lowercase, str_lower, to_chars};

verus! {

pub struct EmojiPlugin;

pub type Triple = (Seq<char>, Seq<char>, Seq<char>);

/// The emojis offered, as (name, emoji, tags).
pub open spec fn emoji_table() -> Seq<Triple> {
    seq![
        ("Grinning Face"@, "😀"@, "smile, happy"@),
        ("Smiling Face with Heart-Eyes"@, "😍"@, "love, heart"@),
        ("Laughing"@, "😂"@, "lol, haha"@),
        ("Thumbs Up"@, "👍"@, "yes, ok"@),
        ("Sparkles"@, "✨"@, "magic, shiny"@),
        ("Rocket"@, "🚀"@, "fast, start"@),
        ("Fire"@, "🔥"@, "hot, lit"@),
        ("Party Popper"@, "🎉"@, "celebrate, party"@),
        ("Heart"@, "❤️"@, "love"@),
        ("Check Mark"@, "✅"@, "done, correct"@),
    ]
}

pub open spec fn triples_view(v: Seq<(&str, &str, &str)>) -> Seq<Triple> {
    v.map_values(|p: (&str, &str, &str)| (p.0@, p.1@, p.2@))
}

pub open spec fn emoji_item(name: Seq<char>, emoji: Seq<char>) -> ResultItemView {
    item_v(
        "emoji-"@ + name,
        emoji + " "@ + name,
        Some("Emoji"@),
        None,
        "Emojis"@,
        85,
        seq![action_v("Copy Emoji"@, "copy-to-clipboard"@, emoji)],
    )
}

pub open spec fn emoji_pick(q: Seq<char>) -> spec_fn(Triple) -> Option<ResultItemView> {
    |e: Triple|
        if contains(str_lower(e.0), str_lower(q)) || contains(str_lower(e.2), str_lower(q)) {
            Some(emoji_item(e.0, e.1))
        } else {
            None
        }
}

/// The emojis whose name or tags contain the query, ignoring case.
pub open spec fn emoji_results(q: Seq<char>) -> Seq<ResultItemView> {
    emoji_table().filter_map(emoji_pick(q))
}

impl EmojiPlugin {
    pub fn new() -> Self {
        EmojiPlugin
    }

    pub fn id(&self) -> (r: &'static str)
        ensures
            r@ == "emojis"@,
    {
        "emojis"
    }

    pub fn name(&self) -> (r: &'static str)
        ensures
            r@ == "Emoji Picker"@,
    {
        "Emoji Picker"
    }

    pub fn mode_keyword(&self) -> (r: Option<&'static str>)
        ensures
            r matches Some(k) && k@ == "emoji"@,
    {
        Some("emoji")
    }

    pub fn is_mode_only(&self) -> (r: bool)
        ensures
            r,
    {
        true
    }

    /// The emojis, as (name, emoji, tags).
    pub fn get_emojis(&self) -> (v: Vec<(&'static str, &'static str, &'static str)>)
        ensures
            triples_view(v@) == emoji_table(),
    {
        let v = vec![
            ("Grinning Face", "😀", "smile, happy"),
            ("Smiling Face with Heart-Eyes", "😍", "love, heart"),
            ("Laughing", "😂", "lol, haha"),
            ("Thumbs Up", "👍", "yes, ok"),
            ("Sparkles", "✨", "magic, shiny"),
            ("Rocket", "🚀", "fast, start"),
            ("Fire", "🔥", "hot, lit"),
            ("Party Popper", "🎉", "celebrate, party"),
            ("Heart", "❤️", "love"),
            ("Check Mark", "✅", "done, correct"),
        ];
        assert(triples_view(v@) =~= emoji_table());
        v
    }

    pub fn query(&self, query_text: &str, _settings: &AppSettings) -> (r: Vec<ResultItem>)
        ensures
            items_view(r@) == emoji_results(query_text@),
    {
        let query_lower = to_chars(lowercase(query_text).as_str());
        let table = self.get_emojis();
        let mut results: Vec<ResultItem> = Vec::new();
        let mut i: usize = 0;
        while i < table.len()
            invariant
                i <= table.len(),
                triples_view(table@) == emoji_table(),
                query_lower@ == str_lower(query_text@),
                items_view(results@) == emoji_table().take(i as int).filter_map(emoji_pick(query_text@)),
            decreases table.len() - i,
        {
            let (name, emoji, tags) = table[i];
            let ghost before = items_view(results@);
            if lower_contains(name, &query_lower) || lower_contains(tags, &query_lower) {
                results.push(
                    ResultItem {
                        id: cat("emoji-", name),
                        title: cat3(emoji, " ", name),
                        subtitle: Some(lit("Emoji")),
                        icon: None,
                        category: lit("Emojis"),
                        score: 85,
                        actions: one_action(lit("Copy Emoji"), lit("copy-to-clipboard"), lit(emoji)),
                    },
                );
            }
            proof {
                lemma_filter_map_step(emoji_table(), i as int, emoji_pick(query_text@));
                assert(emoji_table()[i as int] == (name@, emoji@, tags@));
                if emoji_pick(query_text@)(emoji_table()[i as int]) is Some {
                    assert(items_view(results@) =~= before.push(emoji_item(name@, emoji@)));
                } else {
                    assert(items_view(results@) =~= before);
                }
                assert(items_view(results@) =~= emoji_table().take(i + 1).filter_map(emoji_pick(query_text@)));
            }
            i = i + 1;
        }
        proof {
            lemma_take_all(emoji_table());
        }
        results
    }
}

} // verus!
