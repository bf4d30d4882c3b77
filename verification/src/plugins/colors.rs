//! Colour palette mode (`color`): hex codes and a fixed set of named colours.
use vstd::prelude::*;
use crate::plugins::{
    actions_view, action_v, item_v, items_view, lower_contains, one_action, lemma_filter_map_step, lemma_take_all, ResultItem,
    ResultItemView,
};
use crate::settings::AppSettings;
use crate::text::{byte_len, cat, contains, lit, str_lower, to_chars, lowercase};

verus! {

pub struct ColorPalettePlugin;

/// The named colours, as (name, hex code).
pub open spec fn palette() -> Seq<(Seq<char>, Seq<char>)> {
    seq![
        ("White"@, "#FFFFFF"@),
        ("Black"@, "#000000"@),
        ("Red"@, "#FF0000"@),
        ("Green"@, "#00FF00"@),
        ("Blue"@, "#0000FF"@),
        ("Yellow"@, "#FFFF00"@),
        ("Cyan"@, "#00FFFF"@),
        ("Magenta"@, "#FF00FF"@),
        ("Spear Blue"@, "#61afef"@),
        ("Adwaita Blue"@, "#3584e4"@),
        ("Success Green"@, "#2ec27e"@),
        ("Warning Orange"@, "#f5c211"@),
        ("Error Red"@, "#e01b24"@),
    ]
}

pub open spec fn pairs_view(v: Seq<(&str, &str)>) -> Seq<(Seq<char>, Seq<char>)> {
    v.map_values(|p: (&str, &str)| (p.0@, p.1@))
}

/// The result offered for a query that looks like a hex code.
pub open spec fn hex_item(q: Seq<char>) -> ResultItemView {
    item_v(
        "color-hex-"@ + q,
        "Color: "@ + q,
        Some("Hex Code"@),
        Some("color-management-symbolic"@),
        "Colors"@,
        100,
        seq![action_v("Copy Hex Code"@, "copy-to-clipboard"@, q)],
    )
}

/// A query is taken for a hex code when it starts with `#` and is four or
/// seven bytes long.
pub open spec fn looks_like_hex(q: Seq<char>) -> bool {
    q.len() > 0 && q[0] == '#' && (byte_len(q) == 4 || byte_len(q) == 7)
}

pub open spec fn color_item(name: Seq<char>, hex: Seq<char>) -> ResultItemView {
    item_v(
        "color-"@ + name,
        name,
        Some(hex),
        Some("color-select-symbolic"@),
        "Colors"@,
        90,
        seq![action_v("Copy "@ + hex, "copy-to-clipboard"@, hex)],
    )
}

/// The named colours whose name or code contains the lower-cased query
/// (after lower-casing them too).
pub open spec fn color_matches(q: Seq<char>, colors: Seq<(Seq<char>, Seq<char>)>) -> Seq<ResultItemView> {
    colors.filter_map(color_pick(q))
}

pub open spec fn color_pick(q: Seq<char>) -> spec_fn((Seq<char>, Seq<char>)) -> Option<ResultItemView> {
    |c: (Seq<char>, Seq<char>)|
        if contains(str_lower(c.0), str_lower(q)) || contains(str_lower(c.1), str_lower(q)) {
            Some(color_item(c.0, c.1))
        } else {
            None
        }
}

pub open spec fn color_results(q: Seq<char>) -> Seq<ResultItemView> {
    (if looks_like_hex(q) {
        seq![hex_item(q)]
    } else {
        Seq::empty()
    }) + color_matches(q, palette())
}

impl ColorPalettePlugin {
    pub fn new() -> Self {
        ColorPalettePlugin
    }

    pub fn id(&self) -> (r: &'static str)
        ensures
            r@ == "colors"@,
    {
        "colors"
    }

    pub fn name(&self) -> (r: &'static str)
        ensures
            r@ == "Color Palette"@,
    {
        "Color Palette"
    }

    pub fn mode_keyword(&self) -> (r: Option<&'static str>)
        ensures
            r matches Some(k) && k@ == "color"@,
    {
        Some("color")
    }

    pub fn is_mode_only(&self) -> (r: bool)
        ensures
            r,
    {
        true
    }

    /// The named colours, as (name, hex code).
    pub fn get_predefined_colors(&self) -> (v: Vec<(&'static str, &'static str)>)
        ensures
            pairs_view(v@) == palette(),
    {
        let v = vec![
            ("White", "#FFFFFF"),
            ("Black", "#000000"),
            ("Red", "#FF0000"),
            ("Green", "#00FF00"),
            ("Blue", "#0000FF"),
            ("Yellow", "#FFFF00"),
            ("Cyan", "#00FFFF"),
            ("Magenta", "#FF00FF"),
            ("Spear Blue", "#61afef"),
            ("Adwaita Blue", "#3584e4"),
            ("Success Green", "#2ec27e"),
            ("Warning Orange", "#f5c211"),
            ("Error Red", "#e01b24"),
        ];
        assert(pairs_view(v@) =~= palette());
        v
    }

    /// A hex-code result when the query looks like one, then every named
    /// colour that matches the query.
    pub fn query(&self, query_text: &str, _settings: &AppSettings) -> (r: Vec<ResultItem>)
        ensures
            items_view(r@) == color_results(query_text@),
    {
        let q = to_chars(query_text);
        let query_lower = to_chars(lowercase(query_text).as_str());
        let mut results: Vec<ResultItem> = Vec::new();
        let n = query_text.len();
        if q.len() > 0 && q[0] == '#' && (n == 4 || n == 7) {
            results.push(
                ResultItem {
                    id: cat("color-hex-", query_text),
                    title: cat("Color: ", query_text),
                    subtitle: Some(lit("Hex Code")),
                    icon: Some(lit("color-management-symbolic")),
                    category: lit("Colors"),
                    score: 100,
                    actions: one_action(lit("Copy Hex Code"), lit("copy-to-clipboard"), lit(query_text)),
                },
            );
        }
        proof {
            if looks_like_hex(q@) {
                assert(results@.len() == 1);
                assert(results@[0]@.id == hex_item(q@).id);
                assert(results@[0]@.actions == hex_item(q@).actions);
                assert(results@[0]@ == hex_item(q@));
            } else {
                assert(results@.len() == 0);
            }
        }
        let ghost head = items_view(results@);
        assert(head == (if looks_like_hex(q@) { seq![hex_item(q@)] } else { Seq::<ResultItemView>::empty() })) by {
            assert(items_view(results@) =~= (if looks_like_hex(q@) { seq![hex_item(q@)] } else { Seq::<ResultItemView>::empty() }));
        }
        let colors = self.get_predefined_colors();
        let mut i: usize = 0;
        while i < colors.len()
            invariant
                i <= colors.len(),
                pairs_view(colors@) == palette(),
                query_lower@ == str_lower(query_text@),
                items_view(results@) == head + color_matches(query_text@, palette().take(i as int)),
            decreases colors.len() - i,
        {
            let (name, hex) = colors[i];
            let ghost before = items_view(results@);
            if lower_contains(name, &query_lower) || lower_contains(hex, &query_lower) {
                results.push(
                    ResultItem {
                        id: cat("color-", name),
                        title: lit(name),
                        subtitle: Some(lit(hex)),
                        icon: Some(lit("color-select-symbolic")),
                        category: lit("Colors"),
                        score: 90,
                        actions: one_action(cat("Copy ", hex), lit("copy-to-clipboard"), lit(hex)),
                    },
                );
            }
            proof {
                lemma_filter_map_step(palette(), i as int, color_pick(query_text@));
                assert(palette()[i as int] == (name@, hex@));
                if color_pick(query_text@)(palette()[i as int]) is Some {
                    assert(items_view(results@) =~= before.push(color_item(name@, hex@)));
                } else {
                    assert(items_view(results@) =~= before);
                }
                assert(items_view(results@) =~= head + color_matches(query_text@, palette().take(i + 1)));
            }
            i = i + 1;
        }
        proof {
            lemma_take_all(palette());
        }
        results
    }
}

} // verus!
