//! Web search: the configured engine, GitHub and DuckDuckGo.
use vstd::prelude::*;
use crate::plugins::{action_v, item_v, items_view, one_action, ResultItem, ResultItemView};
use crate::settings::AppSettings;
use crate::text::{cat, cat3, from_chars, lit, to_chars, trim, trim_str};

verus! {

pub struct WebSearchPlugin;

/// Bytes written as themselves: ASCII letters, digits and `-` `_` `.` `~`.
pub open spec fn is_unreserved(b: u8) -> bool {
    (0x61 <= b <= 0x7a) || (0x41 <= b <= 0x5a) || (0x30 <= b <= 0x39) || b == 0x2d || b == 0x5f
        || b == 0x2e || b == 0x7e
}

/// Upper-case hexadecimal digit of `d` (`d < 16`).
pub open spec fn hex_digit(d: u8) -> char {
    if d < 10 {
        crate::text::digit_char(d as int)
    } else if d == 10 {
        'A'
    } else if d == 11 {
        'B'
    } else if d == 12 {
        'C'
    } else if d == 13 {
        'D'
    } else if d == 14 {
        'E'
    } else {
        'F'
    }
}

/// How one byte is written in a query string.
pub open spec fn encode_byte(b: u8) -> Seq<char> {
    if is_unreserved(b) {
        seq![b as char]
    } else if b == 0x20 {
        seq!['+']
    } else {
        seq!['%', hex_digit(b / 16), hex_digit(b % 16)]
    }
}

/// The query-string form of a byte sequence.
pub open spec fn url_encoded(bytes: Seq<u8>) -> Seq<char>
    decreases bytes.len(),
{
    if bytes.len() == 0 {
        Seq::empty()
    } else {
        url_encoded(bytes.drop_last()) + encode_byte(bytes.last())
    }
}

/// The query-string form of text: its UTF-8 bytes, encoded.
pub open spec fn spec_url_encode(s: Seq<char>) -> Seq<char> {
    url_encoded(vstd::utf8::encode_utf8(s))
}

fn hex_char(d: u8) -> (c: char)
    requires
        d < 16,
    ensures
        c == hex_digit(d),
{
    if d < 10 {
        if d == 0 {
            '0'
        } else if d == 1 {
            '1'
        } else if d == 2 {
            '2'
        } else if d == 3 {
            '3'
        } else if d == 4 {
            '4'
        } else if d == 5 {
            '5'
        } else if d == 6 {
            '6'
        } else if d == 7 {
            '7'
        } else if d == 8 {
            '8'
        } else {
            '9'
        }
    } else if d == 10 {
        'A'
    } else if d == 11 {
        'B'
    } else if d == 12 {
        'C'
    } else if d == 13 {
        'D'
    } else if d == 14 {
        'E'
    } else {
        'F'
    }
}

/// Percent-encodes `input` for a URL query: unreserved bytes stay, a space
/// becomes `+`, every other byte becomes `%XX`.
pub fn url_encode(input: &str) -> (r: String)
    ensures
        r@ == spec_url_encode(input@),
{
    let bytes = input.as_bytes();
    let mut out: Vec<char> = Vec::new();
    let mut i: usize = 0;
    while i < bytes.len()
        invariant
            i <= bytes.len(),
            bytes@ == vstd::utf8::encode_utf8(input@),
            out@ == url_encoded(bytes@.take(i as int)),
        decreases bytes.len() - i,
    {
        let b = bytes[i];
        let ghost before = out@;
        if (0x61 <= b && b <= 0x7a) || (0x41 <= b && b <= 0x5a) || (0x30 <= b && b <= 0x39) || b
            == 0x2d || b == 0x5f || b == 0x2e || b == 0x7e {
            out.push(b as char);
        } else if b == 0x20 {
            out.push('+');
        } else {
            out.push('%');
            out.push(hex_char(b / 16));
            out.push(hex_char(b % 16));
        }
        proof {
            let t = bytes@.take(i + 1);
            assert(t.drop_last() =~= bytes@.take(i as int));
            assert(t.last() == b);
            assert(out@ =~= before + encode_byte(b));
        }
        i = i + 1;
    }
    assert(bytes@.take(bytes@.len() as int) =~= bytes@);
    from_chars(out.as_slice())
}

/// The configured engine URL, or Google's when none is configured.
pub open spec fn engine_url(configured: Seq<char>) -> Seq<char> {
    if configured.len() == 0 {
        "https://google.com/search?q="@
    } else {
        configured
    }
}

/// Three searches for the trimmed query: the configured engine, GitHub and
/// DuckDuckGo; nothing for a blank query.
pub open spec fn web_results(query: Seq<char>, configured_url: Seq<char>) -> Seq<ResultItemView> {
    let q = trim(query);
    let enc = spec_url_encode(q);
    if q.len() == 0 {
        Seq::empty()
    } else {
        seq![
            item_v(
                "web-custom"@,
                "Search Web for '"@ + q + "'"@,
                Some("Search using configured engine URL"@),
                Some("google.svg"@),
                "Web Search"@,
                50,
                seq![action_v("Search Web"@, "open-url"@, engine_url(configured_url) + enc)],
            ),
            item_v(
                "web-github"@,
                "Search GitHub for '"@ + q + "'"@,
                Some("Search repositories and code on GitHub"@),
                Some("github.svg"@),
                "Web Search"@,
                45,
                seq![action_v("Search GitHub"@, "open-url"@, "https://github.com/search?q="@ + enc)],
            ),
            item_v(
                "web-duckduckgo"@,
                "Search DuckDuckGo for '"@ + q + "'"@,
                Some("Search privately with DuckDuckGo"@),
                Some("duckduckgo.svg"@),
                "Web Search"@,
                40,
                seq![action_v("Search DuckDuckGo"@, "open-url"@, "https://duckduckgo.com/?q="@ + enc)],
            ),
        ]
    }
}

impl WebSearchPlugin {
    pub fn new() -> Self {
        WebSearchPlugin
    }

    pub fn id(&self) -> (r: &'static str)
        ensures
            r@ == "web"@,
    {
        "web"
    }

    pub fn name(&self) -> (r: &'static str)
        ensures
            r@ == "Web Search"@,
    {
        "Web Search"
    }

    /// This provider answers every query: it has no mode keyword.
    pub fn mode_keyword(&self) -> (r: Option<&'static str>)
        ensures
            r is None,
    {
        None
    }

    /// This provider is not limited to a mode.
    pub fn is_mode_only(&self) -> (r: bool)
        ensures
            !r,
    {
        false
    }

    pub fn query(&self, query_text: &str, settings: &AppSettings) -> (r: Vec<ResultItem>)
        ensures
            items_view(r@) == web_results(query_text@, settings.web_custom_url@),
    {
        let t = trim_str(query_text);
        if t.len() == 0 {
            return Vec::new();
        }
        let q = from_chars(t.as_slice());
        let encoded = url_encode(q.as_str());
        let custom_url = if settings.web_custom_url.as_str().is_empty() {
            lit("https://google.com/search?q=")
        } else {
            lit(settings.web_custom_url.as_str())
        };
        let r = vec![
            ResultItem {
                id: lit("web-custom"),
                title: cat3("Search Web for '", q.as_str(), "'"),
                subtitle: Some(lit("Search using configured engine URL")),
                icon: Some(lit("google.svg")),
                category: lit("Web Search"),
                score: 50,
                actions: one_action(lit("Search Web"), lit("open-url"), cat(custom_url.as_str(), encoded.as_str())),
            },
            ResultItem {
                id: lit("web-github"),
                title: cat3("Search GitHub for '", q.as_str(), "'"),
                subtitle: Some(lit("Search repositories and code on GitHub")),
                icon: Some(lit("github.svg")),
                category: lit("Web Search"),
                score: 45,
                actions: one_action(
                    lit("Search GitHub"),
                    lit("open-url"),
                    cat("https://github.com/search?q=", encoded.as_str()),
                ),
            },
            ResultItem {
                id: lit("web-duckduckgo"),
                title: cat3("Search DuckDuckGo for '", q.as_str(), "'"),
                subtitle: Some(lit("Search privately with DuckDuckGo")),
                icon: Some(lit("duckduckgo.svg")),
                category: lit("Web Search"),
                score: 40,
                actions: one_action(
                    lit("Search DuckDuckGo"),
                    lit("open-url"),
                    cat("https://duckduckgo.com/?q=", encoded.as_str()),
                ),
            },
        ];
        assert(items_view(r@) =~= web_results(query_text@, settings.web_custom_url@));
        r
    }
}

} // verus!
