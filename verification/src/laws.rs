//! Properties that hold across calls and inputs.
use vstd::prelude::*;
use vstd::utf8::encode_utf8;
use crate::plugin_manager::{
    ext_results, first_selecting, global_positions, is_global, selects, ExternalItemView,
    ExternalPluginView,
};
use crate::math::{
    number_end, spec_expression, spec_expression_rest, spec_factor, spec_number, spec_parse_math,
    spec_term, spec_term_rest, ws_end, BinOp, Expr,
};
use crate::plugins::calc::spec_calc_input;
use crate::text::{contains, is_ascii_digit, is_ws, starts_with, str_lower};
use crate::plugins::action_v;
use crate::plugins::file_manager::{
    entry_item, entry_pick, filter_of, spec_listing, up_item, DirEntryView,
};
use crate::plugins::files::{file_item, file_ranked, file_results};
use crate::plugins::gnome_sys::{gnome_item, gnome_pick, gnome_results, keyword_hit, GnomeActionView};
use crate::plugins::ranking::{firsts, is_ranked, lemma_sort_ranked, ranks_before, sort_ranked, Ranked};
use crate::plugins::recent::{recent_pick, recent_results, RecentInfoView};
use crate::plugins::run_cmd::command_results;
use crate::plugins::web::{encode_byte, hex_digit, spec_url_encode, url_encoded, web_results};
use crate::plugins::youtube::youtube_results;
use crate::plugins::files::FileMatchView;
use crate::text::{lemma_trim_idempotent, trim};

verus! {

// ---------------------------------------------------------------------------
// Surrounding whitespace does not matter
// ---------------------------------------------------------------------------

/// Web search answers a query exactly as it answers the trimmed query.
pub proof fn law_web_ignores_surrounding_whitespace(query: Seq<char>, url: Seq<char>)
    ensures
        web_results(query, url) == web_results(trim(query), url),
{
    lemma_trim_idempotent(query);
}

/// YouTube search answers a query exactly as it answers the trimmed query.
pub proof fn law_youtube_ignores_surrounding_whitespace(query: Seq<char>, url: Seq<char>)
    ensures
        youtube_results(query, url) == youtube_results(trim(query), url),
{
    lemma_trim_idempotent(query);
}

/// The command provider answers a query exactly as it answers the trimmed
/// query.
pub proof fn law_command_ignores_surrounding_whitespace(query: Seq<char>, prefix: Seq<char>)
    ensures
        command_results(query, prefix) == command_results(trim(query), prefix),
{
    lemma_trim_idempotent(query);
}

/// System controls answer a query exactly as they answer the trimmed query.
pub proof fn law_gnome_ignores_surrounding_whitespace(actions: Seq<GnomeActionView>, query: Seq<char>)
    ensures
        gnome_results(actions, query) == gnome_results(actions, trim(query)),
{
    lemma_trim_idempotent(query);
}

/// The calculator reads a query exactly as it reads the trimmed query.
pub proof fn law_calc_ignores_surrounding_whitespace(query: Seq<char>)
    ensures
        spec_calc_input(query) == spec_calc_input(trim(query)),
{
    lemma_trim_idempotent(query);
}

// ---------------------------------------------------------------------------
// Ranking
// ---------------------------------------------------------------------------

/// Scores never increase down a ranked list.
pub proof fn lemma_ranked_scores(s: Seq<Ranked>)
    requires
        is_ranked(s),
    ensures
        forall|i: int, j: int|
            0 <= i < j < s.len() ==> (#[trigger] s[i]).0.score >= (#[trigger] s[j]).0.score,
{
    assert forall|i: int, j: int| 0 <= i < j < s.len() implies (#[trigger] s[i]).0.score >= (
    #[trigger] s[j]).0.score by {
        assert(!ranks_before(s[j], s[i]));
    }
}

/// A file-manager listing shows higher scores first: the way up (200),
/// then folders (180), then files (170).
pub proof fn law_listing_by_score(
    dir: Seq<char>,
    parent: Option<Seq<char>>,
    entries: Seq<DirEntryView>,
    typed: Option<Seq<char>>,
)
    ensures
        ({
            let out = spec_listing(dir, parent, entries, typed);
            forall|i: int, j: int| 0 <= i < j < out.len() ==> (#[trigger] out[i]).score >= (#[trigger] out[j]).score
        }),
{
    let up = match parent {
        Some(p) => seq![(up_item(p), crate::text::str_lower(".."@))],
        None => Seq::<Ranked>::empty(),
    };
    let all = up + entries.filter_map(entry_pick(dir, filter_of(typed)));
    lemma_sort_ranked(all);
    lemma_ranked_scores(sort_ranked(all));
}

/// When the listed directory has a parent, the way up comes first.
pub proof fn law_listing_parent_first(
    dir: Seq<char>,
    parent: Seq<char>,
    entries: Seq<DirEntryView>,
    typed: Option<Seq<char>>,
)
    ensures
        spec_listing(dir, Some(parent), entries, typed).len() > 0,
        spec_listing(dir, Some(parent), entries, typed)[0] == up_item(parent),
{
    broadcast use vstd::seq_lib::group_to_multiset_ensures;

    let pick = entry_pick(dir, filter_of(typed));
    let rest = entries.filter_map(pick);
    let x = (up_item(parent), crate::text::str_lower(".."@));
    let all = seq![x] + rest;
    lemma_sort_ranked(all);
    let sorted = sort_ranked(all);
    assert(all[0] == x);
    assert(all.contains(x));
    assert(all.to_multiset().count(x) > 0);
    assert(sorted.to_multiset().count(x) > 0);
    assert(sorted.contains(x));
    let k = choose|k: int| 0 <= k < sorted.len() && sorted[k] == x;
    assert(sorted.len() > 0);
    if k != 0 {
        let y = sorted[0];
        assert(sorted.contains(y));
        assert(all.to_multiset().count(y) > 0);
        assert(all.contains(y));
        let m = choose|m: int| 0 <= m < all.len() && all[m] == y;
        if m == 0 {
            assert(y == x);
        } else {
            lemma_filter_map_members(entries, pick, m - 1);
            assert(y.0.score <= 180);
            assert(ranks_before(sorted[k], sorted[0]));
        }
    }
    assert(firsts(sorted)[0] == sorted[0].0);
}

/// Every element of a filtered-and-mapped sequence is the image of some
/// element of the source.
pub proof fn lemma_filter_map_members(entries: Seq<DirEntryView>, f: spec_fn(DirEntryView) -> Option<Ranked>, m: int)
    requires
        0 <= m < entries.filter_map(f).len(),
    ensures
        exists|i: int| 0 <= i < entries.len() && f(entries[i]) == Some(entries.filter_map(f)[m]),
    decreases entries.len(),
{
    let s = entries.filter_map(f);
    if entries.len() > 0 {
        let rest = entries.drop_last().filter_map(f);
        match f(entries.last()) {
            Some(v) => {
                if m < rest.len() {
                    lemma_filter_map_members(entries.drop_last(), f, m);
                    let i = choose|i: int| 0 <= i < entries.drop_last().len() && f(entries.drop_last()[i]) == Some(rest[m]);
                    assert(entries[i] == entries.drop_last()[i]);
                } else {
                    assert(f(entries[entries.len() - 1]) == Some(s[m]));
                }
            },
            None => {
                lemma_filter_map_members(entries.drop_last(), f, m);
                let i = choose|i: int| 0 <= i < entries.drop_last().len() && f(entries.drop_last()[i]) == Some(rest[m]);
                assert(entries[i] == entries.drop_last()[i]);
            },
        }
    }
}

/// File search shows at most twenty results.
pub proof fn law_files_at_most_twenty(query: Seq<char>, found: Seq<FileMatchView>)
    ensures
        file_results(query, found).len() <= 20,
{
}

/// Recent files shows at most ten results.
pub proof fn law_recent_at_most_ten(query: Seq<char>, items: Seq<RecentInfoView>)
    ensures
        recent_results(query, items).len() <= 10,
{
}

// ---------------------------------------------------------------------------
// Routing
// ---------------------------------------------------------------------------

/// The plugin a query is routed to by keyword is the first one whose
/// keyword and a space start the query; with none, no plugin's does.
pub proof fn law_route_first_keyword(ps: Seq<ExternalPluginView>, q: Seq<char>)
    ensures
        match first_selecting(ps, q) {
            Some(i) => 0 <= i < ps.len() && selects(ps[i].keyword, q) && forall|j: int|
                0 <= j < i ==> !selects(#[trigger] ps[j].keyword, q),
            None => forall|j: int| 0 <= j < ps.len() ==> !selects(#[trigger] ps[j].keyword, q),
        },
    decreases ps.len(),
{
    if ps.len() > 0 {
        let init = ps.drop_last();
        law_route_first_keyword(init, q);
        match first_selecting(init, q) {
            Some(i) => {
                assert forall|j: int| 0 <= j < i implies !selects(#[trigger] ps[j].keyword, q) by {
                    assert(ps[j] == init[j]);
                }
                assert(ps[i] == init[i]);
            },
            None => {
                assert forall|j: int| 0 <= j < ps.len() - 1 implies !selects(#[trigger] ps[j].keyword, q) by {
                    assert(ps[j] == init[j]);
                }
            },
        }
    }
}

/// The plugins that answer every query are exactly those without a
/// keyword, each listed once, in order.
pub proof fn law_global_positions(ps: Seq<ExternalPluginView>)
    requires
        ps.len() <= usize::MAX,
    ensures
        forall|k: int|
            0 <= k < global_positions(ps).len() ==> (#[trigger] global_positions(ps)[k]) < ps.len()
                && is_global(ps[global_positions(ps)[k] as int]),
        forall|i: int| 0 <= i < ps.len() && is_global(ps[i]) ==> global_positions(ps).contains(i as usize),
        forall|a: int, b: int|
            0 <= a < b < global_positions(ps).len() ==> global_positions(ps)[a] < global_positions(ps)[b],
    decreases ps.len(),
{
    if ps.len() > 0 {
        let init = ps.drop_last();
        law_global_positions(init);
        let g = global_positions(init);
        let n = ps.len() - 1;
        let gp = global_positions(ps);
        assert((n as usize) as int == n);
        let tail = if is_global(ps.last()) {
            seq![n as usize]
        } else {
            Seq::<usize>::empty()
        };
        assert(gp == g + tail);
        assert forall|k: int| 0 <= k < g.len() implies gp[k] == g[k] && g[k] < n by {}
        assert forall|k: int| g.len() <= k < gp.len() implies gp[k] == n as usize by {}
        assert forall|k: int|
            0 <= k < gp.len() implies (#[trigger] gp[k]) < ps.len() && is_global(ps[gp[k] as int]) by {
            if k < g.len() {
                assert(ps[g[k] as int] == init[g[k] as int]);
            }
        }
        assert forall|i: int| 0 <= i < ps.len() && is_global(ps[i]) implies gp.contains(i as usize) by {
            if i < n {
                assert(ps[i] == init[i]);
                assert(g.contains(i as usize));
                let k = choose|k: int| 0 <= k < g.len() && g[k] == i as usize;
                assert(gp[k] == i as usize);
            } else {
                assert(gp[g.len() as int] == i as usize);
            }
        }
        assert forall|x: int, y: int| 0 <= x < y < gp.len() implies gp[x] < gp[y] by {
            if y < g.len() {
                assert(g[x] < g[y]);
            }
        }
    }
}

/// An external plugin's output gives one result per item, in order, each
/// filed under the plugin's name.
pub proof fn law_external_one_result_per_item(p: ExternalPluginView, items: Seq<ExternalItemView>)
    ensures
        ext_results(p, items).len() == items.len(),
        forall|k: int| 0 <= k < items.len() ==> (#[trigger] ext_results(p, items)[k]).category == p.name,
{
}

// ---------------------------------------------------------------------------
// URL encoding
// ---------------------------------------------------------------------------

pub proof fn lemma_encode_utf8_concat(a: Seq<char>, b: Seq<char>)
    ensures
        encode_utf8(a + b) == encode_utf8(a) + encode_utf8(b),
    decreases a.len(),
{
    if a.len() == 0 {
        assert(a + b =~= b);
        assert(encode_utf8(a) + encode_utf8(b) =~= encode_utf8(b));
    } else {
        assert((a + b).drop_first() =~= a.drop_first() + b);
        assert((a + b)[0] == a[0]);
        lemma_encode_utf8_concat(a.drop_first(), b);
    }
}

pub proof fn lemma_url_encoded_concat(x: Seq<u8>, y: Seq<u8>)
    ensures
        url_encoded(x + y) == url_encoded(x) + url_encoded(y),
    decreases y.len(),
{
    if y.len() == 0 {
        assert(x + y =~= x);
        assert(url_encoded(x) + url_encoded(y) =~= url_encoded(x));
    } else {
        assert((x + y).drop_last() =~= x + y.drop_last());
        assert((x + y).last() == y.last());
        lemma_url_encoded_concat(x, y.drop_last());
    }
}

/// Encoding two pieces of text one after the other gives the encoding of
/// the whole text.
pub proof fn law_url_encode_concat(a: Seq<char>, b: Seq<char>)
    ensures
        spec_url_encode(a + b) == spec_url_encode(a) + spec_url_encode(b),
{
    lemma_encode_utf8_concat(a, b);
    lemma_url_encoded_concat(encode_utf8(a), encode_utf8(b));
}

/// Characters that may appear in an encoded query.
pub open spec fn url_safe(c: char) -> bool {
    ('a' <= c <= 'z') || ('A' <= c <= 'Z') || ('0' <= c <= '9') || c == '-' || c == '_' || c == '.'
        || c == '~' || c == '+' || c == '%'
}

proof fn lemma_url_encoded_safe(bytes: Seq<u8>)
    ensures
        forall|i: int| 0 <= i < url_encoded(bytes).len() ==> url_safe(#[trigger] url_encoded(bytes)[i]),
    decreases bytes.len(),
{
    if bytes.len() > 0 {
        lemma_url_encoded_safe(bytes.drop_last());
        let b = bytes.last();
        let e = encode_byte(b);
        assert forall|i: int| 0 <= i < e.len() implies url_safe(#[trigger] e[i]) by {
            if b / 16 < 10 {
                assert(hex_digit(b / 16) == crate::text::digit_char((b / 16) as int));
            }
            if b % 16 < 10 {
                assert(hex_digit(b % 16) == crate::text::digit_char((b % 16) as int));
            }
        }
        let prev = url_encoded(bytes.drop_last());
        assert forall|i: int| 0 <= i < url_encoded(bytes).len() implies url_safe(#[trigger] url_encoded(bytes)[i]) by {
            if i < prev.len() {
                assert(url_encoded(bytes)[i] == prev[i]);
            } else {
                assert(url_encoded(bytes)[i] == e[i - prev.len()]);
            }
        }
    }
}

/// An encoded query holds only unreserved characters, `+` and `%`-escapes:
/// no space, `&`, `=` or `#` can leak into the URL.
pub proof fn law_url_encode_safe(s: Seq<char>)
    ensures
        forall|i: int| 0 <= i < spec_url_encode(s).len() ==> url_safe(#[trigger] spec_url_encode(s)[i]),
{
    lemma_url_encoded_safe(encode_utf8(s));
}


/// An upper-case hexadecimal digit.
pub open spec fn is_upper_hex(c: char) -> bool {
    ('0' <= c <= '9') || ('A' <= c <= 'F')
}

/// The value of an upper-case hexadecimal digit.
pub open spec fn hex_value(c: char) -> int {
    if '0' <= c <= '9' {
        c as int - '0' as int
    } else {
        c as int - 'A' as int + 10
    }
}

/// Reads a query-string form back into bytes: `+` is a space, `%XY` the
/// byte 0xXY, and any other character its own byte.
pub open spec fn url_decoded(e: Seq<char>) -> Seq<u8>
    decreases e.len(),
{
    if e.len() == 0 {
        Seq::empty()
    } else if e[0] == '+' {
        seq![0x20u8] + url_decoded(e.skip(1))
    } else if e[0] == '%' && e.len() >= 3 {
        seq![(hex_value(e[1]) * 16 + hex_value(e[2])) as u8] + url_decoded(e.skip(3))
    } else {
        seq![e[0] as u8] + url_decoded(e.skip(1))
    }
}

proof fn lemma_hex_digit(d: u8)
    requires
        d < 16,
    ensures
        is_upper_hex(hex_digit(d)),
        hex_value(hex_digit(d)) == d,
{
    if d < 10 {
        assert(hex_digit(d) == crate::text::digit_char(d as int));
    }
}

proof fn lemma_decode_encoded_byte(b: u8, rest: Seq<char>)
    ensures
        url_decoded(encode_byte(b) + rest) == seq![b] + url_decoded(rest),
{
    let e = encode_byte(b) + rest;
    if crate::plugins::web::is_unreserved(b) {
        assert(e[0] == b as char);
        assert(e.skip(1) =~= rest);
    } else if b == 0x20 {
        assert(e[0] == '+');
        assert(e.skip(1) =~= rest);
    } else {
        lemma_hex_digit(b / 16);
        lemma_hex_digit(b % 16);
        assert(e[0] == '%');
        assert(e[1] == hex_digit(b / 16));
        assert(e[2] == hex_digit(b % 16));
        assert(e.skip(3) =~= rest);
        assert((b / 16) * 16 + b % 16 == b);
    }
}

proof fn lemma_url_encoded_front(x: Seq<u8>)
    requires
        x.len() > 0,
    ensures
        url_encoded(x) == encode_byte(x[0]) + url_encoded(x.drop_first()),
{
    let h = seq![x[0]];
    assert(h + x.drop_first() =~= x);
    lemma_url_encoded_concat(h, x.drop_first());
    let z = h.drop_last();
    assert(z.len() == 0);
    assert(url_encoded(z) =~= Seq::<char>::empty());
    assert(h.last() == x[0]);
    assert(url_encoded(h) =~= url_encoded(z) + encode_byte(x[0]));
    assert(url_encoded(h) =~= encode_byte(x[0]));
}

proof fn lemma_url_decoded_encoded(x: Seq<u8>)
    ensures
        url_decoded(url_encoded(x)) == x,
    decreases x.len(),
{
    if x.len() > 0 {
        lemma_url_encoded_front(x);
        lemma_decode_encoded_byte(x[0], url_encoded(x.drop_first()));
        lemma_url_decoded_encoded(x.drop_first());
        assert(seq![x[0]] + x.drop_first() =~= x);
    }
}

/// Reading an encoded query back gives exactly the UTF-8 bytes of the text.
pub proof fn law_url_encode_decodes(s: Seq<char>)
    ensures
        url_decoded(spec_url_encode(s)) == encode_utf8(s),
{
    lemma_url_decoded_encoded(encode_utf8(s));
}

proof fn lemma_url_encoded_escapes(bytes: Seq<u8>)
    ensures
        forall|i: int|
            0 <= i < url_encoded(bytes).len() && #[trigger] url_encoded(bytes)[i] == '%' ==> i + 2
                < url_encoded(bytes).len() && is_upper_hex(url_encoded(bytes)[i + 1]) && is_upper_hex(
                url_encoded(bytes)[i + 2],
            ),
    decreases bytes.len(),
{
    if bytes.len() > 0 {
        lemma_url_encoded_escapes(bytes.drop_last());
        let b = bytes.last();
        let e = encode_byte(b);
        let prev = url_encoded(bytes.drop_last());
        let all = url_encoded(bytes);
        assert(all == prev + e);
        lemma_hex_digit(b / 16);
        lemma_hex_digit(b % 16);
        assert forall|i: int| 0 <= i < all.len() && #[trigger] all[i] == '%' implies i + 2 < all.len()
            && is_upper_hex(all[i + 1]) && is_upper_hex(all[i + 2]) by {
            if i < prev.len() {
                assert(prev[i] == '%');
                assert(all[i + 1] == prev[i + 1]);
                assert(all[i + 2] == prev[i + 2]);
            } else {
                let k = i - prev.len();
                assert(all[i] == e[k]);
                if crate::plugins::web::is_unreserved(b) {
                    assert(e[0] == b as char);
                    assert(false);
                } else if b == 0x20 {
                    assert(false);
                } else {
                    assert(k == 0);
                    assert(all[i + 1] == e[1]);
                    assert(all[i + 2] == e[2]);
                }
            }
        }
    }
}

/// In an encoded query every `%` is followed by two upper-case hexadecimal
/// digits.
pub proof fn law_url_encode_escapes(s: Seq<char>)
    ensures
        forall|i: int|
            0 <= i < spec_url_encode(s).len() && #[trigger] spec_url_encode(s)[i] == '%' ==> i + 2
                < spec_url_encode(s).len() && is_upper_hex(spec_url_encode(s)[i + 1]) && is_upper_hex(
                spec_url_encode(s)[i + 2],
            ),
{
    lemma_url_encoded_escapes(encode_utf8(s));
}


// ---------------------------------------------------------------------------
// What the calculator's operators mean
// ---------------------------------------------------------------------------

/// Every character is an ASCII digit.
pub open spec fn all_digits(a: Seq<char>) -> bool {
    forall|i: int| 0 <= i < a.len() ==> is_ascii_digit(#[trigger] a[i])
}

/// The operation an operator character writes: `+` addition, `-`
/// subtraction, `*` multiplication, `/` division, `%` remainder.
pub open spec fn operator_written(c: char) -> BinOp {
    if c == '+' {
        BinOp::Add
    } else if c == '-' {
        BinOp::Sub
    } else if c == '*' {
        BinOp::Mul
    } else if c == '/' {
        BinOp::Div
    } else {
        BinOp::Rem
    }
}

proof fn lemma_digits_number_end(s: Seq<char>, i: int, k: int)
    requires
        0 <= i <= k <= s.len(),
        forall|j: int| i <= j < k ==> is_ascii_digit(#[trigger] s[j]),
        k == s.len() || (!is_ascii_digit(s[k]) && s[k] != '.'),
    ensures
        number_end(s, i, false) == k,
    decreases k - i,
{
    if i < k {
        lemma_digits_number_end(s, i + 1, k);
    }
}

/// A run of digits from `i` to `k`, followed by the end of the text or by a
/// character that is no digit, dot, whitespace or `^`, is a factor: the
/// number written there.
proof fn lemma_number_factor(s: Seq<char>, i: int, k: int)
    requires
        0 <= i < k <= s.len(),
        forall|j: int| i <= j < k ==> is_ascii_digit(#[trigger] s[j]),
        k == s.len() || (!is_ascii_digit(s[k]) && s[k] != '.' && !is_ws(s[k]) && s[k] != '^'),
    ensures
        spec_factor(s, i) == Some((Expr::Number { start: i as usize, end: k as usize }, k)),
{
    assert(is_ascii_digit(s[i]));
    assert(ws_end(s, i) == i);
    lemma_digits_number_end(s, i, k);
    assert(spec_number(s, i) == Some((Expr::Number { start: i as usize, end: k as usize }, k)));
    assert(ws_end(s, k) == k);
}

/// Two numbers joined by an operator character parse to that operation on
/// the two numbers, left one first: `+` adds, `-` subtracts, `*`
/// multiplies, `/` divides and `%` takes the remainder.
pub proof fn law_operator_meaning(a: Seq<char>, op: char, b: Seq<char>)
    requires
        a.len() > 0,
        b.len() > 0,
        all_digits(a),
        all_digits(b),
        op == '+' || op == '-' || op == '*' || op == '/' || op == '%',
    ensures
        spec_parse_math(a + seq![op] + b) == Some(
            Expr::Binary(
                operator_written(op),
                Box::new(Expr::Number { start: 0usize, end: a.len() as usize }),
                Box::new(Expr::Number { start: (a.len() + 1) as usize, end: (a.len() + 1 + b.len()) as usize }),
            ),
        ),
{
    let s = a + seq![op] + b;
    let na = a.len() as int;
    let n = s.len() as int;
    assert(s[na] == op);
    assert forall|j: int| 0 <= j < na implies is_ascii_digit(#[trigger] s[j]) by {
        assert(s[j] == a[j]);
    }
    assert forall|j: int| na + 1 <= j < n implies is_ascii_digit(#[trigger] s[j]) by {
        assert(s[j] == b[j - na - 1]);
    }
    let n1 = Expr::Number { start: 0usize, end: na as usize };
    let n2 = Expr::Number { start: (na + 1) as usize, end: n as usize };
    lemma_number_factor(s, 0, na);
    lemma_number_factor(s, na + 1, n);
    assert(ws_end(s, na) == na);
    assert(ws_end(s, n) == n);
    let whole = Expr::Binary(operator_written(op), Box::new(n1), Box::new(n2));
    if op == '*' || op == '/' || op == '%' {
        assert(spec_term_rest(s, n, whole) == Some((whole, n)));
        assert(spec_term_rest(s, na, n1) == Some((whole, n)));
        assert(spec_term(s, 0) == Some((whole, n)));
        assert(spec_expression_rest(s, n, whole) == Some((whole, n)));
        assert(spec_expression(s, 0) == Some((whole, n)));
    } else {
        assert(spec_term_rest(s, na, n1) == Some((n1, na)));
        assert(spec_term(s, 0) == Some((n1, na)));
        assert(spec_term_rest(s, n, n2) == Some((n2, n)));
        assert(spec_term(s, na + 1) == Some((n2, n)));
        assert(spec_expression_rest(s, n, whole) == Some((whole, n)));
        assert(spec_expression_rest(s, na, n1) == Some((whole, n)));
        assert(spec_expression(s, 0) == Some((whole, n)));
    }
}


/// `*`, `/` and `%` bind more tightly than `+` and `-`.
pub open spec fn binds_tightly(c: char) -> bool {
    c == '*' || c == '/' || c == '%'
}

/// Three numbers joined by two operator characters: the second operation
/// applies first only when it binds more tightly than the first; otherwise
/// the operations group from the left.
pub proof fn law_operator_grouping(a: Seq<char>, o1: char, b: Seq<char>, o2: char, c: Seq<char>)
    requires
        a.len() > 0,
        b.len() > 0,
        c.len() > 0,
        all_digits(a),
        all_digits(b),
        all_digits(c),
        o1 == '+' || o1 == '-' || o1 == '*' || o1 == '/' || o1 == '%',
        o2 == '+' || o2 == '-' || o2 == '*' || o2 == '/' || o2 == '%',
    ensures
        ({
            let na = a.len() as int;
            let p2 = na + 1 + b.len();
            let n = p2 + 1 + c.len();
            let x = Expr::Number { start: 0usize, end: na as usize };
            let y = Expr::Number { start: (na + 1) as usize, end: p2 as usize };
            let z = Expr::Number { start: (p2 + 1) as usize, end: n as usize };
            spec_parse_math(a + seq![o1] + b + seq![o2] + c) == Some(
                if binds_tightly(o2) && !binds_tightly(o1) {
                    Expr::Binary(
                        operator_written(o1),
                        Box::new(x),
                        Box::new(Expr::Binary(operator_written(o2), Box::new(y), Box::new(z))),
                    )
                } else {
                    Expr::Binary(
                        operator_written(o2),
                        Box::new(Expr::Binary(operator_written(o1), Box::new(x), Box::new(y))),
                        Box::new(z),
                    )
                },
            )
        }),
{
    let s = a + seq![o1] + b + seq![o2] + c;
    let na = a.len() as int;
    let p2 = na + 1 + b.len();
    let n = s.len() as int;
    assert(n == p2 + 1 + c.len());
    assert(s[na] == o1);
    assert(s[p2] == o2);
    assert forall|j: int| 0 <= j < na implies is_ascii_digit(#[trigger] s[j]) by {
        assert(s[j] == a[j]);
    }
    assert forall|j: int| na + 1 <= j < p2 implies is_ascii_digit(#[trigger] s[j]) by {
        assert(s[j] == b[j - na - 1]);
    }
    assert forall|j: int| p2 + 1 <= j < n implies is_ascii_digit(#[trigger] s[j]) by {
        assert(s[j] == c[j - p2 - 1]);
    }
    let x = Expr::Number { start: 0usize, end: na as usize };
    let y = Expr::Number { start: (na + 1) as usize, end: p2 as usize };
    let z = Expr::Number { start: (p2 + 1) as usize, end: n as usize };
    lemma_number_factor(s, 0, na);
    lemma_number_factor(s, na + 1, p2);
    lemma_number_factor(s, p2 + 1, n);
    assert(ws_end(s, na) == na);
    assert(ws_end(s, p2) == p2);
    assert(ws_end(s, n) == n);
    let xy = Expr::Binary(operator_written(o1), Box::new(x), Box::new(y));
    let yz = Expr::Binary(operator_written(o2), Box::new(y), Box::new(z));
    let left = Expr::Binary(operator_written(o2), Box::new(xy), Box::new(z));
    let right = Expr::Binary(operator_written(o1), Box::new(x), Box::new(yz));
    if binds_tightly(o1) && binds_tightly(o2) {
        assert(spec_term_rest(s, n, left) == Some((left, n)));
        assert(spec_term_rest(s, p2, xy) == Some((left, n)));
        assert(spec_term_rest(s, na, x) == Some((left, n)));
        assert(spec_term(s, 0) == Some((left, n)));
        assert(spec_expression_rest(s, n, left) == Some((left, n)));
        assert(spec_expression(s, 0) == Some((left, n)));
    } else if binds_tightly(o1) {
        assert(spec_term_rest(s, p2, xy) == Some((xy, p2)));
        assert(spec_term_rest(s, na, x) == Some((xy, p2)));
        assert(spec_term(s, 0) == Some((xy, p2)));
        assert(spec_term_rest(s, n, z) == Some((z, n)));
        assert(spec_term(s, p2 + 1) == Some((z, n)));
        assert(spec_expression_rest(s, n, left) == Some((left, n)));
        assert(spec_expression_rest(s, p2, xy) == Some((left, n)));
        assert(spec_expression(s, 0) == Some((left, n)));
    } else if binds_tightly(o2) {
        assert(spec_term_rest(s, na, x) == Some((x, na)));
        assert(spec_term(s, 0) == Some((x, na)));
        assert(spec_term_rest(s, n, yz) == Some((yz, n)));
        assert(spec_term_rest(s, p2, y) == Some((yz, n)));
        assert(spec_term(s, na + 1) == Some((yz, n)));
        assert(spec_expression_rest(s, n, right) == Some((right, n)));
        assert(spec_expression_rest(s, na, x) == Some((right, n)));
        assert(spec_expression(s, 0) == Some((right, n)));
    } else {
        assert(spec_term_rest(s, na, x) == Some((x, na)));
        assert(spec_term(s, 0) == Some((x, na)));
        assert(spec_term_rest(s, p2, y) == Some((y, p2)));
        assert(spec_term(s, na + 1) == Some((y, p2)));
        assert(spec_term_rest(s, n, z) == Some((z, n)));
        assert(spec_term(s, p2 + 1) == Some((z, n)));
        assert(spec_expression_rest(s, n, left) == Some((left, n)));
        assert(spec_expression_rest(s, p2, xy) == Some((left, n)));
        assert(spec_expression_rest(s, na, x) == Some((left, n)));
        assert(spec_expression(s, 0) == Some((left, n)));
    }
}

// ---------------------------------------------------------------------------
// Where ranked results come from
// ---------------------------------------------------------------------------

/// Every element of a ranked ordering is an element of its input.
pub proof fn lemma_sorted_from(s: Seq<Ranked>, k: int)
    requires
        0 <= k < sort_ranked(s).len(),
    ensures
        exists|m: int| 0 <= m < s.len() && #[trigger] s[m] == sort_ranked(s)[k],
{
    broadcast use vstd::seq_lib::group_to_multiset_ensures;

    lemma_sort_ranked(s);
    let x = sort_ranked(s)[k];
    assert(sort_ranked(s).contains(x));
    assert(sort_ranked(s).to_multiset().count(x) > 0);
    assert(s.to_multiset().count(x) > 0);
    assert(s.contains(x));
}

/// Every element of the input appears in its ranked ordering.
pub proof fn lemma_sorted_keeps(s: Seq<Ranked>, m: int)
    requires
        0 <= m < s.len(),
    ensures
        exists|k: int| 0 <= k < sort_ranked(s).len() && #[trigger] sort_ranked(s)[k] == s[m],
{
    broadcast use vstd::seq_lib::group_to_multiset_ensures;

    lemma_sort_ranked(s);
    let x = s[m];
    assert(s.contains(x));
    assert(s.to_multiset().count(x) > 0);
    assert(sort_ranked(s).to_multiset().count(x) > 0);
    assert(sort_ranked(s).contains(x));
}

/// An element that the picker keeps appears in the filtered sequence.
pub proof fn lemma_filter_map_keeps<A, B>(s: Seq<A>, f: spec_fn(A) -> Option<B>, i: int)
    requires
        0 <= i < s.len(),
        f(s[i]) is Some,
    ensures
        exists|k: int| 0 <= k < s.filter_map(f).len() && #[trigger] s.filter_map(f)[k] == f(s[i])->0,
    decreases s.len(),
{
    let rest = s.drop_last();
    if i == s.len() - 1 {
        let k = rest.filter_map(f).len() as int;
        let v = f(s[i])->0;
        assert(s[i] == s.last());
        assert(s.filter_map(f) == rest.filter_map(f) + seq![v]);
        assert(s.filter_map(f).len() == k + 1);
        assert(s.filter_map(f)[k] == v);
    } else {
        assert(rest[i] == s[i]);
        lemma_filter_map_keeps(rest, f, i);
        let k = choose|k: int| 0 <= k < rest.filter_map(f).len() && #[trigger] rest.filter_map(f)[k] == f(rest[i])->0;
        match f(s.last()) {
            Some(v) => {
                assert(s.filter_map(f) == rest.filter_map(f) + seq![v]);
                assert(s.filter_map(f)[k] == rest.filter_map(f)[k]);
            },
            None => {
                assert(s.filter_map(f) == rest.filter_map(f));
            },
        }
        assert(0 <= k < s.filter_map(f).len() && s.filter_map(f)[k] == f(s[i])->0);
    }
}

/// Every element of a filtered sequence is the picker's image of an input
/// element.
pub proof fn lemma_filter_map_from<A, B>(s: Seq<A>, f: spec_fn(A) -> Option<B>, k: int)
    requires
        0 <= k < s.filter_map(f).len(),
    ensures
        exists|i: int| 0 <= i < s.len() && f(#[trigger] s[i]) == Some(s.filter_map(f)[k]),
{
    let y = s.filter_map(f)[k];
    assert(s.filter_map(f).contains(y));
    s.lemma_filter_map_contains(f, y);
    let t = choose|t: A| #[trigger] s.contains(t) && f(t) == Some(y);
    let i = choose|i: int| 0 <= i < s.len() && s[i] == t;
    assert(f(s[i]) == Some(y));
}

// ---------------------------------------------------------------------------
// What each result opens
// ---------------------------------------------------------------------------

/// Each file-search result stands for one of the matches found: it shows
/// that match's name and path, and its first action opens `file://`
/// followed by that same path.
pub proof fn law_file_result_opens_its_file(query: Seq<char>, found: Seq<FileMatchView>, k: int)
    requires
        0 <= k < file_results(query, found).len(),
    ensures
        exists|i: int|
            0 <= i < found.len() && ({
                let r = file_results(query, found)[k];
                &&& r.title == (#[trigger] found[i]).file_name
                &&& r.subtitle == Some(found[i].path)
                &&& r.actions.len() > 0
                &&& r.actions[0] == action_v("Open File"@, "open-url"@, "file://"@ + found[i].path)
            }),
{
    let q = str_lower(trim(query));
    let mapped = found.map_values(file_ranked(q));
    let sorted = sort_ranked(mapped);
    lemma_sort_ranked(mapped);
    assert(file_results(query, found)[k] == sorted[k].0);
    lemma_sorted_from(mapped, k);
    let m = choose|m: int| 0 <= m < mapped.len() && #[trigger] mapped[m] == sorted[k];
    assert(mapped[m] == (file_item(found[m], q), found[m].file_name));
}

/// Each recent-files result stands for one of the recent items whose name
/// contains the query: it shows that item's name, and its only action opens
/// the item's URI, unchanged, as a URL.
pub proof fn law_recent_result_opens_its_uri(query: Seq<char>, items: Seq<RecentInfoView>, k: int)
    requires
        0 <= k < recent_results(query, items).len(),
    ensures
        exists|i: int|
            0 <= i < items.len() && ({
                let r = recent_results(query, items)[k];
                &&& r.title == (#[trigger] items[i]).display_name
                &&& r.id == "recent-"@ + items[i].uri
                &&& r.actions == seq![action_v("Open File"@, "open-url"@, items[i].uri)]
                &&& contains(str_lower(items[i].display_name), str_lower(trim(query)))
            }),
{
    let q = str_lower(trim(query));
    let picked = items.filter_map(recent_pick(q));
    let sorted = sort_ranked(picked);
    lemma_sort_ranked(picked);
    assert(recent_results(query, items)[k] == sorted[k].0);
    lemma_sorted_from(picked, k);
    let m = choose|m: int| 0 <= m < picked.len() && #[trigger] picked[m] == sorted[k];
    lemma_filter_map_from(items, recent_pick(q), m);
    let i = choose|i: int| 0 <= i < items.len() && recent_pick(q)(#[trigger] items[i]) == Some(picked[m]);
    assert(recent_pick(q)(items[i]) == Some(picked[m]));
}

// ---------------------------------------------------------------------------
// The file manager's typed filter
// ---------------------------------------------------------------------------

/// With a typed name, every entry the file manager lists (besides the way
/// up) has a lower-cased name that starts with the lower-cased typed name.
pub proof fn law_listing_only_prefixed(
    dir: Seq<char>,
    parent: Option<Seq<char>>,
    entries: Seq<DirEntryView>,
    typed: Seq<char>,
    k: int,
)
    requires
        0 <= k < spec_listing(dir, parent, entries, Some(typed)).len(),
    ensures
        ({
            let r = spec_listing(dir, parent, entries, Some(typed))[k];
            ||| (parent is Some && r == up_item(parent->0))
            ||| exists|i: int|
                0 <= i < entries.len() && r == entry_item(#[trigger] entries[i], dir) && starts_with(
                    str_lower(entries[i].file_name),
                    str_lower(typed),
                )
        }),
{
    let f = filter_of(Some(typed));
    let pick = entry_pick(dir, f);
    let up = match parent {
        Some(p) => seq![(up_item(p), str_lower(".."@))],
        None => Seq::<Ranked>::empty(),
    };
    let rest = entries.filter_map(pick);
    let all = up + rest;
    lemma_sort_ranked(all);
    let sorted = sort_ranked(all);
    assert(spec_listing(dir, parent, entries, Some(typed))[k] == sorted[k].0);
    lemma_sorted_from(all, k);
    let m = choose|m: int| 0 <= m < all.len() && #[trigger] all[m] == sorted[k];
    if m >= up.len() {
        assert(all[m] == rest[m - up.len()]);
        lemma_filter_map_from(entries, pick, m - up.len());
        let i = choose|i: int| 0 <= i < entries.len() && pick(#[trigger] entries[i]) == Some(rest[m - up.len()]);
        assert(pick(entries[i]) == Some(rest[m - up.len()]));
        if f.len() == 0 {
            assert(str_lower(entries[i].file_name).subrange(0, 0) =~= f);
        }
        assert(starts_with(str_lower(entries[i].file_name), str_lower(typed)));
    } else {
        assert(all[m] == up[m]);
    }
}

/// With a typed name, every entry that is not hidden and whose lower-cased
/// name starts with the lower-cased typed name is listed.
pub proof fn law_listing_shows_prefixed(
    dir: Seq<char>,
    parent: Option<Seq<char>>,
    entries: Seq<DirEntryView>,
    typed: Seq<char>,
    i: int,
)
    requires
        0 <= i < entries.len(),
        !(entries[i].file_name.len() > 0 && entries[i].file_name[0] == '.'),
        starts_with(str_lower(entries[i].file_name), str_lower(typed)),
    ensures
        exists|k: int|
            0 <= k < spec_listing(dir, parent, entries, Some(typed)).len() && #[trigger] spec_listing(
                dir,
                parent,
                entries,
                Some(typed),
            )[k] == entry_item(entries[i], dir),
{
    let f = filter_of(Some(typed));
    let pick = entry_pick(dir, f);
    let up = match parent {
        Some(p) => seq![(up_item(p), str_lower(".."@))],
        None => Seq::<Ranked>::empty(),
    };
    let rest = entries.filter_map(pick);
    let all = up + rest;
    assert(pick(entries[i]) == Some((entry_item(entries[i], dir), str_lower(entries[i].file_name))));
    lemma_filter_map_keeps(entries, pick, i);
    let j = choose|j: int| 0 <= j < rest.len() && #[trigger] rest[j] == pick(entries[i])->0;
    assert(all[up.len() + j] == rest[j]);
    lemma_sorted_keeps(all, up.len() + j);
    lemma_sort_ranked(all);
    let sorted = sort_ranked(all);
    let k = choose|k: int| 0 <= k < sorted.len() && #[trigger] sorted[k] == all[up.len() + j];
    assert(spec_listing(dir, parent, entries, Some(typed))[k] == sorted[k].0);
}

// ---------------------------------------------------------------------------
// System controls found by keyword
// ---------------------------------------------------------------------------

/// A system action is offered whenever one of its keywords contains the
/// lower-cased trimmed query.
pub proof fn law_gnome_keyword_finds_action(actions: Seq<GnomeActionView>, query: Seq<char>, i: int, j: int)
    requires
        trim(query).len() > 0,
        0 <= i < actions.len(),
        0 <= j < actions[i].keywords.len(),
        contains(actions[i].keywords[j], str_lower(trim(query))),
    ensures
        exists|k: int|
            0 <= k < gnome_results(actions, query).len() && ({
                let r = #[trigger] gnome_results(actions, query)[k];
                &&& r.id == actions[i].id
                &&& r.title == actions[i].title
                &&& r.actions == seq![action_v(actions[i].title, "run-command"@, actions[i].command)]
            }),
{
    let q = str_lower(trim(query));
    let pick = gnome_pick(q);
    assert(keyword_hit(actions[i].keywords, q));
    assert(pick(actions[i]) == Some(gnome_item(actions[i], q)));
    lemma_filter_map_keeps(actions, pick, i);
    let rest = actions.filter_map(pick);
    assert(gnome_results(actions, query) == rest);
    let k = choose|k: int| 0 <= k < rest.len() && #[trigger] rest[k] == pick(actions[i])->0;
    assert(rest[k] == gnome_item(actions[i], q));
    assert(gnome_results(actions, query)[k] == gnome_item(actions[i], q));
}

} // verus!
