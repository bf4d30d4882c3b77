//! Calculator: arithmetic typed into the launcher. Parsing and the result
//! item are here; evaluating the parsed expression is floating-point work
//! left to the caller.
use vstd::prelude::*;
use crate::math::{parse_math, spec_parse_math, Expr};
use crate::plugins::{action_v, item_v, items_view, one_action, ResultItem, ResultItemView};
use crate::text::{
    cat, from_chars, has_prefix, is_ascii_digit, is_digit, lit, lower_chars, starts_with,
    str_lower, to_chars, trim, trim_str,
};

verus! {

pub struct CalculatorPlugin;

/// Names that mark a query as arithmetic even without digits.
pub open spec fn math_names() -> Seq<Seq<char>> {
    seq!["sin"@, "cos"@, "tan"@, "sqrt"@, "abs"@, "pi"@, "e"@]
}

/// The quick test run before parsing: the text has a digit, or its
/// lower-cased form starts with one of the math names.
pub open spec fn looks_like_math(t: Seq<char>) -> bool {
    ||| exists|i: int| 0 <= i < t.len() && is_ascii_digit(#[trigger] t[i])
    ||| exists|k: int| 0 <= k < math_names().len() && starts_with(str_lower(t), #[trigger] math_names()[k])
}

/// The trimmed query and its parse, when the query is worth evaluating.
pub open spec fn spec_calc_input(query: Seq<char>) -> Option<(Seq<char>, Expr)> {
    let t = trim(query);
    if t.len() == 0 || !looks_like_math(t) {
        None
    } else {
        match spec_parse_math(t) {
            Some(e) => Some((t, e)),
            None => None,
        }
    }
}

/// The one result for a computed value, shown as `formatted`.
pub open spec fn calc_item(query_trimmed: Seq<char>, formatted: Seq<char>) -> ResultItemView {
    item_v(
        "calc-"@ + formatted,
        formatted,
        Some("Result for: "@ + query_trimmed),
        Some("calculator.svg"@),
        "Calculator"@,
        110,
        seq![action_v("Copy to Clipboard"@, "copy-to-clipboard"@, formatted)],
    )
}

/// `s` without the trailing occurrences of `c` (`str::trim_end_matches`).
pub open spec fn strip_end(s: Seq<char>, c: char) -> Seq<char>
    decreases s.len(),
{
    if s.len() > 0 && s.last() == c {
        strip_end(s.drop_last(), c)
    } else {
        s
    }
}

fn strip_end_chars(v: &Vec<char>, c: char) -> (r: Vec<char>)
    ensures
        r@ == strip_end(v@, c),
{
    let mut n = v.len();
    assert(v@.take(n as int) =~= v@);
    while n > 0 && v[n - 1] == c
        invariant
            n <= v.len(),
            strip_end(v@.take(n as int), c) == strip_end(v@, c),
        decreases n,
    {
        proof {
            assert(v@.take(n as int).drop_last() =~= v@.take(n - 1));
        }
        n = n - 1;
    }
    let mut r: Vec<char> = Vec::new();
    let mut i: usize = 0;
    while i < n
        invariant
            i <= n <= v.len(),
            r@ == v@.take(i as int),
        decreases n - i,
    {
        r.push(v[i]);
        i = i + 1;
        assert(r@ =~= v@.take(i as int));
    }
    r
}

impl CalculatorPlugin {
    pub fn new() -> Self {
        CalculatorPlugin
    }

    pub fn id(&self) -> (r: &'static str)
        ensures
            r@ == "calc"@,
    {
        "calc"
    }

    pub fn name(&self) -> (r: &'static str)
        ensures
            r@ == "Calculator"@,
    {
        "Calculator"
    }

    /// This provider answers every query: it has no mode keyword.
    pub fn mode_keyword(&self) -> (r: Option<&'static str>)
        ensures
            r is None,
    {
        None
    }

    /// This provider is not limited to a mode.
    pub fn is_mode_only(&self) -> (r: bool)
        ensures
            !r,
    {
        false
    }

    /// The trimmed query and its expression, when the query is not blank,
    /// passes the quick arithmetic test and parses.
    pub fn parse_query(&self, query_text: &str) -> (r: Option<(String, Expr)>)
        ensures
            match (r, spec_calc_input(query_text@)) {
                (Some((t, e)), Some((st, se))) => t@ == st && e == se,
                (None, None) => true,
                _ => false,
            },
    {
        let t = trim_str(query_text);
        if t.len() == 0 {
            return None;
        }
        let mut has_digits = false;
        let mut i: usize = 0;
        while i < t.len()
            invariant
                i <= t.len(),
                has_digits == exists|j: int| 0 <= j < i && is_ascii_digit(#[trigger] t@[j]),
            decreases t.len() - i,
        {
            if is_digit(t[i]) {
                has_digits = true;
            }
            i = i + 1;
        }
        let lower = lower_chars(&t);
        let names: [&str; 7] = ["sin", "cos", "tan", "sqrt", "abs", "pi", "e"];
        assert(names@.map_values(|s: &str| s@) =~= math_names());
        let mut starts_with_func = false;
        let mut k: usize = 0;
        while k < 7
            invariant
                k <= 7,
                names@.map_values(|s: &str| s@) == math_names(),
                lower@ == str_lower(t@),
                starts_with_func == exists|m: int| 0 <= m < k && starts_with(lower@, #[trigger] math_names()[m]),
            decreases 7 - k,
        {
            if has_prefix(&lower, &to_chars(names[k])) {
                assert(math_names()[k as int] == names@[k as int]@);
                starts_with_func = true;
            }
            k = k + 1;
        }
        if !has_digits && !starts_with_func {
            return None;
        }
        let text = from_chars(t.as_slice());
        match parse_math(text.as_str()) {
            Some(e) => Some((text, e)),
            None => None,
        }
    }

    /// The result showing the value `formatted` for the trimmed query.
    pub fn result_items(&self, query_trimmed: &str, formatted: &str) -> (r: Vec<ResultItem>)
        ensures
            items_view(r@) == seq![calc_item(query_trimmed@, formatted@)],
    {
        let r = vec![
            ResultItem {
                id: cat("calc-", formatted),
                title: lit(formatted),
                subtitle: Some(cat("Result for: ", query_trimmed)),
                icon: Some(lit("calculator.svg")),
                category: lit("Calculator"),
                score: 110,
                actions: one_action(lit("Copy to Clipboard"), lit("copy-to-clipboard"), lit(formatted)),
            },
        ];
        assert(items_view(r@) =~= seq![calc_item(query_trimmed@, formatted@)]);
        r
    }

    /// A fixed-point rendering without its trailing zeros, then without a
    /// trailing dot (`"2.500000"` becomes `"2.5"`, `"3.000000"` becomes `"3"`).
    pub fn strip_trailing_zeros(text: &str) -> (r: String)
        ensures
            r@ == strip_end(strip_end(text@, '0'), '.'),
    {
        let a = strip_end_chars(&to_chars(text), '0');
        let b = strip_end_chars(&a, '.');
        from_chars(b.as_slice())
    }
}

} // verus!
