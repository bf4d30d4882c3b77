//! The calculator's expression grammar.
//!
//! ```text
//! expression := term (('+' | '-') term)*
//! term       := factor (('*' | '/' | '%') factor)*
//! factor     := ['-' | '+'] primary ['^' factor]
//! primary    := '(' expression ')' | number | identifier
//! number     := (digit | '.')+      (at most one '.', at least one digit)
//! identifier := "pi" | "e" | ("sqrt" | "sin" | "cos" | "tan" | "abs") '(' expression ')'
//! ```
//! Identifiers are matched case-insensitively and whitespace may separate
//! tokens. Parsing yields an [`Expr`] tree; numbers are kept as positions of
//! their text in the input so that evaluation can read them back exactly.
use vstd::prelude::*;
use crate::text::{
    char_alphabetic, is_alphabetic, is_ascii_digit, is_digit, is_whitespace, is_ws, lower_chars,
    same_chars, slice, str_lower, to_chars,
};

verus! {

/// The functions the calculator knows.
#[derive(Clone, Copy, Debug, PartialEq, Eq)]
pub enum Func {
    Sqrt,
    Sin,
    Cos,
    Tan,
    Abs,
}

/// Binary operators, by the symbol that writes them.
#[derive(Clone, Copy, Debug, PartialEq, Eq)]
pub enum BinOp {
    Add,
    Sub,
    Mul,
    Div,
    Rem,
}

/// A parsed arithmetic expression.
#[derive(Debug, PartialEq)]
pub enum Expr {
    /// A decimal literal: the input characters from `start` up to `end`.
    Number { start: usize, end: usize },
    /// The constant π.
    Pi,
    /// Euler's number.
    E,
    /// A function applied to its parenthesised argument.
    Call(Func, Box<Expr>),
    /// A factor written with a leading minus sign.
    Neg(Box<Expr>),
    /// `base ^ exponent` (right-associative).
    Pow(Box<Expr>, Box<Expr>),
    /// A left-associated binary operation.
    Binary(BinOp, Box<Expr>, Box<Expr>),
}

// ---------------------------------------------------------------------------
// Grammar as specification
// ---------------------------------------------------------------------------

/// The character at `i` exists and is `c`.
pub open spec fn at(s: Seq<char>, i: int, c: char) -> bool {
    0 <= i < s.len() && s[i] == c
}

/// First position at or after `i` that does not hold whitespace.
pub open spec fn ws_end(s: Seq<char>, i: int) -> int
    decreases s.len() - i,
{
    if 0 <= i < s.len() && is_ws(s[i]) {
        ws_end(s, i + 1)
    } else {
        i
    }
}

/// End of the run of alphabetic characters that starts at `i`.
pub open spec fn alpha_end(s: Seq<char>, i: int) -> int
    decreases s.len() - i,
{
    if 0 <= i < s.len() && char_alphabetic(s[i]) {
        alpha_end(s, i + 1)
    } else {
        i
    }
}

/// End of the run of digits and (at most one, counting `seen_dot`) dot that
/// starts at `i`.
pub open spec fn number_end(s: Seq<char>, i: int, seen_dot: bool) -> int
    decreases s.len() - i,
{
    if 0 <= i < s.len() && is_ascii_digit(s[i]) {
        number_end(s, i + 1, seen_dot)
    } else if 0 <= i < s.len() && s[i] == '.' && !seen_dot {
        number_end(s, i + 1, true)
    } else {
        i
    }
}

pub proof fn lemma_ws_end(s: Seq<char>, i: int)
    requires
        0 <= i <= s.len(),
    ensures
        i <= ws_end(s, i) <= s.len(),
        ws_end(s, i) == s.len() || !is_ws(s[ws_end(s, i)]),
    decreases s.len() - i,
{
    if i < s.len() && is_ws(s[i]) {
        lemma_ws_end(s, i + 1);
    }
}

pub proof fn lemma_alpha_end(s: Seq<char>, i: int)
    requires
        0 <= i <= s.len(),
    ensures
        i <= alpha_end(s, i) <= s.len(),
    decreases s.len() - i,
{
    if i < s.len() && char_alphabetic(s[i]) {
        lemma_alpha_end(s, i + 1);
    }
}

pub proof fn lemma_number_end(s: Seq<char>, i: int, seen_dot: bool)
    requires
        0 <= i <= s.len(),
    ensures
        i <= number_end(s, i, seen_dot) <= s.len(),
    decreases s.len() - i,
{
    if i < s.len() && is_ascii_digit(s[i]) {
        lemma_number_end(s, i + 1, seen_dot);
    } else if i < s.len() && s[i] == '.' && !seen_dot {
        lemma_number_end(s, i + 1, true);
    }
}

pub open spec fn neg_if(negative: bool, e: Expr) -> Expr {
    if negative {
        Expr::Neg(Box::new(e))
    } else {
        e
    }
}

/// The literal at `b`: rejected only when its text is a lone dot, the one
/// digit-and-dot text that is not a decimal number.
pub open spec fn spec_number(s: Seq<char>, b: int) -> Option<(Expr, int)> {
    let e = number_end(s, b, false);
    if e == b + 1 && s[b] == '.' {
        None
    } else {
        Some((Expr::Number { start: b as usize, end: e as usize }, e))
    }
}

/// The function an identifier (already lower-cased) names.
pub open spec fn func_named(name: Seq<char>) -> Option<Func> {
    if name == "sqrt"@ {
        Some(Func::Sqrt)
    } else if name == "sin"@ {
        Some(Func::Sin)
    } else if name == "cos"@ {
        Some(Func::Cos)
    } else if name == "tan"@ {
        Some(Func::Tan)
    } else if name == "abs"@ {
        Some(Func::Abs)
    } else {
        None
    }
}

/// expression := term (('+' | '-') term)*
pub open spec fn spec_expression(s: Seq<char>, i: int) -> Option<(Expr, int)>
    decreases s.len() - i, 4int,
{
    if !(0 <= i <= s.len()) {
        None
    } else {
        match spec_term(s, i) {
            Some((t, j)) => if i < j <= s.len() {
                spec_expression_rest(s, j, t)
            } else {
                None
            },
            None => None,
        }
    }
}

/// The `(('+' | '-') term)*` tail of an expression, folding into `acc`.
pub open spec fn spec_expression_rest(s: Seq<char>, j: int, acc: Expr) -> Option<(Expr, int)>
    decreases s.len() - j, 4int,
{
    if !(0 <= j <= s.len()) {
        None
    } else {
        let a = ws_end(s, j);
        proof {
            lemma_ws_end(s, j);
        }
        if at(s, a, '+') || at(s, a, '-') {
            let op = if s[a] == '+' {
                BinOp::Add
            } else {
                BinOp::Sub
            };
            match spec_term(s, a + 1) {
                Some((t, m)) => if j < m <= s.len() {
                    spec_expression_rest(s, m, Expr::Binary(op, Box::new(acc), Box::new(t)))
                } else {
                    None
                },
                None => None,
            }
        } else {
            Some((acc, a))
        }
    }
}

/// term := factor (('*' | '/' | '%') factor)*
pub open spec fn spec_term(s: Seq<char>, i: int) -> Option<(Expr, int)>
    decreases s.len() - i, 3int,
{
    if !(0 <= i <= s.len()) {
        None
    } else {
        match spec_factor(s, i) {
            Some((f, j)) => if i < j <= s.len() {
                spec_term_rest(s, j, f)
            } else {
                None
            },
            None => None,
        }
    }
}

/// The `(('*' | '/' | '%') factor)*` tail of a term, folding into `acc`.
pub open spec fn spec_term_rest(s: Seq<char>, j: int, acc: Expr) -> Option<(Expr, int)>
    decreases s.len() - j, 3int,
{
    if !(0 <= j <= s.len()) {
        None
    } else {
        let a = ws_end(s, j);
        proof {
            lemma_ws_end(s, j);
        }
        if at(s, a, '*') || at(s, a, '/') || at(s, a, '%') {
            let op = if s[a] == '*' {
                BinOp::Mul
            } else if s[a] == '/' {
                BinOp::Div
            } else {
                BinOp::Rem
            };
            match spec_factor(s, a + 1) {
                Some((f, m)) => if j < m <= s.len() {
                    spec_term_rest(s, m, Expr::Binary(op, Box::new(acc), Box::new(f)))
                } else {
                    None
                },
                None => None,
            }
        } else {
            Some((acc, a))
        }
    }
}

/// factor := ['-' | '+'] primary ['^' factor]; the position returned is past
/// the whitespace that follows the factor.
pub open spec fn spec_factor(s: Seq<char>, i: int) -> Option<(Expr, int)>
    decreases s.len() - i, 2int,
{
    if !(0 <= i <= s.len()) {
        None
    } else {
        let a = ws_end(s, i);
        proof {
            lemma_ws_end(s, i);
        }
        let negative = at(s, a, '-');
        let b = if at(s, a, '-') || at(s, a, '+') {
            a + 1
        } else {
            a
        };
        let primary = if at(s, b, '(') {
            match spec_expression(s, b + 1) {
                Some((e, c)) => if 0 <= c <= s.len() && at(s, ws_end(s, c), ')') {
                    Some((e, ws_end(s, c) + 1))
                } else {
                    None
                },
                None => None,
            }
        } else if b < s.len() && (is_ascii_digit(s[b]) || s[b] == '.') {
            spec_number(s, b)
        } else if b < s.len() && char_alphabetic(s[b]) {
            spec_identifier(s, b)
        } else {
            None
        };
        match primary {
            Some((p, c0)) => if i <= c0 <= s.len() {
                let c = ws_end(s, c0);
                proof {
                    lemma_ws_end(s, c0);
                }
                if at(s, c, '^') {
                    match spec_factor(s, c + 1) {
                        Some((x, d)) => Some(
                            (neg_if(negative, Expr::Pow(Box::new(p), Box::new(x))), d),
                        ),
                        None => None,
                    }
                } else {
                    Some((neg_if(negative, p), c))
                }
            } else {
                None
            },
            None => None,
        }
    }
}

/// An identifier starting at `b`: a constant, or a function name followed by
/// its parenthesised argument.
pub open spec fn spec_identifier(s: Seq<char>, b: int) -> Option<(Expr, int)>
    decreases s.len() - b, 1int,
{
    if !(0 <= b <= s.len()) {
        None
    } else {
        let k = alpha_end(s, b);
        proof {
            lemma_alpha_end(s, b);
        }
        let name = str_lower(s.subrange(b, k));
        if name == "pi"@ {
            Some((Expr::Pi, k))
        } else if name == "e"@ {
            Some((Expr::E, k))
        } else {
            match func_named(name) {
                Some(f) => match spec_argument(s, k) {
                    Some((x, m)) => Some((Expr::Call(f, Box::new(x)), m)),
                    None => None,
                },
                None => None,
            }
        }
    }
}

/// '(' expression ')' at `k`, allowing whitespace before each token.
pub open spec fn spec_argument(s: Seq<char>, k: int) -> Option<(Expr, int)>
    decreases s.len() - k, 0int,
{
    if !(0 <= k <= s.len()) {
        None
    } else {
        let a = ws_end(s, k);
        proof {
            lemma_ws_end(s, k);
        }
        if at(s, a, '(') {
            match spec_expression(s, a + 1) {
                Some((x, c)) => if 0 <= c <= s.len() && at(s, ws_end(s, c), ')') {
                    Some((x, ws_end(s, c) + 1))
                } else {
                    None
                },
                None => None,
            }
        } else {
            None
        }
    }
}

/// The whole text is one expression, possibly surrounded by whitespace.
pub open spec fn spec_parse_math(s: Seq<char>) -> Option<Expr> {
    match spec_expression(s, 0) {
        Some((e, j)) => if 0 <= j <= s.len() && ws_end(s, j) == s.len() {
            Some(e)
        } else {
            None
        },
        None => None,
    }
}

/// An executable parse result agrees with the specified one.
pub open spec fn agrees(r: Option<(Expr, usize)>, sp: Option<(Expr, int)>) -> bool {
    match (r, sp) {
        (Some((e1, j1)), Some((e2, j2))) => e1 == e2 && j1 == j2,
        (None, None) => true,
        _ => false,
    }
}

// ---------------------------------------------------------------------------
// Parser
// ---------------------------------------------------------------------------

/// Skips whitespace from `i`.
pub fn consume_whitespace(s: &Vec<char>, i: usize) -> (j: usize)
    requires
        i <= s.len(),
    ensures
        j == ws_end(s@, i as int),
        i <= j <= s.len(),
{
    let mut j = i;
    while j < s.len() && is_whitespace(s[j])
        invariant
            i <= j <= s.len(),
            ws_end(s@, j as int) == ws_end(s@, i as int),
        decreases s.len() - j,
    {
        j = j + 1;
    }
    j
}

/// Parses a decimal literal starting at `b`.
pub fn parse_number(s: &Vec<char>, b: usize) -> (r: Option<(Expr, usize)>)
    requires
        b < s.len(),
        is_ascii_digit(s@[b as int]) || s@[b as int] == '.',
    ensures
        agrees(r, spec_number(s@, b as int)),
        r matches Some((_, j)) ==> b < j <= s.len(),
{
    let mut j = b;
    let mut has_dot = false;
    while j < s.len() && (is_digit(s[j]) || (s[j] == '.' && !has_dot))
        invariant
            b <= j <= s.len(),
            number_end(s@, j as int, has_dot) == number_end(s@, b as int, false),
            has_dot ==> j > b,
            !has_dot || j > b + 1 || s@[b as int] == '.',
        decreases s.len() - j,
    {
        if s[j] == '.' {
            has_dot = true;
        }
        j = j + 1;
    }
    proof {
        lemma_number_end(s@, b as int, false);
    }
    if j == b + 1 && s[b] == '.' {
        None
    } else {
        Some((Expr::Number { start: b, end: j }, j))
    }
}

/// Parses an expression starting at `i`.
pub fn parse_expression(s: &Vec<char>, i: usize) -> (r: Option<(Expr, usize)>)
    requires
        i <= s.len(),
    ensures
        agrees(r, spec_expression(s@, i as int)),
        r matches Some((_, j)) ==> i < j <= s.len(),
    decreases s.len() - i, 4int,
{
    let (first, j) = match parse_term(s, i) {
        Some(x) => x,
        None => return None,
    };
    let mut val = first;
    let mut j = j;
    let ghost j0 = j;
    assert(spec_expression(s@, i as int) == spec_expression_rest(s@, j0 as int, val));
    loop
        invariant
            i < j0 <= j <= s.len(),
            spec_expression(s@, i as int) == spec_expression_rest(s@, j0 as int, first),
            spec_expression_rest(s@, j0 as int, first) == spec_expression_rest(
                s@,
                j as int,
                val,
            ),
        decreases s.len() - j,
    {
        let a = consume_whitespace(s, j);
        if a < s.len() && (s[a] == '+' || s[a] == '-') {
            let op = if s[a] == '+' {
                BinOp::Add
            } else {
                BinOp::Sub
            };
            match parse_term(s, a + 1) {
                Some((t, m)) => {
                    val = Expr::Binary(op, Box::new(val), Box::new(t));
                    j = m;
                },
                None => return None,
            }
        } else {
            assert(spec_expression_rest(s@, j as int, val) == Some((val, a as int)));
            return Some((val, a));
        }
    }
}

/// Parses a term starting at `i`.
pub fn parse_term(s: &Vec<char>, i: usize) -> (r: Option<(Expr, usize)>)
    requires
        i <= s.len(),
    ensures
        agrees(r, spec_term(s@, i as int)),
        r matches Some((_, j)) ==> i < j <= s.len(),
    decreases s.len() - i, 3int,
{
    let (first, j) = match parse_factor(s, i) {
        Some(x) => x,
        None => return None,
    };
    let mut val = first;
    let mut j = j;
    let ghost j0 = j;
    loop
        invariant
            i < j0 <= j <= s.len(),
            spec_term(s@, i as int) == spec_term_rest(s@, j0 as int, first),
            spec_term_rest(s@, j0 as int, first) == spec_term_rest(s@, j as int, val),
        decreases s.len() - j,
    {
        let a = consume_whitespace(s, j);
        if a < s.len() && (s[a] == '*' || s[a] == '/' || s[a] == '%') {
            let op = if s[a] == '*' {
                BinOp::Mul
            } else if s[a] == '/' {
                BinOp::Div
            } else {
                BinOp::Rem
            };
            match parse_factor(s, a + 1) {
                Some((f, m)) => {
                    val = Expr::Binary(op, Box::new(val), Box::new(f));
                    j = m;
                },
                None => return None,
            }
        } else {
            assert(spec_term_rest(s@, j as int, val) == Some((val, a as int)));
            return Some((val, a));
        }
    }
}

/// Parses a factor starting at `i`.
pub fn parse_factor(s: &Vec<char>, i: usize) -> (r: Option<(Expr, usize)>)
    requires
        i <= s.len(),
    ensures
        agrees(r, spec_factor(s@, i as int)),
        r matches Some((_, j)) ==> i < j <= s.len(),
    decreases s.len() - i, 2int,
{
    let a = consume_whitespace(s, i);
    let negative = a < s.len() && s[a] == '-';
    let b = if a < s.len() && (s[a] == '-' || s[a] == '+') {
        a + 1
    } else {
        a
    };
    let primary = if b < s.len() && s[b] == '(' {
        match parse_expression(s, b + 1) {
            Some((e, c)) => {
                let d = consume_whitespace(s, c);
                if d < s.len() && s[d] == ')' {
                    Some((e, d + 1))
                } else {
                    None
                }
            },
            None => None,
        }
    } else if b < s.len() && (is_digit(s[b]) || s[b] == '.') {
        parse_number(s, b)
    } else if b < s.len() && is_alphabetic(s[b]) {
        parse_identifier(s, b)
    } else {
        None
    };
    let (p, c0) = match primary {
        Some(x) => x,
        None => return None,
    };
    let c = consume_whitespace(s, c0);
    if c < s.len() && s[c] == '^' {
        match parse_factor(s, c + 1) {
            Some((x, d)) => {
                let pw = Expr::Pow(Box::new(p), Box::new(x));
                Some((if negative { Expr::Neg(Box::new(pw)) } else { pw }, d))
            },
            None => None,
        }
    } else {
        Some((if negative { Expr::Neg(Box::new(p)) } else { p }, c))
    }
}

/// Parses an identifier starting at `b`.
pub fn parse_identifier(s: &Vec<char>, b: usize) -> (r: Option<(Expr, usize)>)
    requires
        b < s.len(),
        char_alphabetic(s@[b as int]),
    ensures
        agrees(r, spec_identifier(s@, b as int)),
        r matches Some((_, j)) ==> b < j <= s.len(),
    decreases s.len() - b, 1int,
{
    let mut k = b;
    while k < s.len() && is_alphabetic(s[k])
        invariant
            b <= k <= s.len(),
            alpha_end(s@, k as int) == alpha_end(s@, b as int),
            k == b || char_alphabetic(s@[b as int]),
        decreases s.len() - k,
    {
        k = k + 1;
    }
    let word = slice(s, b, k);
    let name = lower_chars(&word);
    if same_chars(&name, &to_chars("pi")) {
        return Some((Expr::Pi, k));
    }
    if same_chars(&name, &to_chars("e")) {
        return Some((Expr::E, k));
    }
    let f = if same_chars(&name, &to_chars("sqrt")) {
        Func::Sqrt
    } else if same_chars(&name, &to_chars("sin")) {
        Func::Sin
    } else if same_chars(&name, &to_chars("cos")) {
        Func::Cos
    } else if same_chars(&name, &to_chars("tan")) {
        Func::Tan
    } else if same_chars(&name, &to_chars("abs")) {
        Func::Abs
    } else {
        return None;
    };
    match parse_argument(s, k) {
        Some((x, m)) => Some((Expr::Call(f, Box::new(x)), m)),
        None => None,
    }
}

/// Parses `'(' expression ')'` starting at `k`.
pub fn parse_argument(s: &Vec<char>, k: usize) -> (r: Option<(Expr, usize)>)
    requires
        k <= s.len(),
    ensures
        agrees(r, spec_argument(s@, k as int)),
        r matches Some((_, j)) ==> k < j <= s.len(),
    decreases s.len() - k, 0int,
{
    let a = consume_whitespace(s, k);
    if a < s.len() && s[a] == '(' {
        match parse_expression(s, a + 1) {
            Some((x, c)) => {
                let d = consume_whitespace(s, c);
                if d < s.len() && s[d] == ')' {
                    Some((x, d + 1))
                } else {
                    None
                }
            },
            None => None,
        }
    } else {
        None
    }
}

/// Parses the whole of `expr` as one expression. `None` when the text is not
/// an expression of the grammar, or when anything but whitespace follows it.
pub fn parse_math(expr: &str) -> (r: Option<Expr>)
    ensures
        r == spec_parse_math(expr@),
{
    let s = to_chars(expr);
    match parse_expression(&s, 0) {
        Some((e, j)) => {
            let k = consume_whitespace(&s, j);
            if k == s.len() {
                Some(e)
            } else {
                None
            }
        },
        None => None,
    }
}

} // verus!
