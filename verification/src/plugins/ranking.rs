//! Ordering of results: by score, highest first, then by a text key in
//! ascending order, keeping the input order among results that tie.
use vstd::prelude::*;
use crate::plugins::{ResultItem, ResultItemView};

verus! {

/// Strict lexicographic order on character sequences (the order of
/// `String`'s `Ord`, since UTF-8 preserves the order of code points).
pub open spec fn lex_lt(a: Seq<char>, b: Seq<char>) -> bool
    decreases a.len(),
{
    if a.len() == 0 {
        b.len() > 0
    } else if b.len() == 0 {
        false
    } else if a[0] != b[0] {
        a[0] < b[0]
    } else {
        lex_lt(a.drop_first(), b.drop_first())
    }
}

/// A result paired with its secondary sort key.
pub type Ranked = (ResultItemView, Seq<char>);

/// `x` is placed strictly before `y`.
pub open spec fn ranks_before(x: Ranked, y: Ranked) -> bool {
    x.0.score > y.0.score || (x.0.score == y.0.score && lex_lt(x.1, y.1))
}

/// `s` (already ordered) with `x` inserted after every element that `x`
/// does not rank before.
pub open spec fn insert_ranked(s: Seq<Ranked>, x: Ranked) -> Seq<Ranked>
    decreases s.len(),
{
    if s.len() == 0 {
        seq![x]
    } else if ranks_before(x, s.last()) {
        insert_ranked(s.drop_last(), x).push(s.last())
    } else {
        s.push(x)
    }
}

/// Stable sort of `s` by `ranks_before`.
pub open spec fn sort_ranked(s: Seq<Ranked>) -> Seq<Ranked>
    decreases s.len(),
{
    if s.len() == 0 {
        s
    } else {
        insert_ranked(sort_ranked(s.drop_last()), s.last())
    }
}

/// No element is ranked before an element that precedes it.
pub open spec fn is_ranked(s: Seq<Ranked>) -> bool {
    forall|i: int, j: int| 0 <= i < j < s.len() ==> !ranks_before(#[trigger] s[j], #[trigger] s[i])
}

pub open spec fn firsts(s: Seq<Ranked>) -> Seq<ResultItemView> {
    s.map_values(|p: Ranked| p.0)
}

pub open spec fn pair_view(v: Seq<(ResultItem, Vec<char>)>) -> Seq<Ranked> {
    v.map_values(|p: (ResultItem, Vec<char>)| (p.0@, p.1@))
}

// ---------------------------------------------------------------------------
// Order facts
// ---------------------------------------------------------------------------

pub proof fn lemma_lex_irreflexive(a: Seq<char>)
    ensures
        !lex_lt(a, a),
    decreases a.len(),
{
    if a.len() > 0 {
        lemma_lex_irreflexive(a.drop_first());
    }
}

pub proof fn lemma_lex_transitive(a: Seq<char>, b: Seq<char>, c: Seq<char>)
    requires
        lex_lt(a, b),
        lex_lt(b, c),
    ensures
        lex_lt(a, c),
    decreases a.len(),
{
    if a.len() > 0 && b.len() > 0 && c.len() > 0 && a[0] == b[0] && b[0] == c[0] {
        lemma_lex_transitive(a.drop_first(), b.drop_first(), c.drop_first());
    }
}

/// Neither precedes the other only when the sequences are equal.
pub proof fn lemma_lex_total(a: Seq<char>, b: Seq<char>)
    ensures
        lex_lt(a, b) || lex_lt(b, a) || a == b,
    decreases a.len(),
{
    if a.len() > 0 && b.len() > 0 && a[0] == b[0] {
        lemma_lex_total(a.drop_first(), b.drop_first());
        if a.drop_first() == b.drop_first() {
            assert(a =~= seq![a[0]] + a.drop_first());
            assert(b =~= seq![b[0]] + b.drop_first());
        }
    } else if a.len() == 0 && b.len() == 0 {
        assert(a =~= b);
    }
}

pub proof fn lemma_ranks_transitive(x: Ranked, y: Ranked, z: Ranked)
    requires
        ranks_before(x, y),
        ranks_before(y, z),
    ensures
        ranks_before(x, z),
{
    if x.0.score == y.0.score && y.0.score == z.0.score {
        lemma_lex_transitive(x.1, y.1, z.1);
    }
}

/// `!ranks_before` is transitive: it is the non-strict order.
pub proof fn lemma_not_ranks_transitive(x: Ranked, y: Ranked, z: Ranked)
    requires
        !ranks_before(y, x),
        !ranks_before(z, y),
    ensures
        !ranks_before(z, x),
{
    lemma_lex_total(x.1, y.1);
    lemma_lex_total(y.1, z.1);
    if ranks_before(z, x) {
        if x.0.score == y.0.score && y.0.score == z.0.score {
            if lex_lt(z.1, y.1) {
            } else if lex_lt(y.1, x.1) {
            } else {
                lemma_lex_transitive(z.1, x.1, y.1);
                lemma_lex_irreflexive(y.1);
            }
        }
    }
}

// ---------------------------------------------------------------------------
// Insertion
// ---------------------------------------------------------------------------

/// Inserting at the first position from which every element ranks after
/// `x` is what `insert_ranked` does.
pub proof fn lemma_insert_at(s: Seq<Ranked>, x: Ranked, p: int)
    requires
        0 <= p <= s.len(),
        forall|k: int| p <= k < s.len() ==> ranks_before(x, #[trigger] s[k]),
        p == 0 || !ranks_before(x, s[p - 1]),
    ensures
        insert_ranked(s, x) == s.take(p) + seq![x] + s.skip(p),
    decreases s.len(),
{
    if s.len() == 0 {
        assert(s.take(p) + seq![x] + s.skip(p) =~= seq![x]);
    } else if ranks_before(x, s.last()) {
        let t = s.drop_last();
        assert(p < s.len());
        assert forall|k: int| p <= k < t.len() implies ranks_before(x, #[trigger] t[k]) by {
            assert(t[k] == s[k]);
        }
        if p > 0 {
            assert(t[p - 1] == s[p - 1]);
        }
        lemma_insert_at(t, x, p);
        assert(t.take(p) + seq![x] + t.skip(p) + seq![s.last()] =~= s.take(p) + seq![x] + s.skip(p));
    } else {
        assert(p == s.len());
        assert(s.take(p) + seq![x] + s.skip(p) =~= s.push(x));
    }
}

pub proof fn lemma_insert_ranked(s: Seq<Ranked>, x: Ranked)
    requires
        is_ranked(s),
    ensures
        is_ranked(insert_ranked(s, x)),
        insert_ranked(s, x).to_multiset() == s.to_multiset().insert(x),
        insert_ranked(s, x).len() == s.len() + 1,
    decreases s.len(),
{
    broadcast use vstd::seq_lib::group_to_multiset_ensures;

    if s.len() == 0 {
        assert(insert_ranked(s, x) =~= seq![x]);
        assert(s.push(x) =~= seq![x]);
    } else if ranks_before(x, s.last()) {
        let t = s.drop_last();
        assert forall|i: int, j: int| 0 <= i < j < t.len() implies !ranks_before(
            #[trigger] t[j],
            #[trigger] t[i],
        ) by {
            assert(t[i] == s[i] && t[j] == s[j]);
        }
        lemma_insert_ranked(t, x);
        let u = insert_ranked(t, x);
        let r = u.push(s.last());
        assert(s =~= t.push(s.last()));
        assert forall|i: int, j: int| 0 <= i < j < r.len() implies !ranks_before(
            #[trigger] r[j],
            #[trigger] r[i],
        ) by {
            if j == r.len() - 1 {
                // r[i] is an element of t, or x itself
                assert(u.to_multiset().count(r[i]) > 0);
                assert(u.contains(r[i]));
                if r[i] == x {
                    if ranks_before(s.last(), x) {
                        lemma_ranks_transitive(s.last(), x, s.last());
                        lemma_lex_irreflexive(s.last().1);
                    }
                } else {
                    assert(t.to_multiset().count(r[i]) > 0);
                    assert(t.contains(r[i]));
                    let k = choose|k: int| 0 <= k < t.len() && t[k] == r[i];
                    assert(s[k] == r[i]);
                    assert(!ranks_before(s[s.len() - 1], s[k]));
                }
            } else {
                assert(r[i] == u[i] && r[j] == u[j]);
            }
        }
    } else {
        let r = s.push(x);
        assert forall|i: int, j: int| 0 <= i < j < r.len() implies !ranks_before(
            #[trigger] r[j],
            #[trigger] r[i],
        ) by {
            if j == r.len() - 1 {
                if i < s.len() - 1 {
                    assert(!ranks_before(s[s.len() - 1], s[i]));
                    lemma_not_ranks_transitive(s[i], s[s.len() - 1], x);
                }
            } else {
                assert(r[i] == s[i] && r[j] == s[j]);
            }
        }
    }
}

/// The stable sort orders its input and keeps exactly its elements.
pub proof fn lemma_sort_ranked(s: Seq<Ranked>)
    ensures
        is_ranked(sort_ranked(s)),
        sort_ranked(s).to_multiset() == s.to_multiset(),
        sort_ranked(s).len() == s.len(),
    decreases s.len(),
{
    broadcast use vstd::seq_lib::group_to_multiset_ensures;

    if s.len() > 0 {
        lemma_sort_ranked(s.drop_last());
        lemma_insert_ranked(sort_ranked(s.drop_last()), s.last());
        assert(s =~= s.drop_last().push(s.last()));
    }
}

// ---------------------------------------------------------------------------
// Executable sort
// ---------------------------------------------------------------------------

/// Strict lexicographic comparison.
pub fn text_lt(a: &Vec<char>, b: &Vec<char>) -> (r: bool)
    ensures
        r == lex_lt(a@, b@),
{
    let mut i: usize = 0;
    assert(a@.skip(0) =~= a@ && b@.skip(0) =~= b@);
    while i < a.len() && i < b.len() && a[i] == b[i]
        invariant
            i <= a.len(),
            i <= b.len(),
            lex_lt(a@, b@) == lex_lt(a@.skip(i as int), b@.skip(i as int)),
        decreases a.len() - i,
    {
        proof {
            assert(a@.skip(i as int).drop_first() =~= a@.skip(i + 1));
            assert(b@.skip(i as int).drop_first() =~= b@.skip(i + 1));
        }
        i = i + 1;
    }
    if i == a.len() {
        i < b.len()
    } else if i == b.len() {
        false
    } else {
        a[i] < b[i]
    }
}

fn precedes(x: &(ResultItem, Vec<char>), y: &(ResultItem, Vec<char>)) -> (r: bool)
    ensures
        r == ranks_before((x.0@, x.1@), (y.0@, y.1@)),
{
    x.0.score > y.0.score || (x.0.score == y.0.score && text_lt(&x.1, &y.1))
}

/// Orders results by score, highest first, then by their keys, ascending;
/// results that tie keep their relative order.
pub fn sort_by_rank(v: Vec<(ResultItem, Vec<char>)>) -> (r: Vec<ResultItem>)
    ensures
        r@.map_values(|x: ResultItem| x@) == firsts(sort_ranked(pair_view(v@))),
{
    let mut out: Vec<(ResultItem, Vec<char>)> = Vec::new();
    let mut rest = v;
    let ghost all = v@;
    let ghost mut done: nat = 0;
    while rest.len() > 0
        invariant
            done <= all.len(),
            rest@ == all.skip(done as int),
            pair_view(out@) == sort_ranked(pair_view(all.take(done as int))),
        decreases rest.len(),
    {
        let x = rest.remove(0);
        let ghost before = pair_view(out@);
        proof {
            lemma_sort_ranked(pair_view(all.take(done as int)));
        }
        let mut p = out.len();
        while p > 0 && precedes(&x, &out[p - 1])
            invariant
                p <= out.len(),
                pair_view(out@) == before,
                forall|k: int| p <= k < out.len() ==> ranks_before((x.0@, x.1@), #[trigger] before[k]),
            decreases p,
        {
            p = p - 1;
        }
        let ghost xv = (x.0@, x.1@);
        proof {
            lemma_insert_at(before, xv, p as int);
        }
        out.insert(p, x);
        proof {
            assert(x == all[done as int]);
            let taken = all.take(done as int + 1);
            assert(pair_view(taken).drop_last() =~= pair_view(all.take(done as int)));
            assert(pair_view(taken).last() == xv);
            assert(pair_view(out@) =~= before.take(p as int) + seq![xv] + before.skip(p as int));
            done = done + 1;
            assert(rest@ =~= all.skip(done as int));
        }
    }
    proof {
        assert(all.take(done as int) =~= all);
    }
    let mut r: Vec<ResultItem> = Vec::new();
    let ghost sorted = pair_view(out@);
    for x in it2: out.into_iter()
        invariant
            sorted == pair_view(it2.seq()),
            r@.map_values(|x: ResultItem| x@) == firsts(sorted.take(it2.index() as int)),
    {
        r.push(x.0);
        proof {
            assert(firsts(sorted.take(it2.index() + 1)) =~= firsts(sorted.take(it2.index() as int)).push(
                sorted[it2.index() as int].0,
            ));
            assert(r@.map_values(|x: ResultItem| x@) =~= firsts(sorted.take(it2.index() + 1)));
        }
    }
    proof {
        assert(sorted.take(sorted.len() as int) =~= sorted);
    }
    r
}

} // verus!
