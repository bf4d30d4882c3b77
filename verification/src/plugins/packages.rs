//! Package search mode (`pkg`): APT and Flatpak search output as results.
use vstd::prelude::*;
use crate::plugins::files::{pieces_view, split_char, split_on};
use crate::plugins::ranking::{firsts, pair_view, sort_by_rank, sort_ranked, Ranked};
use crate::plugins::{
    action_v, item_v, items_view, lemma_filter_map_step, lemma_take_all, one_action, ResultItem,
    ResultItemView,
};
use crate::text::{
    byte_len, cat, cat3, find_text, first_n, first_occurrence, from_chars, lines, lines_of, lit,
    skip_first, slice, to_chars, trim, trim_chars,
};

verus! {

pub struct PackageSearchPlugin;

pub open spec fn apt_item(pkg: Seq<char>, desc: Seq<char>) -> ResultItemView {
    item_v(
        "apt-"@ + pkg,
        pkg,
        Some("[APT] "@ + desc),
        Some("system-software-install-symbolic"@),
        "Packages"@,
        80,
        seq![action_v("Install Package"@, "run-command"@, "kgx -e 'sudo apt install "@ + pkg + "'"@)],
    )
}

/// A line `name - description` of `apt-cache search` output.
pub open spec fn apt_pick() -> spec_fn(Seq<char>) -> Option<ResultItemView> {
    |line: Seq<char>|
        match first_occurrence(line, " - "@) {
            Some(i) => Some(
                apt_item(trim(line.take(i)), trim(line.skip(i + " - "@.len()))),
            ),
            None => None,
        }
}

/// Results for the first ten lines of `apt-cache search --names-only`.
pub open spec fn apt_results(output: Seq<char>) -> Seq<ResultItemView> {
    first_n(lines(output), 10).filter_map(apt_pick())
}

pub open spec fn flatpak_item(name: Seq<char>, app_id: Seq<char>, desc: Seq<char>) -> ResultItemView {
    item_v(
        "flatpak-"@ + app_id,
        name,
        Some("[Flatpak] "@ + desc),
        Some("flatpak-discover-symbolic"@),
        "Packages"@,
        85,
        seq![action_v("Install Flatpak"@, "run-command"@, "flatpak install -y "@ + app_id)],
    )
}

/// A tab-separated `name, application, description` line.
pub open spec fn flatpak_pick() -> spec_fn(Seq<char>) -> Option<ResultItemView> {
    |line: Seq<char>|
        {
            let parts = split_char(line, '\t');
            if parts.len() >= 3 {
                Some(flatpak_item(trim(parts[0]), trim(parts[1]), trim(parts[2])))
            } else {
                None
            }
        }
}

/// Results for the ten lines after the header of `flatpak search`.
pub open spec fn flatpak_results(output: Seq<char>) -> Seq<ResultItemView> {
    first_n(skip_first(lines(output)), 10).filter_map(flatpak_pick())
}

pub open spec fn unkeyed(v: Seq<ResultItemView>) -> Seq<Ranked> {
    v.map_values(|r: ResultItemView| (r, Seq::<char>::empty()))
}

pub open spec fn lines_view(v: Seq<Vec<char>>) -> Seq<Seq<char>> {
    v.map_values(|l: Vec<char>| l@)
}

/// The result for one line of APT output.
fn apt_line(line: &Vec<char>) -> (r: Option<ResultItem>)
    ensures
        match (r, apt_pick()(line@)) {
            (Some(x), Some(y)) => x@ == y,
            (None, None) => true,
            _ => false,
        },
{
    let sep = to_chars(" - ");
    match find_text(line, &sep) {
        Some(k) => {
            proof {
                crate::text::lemma_first_occurrence(line@, sep@);
                assert(crate::text::occurs_at(line@, sep@, k as int));
                assert(k + sep@.len() <= line@.len());
            }
            let pkg = from_chars(trim_chars(&slice(line, 0, k)).as_slice());
            let desc = from_chars(trim_chars(&slice(line, k + sep.len(), line.len())).as_slice());
            proof {
                assert(line@.subrange(0, k as int) =~= line@.take(k as int));
                assert(line@.subrange(k + sep@.len(), line@.len() as int) =~= line@.skip(k + " - "@.len()));
            }
            let item = ResultItem {
                id: cat("apt-", pkg.as_str()),
                title: lit(pkg.as_str()),
                subtitle: Some(cat("[APT] ", desc.as_str())),
                icon: Some(lit("system-software-install-symbolic")),
                category: lit("Packages"),
                score: 80,
                actions: one_action(
                    lit("Install Package"),
                    lit("run-command"),
                    cat3("kgx -e 'sudo apt install ", pkg.as_str(), "'"),
                ),
            };
            assert(item@ == apt_item(pkg@, desc@));
            Some(item)
        },
        None => None,
    }
}

impl PackageSearchPlugin {
    pub fn new() -> Self {
        PackageSearchPlugin
    }

    pub fn id(&self) -> (r: &'static str)
        ensures
            r@ == "packages"@,
    {
        "packages"
    }

    pub fn name(&self) -> (r: &'static str)
        ensures
            r@ == "Package Search"@,
    {
        "Package Search"
    }

    pub fn mode_keyword(&self) -> (r: Option<&'static str>)
        ensures
            r matches Some(k) && k@ == "pkg"@,
    {
        Some("pkg")
    }

    pub fn is_mode_only(&self) -> (r: bool)
        ensures
            r,
    {
        true
    }

    /// Queries shorter than three bytes are not searched.
    pub fn accepts(&self, query_text: &str) -> (b: bool)
        ensures
            b == (byte_len(query_text@) >= 3),
    {
        query_text.len() >= 3
    }

    /// Results for the output of `apt-cache search --names-only`.
    pub fn apt_results(&self, output: &str) -> (r: Vec<ResultItem>)
        ensures
            items_view(r@) == apt_results(output@),
    {
        let all = lines_of(&to_chars(output));
        let n = if all.len() <= 10 {
            all.len()
        } else {
            10
        };
        let ghost ls = first_n(lines(output@), 10);
        assert(lines_view(all@).take(n as int) =~= ls);
        let mut results: Vec<ResultItem> = Vec::new();
        let mut i: usize = 0;
        while i < n
            invariant
                i <= n <= all.len(),
                n == ls.len(),
                lines_view(all@).take(n as int) == ls,
                items_view(results@) == ls.take(i as int).filter_map(apt_pick()),
            decreases n - i,
        {
            let line = &all[i];
            assert(ls[i as int] == line@);
            let ghost before = items_view(results@);
            match apt_line(line) {
                Some(item) => {
                    let ghost v = item@;
                    results.push(item);
                    assert(items_view(results@) =~= before.push(v));
                },
                None => {},
            }
            proof {
                lemma_filter_map_step(ls, i as int, apt_pick());
            }
            i = i + 1;
        }
        proof {
            lemma_take_all(ls);
        }
        results
    }

    /// Results for the output of `flatpak search
    /// --columns=name,application,description`.
    pub fn flatpak_results(&self, output: &str) -> (r: Vec<ResultItem>)
        ensures
            items_view(r@) == flatpak_results(output@),
    {
        let all = lines_of(&to_chars(output));
        let start: usize = if all.len() == 0 {
            0
        } else {
            1
        };
        let avail = all.len() - start;
        let n = if avail <= 10 {
            avail
        } else {
            10
        };
        let ghost ls = first_n(skip_first(lines(output@)), 10);
        assert(lines_view(all@).subrange(start as int, start + n) =~= ls);
        let mut results: Vec<ResultItem> = Vec::new();
        let mut i: usize = 0;
        while i < n
            invariant
                i <= n,
                start + n <= all.len(),
                n == ls.len(),
                lines_view(all@).subrange(start as int, start + n) == ls,
                items_view(results@) == ls.take(i as int).filter_map(flatpak_pick()),
            decreases n - i,
        {
            let line = &all[start + i];
            assert(ls[i as int] == line@);
            let ghost before = items_view(results@);
            let parts = split_on(line, '\t');
            if parts.len() >= 3 {
                let name = from_chars(trim_chars(&parts[0]).as_slice());
                let app_id = from_chars(trim_chars(&parts[1]).as_slice());
                let desc = from_chars(trim_chars(&parts[2]).as_slice());
                proof {
                    assert(pieces_view(parts@)[0] == parts@[0]@);
                    assert(pieces_view(parts@)[1] == parts@[1]@);
                    assert(pieces_view(parts@)[2] == parts@[2]@);
                }
                results.push(
                    ResultItem {
                        id: cat("flatpak-", app_id.as_str()),
                        title: lit(name.as_str()),
                        subtitle: Some(cat("[Flatpak] ", desc.as_str())),
                        icon: Some(lit("flatpak-discover-symbolic")),
                        category: lit("Packages"),
                        score: 85,
                        actions: one_action(
                            lit("Install Flatpak"),
                            lit("run-command"),
                            cat("flatpak install -y ", app_id.as_str()),
                        ),
                    },
                );
                proof {
                    assert(items_view(results@) =~= before.push(flatpak_item(name@, app_id@, desc@)));
                }
            }
            proof {
                lemma_filter_map_step(ls, i as int, flatpak_pick());
            }
            i = i + 1;
        }
        proof {
            lemma_take_all(ls);
        }
        results
    }

    /// APT results followed by Flatpak results, ordered by score (highest
    /// first), keeping the order of equal scores.
    pub fn combine(&self, apt: Vec<ResultItem>, flatpak: Vec<ResultItem>) -> (r: Vec<ResultItem>)
        ensures
            items_view(r@) == firsts(sort_ranked(unkeyed(items_view(apt@) + items_view(flatpak@)))),
    {
        let ghost all = items_view(apt@) + items_view(flatpak@);
        let mut keyed: Vec<(ResultItem, Vec<char>)> = Vec::new();
        let mut rest = apt;
        let mut more = flatpak;
        let ghost a = items_view(rest@);
        let ghost b = items_view(more@);
        rest.append(&mut more);
        assert(items_view(rest@) =~= all);
        let ghost mut done: int = 0;
        while rest.len() > 0
            invariant
                0 <= done <= all.len(),
                items_view(rest@) == all.skip(done),
                pair_view(keyed@) == unkeyed(all.take(done)),
            decreases rest.len(),
        {
            let ghost rv = items_view(rest@);
            let x = rest.remove(0);
            proof {
                assert(items_view(rest@) =~= rv.drop_first());
                assert(rv[0] == x@);
                assert(all.skip(done)[0] == all[done]);
            }
            let ghost xv = x@;
            let ghost kbefore = pair_view(keyed@);
            let empty: Vec<char> = Vec::new();
            assert(empty@ =~= Seq::<char>::empty());
            keyed.push((x, empty));
            proof {
                assert(pair_view(keyed@) =~= kbefore.push((xv, Seq::<char>::empty())));
                assert(all.take(done + 1) =~= all.take(done).push(xv));
                assert(pair_view(keyed@) =~= unkeyed(all.take(done + 1)));
                done = done + 1;
            }
        }
        proof {
            assert(all.take(done) =~= all);
        }
        sort_by_rank(keyed)
    }
}

} // verus!
