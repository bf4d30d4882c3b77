//! File manager mode: `ff <path>` lists a directory, or the entries of its
//! parent that start with the last path component.
use vstd::prelude::*;
use crate::plugins::files::{ext_lower, extension_lower, file_icon, spec_file_icon};
use crate::plugins::ranking::{firsts, pair_view, sort_by_rank, sort_ranked, Ranked};
use crate::plugins::{
    action_v, item_v, items_view, lemma_filter_map_step, lemma_take_all, one_action, opt_view,
    two_actions, Action, ResultItem, ResultItemView,
};
use crate::settings::AppSettings;
use crate::text::{
    cat, cat3, from_chars, has_prefix, lit, lower_chars, same_chars, slice, starts_with, str_lower,
    to_chars, trim, trim_chars, trim_str,
};

verus! {

pub struct FileManagerPlugin;

/// Which folder a file-manager query lists.
#[derive(Debug, PartialEq, Eq)]
pub enum ListPlan {
    /// The requested path, an existing folder.
    Target,
    /// The parent of the requested path, filtered by the typed name.
    Parent,
    /// Neither is an existing folder: no results.
    Nothing,
}

/// One entry of the directory being listed.
#[derive(Debug)]
pub struct DirEntryInfo {
    pub file_name: String,
    pub path: String,
    pub is_dir: bool,
    pub extension: Option<String>,
}

pub struct DirEntryView {
    pub file_name: Seq<char>,
    pub path: Seq<char>,
    pub is_dir: bool,
    pub extension: Option<Seq<char>>,
}

impl View for DirEntryInfo {
    type V = DirEntryView;

    open spec fn view(&self) -> DirEntryView {
        DirEntryView {
            file_name: self.file_name@,
            path: self.path@,
            is_dir: self.is_dir,
            extension: opt_view(self.extension),
        }
    }
}

pub open spec fn entries_view(v: Seq<DirEntryInfo>) -> Seq<DirEntryView> {
    v.map_values(|e: DirEntryInfo| e@)
}

/// The path typed after `ff`: empty for a bare `ff`, `None` when the query
/// is not a file-manager command.
pub open spec fn path_part(query: Seq<char>) -> Option<Seq<char>> {
    let t = trim(query);
    if !starts_with(t, "ff"@) {
        None
    } else if t == "ff"@ {
        Some(Seq::empty())
    } else if starts_with(t, "ff "@) {
        Some(trim(t.skip("ff "@.len() as int)))
    } else {
        None
    }
}

/// The directory a command names: the home directory for a bare `ff`, a
/// leading `~` replaced by the home directory, and relative paths taken
/// from the home directory.
pub open spec fn spec_target(query: Seq<char>, home: Seq<char>) -> Option<Seq<char>> {
    match path_part(query) {
        None => None,
        Some(p) => {
            let r0 = if p.len() == 0 {
                home
            } else if p[0] == '~' {
                home + p.drop_first()
            } else {
                p
            };
            Some(
                if !(r0.len() > 0 && r0[0] == '/') && p.len() > 0 {
                    home + seq!['/'] + r0
                } else {
                    r0
                },
            )
        },
    }
}

/// Hidden entries are listed only when the filter itself starts with a dot;
/// a filter keeps the entries whose lower-cased name starts with it.
pub open spec fn visible(name: Seq<char>, filter: Seq<char>) -> bool {
    &&& !(name.len() > 0 && name[0] == '.' && !(filter.len() > 0 && filter[0] == '.'))
    &&& (filter.len() == 0 || starts_with(str_lower(name), filter))
}

pub open spec fn filter_of(typed: Option<Seq<char>>) -> Seq<char> {
    match typed {
        Some(n) => str_lower(n),
        None => Seq::empty(),
    }
}

pub open spec fn up_item(parent: Seq<char>) -> ResultItemView {
    item_v(
        "fm-dir-up-"@ + parent,
        ".."@,
        Some("Go up to: "@ + parent),
        Some("go-up-symbolic"@),
        "File Manager"@,
        200,
        seq![action_v("Navigate Up"@, "navigate-dir"@, "ff "@ + parent + "/"@)],
    )
}

pub open spec fn entry_item(e: DirEntryView, dir: Seq<char>) -> ResultItemView {
    item_v(
        "fm-"@ + e.path,
        e.file_name,
        Some(e.path),
        Some(
            if e.is_dir {
                "folder-symbolic"@
            } else {
                spec_file_icon(ext_lower(e.extension))
            },
        ),
        "File Manager"@,
        if e.is_dir {
            180
        } else {
            170
        },
        if e.is_dir {
            seq![
                action_v("Navigate into Folder"@, "navigate-dir"@, "ff "@ + e.path + "/"@),
                action_v("Open in File Manager"@, "open-url"@, "file://"@ + e.path),
            ]
        } else {
            seq![
                action_v("Open File"@, "open-url"@, "file://"@ + e.path),
                action_v("Open Parent Directory"@, "open-url"@, "file://"@ + dir),
            ]
        },
    )
}

pub open spec fn entry_pick(dir: Seq<char>, filter: Seq<char>) -> spec_fn(DirEntryView) -> Option<Ranked> {
    |e: DirEntryView|
        if visible(e.file_name, filter) {
            Some((entry_item(e, dir), str_lower(e.file_name)))
        } else {
            None
        }
}

/// The listing: the way up (when there is a parent) and the visible
/// entries, folders before files, each group by lower-cased name.
pub open spec fn spec_listing(
    dir: Seq<char>,
    parent: Option<Seq<char>>,
    entries: Seq<DirEntryView>,
    typed: Option<Seq<char>>,
) -> Seq<ResultItemView> {
    let up = match parent {
        Some(p) => seq![(up_item(p), str_lower(".."@))],
        None => Seq::<Ranked>::empty(),
    };
    firsts(sort_ranked(up + entries.filter_map(entry_pick(dir, filter_of(typed)))))
}

impl FileManagerPlugin {
    pub fn new() -> Self {
        FileManagerPlugin
    }

    pub fn id(&self) -> (r: &'static str)
        ensures
            r@ == "file_manager"@,
    {
        "file_manager"
    }

    pub fn name(&self) -> (r: &'static str)
        ensures
            r@ == "File Manager"@,
    {
        "File Manager"
    }

    /// This provider answers every query: it has no mode keyword.
    pub fn mode_keyword(&self) -> (r: Option<&'static str>)
        ensures
            r is None,
    {
        None
    }

    /// This provider is not limited to a mode.
    pub fn is_mode_only(&self) -> (r: bool)
        ensures
            !r,
    {
        false
    }

    /// What to list for the requested path: the path itself when it is an
    /// existing folder, else its parent when that is an existing folder
    /// (filtered by the name typed after it), else nothing.
    pub fn plan(target_is_dir: bool, parent_is_dir: bool) -> (r: ListPlan)
        ensures
            r == (if target_is_dir {
                ListPlan::Target
            } else if parent_is_dir {
                ListPlan::Parent
            } else {
                ListPlan::Nothing
            }),
    {
        if target_is_dir {
            ListPlan::Target
        } else if parent_is_dir {
            ListPlan::Parent
        } else {
            ListPlan::Nothing
        }
    }

    /// The directory the query asks to list, for the home directory `home`.
    pub fn target(&self, query_text: &str, home: &str) -> (r: Option<String>)
        ensures
            opt_view(r) == spec_target(query_text@, home@),
    {
        let t = trim_str(query_text);
        if !has_prefix(&t, &to_chars("ff")) {
            return None;
        }
        let ff_space = to_chars("ff ");
        let part = if same_chars(&t, &to_chars("ff")) {
            Vec::new()
        } else if has_prefix(&t, &ff_space) {
            let rest = slice(&t, ff_space.len(), t.len());
            assert(rest@ =~= t@.skip("ff "@.len() as int));
            trim_chars(&rest)
        } else {
            return None;
        };
        assert(path_part(query_text@) == Some(part@));
        let r0: Vec<char> = if part.len() == 0 {
            to_chars(home)
        } else if part[0] == '~' {
            let s = cat(home, from_chars(slice(&part, 1, part.len()).as_slice()).as_str());
            assert(part@.subrange(1, part@.len() as int) =~= part@.drop_first());
            to_chars(s.as_str())
        } else {
            part.clone()
        };
        assert(r0@ == (if part@.len() == 0 {
            home@
        } else if part@[0] == '~' {
            home@ + part@.drop_first()
        } else {
            part@
        }));
        let r = if !(r0.len() > 0 && r0[0] == '/') && part.len() > 0 {
            let sep = from_chars(&['/']);
            assert(sep@ =~= seq!['/']);
            cat3(home, sep.as_str(), from_chars(r0.as_slice()).as_str())
        } else {
            from_chars(r0.as_slice())
        };
        Some(r)
    }

    /// Whether an entry named `name` is listed under the (lower-cased)
    /// filter.
    pub fn is_listed(name: &str, filter: &Vec<char>) -> (b: bool)
        ensures
            b == visible(name@, filter@),
    {
        let n = to_chars(name);
        if n.len() > 0 && n[0] == '.' && !(filter.len() > 0 && filter[0] == '.') {
            return false;
        }
        filter.len() == 0 || has_prefix(&lower_chars(&n), filter)
    }

    /// The results for the directory `dir` (with the given parent, if it
    /// has one) and its entries, keeping those that match the name `typed`
    /// after the last separator, when one was typed.
    pub fn listing(
        &self,
        dir: &str,
        parent: Option<&str>,
        entries: Vec<DirEntryInfo>,
        typed: Option<&str>,
    ) -> (r: Vec<ResultItem>)
        ensures
            items_view(r@) == spec_listing(
                dir@,
                match parent {
                    Some(p) => Some(p@),
                    None => None,
                },
                entries_view(entries@),
                match typed {
                    Some(t) => Some(t@),
                    None => None,
                },
            ),
    {
        let filter = match typed {
            Some(t) => lower_chars(&to_chars(t)),
            None => Vec::new(),
        };
        let ghost tv = match typed {
            Some(t) => Some(t@),
            None => None,
        };
        assert(filter@ == filter_of(tv));
        let mut ranked: Vec<(ResultItem, Vec<char>)> = Vec::new();
        match parent {
            Some(p) => {
                let item = ResultItem {
                    id: cat("fm-dir-up-", p),
                    title: lit(".."),
                    subtitle: Some(cat("Go up to: ", p)),
                    icon: Some(lit("go-up-symbolic")),
                    category: lit("File Manager"),
                    score: 200,
                    actions: one_action(lit("Navigate Up"), lit("navigate-dir"), cat3("ff ", p, "/")),
                };
                ranked.push((item, lower_chars(&to_chars(".."))));
            },
            None => {},
        }
        let ghost up = pair_view(ranked@);
        assert(up =~= match parent {
            Some(p) => seq![(up_item(p@), str_lower(".."@))],
            None => Seq::<Ranked>::empty(),
        });
        let ghost ev = entries_view(entries@);
        let ghost pick = entry_pick(dir@, filter@);
        let mut rest = entries;
        let ghost mut done: int = 0;
        while rest.len() > 0
            invariant
                0 <= done <= ev.len(),
                entries_view(rest@) == ev.skip(done),
                pair_view(ranked@) == up + ev.take(done).filter_map(pick),
                pick == entry_pick(dir@, filter@),
            decreases rest.len(),
        {
            let ghost rv = entries_view(rest@);
            let ghost before = pair_view(ranked@);
            let e = rest.remove(0);
            let ghost e_v = e@;
            proof {
                assert(entries_view(rest@) =~= rv.drop_first());
                assert(rv.len() > 0);
                assert(rv[0] == e_v);
                assert(ev.skip(done)[0] == ev[done]);
                assert(ev[done] == e_v);
            }
            if Self::is_listed(e.file_name.as_str(), &filter) {
                let key = lower_chars(&to_chars(e.file_name.as_str()));
                let (icon, actions, score) = if e.is_dir {
                    let a = two_actions(
                        Action::new(lit("Navigate into Folder"), lit("navigate-dir"), cat3("ff ", e.path.as_str(), "/")),
                        Action::new(lit("Open in File Manager"), lit("open-url"), cat("file://", e.path.as_str())),
                    );
                    ("folder-symbolic", a, 180)
                } else {
                    let a = two_actions(
                        Action::new(lit("Open File"), lit("open-url"), cat("file://", e.path.as_str())),
                        Action::new(lit("Open Parent Directory"), lit("open-url"), cat("file://", dir)),
                    );
                    (file_icon(&extension_lower(&e.extension)), a, 170)
                };
                let item = ResultItem {
                    id: cat("fm-", e.path.as_str()),
                    title: e.file_name,
                    subtitle: Some(lit(e.path.as_str())),
                    icon: Some(lit(icon)),
                    category: lit("File Manager"),
                    score,
                    actions,
                };
                assert(item@ == entry_item(e_v, dir@));
                ranked.push((item, key));
            }
            proof {
                lemma_filter_map_step(ev, done, pick);
                if pick(ev[done]) is Some {
                    assert(pair_view(ranked@) =~= before.push((entry_item(e_v, dir@), str_lower(e_v.file_name))));
                } else {
                    assert(pair_view(ranked@) =~= before);
                }
                assert(pair_view(ranked@) =~= up + ev.take(done + 1).filter_map(pick));
                done = done + 1;
            }
        }
        proof {
            assert(ev.take(done) =~= ev);
        }
        sort_by_rank(ranked)
    }
}

} // verus!
