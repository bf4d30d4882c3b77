//! File search under the configured roots and the top of the home directory.
use vstd::prelude::*;
use crate::plugins::ranking::{firsts, lex_lt, pair_view, sort_by_rank, sort_ranked, Ranked};
use crate::plugins::{
    action_v, item_v, items_view, lemma_filter_map_step, lemma_take_all, two_actions, Action,
    ResultItem, ResultItemView, strings_view,
};
use crate::settings::{join_path, joined};
use crate::text::{
    cat, cat3, contains, from_chars, has_prefix, has_substring, lit, lower_chars, lowercase,
    same_chars, slice, starts_with, str_lower, to_chars, trim, trim_chars, trim_str,
};

verus! {

pub struct FilesPlugin;

/// Entries a search may visit in all, to keep it fast.
pub const MAX_VISITED: usize = 3000;

/// Levels searched below each search root.
pub const ROOT_DEPTH: usize = 3;

/// Levels searched below the home directory itself.
pub const HOME_DEPTH: usize = 1;

/// A file or folder found while searching.
#[derive(Debug)]
pub struct FileMatch {
    /// The full path.
    pub path: String,
    /// The last component of the path.
    pub file_name: String,
    pub is_dir: bool,
    /// The extension, when the path has one.
    pub extension: Option<String>,
    /// The containing directory (the path itself when it has none).
    pub parent: String,
}

pub struct FileMatchView {
    pub path: Seq<char>,
    pub file_name: Seq<char>,
    pub is_dir: bool,
    pub extension: Option<Seq<char>>,
    pub parent: Seq<char>,
}

impl View for FileMatch {
    type V = FileMatchView;

    open spec fn view(&self) -> FileMatchView {
        FileMatchView {
            path: self.path@,
            file_name: self.file_name@,
            is_dir: self.is_dir,
            extension: crate::plugins::opt_view(self.extension),
            parent: self.parent@,
        }
    }
}

pub open spec fn matches_view(v: Seq<FileMatch>) -> Seq<FileMatchView> {
    v.map_values(|m: FileMatch| m@)
}

pub open spec fn pieces_view(v: Seq<Vec<char>>) -> Seq<Seq<char>> {
    v.map_values(|p: Vec<char>| p@)
}

pub open spec fn one_of(x: Seq<char>, list: Seq<Seq<char>>) -> bool {
    exists|i: int| 0 <= i < list.len() && list[i] == x
}

pub open spec fn text_exts() -> Seq<Seq<char>> {
    seq![
        "txt"@,
        "md"@,
        "json"@,
        "rs"@,
        "py"@,
        "js"@,
        "c"@,
        "cpp"@,
        "h"@,
        "sh"@,
        "xml"@,
        "toml"@,
        "yaml"@,
        "yml"@,
    ]
}

pub open spec fn image_exts() -> Seq<Seq<char>> {
    seq!["png"@, "jpg"@, "jpeg"@, "gif"@, "svg"@, "webp"@]
}

pub open spec fn audio_exts() -> Seq<Seq<char>> {
    seq!["mp3"@, "wav"@, "ogg"@, "flac"@, "m4a"@]
}

pub open spec fn video_exts() -> Seq<Seq<char>> {
    seq!["mp4"@, "mkv"@, "avi"@, "mov"@, "webm"@]
}

pub open spec fn archive_exts() -> Seq<Seq<char>> {
    seq!["zip"@, "tar"@, "gz"@, "xz"@, "rar"@, "7z"@]
}

/// The symbolic icon for a file with this (lower-cased) extension.
pub open spec fn spec_file_icon(ext: Seq<char>) -> Seq<char> {
    if ext == "pdf"@ {
        "document-send-symbolic"@
    } else if one_of(ext, text_exts()) {
        "text-x-generic-symbolic"@
    } else if one_of(ext, image_exts()) {
        "image-x-generic-symbolic"@
    } else if one_of(ext, audio_exts()) {
        "audio-x-generic-symbolic"@
    } else if one_of(ext, video_exts()) {
        "video-x-generic-symbolic"@
    } else if one_of(ext, archive_exts()) {
        "package-x-generic-symbolic"@
    } else {
        "text-x-generic-symbolic"@
    }
}

/// The lower-cased extension of a path, empty when it has none.
pub open spec fn ext_lower(ext: Option<Seq<char>>) -> Seq<char> {
    match ext {
        Some(e) => str_lower(e),
        None => Seq::empty(),
    }
}

fn in_list(x: &Vec<char>, list: &[&'static str]) -> (b: bool)
    ensures
        b == one_of(x@, list@.map_values(|s: &str| s@)),
{
    let ghost l = list@.map_values(|s: &str| s@);
    let mut i: usize = 0;
    while i < list.len()
        invariant
            i <= list.len(),
            l == list@.map_values(|s: &str| s@),
            forall|k: int| 0 <= k < i ==> l[k] != x@,
        decreases list.len() - i,
    {
        if same_chars(x, &to_chars(list[i])) {
            assert(l[i as int] == x@);
            return true;
        }
        i = i + 1;
    }
    false
}

/// The symbolic icon for a file with this (lower-cased) extension.
pub fn file_icon(ext: &Vec<char>) -> (r: &'static str)
    ensures
        r@ == spec_file_icon(ext@),
{
    let text: &[&'static str] = &[
        "txt",
        "md",
        "json",
        "rs",
        "py",
        "js",
        "c",
        "cpp",
        "h",
        "sh",
        "xml",
        "toml",
        "yaml",
        "yml",
    ];
    let image: &[&'static str] = &["png", "jpg", "jpeg", "gif", "svg", "webp"];
    let audio: &[&'static str] = &["mp3", "wav", "ogg", "flac", "m4a"];
    let video: &[&'static str] = &["mp4", "mkv", "avi", "mov", "webm"];
    let archive: &[&'static str] = &["zip", "tar", "gz", "xz", "rar", "7z"];
    assert(text@.map_values(|s: &str| s@) =~= text_exts());
    assert(image@.map_values(|s: &str| s@) =~= image_exts());
    assert(audio@.map_values(|s: &str| s@) =~= audio_exts());
    assert(video@.map_values(|s: &str| s@) =~= video_exts());
    assert(archive@.map_values(|s: &str| s@) =~= archive_exts());
    if same_chars(ext, &to_chars("pdf")) {
        "document-send-symbolic"
    } else if in_list(ext, text) {
        "text-x-generic-symbolic"
    } else if in_list(ext, image) {
        "image-x-generic-symbolic"
    } else if in_list(ext, audio) {
        "audio-x-generic-symbolic"
    } else if in_list(ext, video) {
        "video-x-generic-symbolic"
    } else if in_list(ext, archive) {
        "package-x-generic-symbolic"
    } else {
        "text-x-generic-symbolic"
    }
}

/// The lower-cased extension, empty when there is none.
pub fn extension_lower(ext: &Option<String>) -> (r: Vec<char>)
    ensures
        r@ == ext_lower(crate::plugins::opt_view(*ext)),
{
    match ext {
        Some(e) => lower_chars(&to_chars(e.as_str())),
        None => Vec::new(),
    }
}

/// Folders that are not descended into: hidden ones and common build and
/// cache directories.
pub open spec fn spec_should_skip_dir(name: Seq<char>) -> bool {
    (name.len() > 0 && name[0] == '.') || name == "node_modules"@ || name == "target"@ || name
        == "build"@ || name == "dist"@ || name == "venv"@ || name == ".git"@ || name == "Cache"@
        || name == "cache"@
}

pub fn should_skip_dir(name: &str) -> (b: bool)
    ensures
        b == spec_should_skip_dir(name@),
{
    let n = to_chars(name);
    (n.len() > 0 && n[0] == '.') || same_chars(&n, &to_chars("node_modules")) || same_chars(
        &n,
        &to_chars("target"),
    ) || same_chars(&n, &to_chars("build")) || same_chars(&n, &to_chars("dist")) || same_chars(
        &n,
        &to_chars("venv"),
    ) || same_chars(&n, &to_chars(".git")) || same_chars(&n, &to_chars("Cache")) || same_chars(
        &n,
        &to_chars("cache"),
    )
}

/// A name is found when its lower-cased form contains the lower-cased query.
pub fn name_matches(name: &str, query_lower: &Vec<char>) -> (b: bool)
    ensures
        b == contains(str_lower(name@), query_lower@),
{
    has_substring(&to_chars(lowercase(name).as_str()), query_lower)
}

/// `str::split` on one character: the pieces between separators, empty
/// pieces included.
pub open spec fn split_char(s: Seq<char>, c: char) -> Seq<Seq<char>>
    decreases s.len(),
{
    if s.len() == 0 {
        seq![Seq::empty()]
    } else {
        let rest = split_char(s.drop_last(), c);
        if s.last() == c {
            rest.push(Seq::empty())
        } else {
            rest.update(rest.len() - 1, rest.last().push(s.last()))
        }
    }
}

pub proof fn lemma_split_char_len(s: Seq<char>, c: char)
    ensures
        split_char(s, c).len() >= 1,
    decreases s.len(),
{
    if s.len() > 0 {
        lemma_split_char_len(s.drop_last(), c);
    }
}

/// The pieces of `s` between occurrences of `c`.
pub fn split_on(s: &Vec<char>, c: char) -> (r: Vec<Vec<char>>)
    ensures
        pieces_view(r@) == split_char(s@, c),
{
    let mut pieces: Vec<Vec<char>> = Vec::new();
    let mut cur: Vec<char> = Vec::new();
    let mut i: usize = 0;
    assert(s@.take(0) =~= Seq::<char>::empty());
    while i < s.len()
        invariant
            i <= s.len(),
            pieces_view(pieces@).push(cur@) == split_char(s@.take(i as int), c),
        decreases s.len() - i,
    {
        let ghost before = pieces_view(pieces@).push(cur@);
        proof {
            lemma_split_char_len(s@.take(i as int), c);
        }
        if s[i] == c {
            pieces.push(cur);
            cur = Vec::new();
        } else {
            cur.push(s[i]);
        }
        proof {
            let t = s@.take(i + 1);
            assert(t.drop_last() =~= s@.take(i as int));
            assert(t.last() == s@[i as int]);
            assert(pieces_view(pieces@).push(cur@) =~= split_char(t, c));
        }
        i = i + 1;
    }
    assert(s@.take(s.len() as int) =~= s@);
    pieces.push(cur);
    r_eq(pieces)
}

fn r_eq(v: Vec<Vec<char>>) -> (r: Vec<Vec<char>>)
    ensures
        r@ == v@,
{
    v
}

/// A root with a leading `~` stands for the home directory.
pub open spec fn expand_home(root: Seq<char>, home: Seq<char>) -> Seq<char> {
    if root.len() > 0 && root[0] == '~' {
        home + root.drop_first()
    } else {
        root
    }
}

/// The comma-separated roots of the setting, trimmed, blanks dropped, `~`
/// expanded.
pub open spec fn spec_search_roots(setting: Seq<char>, home: Seq<char>) -> Seq<Seq<char>> {
    split_char(setting, ',').filter_map(root_pick(home))
}

pub open spec fn root_pick(home: Seq<char>) -> spec_fn(Seq<char>) -> Option<Seq<char>> {
    |p: Seq<char>|
        if trim(p).len() == 0 {
            None
        } else {
            Some(expand_home(trim(p), home))
        }
}

/// Search score: an exact (lower-cased) name ranks first, then a prefix.
pub open spec fn file_score(name_lower: Seq<char>, q: Seq<char>) -> i32 {
    if name_lower == q {
        80
    } else if starts_with(name_lower, q) {
        70
    } else {
        50
    }
}

pub open spec fn file_item(m: FileMatchView, q: Seq<char>) -> ResultItemView {
    item_v(
        "file-"@ + m.path,
        m.file_name,
        Some(m.path),
        Some(
            if m.is_dir {
                "folder-symbolic"@
            } else {
                spec_file_icon(ext_lower(m.extension))
            },
        ),
        "Files"@,
        file_score(str_lower(m.file_name), q),
        seq![
            action_v("Open File"@, "open-url"@, "file://"@ + m.path),
            action_v("Open Parent Directory"@, "open-url"@, "file://"@ + m.parent),
        ],
    )
}

pub open spec fn file_ranked(q: Seq<char>) -> spec_fn(FileMatchView) -> Ranked {
    |m: FileMatchView| (file_item(m, q), m.file_name)
}

/// The results for the matches found: ranked by score, then by name, at
/// most twenty; none for a blank query.
pub open spec fn file_results(query: Seq<char>, found: Seq<FileMatchView>) -> Seq<ResultItemView> {
    let t = trim(query);
    if t.len() == 0 {
        Seq::empty()
    } else {
        let ranked = firsts(sort_ranked(found.map_values(file_ranked(str_lower(t)))));
        if ranked.len() > 20 {
            ranked.take(20)
        } else {
            ranked
        }
    }
}

// ---------------------------------------------------------------------------
// Putting the matches in path order, without repeats
// ---------------------------------------------------------------------------

/// Whether path `a` comes before path `b` in std's order on paths (which
/// compares them component by component).
pub uninterp spec fn path_before(a: Seq<char>, b: Seq<char>) -> bool;

/// Whether paths `a` and `b` are equal in std's sense (component by
/// component).
pub uninterp spec fn path_same(a: Seq<char>, b: Seq<char>) -> bool;

/// `<` on `std::path::Path`: the answer is named by `path_before`. `Path`
/// is `Ord`, a total order consistent with its `==`; of it the contract
/// claims, for the two paths compared, that `<` is asymmetric and that when
/// `b` is not after `a`, nothing after `a` is at or before `b`.
#[verifier::external_body]
fn paths_before(a: &str, b: &str) -> (r: bool)
    ensures
        r == path_before(a@, b@),
        r ==> !path_before(b@, a@),
        !r ==> forall|c: Seq<char>| !path_before(b@, c) ==> !#[trigger] path_before(a@, c),
{
    std::path::Path::new(a) < std::path::Path::new(b)
}

/// `==` on `std::path::Path`: the answer is named by `path_same`. As `Path`
/// is `Ord` consistently with `==`, the contract claims for the two paths
/// compared: equality is symmetric; unequal paths are ordered one way or
/// the other; and, when they are unequal with `b` before `a`, whatever is
/// before `b` is before `a` and unequal to it.
#[verifier::external_body]
fn paths_same(a: &str, b: &str) -> (r: bool)
    ensures
        r == path_same(a@, b@),
        r == path_same(b@, a@),
        !r ==> (path_before(a@, b@) || path_before(b@, a@)),
        !r ==> forall|c: Seq<char>|
            #[trigger] path_before(c, b@) && path_before(b@, a@) ==> path_before(c, a@) && !path_same(
                c,
                a@,
            ),
{
    std::path::Path::new(a) == std::path::Path::new(b)
}

/// `x` put into `s` after every match that does not come after it.
pub open spec fn insert_by_path(s: Seq<FileMatchView>, x: FileMatchView) -> Seq<FileMatchView>
    decreases s.len(),
{
    if s.len() == 0 {
        seq![x]
    } else if path_before(x.path, s.last().path) {
        insert_by_path(s.drop_last(), x).push(s.last())
    } else {
        s.push(x)
    }
}

/// The matches in path order; matches with equal paths keep their order.
pub open spec fn sort_by_path(s: Seq<FileMatchView>) -> Seq<FileMatchView>
    decreases s.len(),
{
    if s.len() == 0 {
        s
    } else {
        insert_by_path(sort_by_path(s.drop_last()), s.last())
    }
}

/// The matches without those whose path equals that of the match kept
/// just before them.
pub open spec fn dedup_paths(s: Seq<FileMatchView>) -> Seq<FileMatchView>
    decreases s.len(),
{
    if s.len() == 0 {
        s
    } else {
        let d = dedup_paths(s.drop_last());
        if d.len() > 0 && path_same(s.last().path, d.last().path) {
            d
        } else {
            d.push(s.last())
        }
    }
}

proof fn lemma_insert_by_path_at(s: Seq<FileMatchView>, x: FileMatchView, p: int)
    requires
        0 <= p <= s.len(),
        forall|k: int| p <= k < s.len() ==> path_before(x.path, #[trigger] s[k].path),
        p == 0 || !path_before(x.path, s[p - 1].path),
    ensures
        insert_by_path(s, x) == s.take(p) + seq![x] + s.skip(p),
    decreases s.len(),
{
    if s.len() == 0 {
        assert(s.take(p) + seq![x] + s.skip(p) =~= seq![x]);
    } else if path_before(x.path, s.last().path) {
        let t = s.drop_last();
        assert(p < s.len());
        assert forall|k: int| p <= k < t.len() implies path_before(x.path, #[trigger] t[k].path) by {
            assert(t[k] == s[k]);
        }
        if p > 0 {
            assert(t[p - 1] == s[p - 1]);
        }
        lemma_insert_by_path_at(t, x, p);
        assert(t.take(p) + seq![x] + t.skip(p) + seq![s.last()] =~= s.take(p) + seq![x] + s.skip(p));
    } else {
        assert(p == s.len());
        assert(s.take(p) + seq![x] + s.skip(p) =~= s.push(x));
    }
}

/// No match comes after a later one in path order.
pub open spec fn in_path_order(s: Seq<FileMatchView>) -> bool {
    forall|i: int, j: int| 0 <= i < j < s.len() ==> !path_before(#[trigger] s[j].path, #[trigger] s[i].path)
}

/// Each match is before every later one in path order, and none shares its
/// path with another.
pub open spec fn strictly_in_path_order(s: Seq<FileMatchView>) -> bool {
    forall|i: int, j: int|
        0 <= i < j < s.len() ==> path_before(#[trigger] s[i].path, #[trigger] s[j].path) && !path_same(
            s[i].path,
            s[j].path,
        )
}

proof fn lemma_insert_in_order(s: Seq<FileMatchView>, x: FileMatchView, p: int)
    requires
        in_path_order(s),
        0 <= p <= s.len(),
        forall|k: int| p <= k < s.len() ==> !path_before(#[trigger] s[k].path, x.path),
        p > 0 ==> !path_before(x.path, s[p - 1].path),
        p > 0 ==> forall|c: Seq<char>| !path_before(s[p - 1].path, c) ==> !#[trigger] path_before(x.path, c),
    ensures
        in_path_order(s.take(p) + seq![x] + s.skip(p)),
{
    let n = s.take(p) + seq![x] + s.skip(p);
    assert forall|i: int, j: int| 0 <= i < j < n.len() implies !path_before(#[trigger] n[j].path, #[trigger] n[i].path) by {
        if j < p {
            assert(n[i] == s[i] && n[j] == s[j]);
        } else if j == p {
            assert(n[j] == x && n[i] == s[i]);
            if i < p - 1 {
                assert(!path_before(s[p - 1].path, s[i].path));
            }
        } else if i == p {
            assert(n[i] == x && n[j] == s[j - 1]);
        } else if i < p {
            assert(n[i] == s[i] && n[j] == s[j - 1]);
        } else {
            assert(n[i] == s[i - 1] && n[j] == s[j - 1]);
        }
    }
}

impl FilesPlugin {
    /// The matches found, sorted by path, with repeated paths removed (the
    /// first of each run of equal paths stays): no two share a path.
    pub fn unique_matches(found: Vec<FileMatch>) -> (r: Vec<FileMatch>)
        ensures
            matches_view(r@) == dedup_paths(sort_by_path(matches_view(found@))),
            strictly_in_path_order(matches_view(r@)),
    {
        let ghost all = found@;
        let mut out: Vec<FileMatch> = Vec::new();
        let mut rest = found;
        let ghost mut done: int = 0;
        while rest.len() > 0
            invariant
                0 <= done <= all.len(),
                rest@ == all.skip(done),
                matches_view(out@) == sort_by_path(matches_view(all.take(done))),
                in_path_order(matches_view(out@)),
            decreases rest.len(),
        {
            let x = rest.remove(0);
            let ghost before = matches_view(out@);
            let mut p = out.len();
            loop
                invariant
                    p <= out.len(),
                    matches_view(out@) == before,
                    forall|k: int|
                        p <= k < out.len() ==> path_before(x@.path, #[trigger] before[k].path)
                            && !path_before(before[k].path, x@.path),
                ensures
                    p <= out.len(),
                    p > 0 ==> !path_before(x@.path, before[p - 1].path),
                    p > 0 ==> forall|c: Seq<char>|
                        !path_before(before[p - 1].path, c) ==> !#[trigger] path_before(x@.path, c),
                decreases p,
            {
                if p == 0 {
                    break;
                }
                let earlier = paths_before(x.path.as_str(), out[p - 1].path.as_str());
                if !earlier {
                    break;
                }
                p = p - 1;
            }
            let ghost xv = x@;
            proof {
                lemma_insert_by_path_at(before, xv, p as int);
                lemma_insert_in_order(before, xv, p as int);
            }
            out.insert(p, x);
            proof {
                assert(x == all[done]);
                let taken = all.take(done + 1);
                assert(matches_view(taken).drop_last() =~= matches_view(all.take(done)));
                assert(matches_view(taken).last() == xv);
                assert(matches_view(out@) =~= before.take(p as int) + seq![xv] + before.skip(p as int));
                done = done + 1;
                assert(rest@ =~= all.skip(done));
            }
        }
        proof {
            assert(all.take(done) =~= all);
        }
        let ghost sorted = matches_view(out@);
        let mut kept: Vec<FileMatch> = Vec::new();
        let mut rest = out;
        let ghost mut n: int = 0;
        while rest.len() > 0
            invariant
                0 <= n <= sorted.len(),
                matches_view(rest@) == sorted.skip(n),
                matches_view(kept@) == dedup_paths(sorted.take(n)),
                in_path_order(sorted),
                strictly_in_path_order(matches_view(kept@)),
                kept.len() > 0 ==> forall|j: int|
                    n <= j < sorted.len() ==> !path_before(
                        #[trigger] sorted[j].path,
                        matches_view(kept@).last().path,
                    ),
            decreases rest.len(),
        {
            let ghost rv = matches_view(rest@);
            let x = rest.remove(0);
            proof {
                assert(matches_view(rest@) =~= rv.drop_first());
                assert(rv[0] == x@);
                assert(sorted.skip(n)[0] == sorted[n]);
                let taken = sorted.take(n + 1);
                assert(taken.drop_last() =~= sorted.take(n));
                assert(taken.last() == x@);
            }
            let ghost before = matches_view(kept@);
            let ghost xv = x@;
            let repeat = kept.len() > 0 && paths_same(x.path.as_str(), kept[kept.len() - 1].path.as_str());
            if !repeat {
                kept.push(x);
                proof {
                    let now = matches_view(kept@);
                    assert(now =~= before.push(xv));
                    if before.len() > 0 {
                        let last = before.last();
                        assert(last == before[before.len() - 1]);
                        assert(!path_before(sorted[n].path, last.path));
                        assert(path_before(last.path, xv.path));
                        assert forall|i: int, j: int| 0 <= i < j < now.len() implies path_before(
                            #[trigger] now[i].path,
                            #[trigger] now[j].path,
                        ) && !path_same(now[i].path, now[j].path) by {
                            if j < before.len() {
                                assert(now[i] == before[i] && now[j] == before[j]);
                            } else {
                                assert(now[j] == xv);
                                assert(now[i] == before[i]);
                                if i < before.len() - 1 {
                                    assert(path_before(before[i].path, before[before.len() - 1].path));
                                }
                            }
                        }
                    }
                    assert forall|j: int| n + 1 <= j < sorted.len() implies !path_before(
                        #[trigger] sorted[j].path,
                        now.last().path,
                    ) by {
                        assert(now.last() == sorted[n]);
                    }
                }
            }
            proof {
                n = n + 1;
                assert(matches_view(rest@) =~= sorted.skip(n));
            }
        }
        proof {
            assert(sorted.take(n) =~= sorted);
        }
        kept
    }
}

/// What to do with one directory entry met while searching.
#[derive(Debug, PartialEq, Eq)]
pub enum Visit {
    /// The traversal budget is spent: stop searching.
    Stop,
    /// Record the entry when `matched`; search inside it when `descend`.
    Next { matched: bool, descend: bool },
}

impl FilesPlugin {
    /// A directory at `depth` is searched while the depth limit and the
    /// budget of visited entries allow.
    pub fn may_enter(depth: usize, max_depth: usize, visited: usize, max_visited: usize) -> (b: bool)
        ensures
            b == (depth <= max_depth && visited < max_visited),
    {
        depth <= max_depth && visited < max_visited
    }

    /// Counts an entry against the budget and decides about it: an entry
    /// whose lower-cased name contains the query is recorded; a folder is
    /// searched unless it is skipped; an entry without a name is passed
    /// over.
    pub fn visit(
        visited: &mut usize,
        max_visited: usize,
        name: Option<&str>,
        is_dir: bool,
        query_lower: &Vec<char>,
    ) -> (r: Visit)
        requires
            *old(visited) < usize::MAX,
        ensures
            *final(visited) == *old(visited) + 1,
            *final(visited) >= max_visited ==> r == Visit::Stop,
            *final(visited) < max_visited ==> r == (match name {
                Some(n) => Visit::Next {
                    matched: contains(str_lower(n@), query_lower@),
                    descend: is_dir && !spec_should_skip_dir(n@),
                },
                None => Visit::Next { matched: false, descend: false },
            }),
    {
        *visited = *visited + 1;
        if *visited >= max_visited {
            return Visit::Stop;
        }
        match name {
            Some(n) => Visit::Next {
                matched: name_matches(n, query_lower),
                descend: is_dir && !should_skip_dir(n),
            },
            None => Visit::Next { matched: false, descend: false },
        }
    }

    pub fn new() -> Self {
        FilesPlugin
    }

    pub fn id(&self) -> (r: &'static str)
        ensures
            r@ == "files"@,
    {
        "files"
    }

    pub fn name(&self) -> (r: &'static str)
        ensures
            r@ == "File Search"@,
    {
        "File Search"
    }

    /// This provider answers every query: it has no mode keyword.
    pub fn mode_keyword(&self) -> (r: Option<&'static str>)
        ensures
            r is None,
    {
        None
    }

    /// This provider is not limited to a mode.
    pub fn is_mode_only(&self) -> (r: bool)
        ensures
            !r,
    {
        false
    }

    /// The folders searched when none of the configured roots exists: the
    /// home directory's `Documents`, `Downloads` and `Desktop`.
    pub fn fallback_roots(home: &str) -> (r: Vec<String>)
        ensures
            strings_view(r@) == seq![
                joined(home@, "Documents"@),
                joined(home@, "Downloads"@),
                joined(home@, "Desktop"@),
            ],
    {
        let mut r: Vec<String> = Vec::new();
        r.push(join_path(home, "Documents"));
        r.push(join_path(home, "Downloads"));
        r.push(join_path(home, "Desktop"));
        proof {
            assert(strings_view(r@) =~= seq![
                joined(home@, "Documents"@),
                joined(home@, "Downloads"@),
                joined(home@, "Desktop"@),
            ]);
        }
        r
    }

    /// The search roots named by the setting (before checking that they
    /// exist).
    pub fn search_roots(&self, setting: &str, home: &str) -> (r: Vec<String>)
        ensures
            strings_view(r@) == spec_search_roots(setting@, home@),
    {
        let pieces = split_on(&to_chars(setting), ',');
        let ghost f = root_pick(home@);
        let ghost pv = pieces_view(pieces@);
        let mut roots: Vec<String> = Vec::new();
        let mut i: usize = 0;
        while i < pieces.len()
            invariant
                i <= pieces.len(),
                pv == pieces_view(pieces@),
                pv == split_char(setting@, ','),
                f == root_pick(home@),
                strings_view(roots@) == pv.take(i as int).filter_map(f),
            decreases pieces.len() - i,
        {
            let t = trim_chars(&pieces[i]);
            assert(pieces@[i as int]@ == pv[i as int]);
            let ghost before = strings_view(roots@);
            if t.len() > 0 {
                let root = if t[0] == '~' {
                    let rest = from_chars(slice(&t, 1, t.len()).as_slice());
                    assert(t@.subrange(1, t@.len() as int) =~= t@.drop_first());
                    cat(home, rest.as_str())
                } else {
                    from_chars(t.as_slice())
                };
                roots.push(root);
            }
            proof {
                lemma_filter_map_step(pv, i as int, f);
                assert(f(pv[i as int]) == (if t@.len() == 0 {
                    None
                } else {
                    Some(expand_home(t@, home@))
                }));
                if f(pv[i as int]) is Some {
                    assert(strings_view(roots@) =~= before.push(expand_home(t@, home@)));
                } else {
                    assert(strings_view(roots@) =~= before);
                }
            }
            i = i + 1;
        }
        proof {
            lemma_take_all(pv);
        }
        roots
    }

    /// Turns the matches found into results.
    pub fn results(&self, query_text: &str, found: Vec<FileMatch>) -> (r: Vec<ResultItem>)
        ensures
            items_view(r@) == file_results(query_text@, matches_view(found@)),
    {
        let t = trim_str(query_text);
        if t.len() == 0 {
            return Vec::new();
        }
        let q = lower_chars(&t);
        let ghost fv = matches_view(found@);
        let ghost g = file_ranked(q@);
        let mut ranked: Vec<(ResultItem, Vec<char>)> = Vec::new();
        let mut rest = found;
        let ghost mut done: int = 0;
        while rest.len() > 0
            invariant
                0 <= done <= fv.len(),
                matches_view(rest@) == fv.skip(done),
                pair_view(ranked@) == fv.take(done).map_values(g),
                g == file_ranked(q@),
            decreases rest.len(),
        {
            let ghost rv = matches_view(rest@);
            let ghost old_ranked = pair_view(ranked@);
            let m = rest.remove(0);
            let ghost mv = m@;
            assert(matches_view(rest@) =~= rv.drop_first());
            proof {
                assert(fv.skip(done).len() > 0);
                assert(fv.skip(done)[0] == m@);
                assert(fv[done] == mv);
            }
            let name_lower = lower_chars(&to_chars(m.file_name.as_str()));
            let score = if same_chars(&name_lower, &q) {
                80
            } else if has_prefix(&name_lower, &q) {
                70
            } else {
                50
            };
            let icon = if m.is_dir {
                "folder-symbolic"
            } else {
                file_icon(&extension_lower(&m.extension))
            };
            let actions = two_actions(
                Action::new(lit("Open File"), lit("open-url"), cat("file://", m.path.as_str())),
                Action::new(
                    lit("Open Parent Directory"),
                    lit("open-url"),
                    cat("file://", m.parent.as_str()),
                ),
            );
            let key = to_chars(m.file_name.as_str());
            let item = ResultItem {
                id: cat("file-", m.path.as_str()),
                title: m.file_name,
                subtitle: Some(lit(m.path.as_str())),
                icon: Some(lit(icon)),
                category: lit("Files"),
                score,
                actions,
            };
            assert(item@ == file_item(mv, q@));
            let ghost iv = item@;
            let ghost kv = key@;
            ranked.push((item, key));
            proof {
                assert(g(mv) == (iv, kv));
                assert(pair_view(ranked@) =~= old_ranked.push((iv, kv)));
                assert(fv.take(done + 1) =~= fv.take(done).push(mv));
                assert(pair_view(ranked@) =~= fv.take(done + 1).map_values(g));
                done = done + 1;
                assert(matches_view(rest@) =~= fv.skip(done));
            }
        }
        proof {
            assert(fv.take(done) =~= fv);
        }
        let mut sorted = sort_by_rank(ranked);
        if sorted.len() > 20 {
            sorted.truncate(20);
            proof {
                assert(items_view(sorted@) =~= firsts(sort_ranked(fv.map_values(g))).take(20));
            }
        }
        sorted
    }
}

} // verus!
