//! Search providers and the items they produce.
use vstd::prelude::*;
use crate::text::{contains, has_substring, lowercase, str_lower, to_chars};

pub mod calc;
pub mod clipboard;
pub mod colors;
pub mod emojis;
pub mod file_manager;
pub mod files;
pub mod gnome_sys;
pub mod packages;
pub mod ranking;
pub mod recent;
pub mod run_cmd;
pub mod web;
pub mod window_mgmt;
pub mod window_switcher;
pub mod youtube;

verus! {

/// Something the user can do with a result: `action_type` is one of
/// `launch-app`, `open-url`, `copy-to-clipboard`, `run-command`,
/// `navigate-dir`.
#[derive(Debug, Clone)]
pub struct Action {
    pub label: String,
    pub action_type: String,
    pub value: String,
}

/// One row of search results.
#[derive(Debug, Clone)]
pub struct ResultItem {
    pub id: String,
    pub title: String,
    pub subtitle: Option<String>,
    pub icon: Option<String>,
    pub category: String,
    pub score: i32,
    pub actions: Vec<Action>,
}

pub struct ActionView {
    pub label: Seq<char>,
    pub action_type: Seq<char>,
    pub value: Seq<char>,
}

pub struct ResultItemView {
    pub id: Seq<char>,
    pub title: Seq<char>,
    pub subtitle: Option<Seq<char>>,
    pub icon: Option<Seq<char>>,
    pub category: Seq<char>,
    pub score: i32,
    pub actions: Seq<ActionView>,
}

impl View for Action {
    type V = ActionView;

    open spec fn view(&self) -> ActionView {
        ActionView { label: self.label@, action_type: self.action_type@, value: self.value@ }
    }
}

pub open spec fn opt_view(o: Option<String>) -> Option<Seq<char>> {
    match o {
        Some(s) => Some(s@),
        None => None,
    }
}

pub open spec fn actions_view(v: Seq<Action>) -> Seq<ActionView> {
    v.map_values(|a: Action| a@)
}

impl View for ResultItem {
    type V = ResultItemView;

    open spec fn view(&self) -> ResultItemView {
        ResultItemView {
            id: self.id@,
            title: self.title@,
            subtitle: opt_view(self.subtitle),
            icon: opt_view(self.icon),
            category: self.category@,
            score: self.score,
            actions: actions_view(self.actions@),
        }
    }
}

/// The characters of each string.
pub open spec fn strings_view(v: Seq<String>) -> Seq<Seq<char>> {
    v.map_values(|s: String| s@)
}

/// The views of a sequence of results.
pub open spec fn items_view(v: Seq<ResultItem>) -> Seq<ResultItemView> {
    v.map_values(|r: ResultItem| r@)
}

pub open spec fn action_v(label: Seq<char>, action_type: Seq<char>, value: Seq<char>) -> ActionView {
    ActionView { label, action_type, value }
}

pub open spec fn item_v(
    id: Seq<char>,
    title: Seq<char>,
    subtitle: Option<Seq<char>>,
    icon: Option<Seq<char>>,
    category: Seq<char>,
    score: i32,
    actions: Seq<ActionView>,
) -> ResultItemView {
    ResultItemView { id, title, subtitle, icon, category, score, actions }
}

/// Extending the filtered prefix by one element appends that element's
/// image, if it has one.
pub proof fn lemma_filter_map_step<A, B>(s: Seq<A>, i: int, f: spec_fn(A) -> Option<B>)
    requires
        0 <= i < s.len(),
    ensures
        s.take(i + 1).filter_map(f) == s.take(i).filter_map(f) + (match f(s[i]) {
            Some(x) => seq![x],
            None => Seq::<B>::empty(),
        }),
{
    let t = s.take(i + 1);
    assert(t.drop_last() =~= s.take(i));
    assert(t.last() == s[i]);
    match f(s[i]) {
        Some(x) => {},
        None => {
            assert(t.drop_last().filter_map(f) + Seq::<B>::empty() =~= t.drop_last().filter_map(f));
        },
    }
}

/// The whole sequence is its longest prefix.
pub proof fn lemma_take_all<A>(s: Seq<A>)
    ensures
        s.take(s.len() as int) == s,
{
    assert(s.take(s.len() as int) =~= s);
}

/// A one-element action list.
pub fn one_action(label: String, action_type: String, value: String) -> (v: Vec<Action>)
    ensures
        actions_view(v@) == seq![action_v(label@, action_type@, value@)],
{
    let v = vec![Action { label, action_type, value }];
    assert(actions_view(v@) =~= seq![action_v(v@[0].label@, v@[0].action_type@, v@[0].value@)]);
    v
}

/// A two-element action list.
pub fn two_actions(first: Action, second: Action) -> (v: Vec<Action>)
    ensures
        actions_view(v@) == seq![first@, second@],
{
    let v = vec![first, second];
    assert(actions_view(v@) =~= seq![v@[0]@, v@[1]@]);
    v
}

/// Whether the lower-cased `text` contains `query_lower`.
pub fn lower_contains(text: &str, query_lower: &Vec<char>) -> (b: bool)
    ensures
        b == contains(str_lower(text@), query_lower@),
{
    let l = lowercase(text);
    has_substring(&to_chars(l.as_str()), query_lower)
}

impl Action {
    pub fn new(label: String, action_type: String, value: String) -> (a: Action)
        ensures
            a@ == action_v(label@, action_type@, value@),
    {
        Action { label, action_type, value }
    }
}

} // verus!
