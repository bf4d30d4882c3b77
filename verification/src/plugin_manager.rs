//! External plugins (declared by a JSON file in their folder, run as a command that prints
//! JSON) and the routing of a query to plugins.
use vstd::prelude::*;
use serde_json::Value;
use crate::plugins::{
    action_v, actions_view, item_v, items_view, opt_view, strings_view, Action, ResultItem,
    ResultItemView,
};
use crate::settings::{config_dir, join_path, joined, AppSettings};
use crate::text::{
    cat, cat3, decimal, decimal_string, from_chars, has_prefix, lit, same_chars, slice,
    starts_with, to_chars, trim, trim_chars, trim_str,
};

verus! {

/// What a plugin declares about itself in its folder.
#[derive(Debug, Clone)]
pub struct ExternalManifest {
    pub name: String,
    pub description: Option<String>,
    pub keyword: Option<String>,
    pub command: Vec<String>,
    pub icon: Option<String>,
}

/// A plugin found in the plugins directory.
#[derive(Debug, Clone)]
pub struct ExternalPlugin {
    /// The name of its folder.
    pub id: String,
    pub name: String,
    pub description: String,
    /// Queries starting with this word and a space go to this plugin only.
    pub keyword: Option<String>,
    /// The program and its leading arguments; the query is appended.
    pub command: Vec<String>,
    pub icon: Option<String>,
    pub folder_path: String,
}

pub struct ExternalPluginView {
    pub id: Seq<char>,
    pub name: Seq<char>,
    pub description: Seq<char>,
    pub keyword: Option<Seq<char>>,
    pub command: Seq<Seq<char>>,
    pub icon: Option<Seq<char>>,
    pub folder_path: Seq<char>,
}

impl View for ExternalPlugin {
    type V = ExternalPluginView;

    open spec fn view(&self) -> ExternalPluginView {
        ExternalPluginView {
            id: self.id@,
            name: self.name@,
            description: self.description@,
            keyword: opt_view(self.keyword),
            command: strings_view(self.command@),
            icon: opt_view(self.icon),
            folder_path: self.folder_path@,
        }
    }
}

pub open spec fn plugins_view(v: Seq<ExternalPlugin>) -> Seq<ExternalPluginView> {
    v.map_values(|p: ExternalPlugin| p@)
}

/// Loads the plugin state: the built-in providers are held by the caller.
pub struct PluginManager {
    pub external_plugins: Vec<ExternalPlugin>,
    pub plugins_dir: String,
}

fn clone_string(s: &String) -> (r: String)
    ensures
        r@ == s@,
{
    s.clone()
}

fn clone_opt(s: &Option<String>) -> (r: Option<String>)
    ensures
        opt_view(r) == opt_view(*s),
{
    match s {
        Some(x) => Some(x.clone()),
        None => None,
    }
}

impl ExternalPlugin {
    /// The plugin that the declaration describes, in the folder `id`: a missing
    /// description is empty and the keyword is trimmed.
    pub fn from_manifest(id: String, manifest: ExternalManifest, folder_path: String) -> (p: ExternalPlugin)
        ensures
            p@ == (ExternalPluginView {
                id: id@,
                name: manifest.name@,
                description: match manifest.description {
                    Some(d) => d@,
                    None => Seq::empty(),
                },
                keyword: match manifest.keyword {
                    Some(k) => Some(trim(k@)),
                    None => None,
                },
                command: strings_view(manifest.command@),
                icon: opt_view(manifest.icon),
                folder_path: folder_path@,
            }),
    {
        let description = match manifest.description {
            Some(d) => d,
            None => String::new(),
        };
        let keyword = match manifest.keyword {
            Some(k) => Some(from_chars(trim_str(k.as_str()).as_slice())),
            None => None,
        };
        ExternalPlugin {
            id,
            name: manifest.name,
            description,
            keyword,
            command: manifest.command,
            icon: manifest.icon,
            folder_path,
        }
    }
}

/// `keyword` (when present and not empty) followed by a space starts the
/// trimmed query `q`.
pub open spec fn selects(keyword: Option<Seq<char>>, q: Seq<char>) -> bool {
    match keyword {
        Some(k) => k.len() > 0 && starts_with(q, k + " "@),
        None => false,
    }
}

/// The first plugin whose keyword selects `q`.
pub open spec fn first_selecting(ps: Seq<ExternalPluginView>, q: Seq<char>) -> Option<int>
    decreases ps.len(),
{
    if ps.len() == 0 {
        None
    } else {
        match first_selecting(ps.drop_last(), q) {
            Some(i) => Some(i),
            None => if selects(ps.last().keyword, q) {
                Some(ps.len() - 1)
            } else {
                None
            },
        }
    }
}

/// A plugin without a (non-empty) keyword answers every query.
pub open spec fn is_global(p: ExternalPluginView) -> bool {
    match p.keyword {
        Some(k) => k.len() == 0,
        None => true,
    }
}

/// The positions of the plugins that answer every query, in order.
pub open spec fn global_positions(ps: Seq<ExternalPluginView>) -> Seq<usize>
    decreases ps.len(),
{
    if ps.len() == 0 {
        Seq::empty()
    } else {
        global_positions(ps.drop_last()) + (if is_global(ps.last()) {
            seq![(ps.len() - 1) as usize]
        } else {
            Seq::empty()
        })
    }
}

/// Where a query goes.
#[derive(Debug)]
pub enum QueryRoute {
    /// Only to the external plugin at this position, with this query (the
    /// text after its keyword).
    Keyword { plugin: usize, query: String },
    /// To every enabled built-in provider and every global external
    /// plugin, with this (trimmed) query.
    Everyone { query: String },
}

/// The settings switch that governs the built-in provider `id`; providers
/// without a switch are always on.
pub open spec fn spec_enabled(id: Seq<char>, s: AppSettings) -> bool {
    if id == "apps"@ {
        s.apps_enabled
    } else if id == "calc"@ {
        s.calc_enabled
    } else if id == "web"@ {
        s.web_enabled
    } else if id == "youtube"@ {
        s.youtube_enabled
    } else if id == "files"@ {
        s.files_enabled
    } else if id == "command"@ {
        s.command_enabled
    } else if id == "gnome"@ {
        s.gnome_enabled
    } else if id == "recent"@ {
        s.recent_enabled
    } else {
        true
    }
}

/// An item printed by an external plugin; a field is `None` when it is
/// absent or not of the expected JSON type.
#[derive(Debug)]
pub struct ExternalItem {
    pub id: Option<String>,
    pub title: Option<String>,
    pub subtitle: Option<String>,
    pub icon: Option<String>,
    pub score: Option<i64>,
    pub actions: Vec<ExternalAction>,
}

#[derive(Debug)]
pub struct ExternalAction {
    pub label: Option<String>,
    pub action_type: Option<String>,
    pub value: Option<String>,
}

pub struct ExternalActionView {
    pub label: Option<Seq<char>>,
    pub action_type: Option<Seq<char>>,
    pub value: Option<Seq<char>>,
}

pub struct ExternalItemView {
    pub id: Option<Seq<char>>,
    pub title: Option<Seq<char>>,
    pub subtitle: Option<Seq<char>>,
    pub icon: Option<Seq<char>>,
    pub score: Option<i64>,
    pub actions: Seq<ExternalActionView>,
}

impl View for ExternalAction {
    type V = ExternalActionView;

    open spec fn view(&self) -> ExternalActionView {
        ExternalActionView {
            label: opt_view(self.label),
            action_type: opt_view(self.action_type),
            value: opt_view(self.value),
        }
    }
}

pub open spec fn ext_actions_view(v: Seq<ExternalAction>) -> Seq<ExternalActionView> {
    v.map_values(|a: ExternalAction| a@)
}

impl View for ExternalItem {
    type V = ExternalItemView;

    open spec fn view(&self) -> ExternalItemView {
        ExternalItemView {
            id: opt_view(self.id),
            title: opt_view(self.title),
            subtitle: opt_view(self.subtitle),
            icon: opt_view(self.icon),
            score: self.score,
            actions: ext_actions_view(self.actions@),
        }
    }
}

pub open spec fn ext_items_view(v: Seq<ExternalItem>) -> Seq<ExternalItemView> {
    v.map_values(|i: ExternalItem| i@)
}

pub open spec fn or_default(o: Option<Seq<char>>, d: Seq<char>) -> Seq<char> {
    match o {
        Some(x) => x,
        None => d,
    }
}

/// An action with defaults for what the plugin left out.
pub open spec fn ext_action(a: ExternalActionView) -> ActionView {
    action_v(
        or_default(a.label, "Execute"@),
        or_default(a.action_type, "run-command"@),
        or_default(a.value, ""@),
    )
}

/// The result for the item at position `idx` of a plugin's output.
pub open spec fn ext_result(p: ExternalPluginView, it: ExternalItemView, idx: nat) -> ResultItemView {
    item_v(
        or_default(it.id, "ext-"@ + p.id + "-"@ + decimal(idx)),
        or_default(it.title, "No Title"@),
        it.subtitle,
        match it.icon {
            Some(i) => Some(i),
            None => p.icon,
        },
        p.name,
        match it.score {
            Some(s) => s as i32,
            None => 30,
        },
        ext_action_list(it.actions),
    )
}

pub open spec fn ext_action_list(v: Seq<ExternalActionView>) -> Seq<ActionView> {
    v.map_values(|a: ExternalActionView| ext_action(a))
}

pub open spec fn ext_results(p: ExternalPluginView, items: Seq<ExternalItemView>) -> Seq<ResultItemView> {
    Seq::new(items.len(), |k: int| ext_result(p, items[k], k as nat))
}

use crate::plugins::ActionView;

fn default_or(o: Option<String>, d: &str) -> (r: String)
    ensures
        r@ == or_default(opt_view(o), d@),
{
    match o {
        Some(x) => x,
        None => lit(d),
    }
}

impl PluginManager {
    /// A manager for the home directory `home`, with no external plugins
    /// loaded yet.
    pub fn new(home: &str) -> (m: PluginManager)
        ensures
            m.external_plugins@.len() == 0,
            m.plugins_dir@ == joined(config_dir(home@), "plugins"@),
    {
        let c = join_path(home, ".config");
        let s = join_path(c.as_str(), "spear");
        PluginManager { external_plugins: Vec::new(), plugins_dir: join_path(s.as_str(), "plugins") }
    }

    /// Where the query goes: to the first external plugin whose keyword and
    /// a space start the trimmed query (with the rest, trimmed), or to
    /// everyone.
    pub fn route(&self, query_text: &str) -> (r: QueryRoute)
        ensures
            ({
                let ps = plugins_view(self.external_plugins@);
                let t = trim(query_text@);
                match first_selecting(ps, t) {
                    Some(i) => r matches QueryRoute::Keyword { plugin, query } && plugin == i
                        && ps[i].keyword is Some && query@ == trim(
                        t.skip((ps[i].keyword->0 + " "@).len() as int),
                    ),
                    None => r matches QueryRoute::Everyone { query } && query@ == t,
                }
            }),
    {
        let ghost ps = plugins_view(self.external_plugins@);
        let t = trim_str(query_text);
        let mut i: usize = 0;
        while i < self.external_plugins.len()
            invariant
                i <= self.external_plugins.len(),
                ps == plugins_view(self.external_plugins@),
                t@ == trim(query_text@),
                first_selecting(ps.take(i as int), t@) is None,
            decreases self.external_plugins.len() - i,
        {
            let p = &self.external_plugins[i];
            let hit = match &p.keyword {
                Some(k) => {
                    if k.as_str().is_empty() {
                        None
                    } else {
                        let prefix = cat(k.as_str(), " ");
                        let pc = to_chars(prefix.as_str());
                        if has_prefix(&t, &pc) {
                            Some(pc.len())
                        } else {
                            None
                        }
                    }
                },
                None => None,
            };
            proof {
                assert(ps.take(i + 1).drop_last() =~= ps.take(i as int));
                assert(ps.take(i + 1).last() == p@);
            }
            match hit {
                Some(n) => {
                    let rest = trim_chars(&slice(&t, n, t.len()));
                    proof {
                        assert(first_selecting(ps.take(i + 1), t@) == Some(i as int));
                        lemma_first_selecting_prefix(ps, t@, i as int + 1);
                        assert(t@.subrange(n as int, t@.len() as int) =~= t@.skip(n as int));
                    }
                    return QueryRoute::Keyword { plugin: i, query: from_chars(rest.as_slice()) };
                },
                None => {},
            }
            i = i + 1;
        }
        proof {
            assert(ps.take(ps.len() as int) =~= ps);
        }
        QueryRoute::Everyone { query: from_chars(t.as_slice()) }
    }

    /// The positions of the external plugins that answer every query.
    pub fn global_plugins(&self) -> (r: Vec<usize>)
        ensures
            r@ == global_positions(plugins_view(self.external_plugins@)),
    {
        let ghost ps = plugins_view(self.external_plugins@);
        let mut r: Vec<usize> = Vec::new();
        let mut i: usize = 0;
        while i < self.external_plugins.len()
            invariant
                i <= self.external_plugins.len(),
                ps == plugins_view(self.external_plugins@),
                r@ == global_positions(ps.take(i as int)),
            decreases self.external_plugins.len() - i,
        {
            let global = match &self.external_plugins[i].keyword {
                Some(k) => k.as_str().is_empty(),
                None => true,
            };
            if global {
                r.push(i);
            }
            proof {
                let t = ps.take(i + 1);
                assert(t.drop_last() =~= ps.take(i as int));
                assert(t.last() == self.external_plugins@[i as int]@);
                assert(r@ =~= global_positions(t));
            }
            i = i + 1;
        }
        proof {
            assert(ps.take(ps.len() as int) =~= ps);
        }
        r
    }

    /// Whether the built-in provider `id` is switched on.
    pub fn plugin_enabled(id: &str, settings: &AppSettings) -> (b: bool)
        ensures
            b == spec_enabled(id@, *settings),
    {
        let v = to_chars(id);
        if same_chars(&v, &to_chars("apps")) {
            settings.apps_enabled
        } else if same_chars(&v, &to_chars("calc")) {
            settings.calc_enabled
        } else if same_chars(&v, &to_chars("web")) {
            settings.web_enabled
        } else if same_chars(&v, &to_chars("youtube")) {
            settings.youtube_enabled
        } else if same_chars(&v, &to_chars("files")) {
            settings.files_enabled
        } else if same_chars(&v, &to_chars("command")) {
            settings.command_enabled
        } else if same_chars(&v, &to_chars("gnome")) {
            settings.gnome_enabled
        } else if same_chars(&v, &to_chars("recent")) {
            settings.recent_enabled
        } else {
            true
        }
    }

    /// The program and arguments that run `plugin` for `query`: its command
    /// with the query appended; `None` when the command is empty.
    pub fn command_line(plugin: &ExternalPlugin, query: &str) -> (r: Option<(String, Vec<String>)>)
        ensures
            match r {
                Some((program, args)) => plugin.command@.len() > 0 && program@
                    == plugin.command@[0]@ && strings_view(args@) == strings_view(
                    plugin.command@,
                ).drop_first().push(query@),
                None => plugin.command@.len() == 0,
            },
    {
        if plugin.command.len() == 0 {
            return None;
        }
        let program = clone_string(&plugin.command[0]);
        let mut args: Vec<String> = Vec::new();
        let mut i: usize = 1;
        while i < plugin.command.len()
            invariant
                1 <= i <= plugin.command.len(),
                strings_view(args@) == strings_view(plugin.command@).subrange(1, i as int),
            decreases plugin.command.len() - i,
        {
            let ghost before = strings_view(args@);
            args.push(clone_string(&plugin.command[i]));
            proof {
                assert(strings_view(plugin.command@)[i as int] == plugin.command@[i as int]@);
                assert(strings_view(args@) =~= before.push(plugin.command@[i as int]@));
                assert(strings_view(args@) =~= strings_view(plugin.command@).subrange(1, i + 1));
            }
            i = i + 1;
        }
        args.push(lit(query));
        proof {
            assert(strings_view(plugin.command@).subrange(1, plugin.command@.len() as int)
                =~= strings_view(plugin.command@).drop_first());
            assert(strings_view(args@) =~= strings_view(plugin.command@).drop_first().push(query@));
        }
        Some((program, args))
    }

    /// The results for the items a plugin printed, with the plugin's name
    /// as their category and defaults for what the items leave out.
    pub fn external_results(plugin: &ExternalPlugin, items: Vec<ExternalItem>) -> (r: Vec<ResultItem>)
        ensures
            items_view(r@) == ext_results(plugin@, ext_items_view(items@)),
    {
        let ghost iv = ext_items_view(items@);
        let n_items = items.len();
        assert(iv.len() == n_items);
        let mut results: Vec<ResultItem> = Vec::new();
        let mut rest = items;
        let mut idx: usize = 0;
        while rest.len() > 0
            invariant
                idx <= iv.len(),
                iv.len() <= usize::MAX,
                ext_items_view(rest@) == iv.skip(idx as int),
                items_view(results@) == ext_results(plugin@, iv.take(idx as int)),
            decreases rest.len(),
        {
            let ghost rv = ext_items_view(rest@);
            let it = rest.remove(0);
            let ghost itv = it@;
            proof {
                assert(ext_items_view(rest@) =~= rv.drop_first());
                assert(rv[0] == itv);
                assert(iv.skip(idx as int)[0] == iv[idx as int]);
            }
            let mut actions: Vec<Action> = Vec::new();
            let ghost av = itv.actions;
            let n_actions = it.actions.len();
            assert(av.len() == n_actions);
            let mut arest = it.actions;
            let mut k: usize = 0;
            while arest.len() > 0
                invariant
                    k <= av.len(),
                    av.len() <= usize::MAX,
                    ext_actions_view(arest@) == av.skip(k as int),
                    actions_view(actions@) == ext_action_list(av.take(k as int)),
                decreases arest.len(),
            {
                let ghost arv = ext_actions_view(arest@);
                let a = arest.remove(0);
                proof {
                    assert(ext_actions_view(arest@) =~= arv.drop_first());
                    assert(arv[0] == a@);
                    assert(av.skip(k as int)[0] == av[k as int]);
                }
                let ghost a_v = a@;
                let ghost abefore = actions_view(actions@);
                actions.push(
                    Action {
                        label: default_or(a.label, "Execute"),
                        action_type: default_or(a.action_type, "run-command"),
                        value: default_or(a.value, ""),
                    },
                );
                proof {
                    assert(actions_view(actions@) =~= abefore.push(ext_action(a_v)));
                    assert(av.take(k + 1) =~= av.take(k as int).push(a_v));
                    assert(actions_view(actions@) =~= ext_action_list(av.take(k + 1)));
                }
                k = k + 1;
            }
            proof {
                assert(av.take(k as int) =~= av);
            }
            let id = match it.id {
                Some(x) => x,
                None => {
                    let n = decimal_string(idx);
                    let mut s = cat3("ext-", plugin.id.as_str(), "-");
                    s.append(n.as_str());
                    s
                },
            };
            let icon = match it.icon {
                Some(x) => Some(x),
                None => clone_opt(&plugin.icon),
            };
            let score: i32 = match it.score {
                Some(s) => s as i32,
                None => 30,
            };
            let item = ResultItem {
                id,
                title: default_or(it.title, "No Title"),
                subtitle: it.subtitle,
                icon,
                category: clone_string(&plugin.name),
                score,
                actions,
            };
            assert(item@ == ext_result(plugin@, itv, idx as nat));
            let ghost before = items_view(results@);
            let ghost item_view = item@;
            results.push(item);
            proof {
                assert(items_view(results@) =~= before.push(item_view));
                assert(iv.take(idx + 1)[idx as int] == itv);
                assert(ext_results(plugin@, iv.take(idx + 1)) =~= ext_results(plugin@, iv.take(idx as int)).push(
                    ext_result(plugin@, itv, idx as nat),
                ));
                assert(items_view(results@) =~= ext_results(plugin@, iv.take(idx + 1)));
            }
            idx = idx + 1;
        }
        proof {
            assert(iv.take(idx as int) =~= iv);
        }
        results
    }

    /// What a plugin's standard output yields: its items as results, or,
    /// when the output is not a JSON list, no results and the parse error.
    pub fn answer_for_output(plugin: &ExternalPlugin, stdout: &str) -> (r: (Vec<ResultItem>, Option<String>))
        ensures
            match spec_plugin_output(stdout@) {
                Ok(items) => items_view(r.0@) == ext_results(plugin@, items) && r.1 is None,
                Err(m) => r.0@.len() == 0 && (r.1 matches Some(e) && e@ == "JSON Parse Error: "@ + m),
            },
    {
        match parse_plugin_items(stdout) {
            Ok(items) => (PluginManager::external_results(plugin, items), None),
            Err(m) => (Vec::new(), Some(cat("JSON Parse Error: ", m.as_str()))),
        }
    }
}

/// What `serde_json` reads from a plugin's output as a list of items: per
/// item, each string field (`id`, `title`, `subtitle`, `icon`, and per
/// action `label`, `type`, `value`), the `score` as an `i64`, and the
/// `actions` list, a field being absent when missing or of another JSON
/// type; or the parser's error message.
pub uninterp spec fn spec_plugin_output(text: Seq<char>) -> Result<Seq<ExternalItemView>, Seq<char>>;

/// `serde_json::from_str::<Vec<serde_json::Value>>` on the output, each
/// value's fields taken by indexing with the key (`Null` when the value is
/// not an object or lacks the key) and `Value::as_str` / `Value::as_i64` /
/// `Value::as_array`, and the error shown with `Display`.
/// The contract claims only that the result is the one named by
/// `spec_plugin_output`; what JSON text parses to is not spelled out.
#[verifier::external_body]
fn parse_plugin_items(text: &str) -> (r: Result<Vec<ExternalItem>, String>)
    ensures
        r matches Ok(v) ==> (spec_plugin_output(text@) matches Ok(items) && items == ext_items_view(v@)),
        r matches Err(m) ==> (spec_plugin_output(text@) matches Err(e) && e == m@),
{
    let s = |v: &Value, k: &str| v[k].as_str().map(String::from);
    let item = |v: &Value| ExternalItem {
        id: s(v, "id"), title: s(v, "title"), subtitle: s(v, "subtitle"), icon: s(v, "icon"),
        score: v["score"].as_i64(),
        actions: v["actions"].as_array().map_or(Vec::new(), |a| a.iter().map(|a|
            ExternalAction { label: s(a, "label"), action_type: s(a, "type"), value: s(a, "value") }).collect()),
    };
    serde_json::from_str::<Vec<Value>>(text).map(|vs| vs.iter().map(item).collect()).map_err(|e| e.to_string())
}

/// Once some prefix of the plugins has a selecting one, longer prefixes
/// report the same one.
pub proof fn lemma_first_selecting_prefix(ps: Seq<ExternalPluginView>, q: Seq<char>, n: int)
    requires
        0 <= n <= ps.len(),
        first_selecting(ps.take(n), q) is Some,
    ensures
        first_selecting(ps, q) == first_selecting(ps.take(n), q),
    decreases ps.len() - n,
{
    if n < ps.len() {
        let t = ps.take(n + 1);
        assert(t.drop_last() =~= ps.take(n));
        lemma_first_selecting_prefix(ps, q, n + 1);
    } else {
        assert(ps.take(n) =~= ps);
    }
}

} // verus!
