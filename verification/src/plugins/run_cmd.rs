//! Shell commands typed after a prefix (`>` unless configured otherwise).
use vstd::prelude::*;
use crate::plugins::{action_v, actions_view, item_v, items_view, one_action, Action, ResultItem, ResultItemView};
use crate::settings::AppSettings;
use crate::text::{cat, cat3, from_chars, has_prefix, lit, slice, starts_with, to_chars, trim, trim_chars, trim_str};

verus! {

pub struct RunCommandPlugin;

/// The configured prefix, or `>` when none is configured.
pub open spec fn effective_prefix(configured: Seq<char>) -> Seq<char> {
    if configured.len() == 0 {
        ">"@
    } else {
        configured
    }
}

/// The result for the command text `cmd` typed after `prefix`.
pub open spec fn command_item(prefix: Seq<char>, cmd: Seq<char>) -> ResultItemView {
    if cmd.len() == 0 {
        item_v(
            "run-command-empty"@,
            "Run Command"@,
            Some(
                "Type a command after '"@ + prefix + "' to execute (e.g. "@ + prefix
                    + " gnome-terminal)"@,
            ),
            Some("terminal.svg"@),
            "Run Command"@,
            120,
            Seq::empty(),
        )
    } else {
        item_v(
            "run-command-"@ + cmd,
            "Run: "@ + cmd,
            Some("Execute command in shell"@),
            Some("terminal.svg"@),
            "Run Command"@,
            120,
            seq![action_v("Run '"@ + cmd + "'"@, "run-command"@, cmd)],
        )
    }
}

/// One result when the trimmed query starts with the prefix; the command is
/// what follows the prefix, trimmed.
pub open spec fn command_results(query: Seq<char>, configured_prefix: Seq<char>) -> Seq<ResultItemView> {
    let t = trim(query);
    let p = effective_prefix(configured_prefix);
    if starts_with(t, p) {
        seq![command_item(p, trim(t.skip(p.len() as int)))]
    } else {
        Seq::empty()
    }
}

impl RunCommandPlugin {
    pub fn new() -> Self {
        RunCommandPlugin
    }

    pub fn id(&self) -> (r: &'static str)
        ensures
            r@ == "command"@,
    {
        "command"
    }

    pub fn name(&self) -> (r: &'static str)
        ensures
            r@ == "Run Command"@,
    {
        "Run Command"
    }

    /// This provider answers every query: it has no mode keyword.
    pub fn mode_keyword(&self) -> (r: Option<&'static str>)
        ensures
            r is None,
    {
        None
    }

    /// This provider is not limited to a mode.
    pub fn is_mode_only(&self) -> (r: bool)
        ensures
            !r,
    {
        false
    }

    pub fn query(&self, query_text: &str, settings: &AppSettings) -> (r: Vec<ResultItem>)
        ensures
            items_view(r@) == command_results(query_text@, settings.command_prefix@),
    {
        let t = trim_str(query_text);
        let prefix = if settings.command_prefix.as_str().is_empty() {
            lit(">")
        } else {
            lit(settings.command_prefix.as_str())
        };
        let p = to_chars(prefix.as_str());
        if !has_prefix(&t, &p) {
            return Vec::new();
        }
        let rest = slice(&t, p.len(), t.len());
        let cmd_chars = trim_chars(&rest);
        proof {
            assert(rest@ =~= t@.skip(p@.len() as int));
        }
        let cmd = from_chars(cmd_chars.as_slice());
        let item = if cmd_chars.len() == 0 {
            let mut subtitle = cat3("Type a command after '", prefix.as_str(), "' to execute (e.g. ");
            subtitle.append(prefix.as_str());
            subtitle.append(" gnome-terminal)");
            let actions: Vec<Action> = Vec::new();
            assert(actions_view(actions@) =~= Seq::empty());
            ResultItem {
                id: lit("run-command-empty"),
                title: lit("Run Command"),
                subtitle: Some(subtitle),
                icon: Some(lit("terminal.svg")),
                category: lit("Run Command"),
                score: 120,
                actions,
            }
        } else {
            ResultItem {
                id: cat("run-command-", cmd.as_str()),
                title: cat("Run: ", cmd.as_str()),
                subtitle: Some(lit("Execute command in shell")),
                icon: Some(lit("terminal.svg")),
                category: lit("Run Command"),
                score: 120,
                actions: one_action(cat3("Run '", cmd.as_str(), "'"), lit("run-command"), lit(cmd.as_str())),
            }
        };
        let r = vec![item];
        assert(items_view(r@) =~= seq![command_item(p@, cmd@)]);
        r
    }
}

} // verus!
