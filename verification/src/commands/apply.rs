//! `apply`: create or refresh the symlinks of enabled tools.

use vstd::prelude::*;
use crate::error::{Error, ErrorView};
use crate::link::{Change, ChangeView, LinkStateView, StepView, ensure_outcome};
use crate::os::Os;
use crate::registry::{Registry, Tool, Hook, admits, pick_spec};
use crate::style::Icons;
use crate::text::{owned, contains_str, views, seq_join, join};

verus! {

/// The tools to apply: every enabled tool when no tool is named; otherwise
/// the named tools, each of which must be enabled.
///
/// The error names the first named tool that is not enabled.
pub fn select_targets(enabled: &Vec<String>, filter: &Vec<String>) -> (r: Result<Vec<String>, Error>)
    ensures
        filter@.len() == 0 ==> (r is Ok && views(r->Ok_0@) == views(enabled@)),
        filter@.len() > 0 ==> (r is Err <==> exists|i: int| 0 <= i < filter@.len() && !views(enabled@).contains(#[trigger] filter@[i]@)),
        (filter@.len() > 0 && r is Ok) ==> views(r->Ok_0@) == views(filter@),
        r is Err ==> (exists|i: int|
            0 <= i < filter@.len() && !views(enabled@).contains(#[trigger] filter@[i]@) && (forall|j: int|
                0 <= j < i ==> views(enabled@).contains(#[trigger] filter@[j]@)) && r->Err_0@ == (
            ErrorView::NotEnabled { name: filter@[i]@ })),
{
    if filter.len() == 0 {
        return Ok(enabled.clone());
    }
    let mut i: usize = 0;
    while i < filter.len()
        invariant
            i <= filter@.len(),
            forall|j: int| 0 <= j < i ==> views(enabled@).contains(#[trigger] filter@[j]@),
        decreases filter.len() - i,
    {
        if !contains_str(enabled, filter[i].as_str()) {
            return Err(Error::NotEnabled { name: owned(filter[i].as_str()) });
        }
        i = i + 1;
    }
    Ok(filter.clone())
}

/// What to do with one target tool.
#[derive(Clone, Copy, PartialEq, Eq, Structural, Debug)]
pub enum ToolStep {
    /// The registry no longer declares it: warn and count a failure.
    Missing,
    /// It is not meant for this OS: skip it.
    Unsupported,
    /// Apply it.
    Apply,
}

/// Decides what to do with the target `name` on `os`.
pub fn tool_step(reg: &Registry, name: &str, os: Os) -> (r: ToolStep)
    requires
        reg.wf(),
    ensures
        r == (if !reg.tools().contains_key(name@) {
            ToolStep::Missing
        } else if !admits(reg.tools()[name@].platforms, os) {
            ToolStep::Unsupported
        } else {
            ToolStep::Apply
        }),
{
    match reg.get(name) {
        None => ToolStep::Missing,
        Some(tool) => if tool.supports(os) {
            ToolStep::Apply
        } else {
            ToolStep::Unsupported
        },
    }
}

/// The badge shown for what ensuring a link did.
pub open spec fn change_badge_spec(change: ChangeView, icons: Icons) -> &'static str {
    match change {
        ChangeView::Noop => icons.noop,
        ChangeView::Created => icons.link,
        ChangeView::Updated => icons.relink,
        ChangeView::BackedUpAndReplaced => icons.backup,
        ChangeView::Removed => icons.removed,
        ChangeView::Skipped { .. } => icons.skipped,
    }
}

/// The badge shown for what ensuring a link did.
pub fn change_badge(change: &Change, icons: Icons) -> (r: &'static str)
    ensures
        r == change_badge_spec(change@, icons),
{
    match change {
        Change::Noop => icons.noop,
        Change::Created => icons.link,
        Change::Updated => icons.relink,
        Change::BackedUpAndReplaced => icons.backup,
        Change::Removed => icons.removed,
        Change::Skipped { .. } => icons.skipped,
    }
}

/// The setup script of `tool` for `os`, relative to the dotfiles root.
pub fn script_for(tool: &Tool, os: Os) -> (r: Option<String>)
    ensures
        match r {
            Some(s) => tool.script is Some && pick_spec(tool.script->0, os) == Some(s),
            None => tool.script is None || pick_spec(tool.script->0, os) is None,
        },
{
    match &tool.script {
        None => None,
        Some(m) => match m.pick(os) {
            Some(s) => Some(s.clone()),
            None => None,
        },
    }
}

/// Whether a hook runs on `os`: it applies to `os` and names a command.
pub fn hook_runs(hook: &Hook, os: Os) -> (r: bool)
    ensures
        r == (admits(hook.os, os) && hook.run@.len() > 0),
{
    hook.applies_to(os) && hook.run.len() > 0
}

/// The hook's command line, its words separated by spaces.
pub fn hook_text(hook: &Hook) -> (r: String)
    ensures
        r@ == seq_join(views(hook.run@), " "@),
{
    join(&hook.run, " ")
}

// ---------------------------------------------------------------------------
// Applying one tool, step by step
// ---------------------------------------------------------------------------

/// Where applying one tool stands.
#[derive(Clone, Copy, PartialEq, Eq, Structural, Debug)]
pub enum ApplyPos {
    /// Ensuring the tool's resolved links; the next one has this index.
    Links(usize),
    /// The setup script has been handed out.
    Script,
    /// Running hooks; the next candidate has this index.
    Hooks(usize),
    /// Nothing is left to do.
    Finished,
}

/// How the action handed out last went.
#[derive(Clone, Copy, PartialEq, Eq, Structural, Debug)]
pub enum StepOutcome {
    /// Nothing has been done yet.
    Started,
    /// The last action succeeded.
    Succeeded,
    /// The last action failed: a source was missing, a link could not be
    /// ensured, or the script or a hook failed.
    Failed,
}

/// What to do next while applying one tool.
#[derive(Debug)]
pub enum ApplyAction {
    /// Check that the source of resolved link `i` exists and ensure the link.
    EnsureLink(usize),
    /// Run the setup script (relative to the dotfiles root).
    RunScript(String),
    /// In a dry run: report the setup script that would run.
    PrintScript(String),
    /// Run post-apply hook `k`.
    RunHook(usize),
    /// In a dry run: report post-apply hook `k`.
    PrintHook(usize),
    /// Stop: the tool failed.
    Fail,
    /// Stop: the tool is applied.
    Done,
}

/// The mathematical value of an [`ApplyAction`].
pub enum ApplyActionView {
    EnsureLink(usize),
    RunScript(Seq<char>),
    PrintScript(Seq<char>),
    RunHook(usize),
    PrintHook(usize),
    Fail,
    Done,
}

impl View for ApplyAction {
    type V = ApplyActionView;

    open spec fn view(&self) -> ApplyActionView {
        match self {
            ApplyAction::EnsureLink(i) => ApplyActionView::EnsureLink(*i),
            ApplyAction::RunScript(s) => ApplyActionView::RunScript(s@),
            ApplyAction::PrintScript(s) => ApplyActionView::PrintScript(s@),
            ApplyAction::RunHook(k) => ApplyActionView::RunHook(*k),
            ApplyAction::PrintHook(k) => ApplyActionView::PrintHook(*k),
            ApplyAction::Fail => ApplyActionView::Fail,
            ApplyAction::Done => ApplyActionView::Done,
        }
    }
}

/// Whether hook `h` runs on `os`: it applies to `os` and names a command.
pub open spec fn hook_runs_spec(h: Hook, os: Os) -> bool {
    admits(h.os, os) && h.run@.len() > 0
}

/// The first hook at index `k` or later that runs on `os`.
pub open spec fn next_hook(hooks: Seq<Hook>, os: Os, k: int) -> Option<int>
    decreases hooks.len() - k,
{
    if k < 0 || k >= hooks.len() {
        None
    } else if hook_runs_spec(hooks[k], os) {
        Some(k)
    } else {
        next_hook(hooks, os, k + 1)
    }
}

/// The setup script of `tool` for `os`, if any.
pub open spec fn script_spec(tool: Tool, os: Os) -> Option<Seq<char>> {
    match tool.script {
        Some(m) => match pick_spec(m, os) {
            Some(s) => Some(s@),
            None => None,
        },
        None => None,
    }
}

/// The step that handles the hooks from index `k` on: the next hook that
/// runs (reported only, in a dry run), or the end.
pub open spec fn hooks_step(tool: Tool, os: Os, dry_run: bool, k: int) -> (ApplyPos, ApplyActionView) {
    match next_hook(tool.post_apply@, os, k) {
        Some(j) => (
            ApplyPos::Hooks((j + 1) as usize),
            if dry_run {
                ApplyActionView::PrintHook(j as usize)
            } else {
                ApplyActionView::RunHook(j as usize)
            },
        ),
        None => (ApplyPos::Finished, ApplyActionView::Done),
    }
}

/// The step after the links: the setup script for `os` (reported only, in a
/// dry run), else the hooks.
pub open spec fn script_step(tool: Tool, os: Os, dry_run: bool) -> (ApplyPos, ApplyActionView) {
    match script_spec(tool, os) {
        Some(s) => (
            ApplyPos::Script,
            if dry_run {
                ApplyActionView::PrintScript(s)
            } else {
                ApplyActionView::RunScript(s)
            },
        ),
        None => hooks_step(tool, os, dry_run, 0),
    }
}

/// The next step of applying `tool` on `os`, whose links resolved to
/// `n_items` pairs (`resolve_failed` when a later link did not resolve):
/// any failure stops the tool; otherwise each link is ensured in order, a
/// resolution failure then stops the tool, then the setup script runs, then
/// each hook for `os` in order.
pub open spec fn apply_step_spec(
    tool: Tool,
    os: Os,
    dry_run: bool,
    n_items: nat,
    resolve_failed: bool,
    pos: ApplyPos,
    last: StepOutcome,
) -> (ApplyPos, ApplyActionView) {
    if last == StepOutcome::Failed {
        (ApplyPos::Finished, ApplyActionView::Fail)
    } else {
        match pos {
            ApplyPos::Links(i) => if i < n_items {
                (ApplyPos::Links((i + 1) as usize), ApplyActionView::EnsureLink(i))
            } else if resolve_failed {
                (ApplyPos::Finished, ApplyActionView::Fail)
            } else {
                script_step(tool, os, dry_run)
            },
            ApplyPos::Script => hooks_step(tool, os, dry_run, 0),
            ApplyPos::Hooks(k) => hooks_step(tool, os, dry_run, k as int),
            ApplyPos::Finished => (ApplyPos::Finished, ApplyActionView::Done),
        }
    }
}

/// The hook found from index `k` on lies at `k` or later, within the list.
proof fn lemma_next_hook_range(hooks: Seq<Hook>, os: Os, k: int)
    ensures
        next_hook(hooks, os, k) matches Some(j) ==> k <= j < hooks.len(),
    decreases hooks.len() - k,
{
    if 0 <= k < hooks.len() && !hook_runs_spec(hooks[k], os) {
        lemma_next_hook_range(hooks, os, k + 1);
    }
}

/// How much applying one tool has left to do, at most: every step that
/// continues lowers it.
pub open spec fn apply_measure(pos: ApplyPos, n_items: nat, n_hooks: nat) -> int {
    match pos {
        ApplyPos::Links(i) => n_items - i + n_hooks + 3,
        ApplyPos::Script => n_hooks + 2int,
        ApplyPos::Hooks(k) => n_hooks - k + 1,
        ApplyPos::Finished => 0,
    }
}

/// Whether a position is one that applying a tool can reach.
pub open spec fn apply_pos_valid(pos: ApplyPos, n_items: nat, n_hooks: nat) -> bool {
    match pos {
        ApplyPos::Links(i) => i <= n_items,
        ApplyPos::Hooks(k) => k <= n_hooks,
        _ => true,
    }
}

/// Applying a tool always ends: a step that stops (`Fail` or `Done`) moves
/// to `Finished`, and every other step moves to a reachable position with a
/// smaller measure.
pub proof fn lemma_apply_terminates(
    tool: Tool,
    os: Os,
    dry_run: bool,
    n_items: nat,
    resolve_failed: bool,
    pos: ApplyPos,
    last: StepOutcome,
)
    requires
        n_items <= usize::MAX,
        apply_pos_valid(pos, n_items, tool.post_apply@.len()),
    ensures
        ({
            let (next, act) = apply_step_spec(tool, os, dry_run, n_items, resolve_failed, pos, last);
            &&& (act is Fail || act is Done) ==> next == ApplyPos::Finished
            &&& !(act is Fail || act is Done) ==> (apply_pos_valid(next, n_items, tool.post_apply@.len())
                && apply_measure(next, n_items, tool.post_apply@.len()) < apply_measure(
                pos,
                n_items,
                tool.post_apply@.len(),
            ))
        }),
{
    assert(tool.post_apply@.len() == tool.post_apply.len());
    lemma_next_hook_range(tool.post_apply@, os, 0);
    if let ApplyPos::Hooks(k) = pos {
        lemma_next_hook_range(tool.post_apply@, os, k as int);
    }
}

/// Applying a tool again changes nothing: when each of its `n` resolved
/// links is already the correct link (`states`), and it has neither a setup
/// script nor a hook for `os`, applying it hands out exactly its links in
/// order and then ends, and ensuring each of them plans no step and reports
/// no change.
pub proof fn lemma_reapply_changes_nothing(
    tool: Tool,
    os: Os,
    dry_run: bool,
    force: bool,
    links: Seq<(Seq<char>, Seq<char>)>,
    states: Seq<LinkStateView>,
)
    requires
        links.len() <= usize::MAX,
        states.len() == links.len(),
        forall|i: int| 0 <= i < states.len() ==> #[trigger] states[i] == LinkStateView::CorrectLink,
        script_spec(tool, os) is None,
        next_hook(tool.post_apply@, os, 0) is None,
    ensures
        forall|i: int, last: StepOutcome|
            0 <= i < links.len() && last != StepOutcome::Failed ==> #[trigger] apply_step_spec(
                tool,
                os,
                dry_run,
                links.len(),
                false,
                ApplyPos::Links(i as usize),
                last,
            ) == (ApplyPos::Links((i + 1) as usize), ApplyActionView::EnsureLink(i as usize)),
        forall|last: StepOutcome|
            last != StepOutcome::Failed ==> #[trigger] apply_step_spec(
                tool,
                os,
                dry_run,
                links.len(),
                false,
                ApplyPos::Links(links.len() as usize),
                last,
            ) == (ApplyPos::Finished, ApplyActionView::Done),
        forall|i: int|
            0 <= i < links.len() ==> #[trigger] ensure_outcome(states[i], links[i].0, links[i].1, force, dry_run)
                == Ok::<(ChangeView, Seq<StepView>), ErrorView>((ChangeView::Noop, seq![])),
{
}

/// A failure fails the tool: whatever step the tool stands at (a link, the
/// links' end, the setup script, a hook, or the end), once the last action
/// has failed the next step stops the tool with `Fail`.
pub proof fn lemma_failure_fails_the_tool(
    tool: Tool,
    os: Os,
    dry_run: bool,
    n_items: nat,
    resolve_failed: bool,
    pos: ApplyPos,
)
    ensures
        apply_step_spec(tool, os, dry_run, n_items, resolve_failed, pos, StepOutcome::Failed) == (
            ApplyPos::Finished,
            ApplyActionView::Fail,
        ),
{
}

/// Applying ends with `Done` only when nothing failed: a step that reports
/// `Done` came after an action that did not fail, and a link that did not
/// resolve never lets the tool end with `Done` after its links.
pub proof fn lemma_done_only_without_failure(
    tool: Tool,
    os: Os,
    dry_run: bool,
    n_items: nat,
    resolve_failed: bool,
    pos: ApplyPos,
    last: StepOutcome,
)
    ensures
        apply_step_spec(tool, os, dry_run, n_items, resolve_failed, pos, last).1 is Done ==> last
            != StepOutcome::Failed,
        (resolve_failed && pos is Links && pos->Links_0 >= n_items) ==> apply_step_spec(
            tool,
            os,
            dry_run,
            n_items,
            resolve_failed,
            pos,
            last,
        ).1 is Fail,
{
}

/// The hook found from index `k` on runs on `os`, and every hook skipped
/// on the way does not.
proof fn lemma_next_hook_runs(hooks: Seq<Hook>, os: Os, k: int)
    ensures
        next_hook(hooks, os, k) matches Some(j) ==> (k <= j < hooks.len() && admits(hooks[j].os, os)
            && hooks[j].run@.len() > 0 && forall|m: int| k <= m < j ==> !hook_runs_spec(#[trigger] hooks[m], os)),
    decreases hooks.len() - k,
{
    if 0 <= k < hooks.len() && !hook_runs_spec(hooks[k], os) {
        lemma_next_hook_runs(hooks, os, k + 1);
    }
}

/// A dry run runs nothing: it never hands out the setup script or a hook to
/// run, only to report; and outside a dry run nothing is only reported.
/// A hook handed out applies to `os` and names a command; a script handed
/// out is the tool's setup script for `os`.
pub proof fn lemma_what_runs(
    tool: Tool,
    os: Os,
    dry_run: bool,
    n_items: nat,
    resolve_failed: bool,
    pos: ApplyPos,
    last: StepOutcome,
)
    ensures
        ({
            let act = apply_step_spec(tool, os, dry_run, n_items, resolve_failed, pos, last).1;
            &&& dry_run ==> !(act is RunScript || act is RunHook)
            &&& !dry_run ==> !(act is PrintScript || act is PrintHook)
            &&& (act matches ApplyActionView::RunHook(k) ==> (k < tool.post_apply@.len() && admits(
                tool.post_apply@[k as int].os,
                os,
            ) && tool.post_apply@[k as int].run@.len() > 0))
            &&& (act matches ApplyActionView::PrintHook(k) ==> (k < tool.post_apply@.len() && admits(
                tool.post_apply@[k as int].os,
                os,
            ) && tool.post_apply@[k as int].run@.len() > 0))
            &&& (act matches ApplyActionView::RunScript(s) ==> script_spec(tool, os) == Some(s))
            &&& (act matches ApplyActionView::PrintScript(s) ==> script_spec(tool, os) == Some(s))
        }),
{
    assert(tool.post_apply@.len() == tool.post_apply.len());
    lemma_next_hook_runs(tool.post_apply@, os, 0);
    if let ApplyPos::Hooks(k) = pos {
        lemma_next_hook_runs(tool.post_apply@, os, k as int);
    }
}

/// The links come first and in order: while links remain and nothing has
/// failed, the next step ensures the next link.
pub proof fn lemma_links_in_order(
    tool: Tool,
    os: Os,
    dry_run: bool,
    n_items: nat,
    resolve_failed: bool,
    i: usize,
    last: StepOutcome,
)
    requires
        i < n_items,
        last != StepOutcome::Failed,
    ensures
        apply_step_spec(tool, os, dry_run, n_items, resolve_failed, ApplyPos::Links(i), last) == (
            ApplyPos::Links((i + 1) as usize),
            ApplyActionView::EnsureLink(i),
        ),
{
}

fn find_hook(hooks: &Vec<Hook>, os: Os, k: usize) -> (r: Option<usize>)
    ensures
        match r {
            Some(j) => j < hooks@.len() && next_hook(hooks@, os, k as int) == Some(j as int),
            None => next_hook(hooks@, os, k as int) is None,
        },
{
    let mut j: usize = k;
    while j < hooks.len()
        invariant
            k <= j,
            next_hook(hooks@, os, k as int) == next_hook(hooks@, os, j as int),
        decreases hooks.len() - j,
    {
        if hook_runs(&hooks[j], os) {
            return Some(j);
        }
        j = j + 1;
    }
    None
}

fn hooks_action(tool: &Tool, os: Os, dry_run: bool, k: usize) -> (r: (ApplyPos, ApplyAction))
    ensures
        (r.0, r.1@) == hooks_step(*tool, os, dry_run, k as int),
{
    assert(tool.post_apply@.len() == tool.post_apply.len());
    match find_hook(&tool.post_apply, os, k) {
        Some(j) => (ApplyPos::Hooks(j + 1), if dry_run {
            ApplyAction::PrintHook(j)
        } else {
            ApplyAction::RunHook(j)
        }),
        None => (ApplyPos::Finished, ApplyAction::Done),
    }
}

/// Decides the next step of applying `tool` on `os` from where it stands
/// (`pos`) and how the last action went (`last`). `n_items` is the number of
/// pairs its links resolved to, and `resolve_failed` tells whether a link
/// after them did not resolve.
pub fn apply_step(
    tool: &Tool,
    os: Os,
    dry_run: bool,
    n_items: usize,
    resolve_failed: bool,
    pos: ApplyPos,
    last: StepOutcome,
) -> (r: (ApplyPos, ApplyAction))
    ensures
        (r.0, r.1@) == apply_step_spec(*tool, os, dry_run, n_items as nat, resolve_failed, pos, last),
        last == StepOutcome::Failed ==> (r.0 == ApplyPos::Finished && r.1 is Fail),
        r.1 is Done ==> (last != StepOutcome::Failed && r.0 == ApplyPos::Finished),
        (last != StepOutcome::Failed && pos is Links && pos->Links_0 < n_items) ==> (r.0 == ApplyPos::Links(
            (pos->Links_0 + 1) as usize,
        ) && r.1 is EnsureLink && r.1->EnsureLink_0 == pos->Links_0),
        (last != StepOutcome::Failed && pos is Links && pos->Links_0 >= n_items && resolve_failed) ==> (r.0
            == ApplyPos::Finished && r.1 is Fail),
{
    if last == StepOutcome::Failed {
        return (ApplyPos::Finished, ApplyAction::Fail);
    }
    match pos {
        ApplyPos::Links(i) => {
            if i < n_items {
                (ApplyPos::Links(i + 1), ApplyAction::EnsureLink(i))
            } else if resolve_failed {
                (ApplyPos::Finished, ApplyAction::Fail)
            } else {
                match script_for(tool, os) {
                    Some(s) => (ApplyPos::Script, if dry_run {
                        ApplyAction::PrintScript(s)
                    } else {
                        ApplyAction::RunScript(s)
                    }),
                    None => hooks_action(tool, os, dry_run, 0),
                }
            }
        },
        ApplyPos::Script => hooks_action(tool, os, dry_run, 0),
        ApplyPos::Hooks(k) => hooks_action(tool, os, dry_run, k),
        ApplyPos::Finished => (ApplyPos::Finished, ApplyAction::Done),
    }
}

/// The exit code of `apply`: 1 when some tool failed, 0 otherwise.
pub fn apply_exit_code(failed: usize) -> (r: u8)
    ensures
        r == (if failed > 0 { 1u8 } else { 0u8 }),
{
    if failed > 0 {
        1
    } else {
        0
    }
}

} // verus!
