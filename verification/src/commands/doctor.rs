//! `doctor`: environment checks, link checks and per-tool doctor scripts.

use vstd::prelude::*;
use crate::link::{LinkState, LinkStateView};
use crate::os::Os;
use crate::registry::{Registry, Tool, pick_spec};
use crate::style::Icons;
use crate::text::{views, has_infix, contains_infix};

verus! {

/// The tools whose doctor scripts run: every enabled tool with `all`,
/// otherwise exactly the named ones (possibly none).
pub fn doctor_targets(enabled: &Vec<String>, filter: &Vec<String>, all: bool) -> (r: Vec<String>)
    ensures
        views(r@) == (if all { views(enabled@) } else { views(filter@) }),
{
    if all {
        enabled.clone()
    } else {
        filter.clone()
    }
}

/// The doctor script of `tool` for `os`, relative to the dotfiles root.
pub fn doctor_script_for(tool: &Tool, os: Os) -> (r: Option<String>)
    ensures
        match r {
            Some(s) => tool.doctor is Some && pick_spec(tool.doctor->0, os) == Some(s),
            None => tool.doctor is None || pick_spec(tool.doctor->0, os) is None,
        },
{
    match &tool.doctor {
        None => None,
        Some(m) => match m.pick(os) {
            Some(s) => Some(s.clone()),
            None => None,
        },
    }
}

/// The badge of a link that is not in sync; `None` for a correct link.
pub open spec fn link_problem_spec(state: LinkStateView, icons: Icons) -> Option<&'static str> {
    match state {
        LinkStateView::CorrectLink => None,
        LinkStateView::Missing => Some(icons.missing),
        LinkStateView::WrongLink { .. } => Some(icons.wrong),
        _ => Some(icons.conflict),
    }
}

/// The badge of a link that is not in sync; `None` for a correct link.
pub fn link_problem(state: &LinkState, icons: Icons) -> (r: Option<&'static str>)
    ensures
        r == link_problem_spec(state@, icons),
        r is None == (*state is CorrectLink),
{
    match state {
        LinkState::CorrectLink => None,
        LinkState::Missing => Some(icons.missing),
        LinkState::WrongLink { .. } => Some(icons.wrong),
        _ => Some(icons.conflict),
    }
}

/// What checking one link of an enabled tool found.
#[derive(Debug)]
pub enum LinkCheck {
    /// The link's destination did not expand.
    Unresolved,
    /// The destination could not be inspected.
    InspectFailed,
    /// The state found at the destination.
    Inspected(LinkState),
}

/// Whether a link check found the correct link.
pub open spec fn check_passed(c: LinkCheck) -> bool {
    match c {
        LinkCheck::Inspected(s) => s is CorrectLink,
        _ => false,
    }
}

/// A link check passes only when it inspected the destination and found
/// the correct link: a missing link, a link to elsewhere, a file or a
/// directory in the way, an unresolved destination and a failed inspection
/// all fail it.
pub proof fn lemma_only_correct_links_pass(c: LinkCheck)
    ensures
        check_passed(c) == (c is Inspected && c->Inspected_0 is CorrectLink),
        c is Unresolved ==> !check_passed(c),
        c is InspectFailed ==> !check_passed(c),
{
}

/// The verdict of the link checks of `doctor`: every enabled tool is in the
/// registry, and every link of theirs resolved and was found to be the
/// correct link. `outcomes` holds what each link check found.
pub fn enabled_links_ok(enabled: &Vec<String>, reg: &Registry, outcomes: &Vec<LinkCheck>) -> (r: bool)
    requires
        reg.wf(),
    ensures
        r == ((forall|i: int| 0 <= i < enabled@.len() ==> reg.tools().contains_key(#[trigger] enabled@[i]@))
            && (forall|j: int| 0 <= j < outcomes@.len() ==> check_passed(#[trigger] outcomes@[j]))),
        r ==> forall|j: int|
            0 <= j < outcomes@.len() ==> (#[trigger] outcomes@[j] is Inspected && outcomes@[j]->Inspected_0 is CorrectLink),
        (exists|j: int|
            0 <= j < outcomes@.len() && !(#[trigger] outcomes@[j] is Inspected && outcomes@[j]->Inspected_0 is CorrectLink))
            ==> !r,
{
    proof {
        assert forall|j: int| 0 <= j < outcomes@.len() implies (check_passed(#[trigger] outcomes@[j]) <==> (
        outcomes@[j] is Inspected && outcomes@[j]->Inspected_0 is CorrectLink)) by {
            lemma_only_correct_links_pass(outcomes@[j]);
        }
    }
    let mut i: usize = 0;
    while i < enabled.len()
        invariant
            reg.wf(),
            i <= enabled@.len(),
            forall|k: int| 0 <= k < i ==> reg.tools().contains_key(#[trigger] enabled@[k]@),
        decreases enabled.len() - i,
    {
        if !reg.contains_key(enabled[i].as_str()) {
            return false;
        }
        i = i + 1;
    }
    let mut j: usize = 0;
    while j < outcomes.len()
        invariant
            j <= outcomes@.len(),
            forall|k: int| 0 <= k < j ==> check_passed(#[trigger] outcomes@[k]),
        decreases outcomes.len() - j,
    {
        let passed = match &outcomes[j] {
            LinkCheck::Inspected(LinkState::CorrectLink) => true,
            _ => false,
        };
        if !passed {
            assert(!check_passed(outcomes@[j as int]));
            return false;
        }
        j = j + 1;
    }
    true
}

/// Whether querying the registry value `AllowDevelopmentWithoutDevLicense`
/// shows Windows Developer Mode on: the query succeeded (`query_succeeded`)
/// and the value `0x1` occurs in its output.
pub fn developer_mode_enabled(query_succeeded: bool, reg_output: &str) -> (r: bool)
    ensures
        r == (query_succeeded && has_infix(reg_output@, "0x1"@)),
{
    query_succeeded && contains_infix(reg_output, "0x1")
}

/// The exit code of `doctor`: 2 when a tool's doctor script failed, else 1
/// when a check failed, else 0.
pub fn doctor_exit_code(script_failed: bool, had_failure: bool) -> (r: u8)
    ensures
        r == (if script_failed {
            2u8
        } else if had_failure {
            1u8
        } else {
            0u8
        }),
{
    if script_failed {
        2
    } else if had_failure {
        1
    } else {
        0
    }
}

} // verus!
