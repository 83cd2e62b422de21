//! `status`: the state of each link of each enabled tool.

use vstd::prelude::*;
use crate::link::{LinkState, LinkStateView};
use crate::style::Icons;

verus! {

/// The badge of a link state, and whether the state is a problem: only a
/// correct link is fine.
pub open spec fn status_badge_spec(state: LinkStateView, icons: Icons) -> (&'static str, bool) {
    match state {
        LinkStateView::CorrectLink => (icons.ok, false),
        LinkStateView::Missing => (icons.missing, true),
        LinkStateView::WrongLink { .. } => (icons.wrong, true),
        _ => (icons.conflict, true),
    }
}

/// The badge of a link state, and whether the state is a problem.
pub fn status_badge(state: &LinkState, icons: Icons) -> (r: (&'static str, bool))
    ensures
        r == status_badge_spec(state@, icons),
        r.1 == !(*state is CorrectLink),
        (*state is CorrectLink) ==> r.0 == icons.ok,
{
    match state {
        LinkState::CorrectLink => (icons.ok, false),
        LinkState::Missing => (icons.missing, true),
        LinkState::WrongLink { .. } => (icons.wrong, true),
        _ => (icons.conflict, true),
    }
}

/// Only a correct link is fine: the problem flag of a status badge is false
/// for the correct link and true for a missing link, a link to elsewhere,
/// and a file or directory in the way; only the correct link shows `ok`.
pub proof fn lemma_only_correct_links_are_fine(state: LinkStateView, icons: Icons)
    ensures
        status_badge_spec(state, icons).1 == !(state is CorrectLink),
        state is CorrectLink ==> status_badge_spec(state, icons).0 == icons.ok,
        state is Missing ==> status_badge_spec(state, icons).0 == icons.missing,
        state is WrongLink ==> status_badge_spec(state, icons).0 == icons.wrong,
        (state is ExistingFile || state is ExistingDir) ==> status_badge_spec(state, icons).0 == icons.conflict,
{
}

/// The exit code of `status`: 1 when some link is not in sync (or a tool
/// is missing from the registry), 0 otherwise.
pub fn status_exit_code(any_bad: bool) -> (r: u8)
    ensures
        r == (if any_bad { 1u8 } else { 0u8 }),
{
    if any_bad {
        1
    } else {
        0
    }
}

} // verus!
