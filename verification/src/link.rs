//! Symlink decisions: what a destination's state is, what `ensure` must do
//! to make it point at its source, and whether `remove` may delete it.
//!
//! Reading the filesystem and carrying out the steps happen outside the
//! library; these functions decide from what was read.

use vstd::prelude::*;
use crate::error::{Error, ErrorView};
use crate::paths::{backup_path, path_starts_with, path_starts_with_spec, is_rooted, components, link_location, link_location_of, is_absolute};
use crate::text::{concat2, concat3, owned};
use crate::os::Os;

verus! {

/// The state of a destination relative to its expected source.
#[derive(Clone, Debug, PartialEq, Eq)]
pub enum LinkState {
    /// Nothing exists at the destination.
    Missing,
    /// A symlink to the expected source.
    CorrectLink,
    /// A symlink to something else.
    WrongLink { target: String },
    /// A regular file (or other non-directory) that is not a symlink.
    ExistingFile,
    /// A directory that is not a symlink.
    ExistingDir,
}

/// What an operation did (or, in a dry run, would do) to a destination.
#[derive(Clone, Debug, PartialEq, Eq)]
pub enum Change {
    Noop,
    Created,
    Updated,
    BackedUpAndReplaced,
    Removed,
    Skipped { reason: String },
}

/// What `lstat` found at a destination.
#[derive(Clone, Debug, PartialEq, Eq)]
pub enum DstEntry {
    /// Nothing (the lookup reported "not found").
    Absent,
    /// A symlink whose stored target is `target`.
    Symlink { target: String },
    /// A directory.
    Dir,
    /// Anything else: a regular file, a socket, ...
    File,
}

/// One filesystem step of carrying out a plan.
#[derive(Clone, Debug, PartialEq, Eq)]
pub enum LinkStep {
    /// Delete the symlink at `path`.
    RemoveLink { path: String },
    /// Move `from` to `to`.
    Rename { from: String, to: String },
    /// Create the parent directories of `path`, when it has a non-empty parent.
    CreateParent { path: String },
    /// Create a symlink at `dst` pointing to `src`.
    Symlink { src: String, dst: String },
}

/// The mathematical value of a [`LinkStep`].
pub enum StepView {
    RemoveLink { path: Seq<char> },
    Rename { from: Seq<char>, to: Seq<char> },
    CreateParent { path: Seq<char> },
    Symlink { src: Seq<char>, dst: Seq<char> },
}

impl View for LinkStep {
    type V = StepView;

    open spec fn view(&self) -> StepView {
        match self {
            LinkStep::RemoveLink { path } => StepView::RemoveLink { path: path@ },
            LinkStep::Rename { from, to } => StepView::Rename { from: from@, to: to@ },
            LinkStep::CreateParent { path } => StepView::CreateParent { path: path@ },
            LinkStep::Symlink { src, dst } => StepView::Symlink { src: src@, dst: dst@ },
        }
    }
}

/// The mathematical value of a [`Change`].
pub enum ChangeView {
    Noop,
    Created,
    Updated,
    BackedUpAndReplaced,
    Removed,
    Skipped { reason: Seq<char> },
}

impl View for Change {
    type V = ChangeView;

    open spec fn view(&self) -> ChangeView {
        match self {
            Change::Noop => ChangeView::Noop,
            Change::Created => ChangeView::Created,
            Change::Updated => ChangeView::Updated,
            Change::BackedUpAndReplaced => ChangeView::BackedUpAndReplaced,
            Change::Removed => ChangeView::Removed,
            Change::Skipped { reason } => ChangeView::Skipped { reason: reason@ },
        }
    }
}

/// The mathematical value of a [`LinkState`].
pub enum LinkStateView {
    Missing,
    CorrectLink,
    WrongLink { target: Seq<char> },
    ExistingFile,
    ExistingDir,
}

impl View for LinkState {
    type V = LinkStateView;

    open spec fn view(&self) -> LinkStateView {
        match self {
            LinkState::Missing => LinkStateView::Missing,
            LinkState::CorrectLink => LinkStateView::CorrectLink,
            LinkState::WrongLink { target } => LinkStateView::WrongLink { target: target@ },
            LinkState::ExistingFile => LinkStateView::ExistingFile,
            LinkState::ExistingDir => LinkStateView::ExistingDir,
        }
    }
}

// ---------------------------------------------------------------------------
// Comparing paths
// ---------------------------------------------------------------------------

/// Whether two paths name the same location component by component, on
/// `os` (as `Path`'s `==` compares).
pub open spec fn same_path(a: Seq<char>, b: Seq<char>, os: Os) -> bool {
    is_rooted(a, os) == is_rooted(b, os) && components(a, os) == components(b, os)
}

/// Whether a link that points at `target` (its location, see
/// [`link_location`]) is the source `src`: their canonical forms are
/// compared when both could be computed, the paths as written otherwise.
pub open spec fn targets_match(
    target: Seq<char>,
    src: Seq<char>,
    canonical_target: Option<Seq<char>>,
    canonical_src: Option<Seq<char>>,
    os: Os,
) -> bool {
    match (canonical_target, canonical_src) {
        (Some(a), Some(b)) => a == b,
        _ => same_path(target, src, os),
    }
}

/// Whether `a` and `b` name the same location component by component, on
/// `os`.
pub fn paths_equal(a: &str, b: &str, os: Os) -> (r: bool)
    ensures
        r == same_path(a@, b@, os),
{
    let ab = path_starts_with(a, b, os);
    let ba = path_starts_with(b, a, os);
    proof {
        if ab && ba {
            assert(components(a@, os) =~= components(b@, os));
        }
    }
    ab && ba
}

/// The optional view of an optional string.
pub open spec fn opt_str(o: Option<&str>) -> Option<Seq<char>> {
    match o {
        Some(s) => Some(s@),
        None => None,
    }
}

/// The state that the entry found at `dst` amounts to. A symlink's stored
/// target is taken from the directory holding `dst` when it is relative.
pub open spec fn classified(
    entry: DstEntry,
    dst: Seq<char>,
    src: Seq<char>,
    canonical_target: Option<Seq<char>>,
    canonical_src: Option<Seq<char>>,
    os: Os,
) -> LinkStateView {
    match entry {
        DstEntry::Absent => LinkStateView::Missing,
        DstEntry::Symlink { target } => if targets_match(
            link_location(dst, target@, os),
            src,
            canonical_target,
            canonical_src,
            os,
        ) {
            LinkStateView::CorrectLink
        } else {
            LinkStateView::WrongLink { target: target@ }
        },
        DstEntry::Dir => LinkStateView::ExistingDir,
        DstEntry::File => LinkStateView::ExistingFile,
    }
}

/// Classifies what was found at the destination `dst` whose source is
/// `src`. For a symlink, `canonical_target` and `canonical_src` are the
/// canonical forms of where it points ([`link_location_of`]) and of `src`,
/// where they could be computed. Paths are read by the rules of `os`.
pub fn classify(
    entry: &DstEntry,
    dst: &str,
    src: &str,
    canonical_target: Option<&str>,
    canonical_src: Option<&str>,
    os: Os,
) -> (r: LinkState)
    ensures
        r@ == classified(*entry, dst@, src@, opt_str(canonical_target), opt_str(canonical_src), os),
        *entry is Absent <==> r is Missing,
        *entry is File <==> r is ExistingFile,
        *entry is Dir <==> r is ExistingDir,
        *entry is Symlink <==> (r is CorrectLink || r is WrongLink),
        r is WrongLink ==> (*entry is Symlink && r->target@ == entry->target@),
        (*entry is Symlink && canonical_target is Some && canonical_src is Some) ==> (r is CorrectLink
            <==> canonical_target->0@ == canonical_src->0@),
{
    match entry {
        DstEntry::Absent => LinkState::Missing,
        DstEntry::Symlink { target } => {
            let same = match (canonical_target, canonical_src) {
                (Some(a), Some(b)) => crate::text::str_eq(a, b),
                _ => {
                    let location = link_location_of(dst, target.as_str(), os);
                    paths_equal(location.as_str(), src, os)
                },
            };
            if same {
                LinkState::CorrectLink
            } else {
                LinkState::WrongLink { target: owned(target.as_str()) }
            }
        },
        DstEntry::Dir => LinkState::ExistingDir,
        DstEntry::File => LinkState::ExistingFile,
    }
}

// ---------------------------------------------------------------------------
// Ensuring a link
// ---------------------------------------------------------------------------

/// What ensuring a link will do: the change to report and the steps that
/// carry it out (none in a dry run).
#[derive(Debug)]
pub struct EnsurePlan {
    pub change: Change,
    pub steps: Vec<LinkStep>,
}

/// The values of a sequence of steps.
pub open spec fn step_views(v: Seq<LinkStep>) -> Seq<StepView> {
    v.map_values(|s: LinkStep| s@)
}

/// The steps that (re)create a link at `dst` to `src`, after `first`.
pub open spec fn link_steps(first: Seq<StepView>, src: Seq<char>, dst: Seq<char>) -> Seq<StepView> {
    first + seq![StepView::CreateParent { path: dst }, StepView::Symlink { src, dst }]
}

/// The change and steps of ensuring that `dst` links to `src`, or the error
/// when the destination is occupied and replacing was not asked for.
pub open spec fn ensure_outcome(
    state: LinkStateView,
    src: Seq<char>,
    dst: Seq<char>,
    force: bool,
    dry_run: bool,
) -> Result<(ChangeView, Seq<StepView>), ErrorView> {
    match state {
        LinkStateView::CorrectLink => Ok((ChangeView::Noop, seq![])),
        LinkStateView::Missing => Ok(
            (ChangeView::Created, if dry_run { seq![] } else { link_steps(seq![], src, dst) }),
        ),
        LinkStateView::WrongLink { .. } => Ok(
            (
                ChangeView::Updated,
                if dry_run {
                    seq![]
                } else {
                    link_steps(seq![StepView::RemoveLink { path: dst }], src, dst)
                },
            ),
        ),
        _ => if !force {
            Err(ErrorView::DestinationOccupied { path: dst })
        } else {
            Ok(
                (
                    ChangeView::BackedUpAndReplaced,
                    if dry_run {
                        seq![]
                    } else {
                        link_steps(
                            seq![StepView::Rename { from: dst, to: dst + ".bak"@ }],
                            src,
                            dst,
                        )
                    },
                ),
            )
        },
    }
}

/// The value of a plan outcome.
pub open spec fn plan_view(r: Result<EnsurePlan, Error>) -> Result<(ChangeView, Seq<StepView>), ErrorView> {
    match r {
        Ok(p) => Ok((p.change@, step_views(p.steps@))),
        Err(e) => Err(e@),
    }
}

fn push_link_steps(steps: &mut Vec<LinkStep>, src: &str, dst: &str)
    ensures
        step_views(final(steps)@) == link_steps(
            step_views(old(steps)@),
            src@,
            dst@,
        ),
{
    let ghost before = step_views(steps@);
    steps.push(LinkStep::CreateParent { path: owned(dst) });
    steps.push(LinkStep::Symlink { src: owned(src), dst: owned(dst) });
    assert(step_views(steps@) =~= link_steps(before, src@, dst@));
}

/// Decides how to make `dst` a symlink to `src`, given the destination's
/// `state`: nothing when it already is one; create it when missing; replace
/// a symlink to something else; and for an existing file or directory,
/// refuse unless `force`, in which case move it to `<dst>.bak` first. In a
/// dry run the change is reported and no step is planned.
pub fn plan_ensure(state: &LinkState, src: &str, dst: &str, force: bool, dry_run: bool) -> (r: Result<EnsurePlan, Error>)
    ensures
        plan_view(r) == ensure_outcome(state@, src@, dst@, force, dry_run),
{
    let mut steps: Vec<LinkStep> = Vec::new();
    assert(step_views(steps@) =~= seq![]);
    let res = match state {
        LinkState::CorrectLink => Ok(EnsurePlan { change: Change::Noop, steps }),
        LinkState::Missing => {
            if !dry_run {
                push_link_steps(&mut steps, src, dst);
            }
            Ok(EnsurePlan { change: Change::Created, steps })
        },
        LinkState::WrongLink { .. } => {
            if !dry_run {
                steps.push(LinkStep::RemoveLink { path: owned(dst) });
                assert(step_views(steps@) =~= seq![StepView::RemoveLink { path: dst@ }]);
                push_link_steps(&mut steps, src, dst);
            }
            Ok(EnsurePlan { change: Change::Updated, steps })
        },
        _ => {
            if !force {
                Err(Error::DestinationOccupied { path: owned(dst) })
            } else {
                if !dry_run {
                    let backup = backup_path(dst);
                    steps.push(LinkStep::Rename { from: owned(dst), to: backup });
                    assert(step_views(steps@) =~= seq![StepView::Rename { from: dst@, to: dst@ + ".bak"@ }]);
                    push_link_steps(&mut steps, src, dst);
                }
                Ok(EnsurePlan { change: Change::BackedUpAndReplaced, steps })
            }
        },
    };
    res
}

// ---------------------------------------------------------------------------
// Removing a link
// ---------------------------------------------------------------------------

/// What removing a link will do: the change to report, and whether to
/// delete the symlink (never in a dry run).
#[derive(Debug)]
pub struct RemovePlan {
    pub change: Change,
    pub delete: bool,
}

/// The change and decision of removing the destination `dst` that lies
/// under a dotfiles root. `target` is the link's target in canonical form
/// where that could be computed, and `root` likewise for the root.
pub open spec fn remove_outcome(
    entry: DstEntry,
    dst: Seq<char>,
    target: Seq<char>,
    root: Seq<char>,
    dry_run: bool,
    os: Os,
) -> (ChangeView, bool) {
    match entry {
        DstEntry::Absent => (ChangeView::Skipped { reason: dst + " does not exist"@ }, false),
        DstEntry::Symlink { .. } => if path_starts_with_spec(target, root, os) {
            (ChangeView::Removed, !dry_run)
        } else {
            (
                ChangeView::Skipped {
                    reason: dst + " points outside dotfiles_root ("@ + target + ")"@,
                },
                false,
            )
        },
        _ => (ChangeView::Skipped { reason: dst + " is not a symlink"@ }, false),
    }
}

/// The target to compare for a link at `dst`: the canonical form of where
/// it points when that could be computed, where it points otherwise.
pub open spec fn effective_target(
    entry: DstEntry,
    dst: Seq<char>,
    canonical_target: Option<Seq<char>>,
    os: Os,
) -> Seq<char> {
    match canonical_target {
        Some(t) => t,
        None => match entry {
            DstEntry::Symlink { target } => link_location(dst, target@, os),
            _ => seq![],
        },
    }
}

/// Decides whether the destination `dst` may be removed: only a symlink
/// that points (a relative target taken from `dst`'s directory; canonical
/// where possible, `canonical_target`) under the dotfiles root (canonical
/// where possible) is removed; anything else is skipped with the reason.
/// `root` is the dotfiles root as written. Paths are read by the rules of
/// `os`.
pub fn plan_remove(
    entry: &DstEntry,
    dst: &str,
    canonical_target: Option<&str>,
    root: &str,
    canonical_root: Option<&str>,
    dry_run: bool,
    os: Os,
) -> (r: RemovePlan)
    ensures
        (r.change@, r.delete) == remove_outcome(
            *entry,
            dst@,
            effective_target(*entry, dst@, opt_str(canonical_target), os),
            match canonical_root {
                Some(c) => c@,
                None => root@,
            },
            dry_run,
            os,
        ),
{
    match entry {
        DstEntry::Absent => RemovePlan {
            change: Change::Skipped { reason: concat2(dst, " does not exist") },
            delete: false,
        },
        DstEntry::Symlink { target } => {
            let location = link_location_of(dst, target.as_str(), os);
            let t = match canonical_target {
                Some(c) => c,
                None => location.as_str(),
            };
            let base = match canonical_root {
                Some(c) => c,
                None => root,
            };
            if path_starts_with(t, base, os) {
                RemovePlan { change: Change::Removed, delete: !dry_run }
            } else {
                let head = concat3(dst, " points outside dotfiles_root (", t);
                RemovePlan { change: Change::Skipped { reason: concat2(head.as_str(), ")") }, delete: false }
            }
        },
        _ => RemovePlan {
            change: Change::Skipped { reason: concat2(dst, " is not a symlink") },
            delete: false,
        },
    }
}

// ---------------------------------------------------------------------------
// Laws
// ---------------------------------------------------------------------------

/// Ensuring is idempotent: whatever a non-dry plan does ends by creating the
/// symlink at `dst` whose target is `src`; such a symlink is classified as
/// the correct link (it points at `src`, so the canonical forms,
/// `canonical`, agree; without them, an absolute `src` is compared as
/// written); and planning again for a correct link changes nothing.
pub proof fn lemma_ensure_idempotent(
    state: LinkStateView,
    src: String,
    dst: Seq<char>,
    force: bool,
    canonical: Option<Seq<char>>,
    os: Os,
)
    requires
        is_absolute(src@, os) || canonical is Some,
    ensures
        ensure_outcome(state, src@, dst, force, false) matches Ok((c, steps)) ==> (c != ChangeView::Noop
            ==> steps.last() == (StepView::Symlink { src: src@, dst })),
        classified(DstEntry::Symlink { target: src }, dst, src@, canonical, canonical, os)
            == LinkStateView::CorrectLink,
        ensure_outcome(LinkStateView::CorrectLink, src@, dst, force, false) == Ok::<
            (ChangeView, Seq<StepView>),
            ErrorView,
        >((ChangeView::Noop, seq![])),
{
}

/// A dry run reports the same change as a real run, or the same error, and
/// plans no step.
pub proof fn lemma_dry_run_plans_nothing(state: LinkStateView, src: Seq<char>, dst: Seq<char>, force: bool)
    ensures
        match (ensure_outcome(state, src, dst, force, true), ensure_outcome(state, src, dst, force, false)) {
            (Ok((c1, s1)), Ok((c2, _))) => c1 == c2 && s1.len() == 0,
            (Err(e1), Err(e2)) => e1 == e2,
            _ => false,
        },
{
}

/// Nothing that is not a symlink is ever deleted by ensuring a link: an
/// existing file or directory is refused without `force` and only moved to
/// its backup name with it.
pub proof fn lemma_ensure_keeps_user_files(state: LinkStateView, src: Seq<char>, dst: Seq<char>, force: bool, dry_run: bool)
    requires
        state == LinkStateView::ExistingFile || state == LinkStateView::ExistingDir,
    ensures
        !force ==> ensure_outcome(state, src, dst, force, dry_run) == Err::<(ChangeView, Seq<StepView>), ErrorView>(
            ErrorView::DestinationOccupied { path: dst },
        ),
        ensure_outcome(state, src, dst, force, dry_run) matches Ok((_, steps)) ==> forall|i: int|
            0 <= i < steps.len() ==> !(#[trigger] steps[i] is RemoveLink),
{
    if let Ok((_, steps)) = ensure_outcome(state, src, dst, force, dry_run) {
        if !dry_run {
            assert forall|i: int| 0 <= i < steps.len() implies !(#[trigger] steps[i] is RemoveLink) by {
                if i == 0 {
                } else if i == 1 {
                } else {
                }
            }
        }
    }
}

/// Removing is safe: a destination is deleted only if it is a symlink whose
/// target lies under the dotfiles root, and never in a dry run.
pub proof fn lemma_remove_only_ours(
    entry: DstEntry,
    dst: Seq<char>,
    target: Seq<char>,
    root: Seq<char>,
    dry_run: bool,
    os: Os,
)
    ensures
        remove_outcome(entry, dst, target, root, dry_run, os).1 ==> (entry is Symlink && path_starts_with_spec(
            target,
            root,
            os,
        ) && !dry_run),
        remove_outcome(entry, dst, target, root, dry_run, os).1 <==> remove_outcome(
            entry,
            dst,
            target,
            root,
            dry_run,
            os,
        ).0 == ChangeView::Removed && !dry_run,
{
}

} // verus!
