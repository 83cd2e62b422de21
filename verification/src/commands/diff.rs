//! `diff`: what `apply` would change, in three layers: registry drift
//! (enabled tools the registry lacks, registry tools not enabled), link
//! drift, and the content of files that stand where links should be.

use vstd::prelude::*;
use crate::link::{LinkState, LinkStateView};
use crate::os::Os;
use crate::registry::{Registry, ResolvedLink, admits, link_pairs};
use crate::style::Icons;
use crate::text::{owned, concat2, concat3, contains_str, views};

verus! {

/// Enabled tools that the registry does not declare.
pub open spec fn orphaned_spec(enabled: Seq<Seq<char>>, reg: Registry) -> Seq<Seq<char>> {
    enabled.filter(|t: Seq<char>| !reg.tools().contains_key(t))
}

/// Registry tools, in name order, that are meant for `os` and not enabled.
pub open spec fn available_spec(enabled: Seq<Seq<char>>, reg: Registry, os: Os) -> Seq<Seq<char>> {
    reg.key_seq().filter(|n: Seq<char>| !enabled.contains(n) && admits(reg.tools()[n].platforms, os))
}

/// The members of a filtered sequence are exactly the members that pass.
proof fn lemma_filter_membership(s: Seq<Seq<char>>, p: spec_fn(Seq<char>) -> bool)
    ensures
        forall|x: Seq<char>| #[trigger] s.filter(p).contains(x) <==> (s.contains(x) && p(x)),
{
    assert forall|x: Seq<char>| #[trigger] s.filter(p).contains(x) <==> (s.contains(x) && p(x)) by {
        if s.filter(p).contains(x) {
            s.lemma_filter_contains_rev(p, x);
        }
        if s.contains(x) && p(x) {
            let k = choose|k: int| 0 <= k < s.len() && s[k] == x;
            s.lemma_filter_contains(p, k);
        }
    }
}

/// The registry drift: enabled tools missing from the registry, and
/// registry tools for `os` that are not enabled.
pub fn registry_drift(reg: &Registry, enabled: &Vec<String>, os: Os) -> (r: (Vec<String>, Vec<String>))
    requires
        reg.wf(),
    ensures
        forall|x: Seq<char>| #[trigger] views(r.0@).contains(x) <==> (views(enabled@).contains(x)
            && !reg.tools().contains_key(x)),
        forall|x: Seq<char>| #[trigger] views(r.1@).contains(x) <==> (reg.tools().contains_key(x)
            && !views(enabled@).contains(x) && admits(reg.tools()[x].platforms, os)),
        views(r.0@) == orphaned_spec(views(enabled@), *reg),
        views(r.1@) == available_spec(views(enabled@), *reg, os),
{
    let ghost en = views(enabled@);
    let ghost p1 = |t: Seq<char>| !reg.tools().contains_key(t);
    let mut orphaned: Vec<String> = Vec::new();
    let mut i: usize = 0;
    assert(views(orphaned@) =~= en.take(0).filter(p1));
    while i < enabled.len()
        invariant
            reg.wf(),
            i <= enabled@.len(),
            en == views(enabled@),
            p1 == (|t: Seq<char>| !reg.tools().contains_key(t)),
            views(orphaned@) == en.take(i as int).filter(p1),
        decreases enabled.len() - i,
    {
        let ghost before = views(orphaned@);
        proof {
            assert(en.take(i + 1) =~= en.take(i as int).push(en[i as int]));
            en.take(i as int).lemma_filter_push(en[i as int], p1);
        }
        if !reg.contains_key(enabled[i].as_str()) {
            orphaned.push(owned(enabled[i].as_str()));
            assert(views(orphaned@) =~= before.push(en[i as int]));
        }
        i = i + 1;
    }
    assert(en.take(enabled@.len() as int) =~= en);
    let names = reg.names();
    let ghost ks = reg.key_seq();
    let ghost p2 = |n: Seq<char>| !en.contains(n) && admits(reg.tools()[n].platforms, os);
    let mut available: Vec<String> = Vec::new();
    let mut j: usize = 0;
    assert(views(available@) =~= ks.take(0).filter(p2));
    proof {
        reg.lemma_keys();
    }
    while j < names.len()
        invariant
            reg.wf(),
            j <= names@.len(),
            views(names@) == ks,
            ks == reg.key_seq(),
            en == views(enabled@),
            forall|k: Seq<char>| #[trigger] reg.tools().contains_key(k) <==> ks.contains(k),
            p2 == (|n: Seq<char>| !en.contains(n) && admits(reg.tools()[n].platforms, os)),
            views(available@) == ks.take(j as int).filter(p2),
        decreases names.len() - j,
    {
        let name = names[j].as_str();
        let ghost before = views(available@);
        proof {
            assert(ks.take(j + 1) =~= ks.take(j as int).push(ks[j as int]));
            ks.take(j as int).lemma_filter_push(ks[j as int], p2);
            assert(ks.contains(ks[j as int]));
        }
        let enabled_here = contains_str(enabled, name);
        let supported = match reg.get(name) {
            Some(tool) => tool.supports(os),
            None => false,
        };
        if !enabled_here && supported {
            available.push(owned(name));
            assert(views(available@) =~= before.push(ks[j as int]));
        }
        j = j + 1;
    }
    assert(ks.take(names@.len() as int) =~= ks);
    proof {
        lemma_filter_membership(en, p1);
        lemma_filter_membership(ks, p2);
    }
    (orphaned, available)
}

/// The tools whose links `diff` checks: the named ones, or every enabled
/// tool when none is named.
pub fn diff_targets(enabled: &Vec<String>, filter: &Vec<String>) -> (r: Vec<String>)
    ensures
        views(r@) == (if filter@.len() == 0 {
            views(enabled@)
        } else {
            views(filter@)
        }),
{
    if filter.len() == 0 {
        enabled.clone()
    } else {
        filter.clone()
    }
}

/// Whether `diff` ends its link layer by reporting every link in sync: no
/// link drifted and at least one target is a registry tool.
pub fn reports_in_sync(any_drift: bool, targets: &Vec<String>, reg: &Registry) -> (r: bool)
    requires
        reg.wf(),
    ensures
        r == (!any_drift && exists|i: int| 0 <= i < targets@.len() && reg.tools().contains_key(#[trigger] targets@[i]@)),
{
    if any_drift {
        return false;
    }
    let mut i: usize = 0;
    while i < targets.len()
        invariant
            reg.wf(),
            !any_drift,
            i <= targets@.len(),
            forall|j: int| 0 <= j < i ==> !reg.tools().contains_key(#[trigger] targets@[j]@),
        decreases targets.len() - i,
    {
        if reg.contains_key(targets[i].as_str()) {
            return true;
        }
        i = i + 1;
    }
    false
}

/// Whether bytes look binary: a NUL byte among the first 8192.
pub open spec fn is_binary_spec(bytes: Seq<u8>) -> bool {
    exists|i: int| 0 <= i < bytes.len() && i < 8192 && bytes[i] == 0
}

/// Whether bytes look binary: a NUL byte among the first 8192.
pub fn is_binary(bytes: &[u8]) -> (r: bool)
    ensures
        r == is_binary_spec(bytes@),
{
    let n = if bytes.len() < 8192 { bytes.len() } else { 8192 };
    let mut i: usize = 0;
    while i < n
        invariant
            n <= bytes@.len(),
            n <= 8192,
            n == bytes@.len() || n == 8192,
            i <= n,
            forall|j: int| 0 <= j < i ==> bytes@[j] != 0,
        decreases n - i,
    {
        if bytes[i] == 0 {
            return true;
        }
        i = i + 1;
    }
    false
}

/// The link-drift line of one link; `None` for a correct link.
pub open spec fn drift_line_spec(state: LinkStateView, src: Seq<char>, dst: Seq<char>, icons: Icons) -> Option<Seq<char>> {
    match state {
        LinkStateView::CorrectLink => None,
        LinkStateView::Missing => Some("  "@ + icons.missing@ + "  "@ + dst),
        LinkStateView::WrongLink { target } => Some(
            "  "@ + icons.wrong@ + "  "@ + dst + "\n      expected: "@ + src + "\n      actual:   "@
                + target,
        ),
        LinkStateView::ExistingFile => Some(
            "  "@ + icons.conflict@ + "  "@ + dst + " (file, not a symlink)"@,
        ),
        LinkStateView::ExistingDir => Some(
            "  "@ + icons.conflict@ + "  "@ + dst + " (directory, not a symlink)"@,
        ),
    }
}

/// The link-drift line of one link from `src` to `dst`.
pub fn drift_line(state: &LinkState, src: &str, dst: &str, icons: Icons) -> (r: Option<String>)
    ensures
        r is None == (*state is CorrectLink),
        match r {
            Some(s) => drift_line_spec(state@, src@, dst@, icons) == Some(s@),
            None => drift_line_spec(state@, src@, dst@, icons) is None,
        },
{
    match state {
        LinkState::CorrectLink => None,
        LinkState::Missing => {
            let a = concat3("  ", icons.missing, "  ");
            Some(concat2(a.as_str(), dst))
        },
        LinkState::WrongLink { target } => {
            let a = concat3("  ", icons.wrong, "  ");
            let b = concat3(a.as_str(), dst, "\n      expected: ");
            let c = concat3(b.as_str(), src, "\n      actual:   ");
            Some(concat2(c.as_str(), target.as_str()))
        },
        LinkState::ExistingFile => {
            let a = concat3("  ", icons.conflict, "  ");
            Some(concat3(a.as_str(), dst, " (file, not a symlink)"))
        },
        LinkState::ExistingDir => {
            let a = concat3("  ", icons.conflict, "  ");
            Some(concat3(a.as_str(), dst, " (directory, not a symlink)"))
        },
    }
}

/// The values of link checks: each link's source and destination, and the
/// state found at the destination.
pub open spec fn check_views(checks: Seq<(ResolvedLink, LinkState)>) -> Seq<(Seq<char>, Seq<char>, LinkStateView)> {
    checks.map_values(|c: (ResolvedLink, LinkState)| (c.0.src@, c.0.dst@, c.1@))
}

/// The link-drift lines of checked links, in order: one per link that is
/// not the correct link.
pub open spec fn drift_lines(cs: Seq<(Seq<char>, Seq<char>, LinkStateView)>, icons: Icons) -> Seq<Seq<char>>
    decreases cs.len(),
{
    if cs.len() == 0 {
        seq![]
    } else {
        let c = cs.last();
        drift_lines(cs.drop_last(), icons) + match drift_line_spec(c.2, c.0, c.1, icons) {
            Some(l) => seq![l],
            None => seq![],
        }
    }
}

/// The links, in order, whose destination is a plain file: their contents
/// can be compared.
pub open spec fn content_pairs(cs: Seq<(Seq<char>, Seq<char>, LinkStateView)>) -> Seq<(Seq<char>, Seq<char>)>
    decreases cs.len(),
{
    if cs.len() == 0 {
        seq![]
    } else {
        let c = cs.last();
        content_pairs(cs.drop_last()) + if c.2 is ExistingFile {
            seq![(c.0, c.1)]
        } else {
            seq![]
        }
    }
}

/// Whether some checked link is not the correct link.
pub open spec fn any_drifted(cs: Seq<(Seq<char>, Seq<char>, LinkStateView)>) -> bool {
    exists|i: int| 0 <= i < cs.len() && !(#[trigger] cs[i].2 is CorrectLink)
}

/// A tool's links have drifted exactly when some checked link is not the
/// correct link (a missing link, a link to elsewhere, or a file or directory
/// in the way), and exactly then it has drift lines to show.
pub proof fn lemma_drift_shows(cs: Seq<(Seq<char>, Seq<char>, LinkStateView)>, icons: Icons)
    ensures
        any_drifted(cs) == exists|i: int| 0 <= i < cs.len() && !(#[trigger] cs[i].2 is CorrectLink),
        any_drifted(cs) == (drift_lines(cs, icons).len() > 0),
    decreases cs.len(),
{
    if cs.len() > 0 {
        let init = cs.drop_last();
        lemma_drift_shows(init, icons);
        let c = cs.last();
        if any_drifted(init) {
            let k = choose|k: int| 0 <= k < init.len() && !(#[trigger] init[k].2 is CorrectLink);
            assert(cs[k] == init[k]);
        }
        if any_drifted(cs) {
            let k = choose|k: int| 0 <= k < cs.len() && !(#[trigger] cs[k].2 is CorrectLink);
            if k < init.len() {
                assert(init[k] == cs[k]);
            }
        }
        if !(c.2 is CorrectLink) {
            assert(!(cs[cs.len() - 1].2 is CorrectLink));
        }
    }
}

/// A file or a directory in the way of a link is drift, and so is a missing
/// link or a link to elsewhere.
pub proof fn lemma_conflicts_are_drift(cs: Seq<(Seq<char>, Seq<char>, LinkStateView)>, i: int)
    requires
        0 <= i < cs.len(),
        !(cs[i].2 is CorrectLink),
    ensures
        any_drifted(cs),
{
}

/// The link drift of one tool.
pub struct ToolDrift {
    /// Whether some link is not in sync.
    pub drifted: bool,
    /// The lines to print under the tool's name.
    pub lines: Vec<String>,
    /// The links whose destination is a plain file, for the content layer.
    pub content_targets: Vec<ResolvedLink>,
}

/// The link drift of one tool from the states found at its links: whether
/// any link drifted, the line of each drifted link in order, and the links
/// whose destination is a plain file.
pub fn link_drift(checks: &Vec<(ResolvedLink, LinkState)>, icons: Icons) -> (r: ToolDrift)
    ensures
        r.drifted == any_drifted(check_views(checks@)),
        views(r.lines@) == drift_lines(check_views(checks@), icons),
        link_pairs(r.content_targets@) == content_pairs(check_views(checks@)),
        r.drifted == exists|i: int| 0 <= i < checks@.len() && !(#[trigger] checks@[i].1 is CorrectLink),
        r.drifted == (r.lines@.len() > 0),
{
    proof {
        lemma_drift_shows(check_views(checks@), icons);
        assert forall|i: int| 0 <= i < checks@.len() implies (!(#[trigger] checks@[i].1 is CorrectLink) <==> !(
            check_views(checks@)[i].2 is CorrectLink)) by {}
    }
    let ghost cs = check_views(checks@);
    let mut drifted = false;
    let mut lines: Vec<String> = Vec::new();
    let mut targets: Vec<ResolvedLink> = Vec::new();
    let mut i: usize = 0;
    assert(cs.take(0) =~= Seq::<(Seq<char>, Seq<char>, LinkStateView)>::empty());
    assert(views(lines@) =~= Seq::<Seq<char>>::empty());
    assert(link_pairs(targets@) =~= Seq::<(Seq<char>, Seq<char>)>::empty());
    while i < checks.len()
        invariant
            i <= checks@.len(),
            cs == check_views(checks@),
            drifted == any_drifted(cs.take(i as int)),
            views(lines@) == drift_lines(cs.take(i as int), icons),
            link_pairs(targets@) == content_pairs(cs.take(i as int)),
        decreases checks.len() - i,
    {
        let ghost pre = cs.take(i as int);
        let ghost l0 = views(lines@);
        let ghost t0 = link_pairs(targets@);
        let ghost c = cs[i as int];
        proof {
            assert(cs.take(i + 1).drop_last() =~= pre);
            assert(cs.take(i + 1).last() == c);
        }
        let link = &checks[i].0;
        let state = &checks[i].1;
        assert(c == (link.src@, link.dst@, state@));
        match drift_line(state, link.src.as_str(), link.dst.as_str(), icons) {
            Some(line) => {
                lines.push(line);
                assert(views(lines@) =~= l0 + seq![line@]);
            },
            None => {
                assert(views(lines@) =~= l0 + Seq::<Seq<char>>::empty());
            },
        }
        let not_correct = match state {
            LinkState::CorrectLink => false,
            _ => true,
        };
        proof {
            let next = cs.take(i + 1);
            if not_correct {
                assert(!(next[i as int].2 is CorrectLink));
            }
            if drifted {
                let k = choose|k: int| 0 <= k < pre.len() && !(#[trigger] pre[k].2 is CorrectLink);
                assert(next[k] == pre[k]);
            }
            if any_drifted(next) {
                let k = choose|k: int| 0 <= k < next.len() && !(#[trigger] next[k].2 is CorrectLink);
                if k < i {
                    assert(pre[k] == next[k]);
                }
            }
        }
        drifted = drifted || not_correct;
        match state {
            LinkState::ExistingFile => {
                targets.push(ResolvedLink { src: owned(link.src.as_str()), dst: owned(link.dst.as_str()) });
                assert(link_pairs(targets@) =~= t0 + seq![(c.0, c.1)]);
            },
            _ => {
                assert(link_pairs(targets@) =~= t0 + Seq::<(Seq<char>, Seq<char>)>::empty());
            },
        }
        i = i + 1;
    }
    assert(cs.take(checks@.len() as int) =~= cs);
    ToolDrift { drifted, lines, content_targets: targets }
}

/// Whether `diff` found drift: some enabled tool is missing from the
/// registry, some registry tool for this OS is not enabled, or some tool's
/// links drifted.
pub fn diff_any_drift(orphaned: &Vec<String>, available: &Vec<String>, drifted: &Vec<bool>) -> (r: bool)
    ensures
        r == (orphaned@.len() > 0 || available@.len() > 0 || drifted@.contains(true)),
{
    if orphaned.len() > 0 || available.len() > 0 {
        return true;
    }
    let mut i: usize = 0;
    while i < drifted.len()
        invariant
            i <= drifted@.len(),
            forall|k: int| 0 <= k < i ==> !drifted@[k],
        decreases drifted.len() - i,
    {
        if drifted[i] {
            assert(drifted@[i as int]);
            return true;
        }
        i = i + 1;
    }
    false
}

/// The exit code of `diff`: 1 when anything drifted, 0 otherwise.
pub fn diff_exit_code(any_drift: bool) -> (r: u8)
    ensures
        r == (if any_drift { 1u8 } else { 0u8 }),
{
    if any_drift {
        1
    } else {
        0
    }
}

// ---------------------------------------------------------------------------
// Content drift
// ---------------------------------------------------------------------------

/// The kind of a line of a line diff.
#[derive(Clone, Copy, PartialEq, Eq, Structural, Debug)]
pub enum DiffTag {
    Equal,
    Delete,
    Insert,
}

/// The text that `String::from_utf8_lossy` decodes `bytes` to.
pub uninterp spec fn lossy_text(bytes: Seq<u8>) -> Seq<char>;

/// Decodes bytes as UTF-8, replacing invalid sequences with U+FFFD
/// (`String::from_utf8_lossy`). The result is named, not stated.
#[verifier::external_body]
fn decode_lossy(bytes: &[u8]) -> (r: String)
    ensures
        r@ == lossy_text(bytes@),
{
    String::from_utf8_lossy(bytes).into_owned()
}

/// The line changes that `similar::TextDiff::from_lines(old, new)` yields
/// through `iter_all_changes`: each line's tag and its text (with a newline
/// added when the line lacked one).
pub uninterp spec fn line_changes(old: Seq<char>, new: Seq<char>) -> Seq<(DiffTag, Seq<char>)>;

/// The changes of a line diff of `old` against `new` (the `similar` crate).
/// The result is named, not stated.
#[verifier::external_body]
fn diff_lines(old: &str, new: &str) -> (r: Vec<(DiffTag, String)>)
    ensures
        r@.map_values(|c: (DiffTag, String)| (c.0, c.1@)) == line_changes(old@, new@),
{
    similar::TextDiff::from_lines(old, new)
        .iter_all_changes()
        .map(|c| {
            let tag = match c.tag() {
                similar::ChangeTag::Equal => DiffTag::Equal,
                similar::ChangeTag::Delete => DiffTag::Delete,
                similar::ChangeTag::Insert => DiffTag::Insert,
            };
            (tag, c.to_string())
        })
        .collect()
}

/// The printed form of line changes: each deleted line with `-`, each
/// inserted line with `+`, equal lines left out.
pub open spec fn rendered_changes(changes: Seq<(DiffTag, Seq<char>)>) -> Seq<char>
    decreases changes.len(),
{
    if changes.len() == 0 {
        seq![]
    } else {
        let last = changes.last();
        rendered_changes(changes.drop_last()) + match last.0 {
            DiffTag::Equal => seq![],
            DiffTag::Delete => seq!['-'] + last.1,
            DiffTag::Insert => seq!['+'] + last.1,
        }
    }
}

/// Renders line changes as `-`/`+` lines, leaving out equal lines.
pub fn render_changes(changes: &Vec<(DiffTag, String)>) -> (r: String)
    ensures
        r@ == rendered_changes(changes@.map_values(|c: (DiffTag, String)| (c.0, c.1@))),
{
    let ghost cs = changes@.map_values(|c: (DiffTag, String)| (c.0, c.1@));
    let mut out = owned("");
    proof {
        reveal_strlit("");
    }
    let mut i: usize = 0;
    assert(out@ =~= rendered_changes(cs.take(0)));
    while i < changes.len()
        invariant
            i <= changes@.len(),
            cs == changes@.map_values(|c: (DiffTag, String)| (c.0, c.1@)),
            out@ == rendered_changes(cs.take(i as int)),
        decreases changes.len() - i,
    {
        proof {
            assert(cs.take(i + 1).drop_last() =~= cs.take(i as int));
            assert(cs.take(i + 1).last() == cs[i as int]);
        }
        let (tag, text) = (changes[i].0, changes[i].1.as_str());
        match tag {
            DiffTag::Equal => {
                assert(out@ =~= rendered_changes(cs.take(i + 1)));
            },
            DiffTag::Delete => {
                out = concat3(out.as_str(), "-", text);
                proof {
                    reveal_strlit("-");
                    assert(out@ =~= rendered_changes(cs.take(i + 1)));
                }
            },
            DiffTag::Insert => {
                out = concat3(out.as_str(), "+", text);
                proof {
                    reveal_strlit("+");
                    assert(out@ =~= rendered_changes(cs.take(i + 1)));
                }
            },
        }
        i = i + 1;
    }
    assert(cs.take(changes@.len() as int) =~= cs);
    out
}

/// The header of a content diff of `tool` between `src` and `dst`.
pub open spec fn content_header(tool: Seq<char>, src: Seq<char>, dst: Seq<char>) -> Seq<char> {
    "--- "@ + tool + ": "@ + src + " (expected)\n"@ + "+++ "@ + tool + ": "@ + dst + " (actual)\n"@
}

/// The note printed in place of a diff when a file cannot be read.
pub open spec fn unreadable_note() -> Seq<char> {
    "  (unreadable file, diff suppressed)\n"@
}

/// The note printed in place of a diff when a file looks binary.
pub open spec fn binary_note() -> Seq<char> {
    "  (binary files, diff suppressed)\n"@
}

/// The content diff of a file `dst` standing where a link to `src` should
/// be, given what reading each file gave (`None` when it could not be
/// read): a header, then a note when either file is unreadable or binary,
/// else the line changes of `src`'s text against `dst`'s.
pub open spec fn content_diff_spec(
    tool: Seq<char>,
    src: Seq<char>,
    dst: Seq<char>,
    src_bytes: Option<Seq<u8>>,
    dst_bytes: Option<Seq<u8>>,
) -> Seq<char> {
    content_header(tool, src, dst) + match (src_bytes, dst_bytes) {
        (Some(a), Some(b)) => if is_binary_spec(a) || is_binary_spec(b) {
            binary_note()
        } else {
            rendered_changes(line_changes(lossy_text(a), lossy_text(b)))
        },
        _ => unreadable_note(),
    }
}

/// The optional view of optional bytes.
pub open spec fn opt_bytes(b: Option<&[u8]>) -> Option<Seq<u8>> {
    match b {
        Some(x) => Some(x@),
        None => None,
    }
}

/// The content diff of `dst` (the actual file) against `src` (the expected
/// one), given both files' bytes, `None` for a file that could not be read.
pub fn content_diff(
    tool: &str,
    src: &str,
    dst: &str,
    src_bytes: Option<&[u8]>,
    dst_bytes: Option<&[u8]>,
) -> (r: String)
    ensures
        r@ == content_diff_spec(tool@, src@, dst@, opt_bytes(src_bytes), opt_bytes(dst_bytes)),
{
    let a = concat3("--- ", tool, ": ");
    let b = concat3(a.as_str(), src, " (expected)\n");
    let c = concat3(b.as_str(), "+++ ", tool);
    let d = concat3(c.as_str(), ": ", dst);
    let header = concat2(d.as_str(), " (actual)\n");
    assert(header@ =~= content_header(tool@, src@, dst@));
    match (src_bytes, dst_bytes) {
        (Some(sb), Some(db)) => {
            if is_binary(sb) || is_binary(db) {
                return concat2(header.as_str(), "  (binary files, diff suppressed)\n");
            }
            let src_text = decode_lossy(sb);
            let dst_text = decode_lossy(db);
            let changes = diff_lines(src_text.as_str(), dst_text.as_str());
            let body = render_changes(&changes);
            concat2(header.as_str(), body.as_str())
        },
        _ => concat2(header.as_str(), "  (unreadable file, diff suppressed)\n"),
    }
}

} // verus!
