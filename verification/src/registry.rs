//! The tool registry of a dotfiles repository (`dotfm.toml`): tools, their
//! links, hooks and per-OS values, and the resolution of links to
//! `(source, destination)` path pairs.

use vstd::prelude::*;
use crate::os::{Os, os_name, Env, expand, expanded, ExpandError, ExpandErrorView};
use crate::paths::{join, joined};
use crate::text::{owned, seq_lt, str_lt, str_eq, views, is_strictly_sorted, join as join_strings, seq_join, lemma_lt_irreflexive, lemma_lt_total, lemma_lt_transitive};

verus! {

/// A value that may differ between Windows and Linux.
pub struct OsMap<T> {
    pub windows: Option<T>,
    pub linux: Option<T>,
}

/// The value of an `OsMap` for `os`.
pub open spec fn pick_spec<T>(m: OsMap<T>, os: Os) -> Option<T> {
    match os {
        Os::Windows => m.windows,
        Os::Linux => m.linux,
    }
}

/// Whether an optional reference refers to the given optional value.
pub open spec fn refers_to<T>(r: Option<&T>, v: Option<T>) -> bool {
    match (r, v) {
        (Some(a), Some(b)) => *a == b,
        (None, None) => true,
        _ => false,
    }
}

impl<T> OsMap<T> {
    /// The value for `os`, if any.
    pub fn pick(&self, os: Os) -> (r: Option<&T>)
        ensures
            refers_to(r, pick_spec(*self, os)),
    {
        match os {
            Os::Windows => self.windows.as_ref(),
            Os::Linux => self.linux.as_ref(),
        }
    }
}

/// Whether an optional list of OS names admits `os`: no list admits every OS.
pub open spec fn admits(list: Option<Vec<String>>, os: Os) -> bool {
    match list {
        None => true,
        Some(l) => views(l@).contains(os_name(os)),
    }
}

fn list_admits(list: &Option<Vec<String>>, os: Os) -> (r: bool)
    ensures
        r == admits(*list, os),
        r == (*list is None || exists|i: int| 0 <= i < (*list)->0@.len() && #[trigger] (*list)->0@[i]@ == os_name(os)),
{
    proof {
        lemma_admits_any_position(*list, os);
    }
    match list {
        None => true,
        Some(l) => {
            let name = os.as_str();
            let mut i: usize = 0;
            while i < l.len()
                invariant
                    i <= l.len(),
                    name@ == os_name(os),
                    *list == Some(*l),
                    forall|j: int| 0 <= j < i ==> views(l@)[j] != os_name(os),
                decreases l.len() - i,
            {
                if str_eq(l[i].as_str(), name) {
                    assert(views(l@)[i as int] == os_name(os));
                    proof {
                        lemma_admits_any_position(*list, os);
                    }
                    return true;
                }
                i = i + 1;
            }
            false
        },
    }
}

/// An OS list admits an OS exactly when there is no list or the OS's name
/// stands at some position of it, first or not.
pub proof fn lemma_admits_any_position(list: Option<Vec<String>>, os: Os)
    ensures
        admits(list, os) == (list is None || exists|i: int|
            0 <= i < list->0@.len() && #[trigger] list->0@[i]@ == os_name(os)),
{
    if let Some(l) = list {
        if admits(list, os) {
            let k = choose|k: int| 0 <= k < views(l@).len() && views(l@)[k] == os_name(os);
            assert(l@[k]@ == os_name(os));
        }
        if exists|i: int| 0 <= i < l@.len() && #[trigger] l@[i]@ == os_name(os) {
            let k = choose|i: int| 0 <= i < l@.len() && #[trigger] l@[i]@ == os_name(os);
            assert(views(l@)[k] == os_name(os));
        }
    }
}

/// Adding an OS to a list makes it admit that OS, wherever it is added.
pub proof fn lemma_listed_os_is_admitted(l: Vec<String>, os: Os, i: int)
    requires
        0 <= i < l@.len(),
        l@[i]@ == os_name(os),
    ensures
        admits(Some(l), os),
{
    assert(views(l@)[i] == os_name(os));
}

/// One tool of the registry.
pub struct Tool {
    /// Shown by `list`.
    pub description: Option<String>,
    /// The OSes the tool is for; `None` means every OS.
    pub platforms: Option<Vec<String>>,
    /// The symlinks the tool consists of.
    pub links: Vec<LinkSpec>,
    /// Commands run after the links are in place.
    pub post_apply: Vec<Hook>,
    /// A setup script per OS, relative to the dotfiles root.
    pub script: Option<OsMap<String>>,
    /// A teardown script per OS, relative to the dotfiles root.
    pub unscript: Option<OsMap<String>>,
    /// A health-check script per OS, relative to the dotfiles root.
    pub doctor: Option<OsMap<String>>,
}

impl Tool {
    /// Whether the tool is meant for `os`: when it lists platforms, `os` is
    /// among them.
    pub fn supports(&self, os: Os) -> (r: bool)
        ensures
            r == admits(self.platforms, os),
            r == (self.platforms is None || exists|i: int|
                0 <= i < self.platforms->0@.len() && #[trigger] self.platforms->0@[i]@ == os_name(os)),
    {
        list_admits(&self.platforms, os)
    }
}

/// A command to run after a tool is applied.
pub struct Hook {
    /// The program and its arguments.
    pub run: Vec<String>,
    /// The OSes the hook runs on; `None` means every OS.
    pub os: Option<Vec<String>>,
}

impl Hook {
    /// Whether the hook runs on `os`.
    pub fn applies_to(&self, os: Os) -> (r: bool)
        ensures
            r == admits(self.os, os),
            r == (self.os is None || exists|i: int| 0 <= i < self.os->0@.len() && #[trigger] self.os->0@[i]@ == os_name(os)),
    {
        list_admits(&self.os, os)
    }
}

/// The source of a link.
pub enum LinkSrc {
    /// Link `<root>/<path>` to the destination itself.
    Path(String),
    /// Link each `<root>/<dir>/<name>` to `<destination>/<name>`.
    Expand { dir: String, files: Vec<String> },
}

/// One declared link: a source and a destination per OS.
pub struct LinkSpec {
    pub src: LinkSrc,
    pub dst: OsMap<String>,
}

/// A concrete `(source, destination)` pair.
pub struct ResolvedLink {
    pub src: String,
    pub dst: String,
}

/// The pairs of a list of resolved links.
pub open spec fn link_pairs(v: Seq<ResolvedLink>) -> Seq<(Seq<char>, Seq<char>)> {
    v.map_values(|l: ResolvedLink| (l.src@, l.dst@))
}

/// The pairs that a link source gives under `root` for the destination
/// `base`, paths joined by the rules of `os`.
pub open spec fn resolved_pairs(src: LinkSrc, root: Seq<char>, base: Seq<char>, os: Os) -> Seq<
    (Seq<char>, Seq<char>),
> {
    match src {
        LinkSrc::Path(p) => seq![(joined(root, p@, os), base)],
        LinkSrc::Expand { dir, files } => Seq::new(
            files@.len(),
            |i: int| (joined(joined(root, dir@, os), files@[i]@, os), joined(base, files@[i]@, os)),
        ),
    }
}

/// The outcome of resolving a link spec for `os` against `env`.
pub open spec fn resolution(
    spec: LinkSpec,
    root: Seq<char>,
    os: Os,
    env: Seq<(Seq<char>, Seq<char>)>,
) -> Result<Option<Seq<(Seq<char>, Seq<char>)>>, ExpandErrorView> {
    match pick_spec(spec.dst, os) {
        None => Ok(None),
        Some(raw) => match expanded(raw@, env, os) {
            Err(e) => Err(e),
            Ok(base) => Ok(Some(resolved_pairs(spec.src, root, base, os))),
        },
    }
}

/// The value of a resolution outcome.
pub open spec fn resolution_view(r: Result<Option<Vec<ResolvedLink>>, ExpandError>) -> Result<
    Option<Seq<(Seq<char>, Seq<char>)>>,
    ExpandErrorView,
> {
    match r {
        Ok(Some(v)) => Ok(Some(link_pairs(v@))),
        Ok(None) => Ok(None),
        Err(e) => Err(e@),
    }
}

impl LinkSpec {
    /// The concrete pairs of this link under `dotfiles_root` for an already
    /// expanded destination `dst_base`, paths joined by the rules of `os`.
    pub fn resolve_at(&self, dotfiles_root: &str, dst_base: &str, os: Os) -> (r: Vec<ResolvedLink>)
        ensures
            link_pairs(r@) == resolved_pairs(self.src, dotfiles_root@, dst_base@, os),
    {
        match &self.src {
            LinkSrc::Path(p) => {
                let mut out: Vec<ResolvedLink> = Vec::new();
                out.push(ResolvedLink { src: join(dotfiles_root, p.as_str(), os), dst: owned(dst_base) });
                assert(link_pairs(out@) =~= resolved_pairs(self.src, dotfiles_root@, dst_base@, os));
                out
            },
            LinkSrc::Expand { dir, files } => {
                let src_dir = join(dotfiles_root, dir.as_str(), os);
                let mut out: Vec<ResolvedLink> = Vec::new();
                let mut i: usize = 0;
                let ghost full = resolved_pairs(self.src, dotfiles_root@, dst_base@, os);
                assert(link_pairs(out@) =~= full.take(0));
                while i < files.len()
                    invariant
                        i <= files.len(),
                        src_dir@ == joined(dotfiles_root@, dir@, os),
                        full == resolved_pairs(self.src, dotfiles_root@, dst_base@, os),
                        link_pairs(out@) == full.take(i as int),
                        self.src == (LinkSrc::Expand { dir: *dir, files: *files }),
                    decreases files.len() - i,
                {
                    let name = files[i].as_str();
                    let ghost before = link_pairs(out@);
                    let link = ResolvedLink { src: join(src_dir.as_str(), name, os), dst: join(dst_base, name, os) };
                    assert(full[i as int] == (link.src@, link.dst@));
                    out.push(link);
                    assert(link_pairs(out@) =~= before.push(full[i as int]));
                    assert(full.take(i + 1) =~= full.take(i as int).push(full[i as int]));
                    i = i + 1;
                }
                assert(full.take(files.len() as int) =~= full);
                out
            },
        }
    }

    /// Resolves this link for `os`: `Ok(None)` when it has no destination
    /// for `os`, an error when the destination does not expand, and
    /// otherwise its `(source, destination)` pairs.
    pub fn resolve(&self, dotfiles_root: &str, os: Os, env: &Env) -> (r: Result<Option<Vec<ResolvedLink>>, ExpandError>)
        ensures
            resolution_view(r) == resolution(*self, dotfiles_root@, os, env@),
    {
        match self.dst.pick(os) {
            None => Ok(None),
            Some(raw) => match expand(raw.as_str(), env, os) {
                Err(e) => Err(e),
                Ok(base) => Ok(Some(self.resolve_at(dotfiles_root, base.as_str(), os))),
            },
        }
    }
}

/// The pairs of a list of links for `os`, in order, up to the first link
/// whose destination does not expand, together with that link's error.
pub open spec fn links_resolution(
    links: Seq<LinkSpec>,
    root: Seq<char>,
    os: Os,
    env: Seq<(Seq<char>, Seq<char>)>,
) -> (Seq<(Seq<char>, Seq<char>)>, Option<ExpandErrorView>)
    decreases links.len(),
{
    if links.len() == 0 {
        (seq![], None)
    } else {
        let done = links_resolution(links.drop_last(), root, os, env);
        if done.1 is Some {
            done
        } else {
            match resolution(links.last(), root, os, env) {
                Err(e) => (done.0, Some(e)),
                Ok(None) => done,
                Ok(Some(pairs)) => (done.0 + pairs, None),
            }
        }
    }
}

/// Once a link fails to resolve, the links after it change nothing.
proof fn lemma_failure_sticks(links: Seq<LinkSpec>, i: int, root: Seq<char>, os: Os, env: Seq<(Seq<char>, Seq<char>)>)
    requires
        0 <= i <= links.len(),
        links_resolution(links.take(i), root, os, env).1 is Some,
    ensures
        links_resolution(links, root, os, env) == links_resolution(links.take(i), root, os, env),
    decreases links.len() - i,
{
    if i == links.len() {
        assert(links.take(i) =~= links);
    } else {
        let shorter = links.drop_last();
        assert(shorter.take(i) =~= links.take(i));
        lemma_failure_sticks(shorter, i, root, os, env);
    }
}

impl Tool {
    /// The `(source, destination)` pairs of this tool's links for `os`, in
    /// order. Links without a destination for `os` give none. When a
    /// destination does not expand, the pairs of the links before it come
    /// back with its error, and the links after it are not resolved.
    pub fn resolve_links(&self, dotfiles_root: &str, os: Os, env: &Env) -> (r: (Vec<ResolvedLink>, Option<ExpandError>))
        ensures
            (link_pairs(r.0@), match r.1 {
                Some(e) => Some(e@),
                None => None,
            }) == links_resolution(self.links@, dotfiles_root@, os, env@),
    {
        let mut out: Vec<ResolvedLink> = Vec::new();
        let mut i: usize = 0;
        assert(self.links@.take(0) =~= Seq::<LinkSpec>::empty());
        assert(link_pairs(out@) =~= Seq::<(Seq<char>, Seq<char>)>::empty());
        while i < self.links.len()
            invariant
                i <= self.links@.len(),
                links_resolution(self.links@.take(i as int), dotfiles_root@, os, env@) == (
                    link_pairs(out@),
                    None::<ExpandErrorView>,
                ),
            decreases self.links.len() - i,
        {
            let ghost before = link_pairs(out@);
            proof {
                assert(self.links@.take(i + 1).drop_last() =~= self.links@.take(i as int));
                assert(self.links@.take(i + 1).last() == self.links@[i as int]);
            }
            match self.links[i].resolve(dotfiles_root, os, env) {
                Err(e) => {
                    proof {
                        lemma_failure_sticks(self.links@, i + 1, dotfiles_root@, os, env@);
                    }
                    return (out, Some(e));
                },
                Ok(None) => {},
                Ok(Some(items)) => {
                    let mut items = items;
                    let ghost added = link_pairs(items@);
                    out.append(&mut items);
                    assert(link_pairs(out@) =~= before + added);
                },
            }
            i = i + 1;
        }
        assert(self.links@.take(self.links@.len() as int) =~= self.links@);
        (out, None)
    }
}


// ---------------------------------------------------------------------------
// The registry: tools by name, in name order
// ---------------------------------------------------------------------------

/// The tools of a dotfiles repository, keyed by name. Names are kept in
/// increasing lexicographic order, one entry per name, as in a `BTreeMap`.
pub struct Registry {
    entries: Vec<(String, Tool)>,
}

impl Registry {
    /// The names, in entry order.
    pub closed spec fn key_seq(self) -> Seq<Seq<char>> {
        self.entries@.map_values(|e: (String, Tool)| e.0@)
    }

    /// Well-formedness: names strictly increase, so each name occurs once.
    pub closed spec fn wf(self) -> bool {
        is_strictly_sorted(self.key_seq())
    }

    closed spec fn index_of(self, name: Seq<char>) -> int {
        choose|i: int| 0 <= i < self.entries@.len() && self.entries@[i].0@ == name
    }

    /// The tools by name.
    pub closed spec fn tools(self) -> Map<Seq<char>, Tool> {
        Map::new(
            |k: Seq<char>| self.key_seq().contains(k),
            |k: Seq<char>| self.entries@[self.index_of(k)].1,
        )
    }

    /// The names of a well-formed registry strictly increase, and they are
    /// exactly the names it maps.
    pub proof fn lemma_keys(self)
        requires
            self.wf(),
        ensures
            is_strictly_sorted(self.key_seq()),
            forall|k: Seq<char>| #[trigger] self.tools().contains_key(k) <==> self.key_seq().contains(k),
            self.key_seq().len() == self.tools().dom().len(),
            self.tools().dom().finite(),
    {
        let ks = self.key_seq();
        assert(self.tools().dom() =~= ks.to_set());
        assert(ks.no_duplicates()) by {
            assert forall|i: int, j: int| 0 <= i < ks.len() && 0 <= j < ks.len() && i != j implies ks[i] != ks[j] by {
                if i < j {
                    lemma_lt_irreflexive(ks[i]);
                } else {
                    lemma_lt_irreflexive(ks[j]);
                }
            }
        }
        ks.unique_seq_to_set();
    }

    proof fn lemma_index_of(self, i: int)
        requires
            self.wf(),
            0 <= i < self.entries@.len(),
        ensures
            self.index_of(self.entries@[i].0@) == i,
            self.tools().contains_key(self.entries@[i].0@),
            self.tools()[self.entries@[i].0@] == self.entries@[i].1,
    {
        let k = self.entries@[i].0@;
        assert(self.key_seq()[i] == k);
        let j = self.index_of(k);
        assert(0 <= j < self.entries@.len() && self.entries@[j].0@ == k);
        assert(self.key_seq()[j] == k);
        if j < i {
            lemma_lt_irreflexive(k);
        } else if i < j {
            lemma_lt_irreflexive(k);
        }
    }

    /// A registry with no tools.
    pub fn new() -> (r: Registry)
        ensures
            r.wf(),
            r.tools() == Map::<Seq<char>, Tool>::empty(),
            r.key_seq() == Seq::<Seq<char>>::empty(),
    {
        let r = Registry { entries: Vec::new() };
        assert(r.key_seq() =~= Seq::<Seq<char>>::empty());
        assert(r.tools() =~= Map::<Seq<char>, Tool>::empty());
        r
    }

    /// The number of tools.
    pub fn len(&self) -> (r: usize)
        requires
            self.wf(),
        ensures
            r == self.tools().len(),
    {
        proof {
            self.lemma_keys();
        }
        self.entries.len()
    }

    fn position(&self, name: &str) -> (r: usize)
        requires
            self.wf(),
        ensures
            r <= self.entries@.len(),
            forall|j: int| 0 <= j < r ==> seq_lt(#[trigger] self.key_seq()[j], name@),
            r < self.entries@.len() ==> !seq_lt(self.key_seq()[r as int], name@),
    {
        let mut p: usize = 0;
        while p < self.entries.len() && str_lt(self.entries[p].0.as_str(), name)
            invariant
                p <= self.entries@.len(),
                forall|j: int| 0 <= j < p ==> seq_lt(#[trigger] self.key_seq()[j], name@),
            decreases self.entries.len() - p,
        {
            assert(self.key_seq()[p as int] == self.entries@[p as int].0@);
            p = p + 1;
        }
        if p < self.entries.len() {
            assert(self.key_seq()[p as int] == self.entries@[p as int].0@);
        }
        p
    }

    /// Whether a tool named `name` exists, and where.
    fn find(&self, name: &str) -> (r: Option<usize>)
        requires
            self.wf(),
        ensures
            match r {
                Some(i) => i < self.entries@.len() && self.entries@[i as int].0@ == name@,
                None => !self.tools().contains_key(name@),
            },
    {
        let p = self.position(name);
        if p < self.entries.len() && str_eq(self.entries[p].0.as_str(), name) {
            Some(p)
        } else {
            proof {
                self.lemma_keys();
                if self.key_seq().contains(name@) {
                    let k = choose|k: int| 0 <= k < self.key_seq().len() && self.key_seq()[k] == name@;
                    if k < p {
                        lemma_lt_irreflexive(name@);
                    } else if k > p {
                        // key_seq()[p] < key_seq()[k] == name, but !(key_seq()[p] < name)
                    } else {
                        assert(self.entries@[p as int].0@ == name@);
                    }
                }
            }
            None
        }
    }

    /// The tool named `name`, if any.
    pub fn get(&self, name: &str) -> (r: Option<&Tool>)
        requires
            self.wf(),
        ensures
            refers_to(r, if self.tools().contains_key(name@) { Some(self.tools()[name@]) } else { None }),
    {
        match self.find(name) {
            Some(i) => {
                proof {
                    self.lemma_index_of(i as int);
                }
                Some(&self.entries[i].1)
            },
            None => None,
        }
    }

    /// Whether a tool named `name` exists.
    pub fn contains_key(&self, name: &str) -> (r: bool)
        requires
            self.wf(),
        ensures
            r == self.tools().contains_key(name@),
    {
        match self.find(name) {
            Some(i) => {
                proof {
                    self.lemma_index_of(i as int);
                }
                true
            },
            None => false,
        }
    }

    /// The names, in increasing order.
    pub fn names(&self) -> (r: Vec<String>)
        requires
            self.wf(),
        ensures
            views(r@) == self.key_seq(),
    {
        let mut out: Vec<String> = Vec::new();
        let mut i: usize = 0;
        while i < self.entries.len()
            invariant
                i <= self.entries@.len(),
                views(out@) == self.key_seq().take(i as int),
            decreases self.entries.len() - i,
        {
            let ghost before = views(out@);
            out.push(self.entries[i].0.clone());
            assert(views(out@) =~= before.push(self.key_seq()[i as int]));
            assert(self.key_seq().take(i + 1) =~= self.key_seq().take(i as int).push(self.key_seq()[i as int]));
            i = i + 1;
        }
        assert(self.key_seq().take(self.entries@.len() as int) =~= self.key_seq());
        out
    }

    /// The name and tool at position `i` in name order.
    pub fn entry(&self, i: usize) -> (r: (&String, &Tool))
        requires
            self.wf(),
            i < self.key_seq().len(),
        ensures
            r.0@ == self.key_seq()[i as int],
            self.tools().contains_key(r.0@),
            *r.1 == self.tools()[r.0@],
    {
        proof {
            self.lemma_index_of(i as int);
        }
        (&self.entries[i].0, &self.entries[i].1)
    }

    /// Adds `tool` under `name`, replacing a tool of the same name.
    pub fn insert(&mut self, name: String, tool: Tool)
        requires
            old(self).wf(),
        ensures
            final(self).wf(),
            final(self).tools() == old(self).tools().insert(name@, tool),
    {
        let p = self.position(name.as_str());
        let ghost old_keys = self.key_seq();
        let ghost old_tools = self.tools();
        let ghost nv = name@;
        if p < self.entries.len() && str_eq(self.entries[p].0.as_str(), name.as_str()) {
            self.entries.set(p, (name, tool));
            proof {
                assert(self.key_seq() =~= old_keys);
                assert forall|k: Seq<char>| #[trigger] self.tools().contains_key(k) == old_tools.insert(nv, tool).contains_key(k) by {
                    if k == nv {
                        assert(old_keys[p as int] == nv);
                    }
                }
                assert forall|k: Seq<char>| self.tools().contains_key(k) implies #[trigger] self.tools()[k] == old_tools.insert(nv, tool)[k] by {
                    let j = choose|j: int| 0 <= j < self.key_seq().len() && self.key_seq()[j] == k;
                    assert(self.entries@[j].0@ == k);
                    self.lemma_index_of(j);
                    if k != nv {
                        assert(j != p);
                        (*old(self)).lemma_index_of(j);
                    }
                }
                assert(self.tools() =~= old_tools.insert(nv, tool));
            }
        } else {
            self.entries.insert(p, (name, tool));
            proof {
                assert(self.key_seq() =~= old_keys.insert(p as int, nv));
                if p < old_keys.len() {
                    lemma_lt_total(old_keys[p as int], nv);
                    assert(seq_lt(nv, old_keys[p as int]));
                }
                assert forall|a: int, b: int| 0 <= a < b < self.key_seq().len() implies seq_lt(
                    #[trigger] self.key_seq()[a],
                    #[trigger] self.key_seq()[b],
                ) by {
                    let s = self.key_seq();
                    if b < p {
                        assert(s[a] == old_keys[a] && s[b] == old_keys[b]);
                    } else if a > p {
                        assert(s[a] == old_keys[a - 1] && s[b] == old_keys[b - 1]);
                    } else if a == p {
                        assert(s[b] == old_keys[b - 1]);
                        if b - 1 > p {
                            lemma_lt_transitive(nv, old_keys[p as int], old_keys[b - 1]);
                        }
                    } else if b == p {
                        assert(s[a] == old_keys[a]);
                    } else {
                        assert(s[a] == old_keys[a] && s[b] == old_keys[b - 1]);
                    }
                }
                assert forall|k: Seq<char>| #[trigger] self.tools().contains_key(k) == old_tools.insert(nv, tool).contains_key(k) by {
                    if self.key_seq().contains(k) {
                        let j = choose|j: int| 0 <= j < self.key_seq().len() && self.key_seq()[j] == k;
                        if j < p {
                            assert(old_keys[j] == k);
                        } else if j > p {
                            assert(old_keys[j - 1] == k);
                        }
                    }
                    if old_keys.contains(k) {
                        let j = choose|j: int| 0 <= j < old_keys.len() && old_keys[j] == k;
                        if j < p {
                            assert(self.key_seq()[j] == k);
                        } else {
                            assert(self.key_seq()[j + 1] == k);
                        }
                    }
                    if k == nv {
                        assert(self.key_seq()[p as int] == nv);
                    }
                }
                assert forall|k: Seq<char>| self.tools().contains_key(k) implies #[trigger] self.tools()[k] == old_tools.insert(nv, tool)[k] by {
                    let j = choose|j: int| 0 <= j < self.key_seq().len() && self.key_seq()[j] == k;
                    assert(self.entries@[j].0@ == k);
                    self.lemma_index_of(j);
                    if j < p {
                        (*old(self)).lemma_index_of(j);
                        if k == nv {
                            lemma_lt_irreflexive(nv);
                        }
                    } else if j > p {
                        (*old(self)).lemma_index_of(j - 1);
                        if k == nv {
                            assert(seq_lt(nv, k));
                            lemma_lt_irreflexive(nv);
                        }
                    }
                }
                assert(self.tools() =~= old_tools.insert(nv, tool));
            }
        }
    }

    /// The names of all tools, in increasing order, separated by `, `.
    pub fn sorted_names_text(&self) -> (r: String)
        requires
            self.wf(),
        ensures
            r@ == seq_join(self.key_seq(), ", "@),
    {
        let names = self.names();
        join_strings(&names, ", ")
    }
}

// ---------------------------------------------------------------------------
// Laws
// ---------------------------------------------------------------------------

/// Reading back a registry entry: once a tool has been inserted under a
/// name (as `Registry::insert` leaves the registry), the name maps to that
/// tool and every other name keeps the tool it had, or stays absent.
pub proof fn lemma_insert_then_get(before: Registry, after: Registry, name: Seq<char>, tool: Tool, other: Seq<char>)
    requires
        before.wf(),
        after.wf(),
        after.tools() == before.tools().insert(name, tool),
    ensures
        after.tools().contains_key(name),
        after.tools()[name] == tool,
        other != name ==> after.tools().contains_key(other) == before.tools().contains_key(other),
        (other != name && before.tools().contains_key(other)) ==> after.tools()[other] == before.tools()[other],
        after.tools().len() == (if before.tools().contains_key(name) {
            before.tools().len()
        } else {
            before.tools().len() + 1
        }),
{
    before.lemma_keys();
}

/// A directory source with a list of file names links each name on its own:
/// one pair per name, the source `<root>/<dir>/<name>` and the destination
/// `<base>/<name>`.
pub proof fn lemma_expand_pairs(dir: String, files: Vec<String>, root: Seq<char>, base: Seq<char>, os: Os)
    ensures
        resolved_pairs((LinkSrc::Expand { dir, files }), root, base, os).len() == files@.len(),
        forall|i: int| 0 <= i < files@.len() ==> #[trigger] resolved_pairs((LinkSrc::Expand { dir, files }), root, base, os)[i]
            == (joined(joined(root, dir@, os), files@[i]@, os), joined(base, files@[i]@, os)),
{
}

} // verus!
