//! The per-machine configuration (`config.toml`): the dotfiles root and the
//! list of enabled tools, edited in place so that comments and formatting
//! survive.

use vstd::prelude::*;
use toml_edit::DocumentMut;
use crate::error::{Error, ErrorView};
use crate::os::{Os, Env, expand, expanded, expand_outcome_view, env_lookup, ExpandError, ExpandErrorView};
use crate::text::{owned, str_eq, sort_strings, views, is_sorted};
use crate::toml_doc::{
    DocItem, document_entries, parsed_document, no_entries, array_at, str_at, parse_document,
    toml_error_text, new_document, render_document, document_text, document_get_str, document_contains_key,
    document_set_str, document_set_empty_array, document_array_len, document_array_get_str,
    document_array_push_str, document_array_remove, document_array_clear,
};

verus! {

/// The per-machine configuration: where it is stored and its document.
#[derive(Debug)]
pub struct Config {
    path: String,
    doc: DocumentMut,
}

/// The string items of an array, in order.
pub open spec fn string_items(items: Seq<Option<Seq<char>>>) -> Seq<Seq<char>> {
    items.filter_map(|x: Option<Seq<char>>| x)
}

/// Entries with an `enabled` array guaranteed: an empty one is added when
/// the key is absent.
pub open spec fn with_enabled_array(e: Map<Seq<char>, DocItem>) -> Map<Seq<char>, DocItem> {
    if e.contains_key("enabled"@) {
        e
    } else {
        e.insert("enabled"@, DocItem::Array(Seq::empty()))
    }
}

/// Whether `s` is `Some` of a string for each of `names`, in order.
pub open spec fn as_items(names: Seq<Seq<char>>) -> Seq<Option<Seq<char>>> {
    names.map_values(|n: Seq<char>| Some(n))
}

/// The entries of a freshly created configuration.
pub open spec fn created_entries(dotfiles_root: Seq<char>) -> Map<Seq<char>, DocItem> {
    no_entries().insert("dotfiles_root"@, DocItem::Str(dotfiles_root)).insert(
        "enabled"@,
        DocItem::Array(Seq::empty()),
    )
}

/// Where the configuration is kept: `$DOTFM_CONFIG` when set, otherwise
/// `$XDG_CONFIG_HOME/dotfm/config.toml` (with the fallbacks of expansion).
pub open spec fn default_path_spec(env: Seq<(Seq<char>, Seq<char>)>, os: Os) -> Result<Seq<char>, ExpandErrorView> {
    match env_lookup(env, "DOTFM_CONFIG"@) {
        Some(p) => Ok(p),
        None => expanded("$XDG_CONFIG_HOME/dotfm/config.toml"@, env, os),
    }
}

impl Config {
    /// Where the configuration is kept, given the environment `env` and the
    /// platform `os`.
    pub fn default_path(env: &Env, os: Os) -> (r: Result<String, ExpandError>)
        ensures
            expand_outcome_view(r) == default_path_spec(env@, os),
    {
        match env.var("DOTFM_CONFIG") {
            Some(p) => Ok(p),
            None => expand("$XDG_CONFIG_HOME/dotfm/config.toml", env, os),
        }
    }

    /// Where the configuration is stored.
    pub closed spec fn path_view(self) -> Seq<char> {
        self.path@
    }

    /// Where the configuration is stored.
    pub fn path(&self) -> (r: &str)
        ensures
            r@ == self.path_view(),
    {
        self.path.as_str()
    }

    /// The document's top-level entries.
    pub closed spec fn entries(self) -> Map<Seq<char>, DocItem> {
        document_entries(self.doc)
    }

    /// The recorded dotfiles root, when it is a string.
    pub open spec fn root_spec(self) -> Option<Seq<char>> {
        str_at(self.entries(), "dotfiles_root"@)
    }

    /// The items of the `enabled` array (empty when there is none).
    pub open spec fn enabled_items(self) -> Seq<Option<Seq<char>>> {
        match array_at(self.entries(), "enabled"@) {
            Some(items) => items,
            None => Seq::empty(),
        }
    }

    /// The enabled tools: the string items of the `enabled` array.
    pub open spec fn enabled_spec(self) -> Seq<Seq<char>> {
        string_items(self.enabled_items())
    }

    /// Whether `enabled` is absent or an array, so that it can be edited.
    pub open spec fn editable(self) -> bool {
        !self.entries().contains_key("enabled"@) || array_at(self.entries(), "enabled"@) is Some
    }

    /// Whether the `enabled` list can be edited: it is absent or an array.
    /// [`Config::enable`] and [`Config::disable`] need this.
    pub fn is_editable(&self) -> (r: bool)
        ensures
            r == self.editable(),
    {
        !document_contains_key(&self.doc, "enabled") || document_array_len(&self.doc, "enabled").is_some()
    }

    /// Loads a configuration stored at `path` whose file holds `contents`
    /// (`None` when there is no such file).
    ///
    /// Fails with `ConfigMissing` without a file and with `ConfigParse` when
    /// the text is not valid TOML; otherwise the document holds the entries
    /// that the text parses to.
    pub fn load(path: &str, contents: Option<&str>) -> (r: Result<Config, Error>)
        ensures
            contents is None ==> (r is Err && r->Err_0@ == (ErrorView::ConfigMissing { path: path@ })),
            contents is Some ==> (r is Ok <==> parsed_document(contents->0@) is Some),
            r is Ok ==> (r->Ok_0.path_view() == path@ && Some(r->Ok_0.entries()) == parsed_document(contents->0@)),
            (contents is Some && r is Err) ==> (r->Err_0@ is ConfigParse && r->Err_0@->ConfigParse_path == path@),
    {
        match contents {
            None => Err(Error::ConfigMissing { path: owned(path) }),
            Some(text) => match parse_document(text) {
                Ok(doc) => Ok(Config { path: owned(path), doc }),
                Err(e) => Err(Error::ConfigParse { path: owned(path), detail: toml_error_text(&e) }),
            },
        }
    }

    /// Creates the configuration for `path` recording `dotfiles_root` and an
    /// empty `enabled` list; `exists` tells whether a file is already there.
    /// An existing file is refused unless `force`.
    pub fn create(path: &str, dotfiles_root: &str, exists: bool, force: bool) -> (r: Result<Config, Error>)
        ensures
            (exists && !force) <==> (r is Err),
            r is Err ==> (r->Err_0@ == (ErrorView::ConfigExists { path: path@ })),
            r is Ok ==> (r->Ok_0.path_view() == path@ && r->Ok_0.entries() == created_entries(dotfiles_root@)),
    {
        if exists && !force {
            return Err(Error::ConfigExists { path: owned(path) });
        }
        let mut doc = new_document();
        document_set_str(&mut doc, "dotfiles_root", dotfiles_root);
        document_set_empty_array(&mut doc, "enabled");
        Ok(Config { path: owned(path), doc })
    }

    /// The text of the document, as `toml_edit` displays it.
    pub closed spec fn text(self) -> Seq<char> {
        document_text(self.doc)
    }

    /// The document's text, ready to be written to [`Config::path`].
    pub fn render(&self) -> (r: String)
        ensures
            r@ == self.text(),
            parsed_document(r@) == Some(self.entries()),
    {
        render_document(&self.doc)
    }

    /// The recorded dotfiles root, when it is set to a string.
    pub fn dotfiles_root(&self) -> (r: Option<String>)
        ensures
            match r {
                Some(s) => self.root_spec() == Some(s@),
                None => self.root_spec() is None,
            },
    {
        document_get_str(&self.doc, "dotfiles_root")
    }

    /// Records `path` as the dotfiles root.
    pub fn set_dotfiles_root(&mut self, path: &str)
        ensures
            final(self).path_view() == old(self).path_view(),
            final(self).entries() == old(self).entries().insert("dotfiles_root"@, DocItem::Str(path@)),
    {
        document_set_str(&mut self.doc, "dotfiles_root", path);
    }

    /// The enabled tools, in the order of the list; non-string items are
    /// skipped.
    pub fn enabled(&self) -> (r: Vec<String>)
        ensures
            views(r@) == self.enabled_spec(),
    {
        let mut out: Vec<String> = Vec::new();
        match document_array_len(&self.doc, "enabled") {
            None => {
                assert(views(out@) =~= string_items(Seq::empty()));
                out
            },
            Some(n) => {
                let ghost items = self.enabled_items();
                let mut i: usize = 0;
                assert(views(out@) =~= string_items(items.take(0)));
                while i < n
                    invariant
                        array_at(self.entries(), "enabled"@) == Some(items),
                        n == items.len(),
                        i <= n,
                        views(out@) == string_items(items.take(i as int)),
                    decreases n - i,
                {
                    let item = document_array_get_str(&self.doc, "enabled", i);
                    proof {
                        items.lemma_filter_map_take_succ(|x: Option<Seq<char>>| x, i as int);
                    }
                    match item {
                        Some(s) => {
                            let ghost before = views(out@);
                            out.push(s);
                            assert(views(out@) =~= before.push(items[i as int]->0));
                        },
                        None => {},
                    }
                    i = i + 1;
                }
                assert(items.take(n as int) =~= items);
                out
            },
        }
    }

    fn ensure_enabled_array(&mut self)
        requires
            old(self).editable(),
        ensures
            final(self).path_view() == old(self).path_view(),
            final(self).entries() == with_enabled_array(old(self).entries()),
            array_at(final(self).entries(), "enabled"@) is Some,
            final(self).enabled_items() == old(self).enabled_items(),
    {
        if !document_contains_key(&self.doc, "enabled") {
            document_set_empty_array(&mut self.doc, "enabled");
        }
    }

    fn enabled_contains(&self, tool: &str) -> (r: bool)
        requires
            array_at(self.entries(), "enabled"@) is Some,
        ensures
            r == self.enabled_items().contains(Some(tool@)),
    {
        let n = document_array_len(&self.doc, "enabled").unwrap();
        let ghost items = self.enabled_items();
        let mut i: usize = 0;
        while i < n
            invariant
                array_at(self.entries(), "enabled"@) == Some(items),
                n == items.len(),
                i <= n,
                forall|j: int| 0 <= j < i ==> items[j] != Some(tool@),
            decreases n - i,
        {
            match document_array_get_str(&self.doc, "enabled", i) {
                Some(s) => {
                    if str_eq(s.as_str(), tool) {
                        return true;
                    }
                },
                None => {},
            }
            i = i + 1;
        }
        false
    }

    /// Rewrites the `enabled` array as its string items in sorted order.
    fn sort_enabled(&mut self)
        requires
            array_at(old(self).entries(), "enabled"@) is Some,
        ensures
            final(self).path_view() == old(self).path_view(),
            array_at(final(self).entries(), "enabled"@) is Some,
            final(self).entries().remove("enabled"@) == old(self).entries().remove("enabled"@),
            final(self).enabled_items() == as_items(final(self).enabled_spec()),
            is_sorted(final(self).enabled_spec()),
            final(self).enabled_spec().to_multiset() == old(self).enabled_spec().to_multiset(),
    {
        let strings = self.enabled();
        let sorted = sort_strings(strings);
        let ghost mid = self.entries();
        let ghost p0 = self.path_view();
        document_array_clear(&mut self.doc, "enabled");
        let mut i: usize = 0;
        assert(as_items(views(sorted@).take(0)) =~= Seq::<Option<Seq<char>>>::empty());
        while i < sorted.len()
            invariant
                i <= sorted.len(),
                self.path_view() == p0,
                self.entries() == mid.insert("enabled"@, DocItem::Array(as_items(views(sorted@).take(i as int)))),
            decreases sorted.len() - i,
        {
            document_array_push_str(&mut self.doc, "enabled", sorted[i].as_str());
            assert(as_items(views(sorted@).take(i + 1)) =~= as_items(views(sorted@).take(i as int)).push(Some(sorted@[i as int]@)));
            i = i + 1;
            assert(self.entries() =~= mid.insert("enabled"@, DocItem::Array(as_items(views(sorted@).take(i as int)))));
        }
        proof {
            let items = as_items(views(sorted@));
            assert(views(sorted@).take(sorted@.len() as int) =~= views(sorted@));
            assert(self.enabled_items() == items);
            lemma_string_items_of_all_some(views(sorted@));
            assert(self.entries().remove("enabled"@) =~= mid.remove("enabled"@));
        }
    }

    /// Adds `tool` to the enabled list and keeps the list sorted; returns
    /// whether it was newly added. Adding a tool already listed changes
    /// nothing (beyond creating an empty list when there was none).
    pub fn enable(&mut self, tool: &str) -> (r: bool)
        requires
            old(self).editable(),
        ensures
            r == !old(self).enabled_spec().contains(tool@),
            final(self).path_view() == old(self).path_view(),
            !r ==> final(self).entries() == with_enabled_array(old(self).entries()),
            r ==> final(self).entries().remove("enabled"@) == old(self).entries().remove("enabled"@),
            r ==> final(self).enabled_items() == as_items(final(self).enabled_spec()),
            r ==> is_sorted(final(self).enabled_spec()),
            r ==> final(self).enabled_spec().to_multiset() == old(self).enabled_spec().push(tool@).to_multiset(),
            array_at(final(self).entries(), "enabled"@) is Some,
            !r ==> final(self).enabled_spec() == old(self).enabled_spec(),
            old(self).enabled_spec().no_duplicates() ==> final(self).enabled_spec().no_duplicates(),
            enable_post(*old(self), *final(self), tool@, r),
    {
        self.ensure_enabled_array();
        let ghost items0 = self.enabled_items();
        proof {
            lemma_string_items_contains(items0, tool@);
        }
        if self.enabled_contains(tool) {
            assert(self.enabled_spec() == old(self).enabled_spec());
            return false;
        }
        let ghost list0 = string_items(items0);
        let ghost before = self.entries();
        document_array_push_str(&mut self.doc, "enabled", tool);
        proof {
            lemma_string_items_push(items0, tool@);
            assert(self.enabled_items() == items0.push(Some(tool@)));
        }
        let ghost pushed = self.entries();
        self.sort_enabled();
        proof {
            assert(pushed.remove("enabled"@) =~= before.remove("enabled"@));
            assert(before.remove("enabled"@) =~= old(self).entries().remove("enabled"@));
            broadcast use vstd::seq_lib::group_to_multiset_ensures;
            let fin = self.enabled_spec();
            assert forall|x: Seq<char>| #[trigger] list0.push(tool@).contains(x) implies fin.contains(x) by {
                assert(list0.push(tool@).to_multiset().count(x) > 0);
                assert(fin.to_multiset().count(x) > 0);
            }
            assert(list0.push(tool@).contains(tool@)) by {
                assert(list0.push(tool@)[list0.len() as int] == tool@);
            }
            assert forall|x: Seq<char>| #[trigger] list0.contains(x) implies fin.contains(x) by {
                let k = choose|k: int| 0 <= k < list0.len() && list0[k] == x;
                assert(list0.push(tool@)[k] == x);
                assert(list0.push(tool@).contains(x));
            }
            if list0.no_duplicates() {
                let pushed_list = list0.push(tool@);
                assert(pushed_list.no_duplicates()) by {
                    assert forall|a: int, b: int| 0 <= a < pushed_list.len() && 0 <= b < pushed_list.len() && a != b
                        implies pushed_list[a] != pushed_list[b] by {
                        if a < list0.len() && b < list0.len() {
                            assert(pushed_list[a] == list0[a] && pushed_list[b] == list0[b]);
                        } else if a < list0.len() {
                            assert(pushed_list[a] == list0[a]);
                            assert(list0.contains(list0[a]));
                        } else {
                            assert(pushed_list[b] == list0[b]);
                            assert(list0.contains(list0[b]));
                        }
                    }
                }
                pushed_list.lemma_multiset_has_no_duplicates();
                assert forall|x: Seq<char>| fin.to_multiset().contains(x) implies fin.to_multiset().count(x) == 1 by {
                    assert(pushed_list.to_multiset().contains(x));
                }
                fin.lemma_multiset_has_no_duplicates_conv();
            }
            assert forall|x: Seq<char>| #[trigger] fin.contains(x) implies (list0.contains(x) || x == tool@) by {
                assert(fin.to_multiset().count(x) > 0);
                assert(list0.push(tool@).to_multiset().count(x) > 0);
                let k = choose|k: int| 0 <= k < list0.push(tool@).len() && list0.push(tool@)[k] == x;
                if k < list0.len() {
                    assert(list0[k] == x);
                }
            }
        }
        true
    }

    /// Removes every occurrence of `tool` from the enabled list; returns
    /// whether there was one.
    pub fn disable(&mut self, tool: &str) -> (r: bool)
        requires
            old(self).editable(),
        ensures
            r == old(self).enabled_spec().contains(tool@),
            final(self).path_view() == old(self).path_view(),
            final(self).entries() == with_enabled_array(old(self).entries()).insert(
                "enabled"@,
                DocItem::Array(old(self).enabled_items().filter(|x: Option<Seq<char>>| x != Some(tool@))),
            ),
            disable_post(*old(self), *final(self), tool@, r),
    {
        self.ensure_enabled_array();
        let ghost orig = self.enabled_items();
        let ghost base = self.entries();
        let ghost keep = |x: Option<Seq<char>>| x != Some(tool@);
        proof {
            lemma_string_items_contains(orig, tool@);
        }
        let mut removed = false;
        let mut i: usize = 0;
        let ghost mut j: int = 0;
        let mut n = document_array_len(&self.doc, "enabled").unwrap();
        proof {
            assert(orig.take(0).filter(keep) =~= Seq::<Option<Seq<char>>>::empty());
            assert(orig.skip(0) =~= orig);
            assert(self.enabled_items() =~= orig.take(0).filter(keep) + orig.skip(0));
        }
        while i < n
            invariant
                0 <= j <= orig.len(),
                self.path_view() == old(self).path_view(),
                keep == (|x: Option<Seq<char>>| x != Some(tool@)),
                array_at(self.entries(), "enabled"@) is Some,
                self.entries() == base.insert("enabled"@, DocItem::Array(self.enabled_items())),
                self.enabled_items() == orig.take(j).filter(keep) + orig.skip(j),
                i == orig.take(j).filter(keep).len(),
                n == self.enabled_items().len(),
                removed == orig.take(j).contains(Some(tool@)),
                base.contains_key("enabled"@),
            decreases n - i,
        {
            let ghost cur = self.enabled_items();
            let ghost done = orig.take(j).filter(keep);
            assert(cur[i as int] == orig[j]);
            proof {
                assert(orig.take(j + 1) =~= orig.take(j).push(orig[j]));
                orig.take(j).lemma_filter_push(orig[j], keep);
                assert(orig.skip(j).drop_first() =~= orig.skip(j + 1));
            }
            let item = document_array_get_str(&self.doc, "enabled", i);
            let hit = match item {
                Some(s) => str_eq(s.as_str(), tool),
                None => false,
            };
            if hit {
                document_array_remove(&mut self.doc, "enabled", i);
                removed = true;
                n = n - 1;
                proof {
                    assert(orig[j] == Some(tool@));
                    assert(self.enabled_items() =~= cur.remove(i as int));
                    assert(cur.remove(i as int) =~= orig.take(j + 1).filter(keep) + orig.skip(j + 1));
                    assert(orig.take(j + 1).contains(Some(tool@))) by {
                        assert(orig.take(j + 1)[j] == Some(tool@));
                    }
                }
            } else {
                i = i + 1;
                proof {
                    assert(orig[j] != Some(tool@));
                    assert(cur =~= orig.take(j + 1).filter(keep) + orig.skip(j + 1));
                    if orig.take(j + 1).contains(Some(tool@)) {
                        let k = choose|k: int| 0 <= k < j + 1 && #[trigger] orig.take(j + 1)[k] == Some(tool@);
                        assert(orig.take(j)[k] == Some(tool@));
                    }
                }
            }
            proof {
                j = j + 1;
            }
            assert(self.entries() =~= base.insert("enabled"@, DocItem::Array(self.enabled_items())));
        }
        proof {
            assert(j == orig.len()) by {
                if j < orig.len() {
                    assert(self.enabled_items().len() > i);
                }
            }
            assert(orig.take(j) =~= orig);
            assert(orig.skip(j) =~= Seq::<Option<Seq<char>>>::empty());
            assert(self.enabled_items() =~= orig.filter(keep));
            assert(self.entries() =~= base.insert("enabled"@, DocItem::Array(orig.filter(keep))));
            lemma_filter_out_contains(orig, tool@, tool@);
            lemma_string_items_contains(orig.filter(keep), tool@);
            assert(array_at(self.entries(), "enabled"@) is Some);
            assert forall|x: Seq<char>| #[trigger] self.enabled_spec().contains(x) <==> (old(self).enabled_spec().contains(x) && x != tool@) by {
                lemma_filter_out_contains(orig, tool@, x);
                lemma_string_items_contains(orig.filter(keep), x);
                lemma_string_items_contains(orig, x);
            }
        }
        removed
    }
}

/// What enabling `tool` does to the list of enabled tools: `r` tells
/// whether it was missing, and afterwards exactly the earlier tools and
/// `tool` are listed; the list stays editable.
pub open spec fn enable_post(before: Config, after: Config, tool: Seq<char>, r: bool) -> bool {
    &&& r == !before.enabled_spec().contains(tool)
    &&& forall|x: Seq<char>| #[trigger] after.enabled_spec().contains(x) <==> (before.enabled_spec().contains(x) || x == tool)
    &&& after.editable()
}

/// What disabling `tool` does to the list of enabled tools: `r` tells
/// whether it was listed, and afterwards exactly the earlier tools other
/// than `tool` are listed; the list stays editable.
pub open spec fn disable_post(before: Config, after: Config, tool: Seq<char>, r: bool) -> bool {
    &&& r == before.enabled_spec().contains(tool)
    &&& forall|x: Seq<char>| #[trigger] after.enabled_spec().contains(x) <==> (before.enabled_spec().contains(x) && x != tool)
    &&& after.editable()
}

/// Enabling is idempotent: enabling a tool a second time reports that it
/// was already enabled and lists the same tools.
pub proof fn lemma_enable_twice(c0: Config, c1: Config, c2: Config, tool: Seq<char>, r1: bool, r2: bool)
    requires
        enable_post(c0, c1, tool, r1),
        enable_post(c1, c2, tool, r2),
    ensures
        !r2,
        forall|x: Seq<char>| #[trigger] c2.enabled_spec().contains(x) <==> c1.enabled_spec().contains(x),
{
    assert(c1.enabled_spec().contains(tool));
}

/// Disabling undoes enabling: after enabling and then disabling a tool, the
/// disable reports it was listed, and the listed tools are the earlier ones
/// without it (so exactly the earlier ones when it was not listed before).
pub proof fn lemma_disable_undoes_enable(c0: Config, c1: Config, c2: Config, tool: Seq<char>, r1: bool, r2: bool)
    requires
        enable_post(c0, c1, tool, r1),
        disable_post(c1, c2, tool, r2),
    ensures
        r2,
        forall|x: Seq<char>| #[trigger] c2.enabled_spec().contains(x) <==> (c0.enabled_spec().contains(x) && x != tool),
        r1 ==> forall|x: Seq<char>| #[trigger] c2.enabled_spec().contains(x) <==> c0.enabled_spec().contains(x),
{
    assert(c1.enabled_spec().contains(tool));
}

/// Saving then loading gives back the same configuration: when `loaded` is
/// what [`Config::load`] made of the text that [`Config::render`] gave for
/// `saved` (the two conditions below are those functions' clauses), it has
/// the same entries, hence the same enabled tools and dotfiles root, and it
/// can be edited exactly when `saved` could.
pub proof fn lemma_render_then_load(saved: Config, loaded: Config, text: Seq<char>)
    requires
        parsed_document(text) == Some(saved.entries()),
        Some(loaded.entries()) == parsed_document(text),
    ensures
        loaded.entries() == saved.entries(),
        loaded.enabled_spec() == saved.enabled_spec(),
        loaded.root_spec() == saved.root_spec(),
        loaded.editable() == saved.editable(),
{
}

/// The string items of an array of `Some` strings are those strings.
proof fn lemma_string_items_of_all_some(names: Seq<Seq<char>>)
    ensures
        string_items(as_items(names)) == names,
    decreases names.len(),
{
    if names.len() > 0 {
        let init = names.drop_last();
        lemma_string_items_of_all_some(init);
        assert(as_items(names) =~= as_items(init).push(Some(names.last())));
        lemma_string_items_push(as_items(init), names.last());
        assert(names =~= init.push(names.last()));
    } else {
        assert(as_items(names) =~= Seq::<Option<Seq<char>>>::empty());
        assert(string_items(Seq::<Option<Seq<char>>>::empty()) =~= Seq::<Seq<char>>::empty());
    }
}

proof fn lemma_string_items_push(items: Seq<Option<Seq<char>>>, s: Seq<char>)
    ensures
        string_items(items.push(Some(s))) == string_items(items).push(s),
{
    let f = |x: Option<Seq<char>>| x;
    items.push(Some(s)).lemma_filter_map_take_succ(f, items.len() as int);
    assert(items.push(Some(s)).take(items.len() as int) =~= items);
    assert(items.push(Some(s)).take(items.len() + 1int) =~= items.push(Some(s)));
}

proof fn lemma_filter_out_contains(items: Seq<Option<Seq<char>>>, t: Seq<char>, x: Seq<char>)
    ensures
        items.filter(|y: Option<Seq<char>>| y != Some(t)).contains(Some(x)) == (x != t && items.contains(Some(x))),
{
    let keep = |y: Option<Seq<char>>| y != Some(t);
    if items.filter(keep).contains(Some(x)) {
        items.lemma_filter_contains_rev(keep, Some(x));
    }
    if x != t && items.contains(Some(x)) {
        let k = choose|k: int| 0 <= k < items.len() && #[trigger] items[k] == Some(x);
        items.lemma_filter_contains(keep, k);
    }
}

proof fn lemma_string_items_contains(items: Seq<Option<Seq<char>>>, s: Seq<char>)
    ensures
        string_items(items).contains(s) == items.contains(Some(s)),
    decreases items.len(),
{
    if items.len() > 0 {
        let rest = items.drop_last();
        let last = items.last();
        lemma_string_items_contains(rest, s);
        let a = string_items(rest);
        let all = string_items(items);
        if items.contains(Some(s)) {
            let k = choose|k: int| 0 <= k < items.len() && #[trigger] items[k] == Some(s);
            if k == items.len() - 1 {
                assert(all == a + seq![s]);
                assert(all[a.len() as int] == s);
            } else {
                assert(rest[k] == Some(s));
                let m = choose|m: int| 0 <= m < a.len() && #[trigger] a[m] == s;
                match last {
                    Some(v) => {
                        assert(all == a + seq![v]);
                        assert(all[m] == s);
                    },
                    None => {
                        assert(all == a);
                    },
                }
            }
        }
        if all.contains(s) {
            let m = choose|m: int| 0 <= m < all.len() && #[trigger] all[m] == s;
            match last {
                Some(v) => {
                    assert(all == a + seq![v]);
                    if m < a.len() {
                        assert(a[m] == s);
                        let k = choose|k: int| 0 <= k < rest.len() && #[trigger] rest[k] == Some(s);
                        assert(items[k] == Some(s));
                    } else {
                        assert(items[items.len() - 1] == Some(s));
                    }
                },
                None => {
                    assert(all == a);
                    let k = choose|k: int| 0 <= k < rest.len() && #[trigger] rest[k] == Some(s);
                    assert(items[k] == Some(s));
                },
            }
        }
    }
}

} // verus!
