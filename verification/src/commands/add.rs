//! `add`: enable tools on this machine.

use vstd::prelude::*;
use crate::config::{Config, with_enabled_array};
use crate::error::{Error, ErrorView};
use crate::registry::Registry;
use crate::text::{owned, seq_join, views, is_sorted};
use crate::commands::util::sorted_keys;

verus! {

/// How enabling a list of tools splits it: those newly enabled and those
/// already enabled (counting tools enabled earlier in the same list), each
/// in list order.
pub open spec fn add_split(prev: Seq<Seq<char>>, tools: Seq<Seq<char>>) -> (Seq<Seq<char>>, Seq<Seq<char>>)
    decreases tools.len(),
{
    if tools.len() == 0 {
        (seq![], seq![])
    } else {
        let (a, s) = add_split(prev, tools.drop_last());
        let t = tools.last();
        if prev.contains(t) || a.contains(t) {
            (a, s.push(t))
        } else {
            (a.push(t), s)
        }
    }
}

/// The tools that `add` enabled and those it found enabled already.
pub struct AddOutcome {
    pub added: Vec<String>,
    pub skipped: Vec<String>,
}

/// Enables `tools` in `cfg` after checking that the registry declares each
/// of them.
///
/// When some tool is unknown, nothing changes and the error names the first
/// unknown tool and lists the registry's tools. Otherwise every tool ends
/// up enabled, and the outcome tells which were newly enabled.
pub fn plan_add(cfg: &mut Config, reg: &Registry, tools: &Vec<String>) -> (r: Result<AddOutcome, Error>)
    requires
        old(cfg).editable(),
        reg.wf(),
    ensures
        r is Err <==> exists|i: int| 0 <= i < tools@.len() && !reg.tools().contains_key(#[trigger] tools@[i]@),
        r is Err ==> (exists|i: int|
            0 <= i < tools@.len() && !reg.tools().contains_key(#[trigger] tools@[i]@) && (forall|j: int|
                0 <= j < i ==> reg.tools().contains_key(#[trigger] tools@[j]@)) && r->Err_0@ == (
            ErrorView::UnknownTool { name: tools@[i]@, available: seq_join(reg.key_seq(), ", "@) })),
        r is Err ==> *final(cfg) == *old(cfg),
        r is Ok ==> (views(r->Ok_0.added@), views(r->Ok_0.skipped@)) == add_split(
            old(cfg).enabled_spec(),
            views(tools@),
        ),
        r is Ok ==> forall|x: Seq<char>| #[trigger] final(cfg).enabled_spec().contains(x) <==> (old(cfg).enabled_spec().contains(x)
            || views(tools@).contains(x)),
        final(cfg).editable(),
        final(cfg).path_view() == old(cfg).path_view(),
        final(cfg).entries().remove("enabled"@) == old(cfg).entries().remove("enabled"@),
        old(cfg).enabled_spec().no_duplicates() ==> final(cfg).enabled_spec().no_duplicates(),
        (is_sorted(old(cfg).enabled_spec()) || (r is Ok && r->Ok_0.added@.len() > 0)) ==> is_sorted(
            final(cfg).enabled_spec(),
        ),
{
    let mut k: usize = 0;
    while k < tools.len()
        invariant
            k <= tools@.len(),
            reg.wf(),
            *cfg == *old(cfg),
            cfg.editable(),
            forall|j: int| 0 <= j < k ==> reg.tools().contains_key(#[trigger] tools@[j]@),
        decreases tools.len() - k,
    {
        if !reg.contains_key(tools[k].as_str()) {
            return Err(Error::UnknownTool { name: owned(tools[k].as_str()), available: sorted_keys(reg) });
        }
        k = k + 1;
    }
    let ghost prev = cfg.enabled_spec();
    let mut added: Vec<String> = Vec::new();
    let mut skipped: Vec<String> = Vec::new();
    let mut i: usize = 0;
    assert(views(tools@).take(0) =~= Seq::<Seq<char>>::empty());
    assert(views(added@) =~= Seq::<Seq<char>>::empty());
    assert(views(skipped@) =~= Seq::<Seq<char>>::empty());
    while i < tools.len()
        invariant
            i <= tools@.len(),
            cfg.editable(),
            cfg.path_view() == old(cfg).path_view(),
            cfg.entries().remove("enabled"@) == old(cfg).entries().remove("enabled"@),
            prev == old(cfg).enabled_spec(),
            prev.no_duplicates() ==> cfg.enabled_spec().no_duplicates(),
            (is_sorted(prev) || added@.len() > 0) ==> is_sorted(cfg.enabled_spec()),
            (views(added@), views(skipped@)) == add_split(prev, views(tools@).take(i as int)),
            forall|x: Seq<char>| #[trigger] cfg.enabled_spec().contains(x) <==> (prev.contains(x) || views(added@).contains(x)),
            forall|x: Seq<char>| #[trigger] cfg.enabled_spec().contains(x) <==> (prev.contains(x) || views(tools@).take(i as int).contains(x)),
        decreases tools.len() - i,
    {
        let t = tools[i].as_str();
        let ghost tv = t@;
        proof {
            assert(views(tools@).take(i + 1).drop_last() =~= views(tools@).take(i as int));
            assert(views(tools@).take(i + 1).last() == tv);
        }
        let ghost a0 = views(added@);
        let ghost s0 = views(skipped@);
        let ghost taken = views(tools@).take(i as int);
        let ghost e0 = cfg.entries();
        if cfg.enable(t) {
            added.push(owned(t));
            assert(views(added@) =~= a0.push(tv));
        } else {
            skipped.push(owned(t));
            assert(views(skipped@) =~= s0.push(tv));
            assert(with_enabled_array(e0).remove("enabled"@) =~= e0.remove("enabled"@));
        }
        proof {
            let next = views(tools@).take(i + 1);
            assert(next =~= taken.push(tv));
            assert forall|x: Seq<char>| #[trigger] views(added@).contains(x) <==> (a0.contains(x) || (views(added@).len() > a0.len() && x == tv)) by {
                if views(added@).len() > a0.len() {
                    if views(added@).contains(x) {
                        let m = choose|m: int| 0 <= m < views(added@).len() && views(added@)[m] == x;
                        if m < a0.len() {
                            assert(a0[m] == x);
                        }
                    }
                    if a0.contains(x) {
                        let m = choose|m: int| 0 <= m < a0.len() && a0[m] == x;
                        assert(views(added@)[m] == x);
                    }
                    if x == tv {
                        assert(views(added@)[a0.len() as int] == tv);
                    }
                }
            }
            assert forall|x: Seq<char>| #[trigger] next.contains(x) <==> (taken.contains(x) || x == tv) by {
                if next.contains(x) {
                    let m = choose|m: int| 0 <= m < next.len() && next[m] == x;
                    if m < taken.len() {
                        assert(taken[m] == x);
                    }
                }
                if taken.contains(x) {
                    let m = choose|m: int| 0 <= m < taken.len() && taken[m] == x;
                    assert(next[m] == x);
                }
                if x == tv {
                    assert(next[taken.len() as int] == tv);
                }
            }
        }
        i = i + 1;
    }
    assert(views(tools@).take(tools@.len() as int) =~= views(tools@));
    Ok(AddOutcome { added, skipped })
}

} // verus!
