//! Paths as strings: joining, absolutizing, backup names and component-wise
//! prefix tests.
//!
//! Paths are held as strings and read by the rules of `std::path` on the
//! platform given as an [`Os`]: on Linux only `/` separates components and
//! a leading `/` makes a path absolute; on Windows `/` and `\` both
//! separate, a path is absolute when a drive prefix (`C:`) is followed by a
//! separator, and new separators are written as `\`. Other Windows prefixes
//! (`\\server\share`, `\\?\`) are not read as prefixes.

use vstd::prelude::*;
use crate::text::{chars_of, string_of, owned, concat2, concat3};
use crate::os::Os;

verus! {

/// Whether `c` separates path components on `os`: `/` everywhere, and `\`
/// on Windows as well.
pub open spec fn is_sep(c: char, os: Os) -> bool {
    c == '/' || (os == Os::Windows && c == '\\')
}

/// The separator `os` writes between components.
pub open spec fn main_sep(os: Os) -> char {
    match os {
        Os::Windows => '\\',
        Os::Linux => '/',
    }
}

/// Whether `c` separates path components on `os`.
pub fn is_sep_char(c: char, os: Os) -> (r: bool)
    ensures
        r == is_sep(c, os),
{
    c == '/' || (os == Os::Windows && c == '\\')
}

/// Whether `p` begins with a drive prefix (`C:`); only Windows has them.
pub open spec fn has_drive(p: Seq<char>, os: Os) -> bool {
    &&& os == Os::Windows
    &&& p.len() >= 2
    &&& p[1] == ':'
    &&& (('a' <= p[0] && p[0] <= 'z') || ('A' <= p[0] && p[0] <= 'Z'))
}

/// The drive prefix of `p` (empty when it has none).
pub open spec fn drive_of(p: Seq<char>, os: Os) -> Seq<char> {
    if has_drive(p, os) {
        p.take(2)
    } else {
        seq![]
    }
}

/// Whether `p` is absolute, as `Path::is_absolute` tells: on Linux it
/// starts with `/`; on Windows it has a drive prefix followed by a
/// separator (`C:\x`).
pub open spec fn is_absolute(p: Seq<char>, os: Os) -> bool {
    match os {
        Os::Linux => p.len() > 0 && p[0] == '/',
        Os::Windows => has_drive(p, os) && p.len() >= 3 && is_sep(p[2], os),
    }
}

/// `base` joined with `p` on `os`, as `Path::join` does: a `p` with a drive
/// prefix, or (on Linux) a rooted `p`, replaces `base`; on Windows a rooted
/// `p` without a prefix keeps `base`'s drive; otherwise `p` follows `base`,
/// with a separator between them unless `base` is empty, ends with a
/// separator or is a bare drive prefix.
pub open spec fn joined(base: Seq<char>, p: Seq<char>, os: Os) -> Seq<char> {
    if has_drive(p, os) || (os == Os::Linux && is_rooted(p, os)) {
        p
    } else if is_rooted(p, os) {
        drive_of(base, os) + p
    } else if base.len() == 0 || is_sep(base.last(), os) || (has_drive(base, os) && base.len() == 2) {
        base + p
    } else {
        base + seq![main_sep(os)] + p
    }
}

fn is_drive_letter(c: char) -> (r: bool)
    ensures
        r == (('a' <= c && c <= 'z') || ('A' <= c && c <= 'Z')),
{
    ('a' <= c && c <= 'z') || ('A' <= c && c <= 'Z')
}

fn drive_prefix(v: &Vec<char>, os: Os) -> (r: bool)
    ensures
        r == has_drive(v@, os),
{
    os == Os::Windows && v.len() >= 2 && v[1] == ':' && is_drive_letter(v[0])
}

/// Whether the path string `p` is absolute on `os`.
pub fn path_is_absolute(p: &str, os: Os) -> (r: bool)
    ensures
        r == is_absolute(p@, os),
{
    let v = chars_of(p);
    match os {
        Os::Linux => v.len() > 0 && v[0] == '/',
        Os::Windows => drive_prefix(&v, os) && v.len() >= 3 && is_sep_char(v[2], os),
    }
}

/// Joins `p` onto `base` on `os`, as `Path::join` does.
pub fn join(base: &str, p: &str, os: Os) -> (r: String)
    ensures
        r@ == joined(base@, p@, os),
{
    let pv = chars_of(p);
    let b = chars_of(base);
    let p_rooted = pv.len() > 0 && is_sep_char(pv[0], os);
    if drive_prefix(&pv, os) || (os == Os::Linux && p_rooted) {
        return owned(p);
    }
    if p_rooted {
        let mut out: Vec<char> = Vec::new();
        if drive_prefix(&b, os) {
            out.push(b[0]);
            out.push(b[1]);
            assert(out@ =~= b@.take(2));
        } else {
            assert(out@ =~= Seq::<char>::empty());
        }
        let mut i: usize = 0;
        let ghost start = out@;
        while i < pv.len()
            invariant
                i <= pv.len(),
                out@ == start + pv@.take(i as int),
            decreases pv.len() - i,
        {
            out.push(pv[i]);
            i = i + 1;
            assert(out@ =~= start + pv@.take(i as int));
        }
        assert(pv@.take(pv@.len() as int) =~= pv@);
        return string_of(&out);
    }
    if b.len() == 0 || is_sep_char(b[b.len() - 1], os) || (drive_prefix(&b, os) && b.len() == 2) {
        concat2(base, p)
    } else {
        let sep = match os {
            Os::Windows => "\\",
            Os::Linux => "/",
        };
        let r = concat3(base, sep, p);
        proof {
            reveal_strlit("/");
            reveal_strlit("\\");
            assert(r@ =~= joined(base@, p@, os));
        }
        r
    }
}

/// `p` made absolute against the working directory `cwd`, on `os`.
pub open spec fn absolutized(p: Seq<char>, cwd: Seq<char>, os: Os) -> Seq<char> {
    if is_absolute(p, os) {
        p
    } else {
        joined(cwd, p, os)
    }
}

/// Makes `p` absolute on `os`: an absolute path is kept, a relative one is
/// joined onto `cwd`.
pub fn absolutize(p: &str, cwd: &str, os: Os) -> (r: String)
    ensures
        r@ == absolutized(p@, cwd@, os),
{
    if path_is_absolute(p, os) {
        owned(p)
    } else {
        join(cwd, p, os)
    }
}

/// The name that a replaced destination is moved to: the path with `.bak`
/// appended.
pub fn backup_path(dst: &str) -> (r: String)
    ensures
        r@ == dst@ + ".bak"@,
{
    concat2(dst, ".bak")
}

/// The text of `p` before its last separator (empty when it has none).
pub open spec fn before_last_sep(p: Seq<char>, os: Os) -> Seq<char>
    decreases p.len(),
{
    if p.len() == 0 {
        seq![]
    } else if is_sep(p.last(), os) {
        p.drop_last()
    } else {
        before_last_sep(p.drop_last(), os)
    }
}

/// The length of `p`'s root: a drive prefix with the separator after it,
/// a bare drive prefix, or a leading separator (none when `p` is relative).
pub open spec fn root_len(p: Seq<char>, os: Os) -> int {
    if has_drive(p, os) {
        if p.len() > 2 && is_sep(p[2], os) {
            3
        } else {
            2
        }
    } else if is_rooted(p, os) {
        1
    } else {
        0
    }
}

/// The directory that holds `p`: the text before its last separator, but
/// never less than `p`'s root.
pub open spec fn parent_dir(p: Seq<char>, os: Os) -> Seq<char> {
    let d = before_last_sep(p, os);
    if d.len() < root_len(p, os) {
        p.take(root_len(p, os))
    } else {
        d
    }
}

/// Where a symlink at `dst` that stores `target` points: `target` joined
/// onto the directory holding `dst` (so an absolute target stands as it is).
pub open spec fn link_location(dst: Seq<char>, target: Seq<char>, os: Os) -> Seq<char> {
    joined(parent_dir(dst, os), target, os)
}

fn take_chars(v: &Vec<char>, n: usize) -> (r: Vec<char>)
    requires
        n <= v.len(),
    ensures
        r@ == v@.take(n as int),
{
    let mut out: Vec<char> = Vec::new();
    let mut k: usize = 0;
    while k < n
        invariant
            n <= v.len(),
            k <= n,
            out@ == v@.take(k as int),
        decreases n - k,
    {
        out.push(v[k]);
        k = k + 1;
        assert(out@ =~= v@.take(k as int));
    }
    out
}

/// The directory that holds `p`.
pub fn parent_of(p: &str, os: Os) -> (r: String)
    ensures
        r@ == parent_dir(p@, os),
{
    let v = chars_of(p);
    let mut j: usize = v.len();
    assert(v@.take(v@.len() as int) =~= v@);
    while j > 0 && !is_sep_char(v[j - 1], os)
        invariant
            v@ == p@,
            j <= v.len(),
            before_last_sep(p@, os) == before_last_sep(v@.take(j as int), os),
        decreases j,
    {
        proof {
            assert(v@.take(j as int).drop_last() =~= v@.take(j - 1));
            assert(v@.take(j as int).last() == v@[j - 1]);
        }
        j = j - 1;
    }
    let d = if j > 0 {
        proof {
            assert(v@.take(j as int).drop_last() =~= v@.take(j - 1));
            assert(v@.take(j as int).last() == v@[j - 1]);
            assert(v@.take(j - 1) =~= v@.take(j as int).drop_last());
        }
        take_chars(&v, j - 1)
    } else {
        assert(v@.take(0) =~= Seq::<char>::empty());
        Vec::new()
    };
    let rl: usize = if drive_prefix(&v, os) {
        if v.len() > 2 && is_sep_char(v[2], os) {
            3
        } else {
            2
        }
    } else if v.len() > 0 && is_sep_char(v[0], os) {
        1
    } else {
        0
    };
    if d.len() < rl {
        let out = take_chars(&v, rl);
        string_of(&out)
    } else {
        string_of(&d)
    }
}

/// Where a symlink at `dst` storing `target` points.
pub fn link_location_of(dst: &str, target: &str, os: Os) -> (r: String)
    ensures
        r@ == link_location(dst@, target@, os),
{
    let dir = parent_of(dst, os);
    join(dir.as_str(), target, os)
}

// ---------------------------------------------------------------------------
// Components
// ---------------------------------------------------------------------------

/// The pieces of `p` between separators; `n` separators give `n + 1` pieces.
pub open spec fn segments(p: Seq<char>, os: Os) -> Seq<Seq<char>>
    decreases p.len(),
{
    if p.len() == 0 {
        seq![Seq::<char>::empty()]
    } else {
        let rest = segments(p.drop_last(), os);
        if is_sep(p.last(), os) {
            rest.push(Seq::<char>::empty())
        } else {
            rest.update(rest.len() - 1, rest.last().push(p.last()))
        }
    }
}

/// Whether a piece names a component: it is neither empty nor `.`.
pub open spec fn is_component(s: Seq<char>) -> bool {
    s.len() > 0 && s != seq!['.']
}

/// The pieces of `p` that name something: neither empty nor `.`.
pub open spec fn normal_components(p: Seq<char>, os: Os) -> Seq<Seq<char>> {
    segments(p, os).filter(|s: Seq<char>| is_component(s))
}

/// Whether `p` begins with the piece `.`, which `std::path` keeps as a
/// component (every later `.` is dropped).
pub open spec fn leading_dot(p: Seq<char>, os: Os) -> bool {
    p.len() > 0 && p[0] == '.' && (p.len() == 1 || is_sep(p[1], os))
}

/// The components of `p`, as `Path::components` lists them after the root:
/// a leading `.`, then the pieces that are neither empty nor `.`.
pub open spec fn components(p: Seq<char>, os: Os) -> Seq<Seq<char>> {
    if leading_dot(p, os) {
        seq![seq!['.']] + normal_components(p, os)
    } else {
        normal_components(p, os)
    }
}

/// Whether `p` starts at a root.
pub open spec fn is_rooted(p: Seq<char>, os: Os) -> bool {
    p.len() > 0 && is_sep(p[0], os)
}

/// Whether `base` is a component-wise prefix of `path` (as
/// `Path::starts_with` compares): both rooted or both not, and the
/// components of `base` begin the components of `path`.
pub open spec fn path_starts_with_spec(path: Seq<char>, base: Seq<char>, os: Os) -> bool {
    &&& is_rooted(path, os) == is_rooted(base, os)
    &&& components(base, os).is_prefix_of(components(path, os))
}

/// The components of `p`, as character vectors.
fn components_of(p: &str, os: Os) -> (r: Vec<Vec<char>>)
    ensures
        r@.map_values(|c: Vec<char>| c@) == components(p@, os),
{
    let mut out = normal_components_of(p, os);
    let v = chars_of(p);
    if v.len() > 0 && v[0] == '.' && (v.len() == 1 || is_sep_char(v[1], os)) {
        let ghost before = out@.map_values(|c: Vec<char>| c@);
        let mut dot: Vec<char> = Vec::new();
        dot.push('.');
        out.insert(0, dot);
        assert(out@.map_values(|c: Vec<char>| c@) =~= seq![seq!['.']] + before);
    }
    out
}

/// The pieces of `p` that name something, as character vectors.
fn normal_components_of(p: &str, os: Os) -> (r: Vec<Vec<char>>)
    ensures
        r@.map_values(|c: Vec<char>| c@) == normal_components(p@, os),
{
    let v = chars_of(p);
    let mut done: Vec<Vec<char>> = Vec::new();
    let mut cur: Vec<char> = Vec::new();
    let mut i: usize = 0;
    let ghost keep = |s: Seq<char>| is_component(s);
    assert(v@.take(0) =~= Seq::<char>::empty());
    proof {
        assert(segments(Seq::<char>::empty(), os).drop_last() =~= Seq::<Seq<char>>::empty());
        assert(done@.map_values(|c: Vec<char>| c@) =~= Seq::<Seq<char>>::empty().filter(keep));
    }
    while i < v.len()
        invariant
            v@ == p@,
            i <= v.len(),
            keep == (|s: Seq<char>| is_component(s)),
            segments(v@.take(i as int), os).len() >= 1,
            done@.map_values(|c: Vec<char>| c@) == segments(v@.take(i as int), os).drop_last().filter(keep),
            cur@ == segments(v@.take(i as int), os).last(),
        decreases v.len() - i,
    {
        let c = v[i];
        let ghost before = segments(v@.take(i as int), os);
        proof {
            assert(v@.take(i + 1).drop_last() =~= v@.take(i as int));
            assert(v@.take(i + 1).last() == c);
        }
        if is_sep_char(c, os) {
            let ghost kept = is_component(cur@);
            let ghost cv = cur@;
            let is_dot = cur.len() == 1 && cur[0] == '.';
            if cur.len() > 0 && !is_dot {
                proof {
                    assert(cv != seq!['.']) by {
                        if cv == seq!['.'] {
                            assert(cv.len() == 1 && cv[0] == '.');
                        }
                    }
                }
                done.push(cur);
            } else {
                proof {
                    if cv.len() > 0 {
                        assert(cv =~= seq!['.']);
                    }
                }
            }
            cur = Vec::new();
            proof {
                let after = segments(v@.take(i + 1), os);
                assert(after == before.push(Seq::<char>::empty()));
                assert(after.drop_last() =~= before);
                assert(before =~= before.drop_last().push(cv));
                before.drop_last().lemma_filter_push(cv, keep);
            }
        } else {
            cur.push(c);
            proof {
                let after = segments(v@.take(i + 1), os);
                assert(after == before.update(before.len() - 1, before.last().push(c)));
                assert(after.drop_last() =~= before.drop_last());
            }
        }
        i = i + 1;
    }
    // Account for the final piece.
    let ghost all = segments(v@.take(i as int), os);
    assert(v@.take(i as int) =~= p@);
    let ghost cv = cur@;
    let is_dot = cur.len() == 1 && cur[0] == '.';
    if cur.len() > 0 && !is_dot {
        proof {
            assert(cv != seq!['.']) by {
                if cv == seq!['.'] {
                    assert(cv.len() == 1 && cv[0] == '.');
                }
            }
        }
        done.push(cur);
    } else {
        proof {
            if cv.len() > 0 {
                assert(cv =~= seq!['.']);
            }
        }
    }
    proof {
        assert(all =~= all.drop_last().push(cv));
        all.drop_last().lemma_filter_push(cv, keep);
    }
    done
}

fn chars_equal(a: &Vec<char>, b: &Vec<char>) -> (r: bool)
    ensures
        r == (a@ == b@),
{
    if a.len() != b.len() {
        return false;
    }
    let mut i: usize = 0;
    while i < a.len()
        invariant
            a.len() == b.len(),
            i <= a.len(),
            forall|j: int| 0 <= j < i ==> a@[j] == b@[j],
        decreases a.len() - i,
    {
        if a[i] != b[i] {
            return false;
        }
        i = i + 1;
    }
    assert(a@ =~= b@);
    true
}

/// Whether the path `path` lies under `base`, comparing whole components.
pub fn path_starts_with(path: &str, base: &str, os: Os) -> (r: bool)
    ensures
        r == path_starts_with_spec(path@, base@, os),
{
    let pv = chars_of(path);
    let bv = chars_of(base);
    let p_rooted = pv.len() > 0 && is_sep_char(pv[0], os);
    let b_rooted = bv.len() > 0 && is_sep_char(bv[0], os);
    if p_rooted != b_rooted {
        return false;
    }
    let pc = components_of(path, os);
    let bc = components_of(base, os);
    let ghost ps = pc@.map_values(|c: Vec<char>| c@);
    let ghost bs = bc@.map_values(|c: Vec<char>| c@);
    if bc.len() > pc.len() {
        assert(bs.len() > ps.len());
        return false;
    }
    let mut i: usize = 0;
    while i < bc.len()
        invariant
            bc.len() <= pc.len(),
            i <= bc.len(),
            ps == pc@.map_values(|c: Vec<char>| c@),
            bs == bc@.map_values(|c: Vec<char>| c@),
            ps == components(path@, os),
            bs == components(base@, os),
            is_rooted(path@, os) == is_rooted(base@, os),
            forall|j: int| 0 <= j < i ==> bs[j] == ps[j],
        decreases bc.len() - i,
    {
        if !chars_equal(&bc[i], &pc[i]) {
            assert(bs[i as int] == bc@[i as int]@);
            assert(ps[i as int] == pc@[i as int]@);
            assert(bs[i as int] != ps[i as int]);
            assert(ps.subrange(0, bs.len() as int)[i as int] != bs[i as int]);
            return false;
        }
        assert(bs[i as int] == bc@[i as int]@);
        assert(ps[i as int] == pc@[i as int]@);
        i = i + 1;
    }
    assert(bs =~= ps.subrange(0, bs.len() as int));
    true
}

} // verus!
