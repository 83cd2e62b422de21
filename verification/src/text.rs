//! Character-level string helpers and the lexicographic order of strings.

use vstd::prelude::*;

verus! {

// ---------------------------------------------------------------------------
// Conversions between strings and character vectors
// ---------------------------------------------------------------------------

/// The characters of `s`, in order.
pub fn chars_of(s: &str) -> (r: Vec<char>)
    ensures
        r@ == s@,
{
    let n = s.unicode_len();
    let mut r: Vec<char> = Vec::new();
    let mut i: usize = 0;
    while i < n
        invariant
            n == s@.len(),
            i <= n,
            r@ == s@.subrange(0, i as int),
        decreases n - i,
    {
        let c = s.get_char(i);
        r.push(c);
        i = i + 1;
        assert(r@ =~= s@.subrange(0, i as int));
    }
    assert(r@ =~= s@);
    r
}

/// Appends one character to a string.
///
/// Calls `String::push`, whose documentation states that it appends the
/// given character to the end of the string; that is all the contract claims.
#[verifier::external_body]
fn push_char(s: &mut String, c: char)
    ensures
        final(s)@ == old(s)@.push(c),
{
    s.push(c)
}

/// The string made of the characters in `v`.
pub fn string_of(v: &Vec<char>) -> (r: String)
    ensures
        r@ == v@,
{
    let mut r = String::new();
    let mut i: usize = 0;
    while i < v.len()
        invariant
            i <= v.len(),
            r@ == v@.subrange(0, i as int),
        decreases v.len() - i,
    {
        push_char(&mut r, v[i]);
        i = i + 1;
        assert(r@ =~= v@.subrange(0, i as int));
    }
    assert(r@ =~= v@);
    r
}

/// A fresh string holding the characters of `s`.
pub fn owned(s: &str) -> (r: String)
    ensures
        r@ == s@,
{
    let v = chars_of(s);
    string_of(&v)
}

/// Concatenation of two strings.
pub fn concat2(a: &str, b: &str) -> (r: String)
    ensures
        r@ == a@ + b@,
{
    let mut v = chars_of(a);
    let w = chars_of(b);
    let mut i: usize = 0;
    while i < w.len()
        invariant
            i <= w.len(),
            v@ == a@ + w@.subrange(0, i as int),
        decreases w.len() - i,
    {
        v.push(w[i]);
        i = i + 1;
        assert(v@ =~= a@ + w@.subrange(0, i as int));
    }
    assert(w@.subrange(0, w@.len() as int) =~= w@);
    string_of(&v)
}

/// Concatenation of three strings.
pub fn concat3(a: &str, b: &str, c: &str) -> (r: String)
    ensures
        r@ == a@ + b@ + c@,
{
    let ab = concat2(a, b);
    concat2(ab.as_str(), c)
}

/// Equality of two strings, character by character.
pub fn str_eq(a: &str, b: &str) -> (r: bool)
    ensures
        r == (a@ == b@),
{
    let x = chars_of(a);
    let y = chars_of(b);
    if x.len() != y.len() {
        return false;
    }
    let mut i: usize = 0;
    while i < x.len()
        invariant
            x.len() == y.len(),
            i <= x.len(),
            x@ == a@,
            y@ == b@,
            x@.subrange(0, i as int) == y@.subrange(0, i as int),
        decreases x.len() - i,
    {
        if x[i] != y[i] {
            assert(x@[i as int] != y@[i as int]);
            return false;
        }
        assert(x@.subrange(0, i + 1) =~= x@.subrange(0, i as int).push(x[i as int]));
        assert(y@.subrange(0, i + 1) =~= y@.subrange(0, i as int).push(y[i as int]));
        i = i + 1;
    }
    assert(x@ =~= x@.subrange(0, i as int));
    assert(y@ =~= y@.subrange(0, i as int));
    true
}

/// Whether the list of strings `list` holds `x`.
pub fn contains_str(list: &Vec<String>, x: &str) -> (r: bool)
    ensures
        r == views(list@).contains(x@),
{
    let mut i: usize = 0;
    while i < list.len()
        invariant
            i <= list@.len(),
            forall|j: int| 0 <= j < i ==> views(list@)[j] != x@,
        decreases list.len() - i,
    {
        if str_eq(list[i].as_str(), x) {
            assert(views(list@)[i as int] == x@);
            return true;
        }
        i = i + 1;
    }
    false
}

/// Whether `p` is a prefix of `s`.
pub open spec fn has_prefix(s: Seq<char>, p: Seq<char>) -> bool {
    p.len() <= s.len() && s.subrange(0, p.len() as int) == p
}

/// Whether the string `s` starts with `p`.
pub fn starts_with(s: &str, p: &str) -> (r: bool)
    ensures
        r == has_prefix(s@, p@),
{
    let x = chars_of(s);
    let y = chars_of(p);
    if y.len() > x.len() {
        return false;
    }
    let mut i: usize = 0;
    while i < y.len()
        invariant
            y.len() <= x.len(),
            i <= y.len(),
            x@ == s@,
            y@ == p@,
            x@.subrange(0, i as int) == y@.subrange(0, i as int),
        decreases y.len() - i,
    {
        if x[i] != y[i] {
            assert(x@.subrange(0, y.len() as int)[i as int] == x[i as int]);
            return false;
        }
        assert(x@.subrange(0, i + 1) =~= x@.subrange(0, i as int).push(x[i as int]));
        assert(y@.subrange(0, i + 1) =~= y@.subrange(0, i as int).push(y[i as int]));
        i = i + 1;
    }
    assert(y@ =~= y@.subrange(0, i as int));
    true
}

/// Whether `p` occurs in `s` as a contiguous run of characters.
pub open spec fn has_infix(s: Seq<char>, p: Seq<char>) -> bool {
    exists|i: int| 0 <= i && i + p.len() <= s.len() && #[trigger] s.subrange(i, i + p.len()) == p
}

/// Whether the string `s` contains `p` (as `str::contains` with a string
/// pattern).
pub fn contains_infix(s: &str, p: &str) -> (r: bool)
    ensures
        r == has_infix(s@, p@),
{
    let x = chars_of(s);
    let y = chars_of(p);
    if y.len() > x.len() {
        proof {
            assert forall|i: int| 0 <= i && i + p@.len() <= s@.len() implies #[trigger] s@.subrange(i, i + p@.len()) != p@ by {
            }
        }
        return false;
    }
    if y.len() == 0 {
        assert(s@.subrange(0int, 0int + p@.len()) =~= p@);
        return true;
    }
    let last = x.len() - y.len();
    let mut i: usize = 0;
    while i <= last
        invariant
            x@ == s@,
            y@ == p@,
            y.len() <= x.len(),
            last == x.len() - y.len(),
            last < x.len(),
            i <= last + 1,
            forall|k: int| 0 <= k < i ==> #[trigger] s@.subrange(k, k + p@.len()) != p@,
        decreases last + 1 - i,
    {
        let mut j: usize = 0;
        let mut same = true;
        assert(s@.subrange(i as int, i as int) =~= p@.subrange(0, 0));
        while j < y.len()
            invariant
                x@ == s@,
                y@ == p@,
                i <= last,
                last == x.len() - y.len(),
                j <= y.len(),
                same == (s@.subrange(i as int, i + j) == p@.subrange(0, j as int)),
            decreases y.len() - j,
        {
            if x[i + j] != y[j] {
                same = false;
            }
            proof {
                assert(s@.subrange(i as int, i + j + 1) =~= s@.subrange(i as int, i + j).push(s@[i + j]));
                assert(p@.subrange(0, j + 1) =~= p@.subrange(0, j as int).push(p@[j as int]));
                if s@.subrange(i as int, i + j + 1) == p@.subrange(0, j + 1) {
                    assert(s@.subrange(i as int, i + j) =~= s@.subrange(i as int, i + j + 1).drop_last());
                    assert(p@.subrange(0, j as int) =~= p@.subrange(0, j + 1).drop_last());
                    assert(s@[i + j] == s@.subrange(i as int, i + j + 1)[j as int]);
                }
            }
            j = j + 1;
        }
        assert(p@.subrange(0, p@.len() as int) =~= p@);
        if same {
            return true;
        }
        i = i + 1;
    }
    false
}

// ---------------------------------------------------------------------------
// Lexicographic order
// ---------------------------------------------------------------------------

/// Strict lexicographic order on character sequences, comparing code points;
/// this is the order of `Ord` on `String` (UTF-8 byte order agrees with
/// code point order).
pub open spec fn seq_lt(a: Seq<char>, b: Seq<char>) -> bool
    decreases a.len(),
{
    if a.len() == 0 {
        b.len() > 0
    } else if b.len() == 0 {
        false
    } else if a[0] != b[0] {
        (a[0] as int) < (b[0] as int)
    } else {
        seq_lt(a.drop_first(), b.drop_first())
    }
}

/// No sequence is below itself.
pub proof fn lemma_lt_irreflexive(a: Seq<char>)
    ensures
        !seq_lt(a, a),
    decreases a.len(),
{
    if a.len() > 0 {
        lemma_lt_irreflexive(a.drop_first());
    }
}

/// The order is transitive.
pub proof fn lemma_lt_transitive(a: Seq<char>, b: Seq<char>, c: Seq<char>)
    requires
        seq_lt(a, b),
        seq_lt(b, c),
    ensures
        seq_lt(a, c),
    decreases a.len(),
{
    if a.len() > 0 && b.len() > 0 && c.len() > 0 {
        if a[0] == b[0] && b[0] == c[0] {
            lemma_lt_transitive(a.drop_first(), b.drop_first(), c.drop_first());
        }
    }
}

/// Any two distinct sequences are ordered one way or the other.
pub proof fn lemma_lt_total(a: Seq<char>, b: Seq<char>)
    ensures
        a == b || seq_lt(a, b) || seq_lt(b, a),
    decreases a.len(),
{
    if a.len() > 0 && b.len() > 0 {
        if a[0] == b[0] {
            lemma_lt_total(a.drop_first(), b.drop_first());
            if a.drop_first() == b.drop_first() {
                assert(a =~= seq![a[0]] + a.drop_first());
                assert(b =~= seq![b[0]] + b.drop_first());
            }
        } else {
            assert((a[0] as int) != (b[0] as int));
        }
    } else if a.len() == 0 && b.len() == 0 {
        assert(a =~= b);
    }
}

/// The order is asymmetric.
pub proof fn lemma_lt_asymmetric(a: Seq<char>, b: Seq<char>)
    ensures
        !(seq_lt(a, b) && seq_lt(b, a)),
{
    if seq_lt(a, b) && seq_lt(b, a) {
        lemma_lt_transitive(a, b, a);
        lemma_lt_irreflexive(a);
    }
}

proof fn lemma_lt_step(a: Seq<char>, b: Seq<char>, i: int)
    requires
        0 <= i < a.len(),
        i < b.len(),
        a[i] == b[i],
    ensures
        seq_lt(a.skip(i), b.skip(i)) == seq_lt(a.skip(i + 1), b.skip(i + 1)),
{
    assert(a.skip(i).drop_first() =~= a.skip(i + 1));
    assert(b.skip(i).drop_first() =~= b.skip(i + 1));
}

/// Strict lexicographic comparison of two strings.
pub fn str_lt(a: &str, b: &str) -> (r: bool)
    ensures
        r == seq_lt(a@, b@),
{
    let x = chars_of(a);
    let y = chars_of(b);
    let mut i: usize = 0;
    assert(x@.skip(0) =~= x@);
    assert(y@.skip(0) =~= y@);
    while i < x.len() && i < y.len()
        invariant
            i <= x.len(),
            i <= y.len(),
            x@ == a@,
            y@ == b@,
            seq_lt(a@, b@) == seq_lt(x@.skip(i as int), y@.skip(i as int)),
        decreases x.len() - i,
    {
        if x[i] != y[i] {
            assert(x@.skip(i as int)[0] == x@[i as int]);
            assert(y@.skip(i as int)[0] == y@[i as int]);
            return x[i] < y[i];
        }
        proof {
            lemma_lt_step(x@, y@, i as int);
        }
        i = i + 1;
    }
    i < y.len()
}

// ---------------------------------------------------------------------------
// Sorting
// ---------------------------------------------------------------------------

/// The character sequences of a sequence of strings.
pub open spec fn views(v: Seq<String>) -> Seq<Seq<char>> {
    v.map_values(|s: String| s@)
}

/// A sequence in non-decreasing lexicographic order.
pub open spec fn is_sorted(s: Seq<Seq<char>>) -> bool {
    forall|i: int, j: int| 0 <= i < j < s.len() ==> !seq_lt(#[trigger] s[j], #[trigger] s[i])
}

/// A sequence in strictly increasing lexicographic order (sorted, no repeats).
pub open spec fn is_strictly_sorted(s: Seq<Seq<char>>) -> bool {
    forall|i: int, j: int| 0 <= i < j < s.len() ==> seq_lt(#[trigger] s[i], #[trigger] s[j])
}

proof fn lemma_multiset_insert<A>(s: Seq<A>, p: int, a: A)
    requires
        0 <= p <= s.len(),
    ensures
        s.insert(p, a).to_multiset() =~= s.to_multiset().insert(a),
{
    broadcast use vstd::seq_lib::group_to_multiset_ensures;

    let l = s.subrange(0, p);
    let r = s.subrange(p, s.len() as int);
    assert(s =~= l + r);
    assert(s.insert(p, a) =~= l.push(a) + r);
    vstd::seq_lib::lemma_multiset_commutative(l.push(a), r);
    vstd::seq_lib::lemma_multiset_commutative(l, r);
}

/// The strings of `v` in non-decreasing lexicographic order (a stable
/// insertion sort). The result is a permutation of `v`.
pub fn sort_strings(v: Vec<String>) -> (r: Vec<String>)
    ensures
        is_sorted(views(r@)),
        views(r@).to_multiset() =~= views(v@).to_multiset(),
        r@.len() == v@.len(),
{
    let mut r: Vec<String> = Vec::new();
    let mut i: usize = 0;
    assert(views(r@) =~= views(v@.subrange(0, 0)));
    while i < v.len()
        invariant
            i <= v.len(),
            is_sorted(views(r@)),
            views(r@).to_multiset() =~= views(v@.subrange(0, i as int)).to_multiset(),
            r@.len() == i,
        decreases v.len() - i,
    {
        let x = v[i].clone();
        let ghost xv = x@;
        let ghost xval = x;
        // Find the first position whose element is greater than x.
        let mut p: usize = 0;
        while p < r.len() && !str_lt(x.as_str(), r[p].as_str())
            invariant
                p <= r.len(),
                forall|j: int| 0 <= j < p ==> !seq_lt(x@, #[trigger] r@[j]@),
            decreases r.len() - p,
        {
            p = p + 1;
        }
        let ghost old_r = r@;
        r.insert(p, x);
        proof {
            assert(r@ =~= old_r.insert(p as int, xval));
            assert(views(r@) =~= views(old_r).insert(p as int, xv));
            lemma_multiset_insert(views(old_r), p as int, xv);
            assert(views(v@.subrange(0, i + 1)) =~= views(v@.subrange(0, i as int)).push(xv));
            broadcast use vstd::seq_lib::group_to_multiset_ensures;
            assert forall|a: int, b: int| 0 <= a < b < views(r@).len() implies !seq_lt(
                #[trigger] views(r@)[b],
                #[trigger] views(r@)[a],
            ) by {
                let s = views(r@);
                let o = views(old_r);
                if b < p {
                    assert(s[a] == o[a] && s[b] == o[b]);
                } else if a > p {
                    assert(s[a] == o[a - 1] && s[b] == o[b - 1]);
                } else if a == p {
                    // s[a] == x, s[b] == o[b-1] >= o[p] > x (when p < old len)
                    assert(s[b] == o[b - 1]);
                    assert(p < o.len());
                    assert(seq_lt(x@, o[p as int]));
                    if b - 1 > p {
                        assert(!seq_lt(o[b - 1], o[p as int]));
                    }
                    if seq_lt(s[b], s[a]) {
                        lemma_lt_total(o[b - 1], o[p as int]);
                        if b - 1 > p && seq_lt(o[p as int], o[b - 1]) {
                            lemma_lt_transitive(o[b - 1], x@, o[p as int]);
                            lemma_lt_asymmetric(o[p as int], o[b - 1]);
                        } else {
                            lemma_lt_asymmetric(x@, o[p as int]);
                        }
                    }
                } else {
                    // a < p, b == p: o[a] <= x
                    assert(s[a] == o[a]);
                    if b == p {
                        assert(s[b] == xv);
                        assert(!seq_lt(xv, o[a]));
                    } else {
                        assert(s[b] == o[b - 1]);
                    }
                }
            }
        }
        i = i + 1;
    }
    assert(v@.subrange(0, v@.len() as int) =~= v@);
    r
}

// ---------------------------------------------------------------------------
// Joining
// ---------------------------------------------------------------------------

/// The sequences of `list` joined by `sep`.
pub open spec fn seq_join(list: Seq<Seq<char>>, sep: Seq<char>) -> Seq<char>
    decreases list.len(),
{
    if list.len() == 0 {
        seq![]
    } else if list.len() == 1 {
        list[0]
    } else {
        seq_join(list.drop_last(), sep) + sep + list.last()
    }
}

/// The strings of `list` joined by `sep`.
pub fn join(list: &Vec<String>, sep: &str) -> (r: String)
    ensures
        r@ == seq_join(views(list@), sep@),
{
    let mut acc: String = String::new();
    let mut i: usize = 0;
    while i < list.len()
        invariant
            i <= list.len(),
            acc@ == seq_join(views(list@).take(i as int), sep@),
        decreases list.len() - i,
    {
        let ghost prev = views(list@).take(i as int);
        if i == 0 {
            acc = owned(list[i].as_str());
        } else {
            acc = concat3(acc.as_str(), sep, list[i].as_str());
        }
        assert(views(list@).take(i + 1).drop_last() =~= prev);
        i = i + 1;
    }
    assert(views(list@).take(list@.len() as int) =~= views(list@));
    acc
}

/// `s` followed by spaces up to `width` characters (as `{:<width}` formats).
pub open spec fn padded(s: Seq<char>, width: nat) -> Seq<char> {
    if s.len() >= width {
        s
    } else {
        s + Seq::new((width - s.len()) as nat, |i: int| ' ')
    }
}

/// Left-aligns `s` in a field of `width` characters.
pub fn pad_right(s: &str, width: usize) -> (r: String)
    ensures
        r@ == padded(s@, width as nat),
{
    let mut v = chars_of(s);
    let n = v.len();
    if n >= width {
        return string_of(&v);
    }
    let mut k: usize = n;
    while k < width
        invariant
            n == s@.len(),
            n <= k <= width,
            v@ == s@ + Seq::new((k - n) as nat, |i: int| ' '),
        decreases width - k,
    {
        v.push(' ');
        k = k + 1;
        assert(v@ =~= s@ + Seq::new((k - n) as nat, |i: int| ' '));
    }
    string_of(&v)
}

} // verus!
