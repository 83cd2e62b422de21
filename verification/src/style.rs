//! Output styling: Nerd Font icons or a plain ASCII fallback.
//!
//! Selection is opt-in, through the `NERD_FONT` environment variable or an
//! explicit mode: terminals cannot report which font they render with.

use vstd::prelude::*;
use crate::text::chars_of;

verus! {

/// The user's choice of icon set.
#[derive(Clone, Copy, PartialEq, Eq, Structural, Debug)]
pub enum IconMode {
    /// Follow the `NERD_FONT` environment variable; plain when it is unset.
    Auto,
    /// Always Nerd Font glyphs.
    Nerd,
    /// Always the ASCII fallback.
    Plain,
}

impl Default for IconMode {
    /// `Auto`: follow the environment.
    fn default() -> (r: IconMode)
        ensures
            r == IconMode::Auto,
    {
        IconMode::Auto
    }
}

/// The badges printed by the commands.
#[derive(Clone, Copy, Debug)]
pub struct Icons {
    pub enabled: &'static str,
    pub disabled: &'static str,
    pub ok: &'static str,
    pub missing: &'static str,
    pub wrong: &'static str,
    pub conflict: &'static str,
    pub tool_header: &'static str,
    pub noop: &'static str,
    pub link: &'static str,
    pub relink: &'static str,
    pub backup: &'static str,
    pub removed: &'static str,
    pub skipped: &'static str,
}

/// The ASCII icon set.
pub open spec fn plain_set() -> Icons {
    Icons {
        enabled: "*",
        disabled: " ",
        ok: "ok     ",
        missing: "missing",
        wrong: "wrong  ",
        conflict: "!!     ",
        tool_header: "==>",
        noop: "ok   ",
        link: "link ",
        relink: "upd  ",
        backup: "bak  ",
        removed: "rm   ",
        skipped: "skip ",
    }
}

/// The Nerd Font icon set (Font Awesome glyphs shipped with every Nerd
/// Font build).
pub open spec fn nerd_set() -> Icons {
    Icons {
        enabled: "\u{f00c}",
        disabled: " ",
        ok: "\u{f058}  ok  ",
        missing: "\u{f057}  miss ",
        wrong: "\u{f071}  wrong",
        conflict: "\u{f05e}  conf",
        tool_header: "\u{f0da}",
        noop: "\u{f058}  ok  ",
        link: "\u{f0c1}  link",
        relink: "\u{f021}  upd ",
        backup: "\u{f0c7}  bak ",
        removed: "\u{f2ed}  rm  ",
        skipped: "\u{f05e}  skip",
    }
}

/// Whether `c` is white space in the sense of `char::is_whitespace` (the
/// Unicode `White_Space` property), which `str::trim` strips.
pub open spec fn is_white(c: char) -> bool {
    ||| '\u{9}' <= c && c <= '\u{d}'
    ||| c == ' '
    ||| c == '\u{85}'
    ||| c == '\u{a0}'
    ||| c == '\u{1680}'
    ||| '\u{2000}' <= c && c <= '\u{200a}'
    ||| c == '\u{2028}'
    ||| c == '\u{2029}'
    ||| c == '\u{202f}'
    ||| c == '\u{205f}'
    ||| c == '\u{3000}'
}

/// `s` without leading white space.
pub open spec fn trim_start(s: Seq<char>) -> Seq<char>
    decreases s.len(),
{
    if s.len() > 0 && is_white(s[0]) {
        trim_start(s.drop_first())
    } else {
        s
    }
}

/// `s` without trailing white space.
pub open spec fn trim_end(s: Seq<char>) -> Seq<char>
    decreases s.len(),
{
    if s.len() > 0 && is_white(s.last()) {
        trim_end(s.drop_last())
    } else {
        s
    }
}

/// `s` without leading and trailing white space.
pub open spec fn trimmed(s: Seq<char>) -> Seq<char> {
    trim_end(trim_start(s))
}

/// Whether `c` lowercases (ASCII only) to `t`.
pub open spec fn lowers_to(c: char, t: char) -> bool {
    c == t || ('A' <= c && c <= 'Z' && (c as int) + 32 == (t as int))
}

/// Whether the ASCII lowercase form of `s` is `t`.
pub open spec fn lowercases_to(s: Seq<char>, t: Seq<char>) -> bool {
    s.len() == t.len() && forall|i: int| 0 <= i < s.len() ==> #[trigger] lowers_to(s[i], t[i])
}

/// Whether a `NERD_FONT` value turns Nerd Font glyphs on: once trimmed and
/// lowercased it is none of the empty string, `0`, `false` and `no`.
pub open spec fn nerd_value_on(v: Seq<char>) -> bool {
    let t = trimmed(v);
    !(t.len() == 0 || lowercases_to(t, seq!['0']) || lowercases_to(t, seq!['f', 'a', 'l', 's', 'e'])
        || lowercases_to(t, seq!['n', 'o']))
}

/// Whether the `NERD_FONT` setting (unset: `None`) turns glyphs on.
pub open spec fn nerd_env_on(v: Option<Seq<char>>) -> bool {
    match v {
        Some(s) => nerd_value_on(s),
        None => false,
    }
}

fn is_white_char(c: char) -> (r: bool)
    ensures
        r == is_white(c),
{
    ('\u{9}' <= c && c <= '\u{d}') || c == ' ' || c == '\u{85}' || c == '\u{a0}' || c == '\u{1680}'
        || ('\u{2000}' <= c && c <= '\u{200a}') || c == '\u{2028}' || c == '\u{2029}'
        || c == '\u{202f}' || c == '\u{205f}' || c == '\u{3000}'
}

proof fn lemma_trim_start_skip(s: Seq<char>, i: int)
    requires
        0 <= i <= s.len(),
        forall|j: int| 0 <= j < i ==> is_white(#[trigger] s[j]),
    ensures
        trim_start(s) == trim_start(s.skip(i)),
    decreases i,
{
    if i > 0 {
        assert(s.drop_first().skip(i - 1) =~= s.skip(i));
        lemma_trim_start_skip(s.drop_first(), i - 1);
    } else {
        assert(s.skip(0) =~= s);
    }
}

proof fn lemma_trim_end_take(s: Seq<char>, k: int)
    requires
        0 <= k <= s.len(),
        forall|j: int| k <= j < s.len() ==> is_white(#[trigger] s[j]),
    ensures
        trim_end(s) == trim_end(s.take(k)),
    decreases s.len() - k,
{
    if k < s.len() {
        assert(s.drop_last().take(k) =~= s.take(k));
        lemma_trim_end_take(s.drop_last(), k);
    } else {
        assert(s.take(k) =~= s);
    }
}

/// The bounds `[a, b)` of the trimmed part of `v`.
fn trim_bounds(v: &Vec<char>) -> (r: (usize, usize))
    ensures
        r.0 <= r.1 <= v@.len(),
        v@.subrange(r.0 as int, r.1 as int) == trimmed(v@),
{
    let mut a: usize = 0;
    while a < v.len() && is_white_char(v[a])
        invariant
            a <= v.len(),
            forall|j: int| 0 <= j < a ==> is_white(#[trigger] v@[j]),
        decreases v.len() - a,
    {
        a = a + 1;
    }
    proof {
        lemma_trim_start_skip(v@, a as int);
    }
    let ghost start = v@.skip(a as int);
    assert(trim_start(v@) == start);
    let mut b: usize = v.len();
    while b > a && is_white_char(v[b - 1])
        invariant
            a <= b <= v.len(),
            forall|j: int| b <= j < v.len() ==> is_white(#[trigger] v@[j]),
        decreases b,
    {
        b = b - 1;
    }
    proof {
        assert forall|j: int| (b - a) <= j < start.len() implies is_white(#[trigger] start[j]) by {
            assert(start[j] == v@[a + j]);
        }
        lemma_trim_end_take(start, b - a);
        assert(start.take(b - a) =~= v@.subrange(a as int, b as int));
        let t = start.take(b - a);
        if t.len() > 0 {
            assert(t.last() == v@[b - 1]);
        }
    }
    (a, b)
}

fn lowercases_to_exec(v: &Vec<char>, a: usize, b: usize, t: &Vec<char>) -> (r: bool)
    requires
        a <= b <= v@.len(),
        forall|i: int| 0 <= i < t@.len() ==> 'a' <= #[trigger] t@[i] <= 'z' || t@[i] == '0',
    ensures
        r == lowercases_to(v@.subrange(a as int, b as int), t@),
{
    let ghost s = v@.subrange(a as int, b as int);
    if b - a != t.len() {
        return false;
    }
    let mut i: usize = 0;
    while i < t.len()
        invariant
            a <= b <= v@.len(),
            b - a == t@.len(),
            s == v@.subrange(a as int, b as int),
            forall|k: int| 0 <= k < t@.len() ==> 'a' <= #[trigger] t@[k] <= 'z' || t@[k] == '0',
            i <= t.len(),
            forall|k: int| 0 <= k < i ==> #[trigger] lowers_to(s[k], t@[k]),
        decreases t.len() - i,
    {
        let c = v[a + i];
        let w = t[i];
        assert(s[i as int] == c);
        let ok = c == w || ('A' <= c && c <= 'Z' && (c as u32) + 32 == (w as u32));
        if !ok {
            assert(!lowers_to(s[i as int], t@[i as int]));
            return false;
        }
        i = i + 1;
    }
    true
}

/// Whether a `NERD_FONT` value turns glyphs on: after trimming white space
/// and lowercasing ASCII letters, it is not empty, `0`, `false` or `no`.
pub fn nerd_fonts_enabled(value: Option<&str>) -> (r: bool)
    ensures
        r == nerd_env_on(
            match value {
                Some(s) => Some(s@),
                None => None,
            },
        ),
{
    match value {
        None => false,
        Some(s) => {
            let v = chars_of(s);
            let (a, b) = trim_bounds(&v);
            let zero = vec!['0'];
            let fals = vec!['f', 'a', 'l', 's', 'e'];
            let no = vec!['n', 'o'];
            assert(zero@ =~= seq!['0']);
            assert(fals@ =~= seq!['f', 'a', 'l', 's', 'e']);
            assert(no@ =~= seq!['n', 'o']);
            let off = a == b || lowercases_to_exec(&v, a, b, &zero) || lowercases_to_exec(&v, a, b, &fals)
                || lowercases_to_exec(&v, a, b, &no);
            !off
        },
    }
}

impl Icons {
    /// The ASCII icon set.
    pub fn plain() -> (r: Icons)
        ensures
            r == plain_set(),
    {
        Icons {
            enabled: "*",
            disabled: " ",
            ok: "ok     ",
            missing: "missing",
            wrong: "wrong  ",
            conflict: "!!     ",
            tool_header: "==>",
            noop: "ok   ",
            link: "link ",
            relink: "upd  ",
            backup: "bak  ",
            removed: "rm   ",
            skipped: "skip ",
        }
    }

    /// The Nerd Font icon set.
    pub fn nerd() -> (r: Icons)
        ensures
            r == nerd_set(),
    {
        Icons {
            enabled: "\u{f00c}",
            disabled: " ",
            ok: "\u{f058}  ok  ",
            missing: "\u{f057}  miss ",
            wrong: "\u{f071}  wrong",
            conflict: "\u{f05e}  conf",
            tool_header: "\u{f0da}",
            noop: "\u{f058}  ok  ",
            link: "\u{f0c1}  link",
            relink: "\u{f021}  upd ",
            backup: "\u{f0c7}  bak ",
            removed: "\u{f2ed}  rm  ",
            skipped: "\u{f05e}  skip",
        }
    }

    /// The icon set for `mode`; in `Auto` mode `nerd_font` is the value of
    /// the `NERD_FONT` environment variable (`None` when unset).
    pub fn resolve(mode: IconMode, nerd_font: Option<&str>) -> (r: Icons)
        ensures
            r == (if icons_use_nerd(
                mode,
                match nerd_font {
                    Some(s) => Some(s@),
                    None => None,
                },
            ) {
                nerd_set()
            } else {
                plain_set()
            }),
    {
        let use_nerd = match mode {
            IconMode::Nerd => true,
            IconMode::Plain => false,
            IconMode::Auto => nerd_fonts_enabled(nerd_font),
        };
        if use_nerd {
            Icons::nerd()
        } else {
            Icons::plain()
        }
    }
}

/// Whether `mode` selects Nerd Font glyphs given the `NERD_FONT` setting.
pub open spec fn icons_use_nerd(mode: IconMode, nerd_font: Option<Seq<char>>) -> bool {
    match mode {
        IconMode::Nerd => true,
        IconMode::Plain => false,
        IconMode::Auto => nerd_env_on(nerd_font),
    }
}

/// An explicit mode wins over the environment: `Nerd` always gives glyphs
/// and `Plain` never does, whatever `NERD_FONT` holds.
pub proof fn lemma_explicit_mode_wins(nerd_font: Option<Seq<char>>)
    ensures
        icons_use_nerd(IconMode::Nerd, nerd_font),
        !icons_use_nerd(IconMode::Plain, nerd_font),
        icons_use_nerd(IconMode::Auto, None) == false,
{
}

} // verus!
