//! Operating systems, the environment, and the expansion of `$VAR`, `${VAR}`
//! and a leading `~` in path strings.

use vstd::prelude::*;
use crate::paths::{join, joined};
use crate::text::{chars_of, string_of, concat2, concat3, owned, str_eq};

verus! {

/// The operating systems that a registry distinguishes.
#[derive(Clone, Copy, PartialEq, Eq, Structural, Debug, Hash)]
pub enum Os {
    Windows,
    Linux,
}

/// The name of an OS as the registry writes it.
pub open spec fn os_name(os: Os) -> Seq<char> {
    match os {
        Os::Windows => "windows"@,
        Os::Linux => "linux"@,
    }
}

/// The OS that a platform with path separator `sep` is: `\` means Windows,
/// anything else is treated as Linux.
pub open spec fn os_for_separator_spec(sep: char) -> Os {
    if sep == '\\' {
        Os::Windows
    } else {
        Os::Linux
    }
}

/// The separator of path components on the platform this program was
/// built for.
///
/// Reads `std::path::MAIN_SEPARATOR`, which the standard library documents
/// as `\` on Windows and `/` on Unix. It depends on the build target, so the
/// contract states nothing of it.
#[verifier::external_body]
fn main_separator() -> char {
    std::path::MAIN_SEPARATOR
}

/// The OS of a platform whose path separator is `sep`.
pub fn os_for_separator(sep: char) -> (r: Os)
    ensures
        r == os_for_separator_spec(sep),
{
    if sep == '\\' {
        Os::Windows
    } else {
        Os::Linux
    }
}

impl Os {
    /// The OS this program runs on: Windows for Windows builds, Linux for
    /// every other target. Which one depends on the build target, so no
    /// contract states it.
    pub fn current() -> Os {
        os_for_separator(main_separator())
    }

    /// The name of the OS as the registry writes it (`windows`, `linux`).
    pub fn as_str(self) -> (r: &'static str)
        ensures
            r@ == os_name(self),
    {
        match self {
            Os::Windows => "windows",
            Os::Linux => "linux",
        }
    }
}

// ---------------------------------------------------------------------------
// The environment
// ---------------------------------------------------------------------------

/// A snapshot of environment variables. Lookups take the first entry with a
/// matching name, so [`Env::set`] shadows any earlier value.
#[derive(Debug, Clone)]
pub struct Env {
    vars: Vec<(String, String)>,
}

/// The value of `name` in an environment: its first entry, if any.
pub open spec fn env_lookup(vars: Seq<(Seq<char>, Seq<char>)>, name: Seq<char>) -> Option<Seq<char>>
    decreases vars.len(),
{
    if vars.len() == 0 {
        None
    } else if vars[0].0 == name {
        Some(vars[0].1)
    } else {
        env_lookup(vars.drop_first(), name)
    }
}

/// The home directory: `HOME`, or else `USERPROFILE`.
pub open spec fn env_home(vars: Seq<(Seq<char>, Seq<char>)>) -> Option<Seq<char>> {
    match env_lookup(vars, "HOME"@) {
        Some(h) => Some(h),
        None => env_lookup(vars, "USERPROFILE"@),
    }
}

/// What a variable reference resolves to: its value when set; otherwise
/// `XDG_CONFIG_HOME` falls back to `<home>/.config`, joined by the rules of
/// `os` (an error without a
/// home), `HOME` and `USERPROFILE` fall back to the home directory, and any
/// other variable stays unresolved.
pub open spec fn resolve_var(
    vars: Seq<(Seq<char>, Seq<char>)>,
    name: Seq<char>,
    os: Os,
) -> Result<Option<Seq<char>>, Seq<char>> {
    match env_lookup(vars, name) {
        Some(v) => Ok(Some(v)),
        None => if name == "XDG_CONFIG_HOME"@ {
            match env_home(vars) {
                Some(h) => Ok(Some(joined(h, ".config"@, os))),
                None => Err("no HOME/USERPROFILE"@),
            }
        } else if name == "HOME"@ || name == "USERPROFILE"@ {
            Ok(env_home(vars))
        } else {
            Ok(None)
        },
    }
}

impl View for Env {
    type V = Seq<(Seq<char>, Seq<char>)>;

    closed spec fn view(&self) -> Seq<(Seq<char>, Seq<char>)> {
        self.vars@.map_values(|p: (String, String)| (p.0@, p.1@))
    }
}

impl Env {
    /// An environment with no variables.
    pub fn new() -> (r: Env)
        ensures
            r@ == Seq::<(Seq<char>, Seq<char>)>::empty(),
    {
        let r = Env { vars: Vec::new() };
        assert(r@ =~= Seq::<(Seq<char>, Seq<char>)>::empty());
        r
    }

    /// Sets `name` to `value`, shadowing any earlier value.
    pub fn set(&mut self, name: &str, value: &str)
        ensures
            final(self)@ == seq![(name@, value@)] + old(self)@,
    {
        let ghost before = self@;
        self.vars.insert(0, (owned(name), owned(value)));
        assert(self@ =~= seq![(name@, value@)] + before);
    }

    /// The value of `name`, if set.
    pub fn var(&self, name: &str) -> (r: Option<String>)
        ensures
            match r {
                Some(v) => env_lookup(self@, name@) == Some(v@),
                None => env_lookup(self@, name@) is None,
            },
    {
        let mut i: usize = 0;
        let ghost all = self@;
        assert(all.skip(0) =~= all);
        while i < self.vars.len()
            invariant
                i <= self.vars.len(),
                all == self@,
                all.len() == self.vars.len(),
                env_lookup(all, name@) == env_lookup(all.skip(i as int), name@),
            decreases self.vars.len() - i,
        {
            assert(all[i as int] == (self.vars@[i as int].0@, self.vars@[i as int].1@));
            assert(all.skip(i as int)[0] == all[i as int]);
            if str_eq(self.vars[i].0.as_str(), name) {
                return Some(owned(self.vars[i].1.as_str()));
            }
            assert(all.skip(i as int).drop_first() =~= all.skip(i + 1));
            i = i + 1;
        }
        None
    }

    /// The home directory: `HOME`, or else `USERPROFILE`.
    pub fn home(&self) -> (r: Option<String>)
        ensures
            match r {
                Some(v) => env_home(self@) == Some(v@),
                None => env_home(self@) is None,
            },
    {
        match self.var("HOME") {
            Some(h) => Some(h),
            None => self.var("USERPROFILE"),
        }
    }
}

/// Resolves one variable reference, with the fallbacks of [`resolve_var`].
pub fn lookup_var(env: &Env, name: &str, os: Os) -> (r: Result<Option<String>, String>)
    ensures
        match (r, resolve_var(env@, name@, os)) {
            (Ok(Some(v)), Ok(Some(w))) => v@ == w,
            (Ok(None), Ok(None)) => true,
            (Err(e), Err(f)) => e@ == f,
            _ => false,
        },
{
    if let Some(v) = env.var(name) {
        return Ok(Some(v));
    }
    if str_eq(name, "XDG_CONFIG_HOME") {
        match env.home() {
            Some(h) => Ok(Some(join(h.as_str(), ".config", os))),
            None => Err(owned("no HOME/USERPROFILE")),
        }
    } else if str_eq(name, "HOME") || str_eq(name, "USERPROFILE") {
        Ok(env.home())
    } else {
        Ok(None)
    }
}

// ---------------------------------------------------------------------------
// Expansion
// ---------------------------------------------------------------------------

/// What `shellexpand::env_with_context` returns for `input` when each
/// variable is resolved by [`lookup_var`] over `env` and `os`: the expanded text, or
/// the name of the variable whose lookup failed and the failure's text.
pub uninterp spec fn shell_expansion(
    input: Seq<char>,
    env: Seq<(Seq<char>, Seq<char>)>,
    os: Os,
) -> Result<Seq<char>, (Seq<char>, Seq<char>)>;

/// The value of an expansion result.
pub open spec fn expansion_view(r: Result<String, (String, String)>) -> Result<
    Seq<char>,
    (Seq<char>, Seq<char>),
> {
    match r {
        Ok(s) => Ok(s@),
        Err((a, b)) => Err((a@, b@)),
    }
}

/// A character that can continue a variable name and is ASCII: a letter, a
/// digit or `_`.
pub open spec fn is_name_char(c: char) -> bool {
    ('a' <= c && c <= 'z') || ('A' <= c && c <= 'Z') || ('0' <= c && c <= '9') || c == '_'
}

/// Whether `rest` ends a variable name that precedes it: it is empty or
/// starts with an ASCII character that cannot be part of a name.
pub open spec fn ends_name(rest: Seq<char>) -> bool {
    rest.len() == 0 || ((rest[0] as u32) < 128 && !is_name_char(rest[0]))
}

/// The text `pre`, then `$name`, then `rest`.
pub open spec fn reference_text(pre: Seq<char>, name: Seq<char>, rest: Seq<char>) -> Seq<char> {
    pre + seq!['$'] + name + rest
}

/// Whether `reference_text(pre, name, rest)` holds exactly one variable
/// reference, the plain form `$name`: no `$` before or after it, a non-empty
/// name of ASCII name characters, and a `rest` that ends the name.
pub open spec fn single_reference(pre: Seq<char>, name: Seq<char>, rest: Seq<char>) -> bool {
    &&& !pre.contains('$')
    &&& !rest.contains('$')
    &&& name.len() > 0
    &&& forall|i: int| 0 <= i < name.len() ==> is_name_char(#[trigger] name[i])
    &&& ends_name(rest)
}

/// What expanding a text with a single plain reference `$name` gives, with
/// the name resolved by [`resolve_var`]: the value in its place; the text
/// unchanged when the variable stays unresolved; the name and the failure
/// when resolving it fails.
pub open spec fn single_expansion(
    pre: Seq<char>,
    name: Seq<char>,
    rest: Seq<char>,
    env: Seq<(Seq<char>, Seq<char>)>,
    os: Os,
) -> Result<Seq<char>, (Seq<char>, Seq<char>)> {
    match resolve_var(env, name, os) {
        Ok(Some(v)) => Ok(pre + v + rest),
        Ok(None) => Ok(reference_text(pre, name, rest)),
        Err(cause) => Err((name, cause)),
    }
}

/// The text `pre`, then `${name}`, then `rest`.
pub open spec fn braced_text(pre: Seq<char>, name: Seq<char>, rest: Seq<char>) -> Seq<char> {
    pre + seq!['$', '{'] + name + seq!['}'] + rest
}

/// Whether `braced_text(pre, name, rest)` holds exactly one variable
/// reference, the braced form `${name}`: no `$` before or after it and a
/// non-empty name of ASCII name characters.
pub open spec fn single_braced(pre: Seq<char>, name: Seq<char>, rest: Seq<char>) -> bool {
    &&& !pre.contains('$')
    &&& !rest.contains('$')
    &&& name.len() > 0
    &&& forall|i: int| 0 <= i < name.len() ==> is_name_char(#[trigger] name[i])
}

/// What expanding a text with a single braced reference `${name}` gives:
/// the value in its place; the text unchanged when the variable stays
/// unresolved; the name and the failure when resolving it fails.
pub open spec fn braced_expansion(
    pre: Seq<char>,
    name: Seq<char>,
    rest: Seq<char>,
    env: Seq<(Seq<char>, Seq<char>)>,
    os: Os,
) -> Result<Seq<char>, (Seq<char>, Seq<char>)> {
    match resolve_var(env, name, os) {
        Ok(Some(v)) => Ok(pre + v + rest),
        Ok(None) => Ok(braced_text(pre, name, rest)),
        Err(cause) => Err((name, cause)),
    }
}

/// Expands `$VAR` and `${VAR}` in `input` with `shellexpand::env_with_context`,
/// resolving each variable through [`lookup_var`] over `env`.
///
/// The contract names the result ([`shell_expansion`]) and states what the
/// crate's documentation and source show for two simple inputs: an input
/// without `$` comes back unchanged; an input with one plain reference
/// `$NAME` (ASCII name, followed by the end or by an ASCII character that is
/// not a name character, and no other `$`) gets the looked-up value in place
/// of the reference, stays as written when the lookup gives nothing, and
/// fails with the name and cause when the lookup fails; the same holds of
/// one braced reference `${NAME}` (ASCII name, no other `$`). How other
/// inputs (defaults, several references, `$$`) are expanded is not stated.
#[verifier::external_body]
fn expand_variables(input: &str, env: &Env, os: Os) -> (r: Result<String, (String, String)>)
    ensures
        expansion_view(r) == shell_expansion(input@, env@, os),
        !input@.contains('$') ==> (r is Ok && r->Ok_0@ == input@),
        forall|pre: Seq<char>, name: Seq<char>, rest: Seq<char>|
            single_reference(pre, name, rest) && #[trigger] reference_text(pre, name, rest) == input@
                ==> expansion_view(r) == single_expansion(pre, name, rest, env@, os),
        forall|pre: Seq<char>, name: Seq<char>, rest: Seq<char>|
            single_braced(pre, name, rest) && #[trigger] braced_text(pre, name, rest) == input@
                ==> expansion_view(r) == braced_expansion(pre, name, rest, env@, os),
{
    match shellexpand::env_with_context(input, |var: &str| lookup_var(env, var, os)) {
        Ok(s) => Ok(s.into_owned()),
        Err(e) => Err((e.var_name, e.cause)),
    }
}

/// Why an expansion failed.
#[derive(Debug, Clone, PartialEq, Eq)]
pub enum ExpandError {
    /// Resolving `var_name` in `input` failed with `cause`.
    Lookup { input: String, var_name: String, cause: String },
    /// The path starts with `~` and there is no home directory.
    NoHome,
}

/// The mathematical value of an [`ExpandError`].
pub enum ExpandErrorView {
    Lookup { input: Seq<char>, var_name: Seq<char>, cause: Seq<char> },
    NoHome,
}

impl View for ExpandError {
    type V = ExpandErrorView;

    open spec fn view(&self) -> ExpandErrorView {
        match self {
            ExpandError::Lookup { input, var_name, cause } => ExpandErrorView::Lookup {
                input: input@,
                var_name: var_name@,
                cause: cause@,
            },
            ExpandError::NoHome => ExpandErrorView::NoHome,
        }
    }
}

/// The text of an expansion failure.
pub open spec fn expand_error_message(e: ExpandErrorView) -> Seq<char> {
    match e {
        ExpandErrorView::Lookup { input, var_name, cause } => "failed to expand variables in "@
            + input + ": error looking key '"@ + var_name + "' up: "@ + cause,
        ExpandErrorView::NoHome => "cannot expand ~ without HOME/USERPROFILE"@,
    }
}

impl ExpandError {
    /// The text that describes this failure to a user.
    pub fn message(&self) -> (r: String)
        ensures
            r@ == expand_error_message(self@),
    {
        match self {
            ExpandError::Lookup { input, var_name, cause } => {
                let a = concat3("failed to expand variables in ", input.as_str(), ": error looking key '");
                let b = concat3(a.as_str(), var_name.as_str(), "' up: ");
                concat2(b.as_str(), cause.as_str())
            },
            ExpandError::NoHome => owned("cannot expand ~ without HOME/USERPROFILE"),
        }
    }
}

/// The value of an expansion outcome.
pub open spec fn expand_outcome_view(r: Result<String, ExpandError>) -> Result<Seq<char>, ExpandErrorView> {
    match r {
        Ok(s) => Ok(s@),
        Err(e) => Err(e@),
    }
}

/// A leading `~` replaced by the home directory (an error without one);
/// any other text unchanged.
pub open spec fn tilde_expanded(s: Seq<char>, home: Option<Seq<char>>) -> Result<Seq<char>, ExpandErrorView> {
    if s.len() > 0 && s[0] == '~' {
        match home {
            Some(h) => Ok(h + s.skip(1)),
            None => Err(ExpandErrorView::NoHome),
        }
    } else {
        Ok(s)
    }
}

/// The full expansion of a path string: variables first, then a leading `~`.
pub open spec fn expanded(path: Seq<char>, env: Seq<(Seq<char>, Seq<char>)>, os: Os) -> Result<
    Seq<char>,
    ExpandErrorView,
> {
    match shell_expansion(path, env, os) {
        Err((var_name, cause)) => Err(ExpandErrorView::Lookup { input: path, var_name, cause }),
        Ok(s) => tilde_expanded(s, env_home(env)),
    }
}

/// Replaces a leading `~` in `s` by `home`.
pub fn expand_tilde(s: &str, home: Option<&str>) -> (r: Result<String, ExpandError>)
    ensures
        expand_outcome_view(r) == tilde_expanded(
            s@,
            match home {
                Some(h) => Some(h@),
                None => None,
            },
        ),
{
    let v = chars_of(s);
    if v.len() > 0 && v[0] == '~' {
        match home {
            Some(h) => {
                let mut out = chars_of(h);
                let mut i: usize = 1;
                while i < v.len()
                    invariant
                        1 <= i <= v.len(),
                        v@ == s@,
                        out@ == h@ + s@.subrange(1, i as int),
                    decreases v.len() - i,
                {
                    out.push(v[i]);
                    i = i + 1;
                    assert(out@ =~= h@ + s@.subrange(1, i as int));
                }
                assert(s@.subrange(1, i as int) =~= s@.skip(1));
                Ok(string_of(&out))
            },
            None => Err(ExpandError::NoHome),
        }
    } else {
        Ok(owned(s))
    }
}

/// Expands `$VAR`, `${VAR}` and a leading `~` in `path`, against `env`.
///
/// `$XDG_CONFIG_HOME` falls back to `<home>/.config` (joined by the path
/// rules of `os`), `$HOME` and `$USERPROFILE` to the home directory (`HOME`,
/// else `USERPROFILE`); other unset variables are left as written.
pub fn expand(path: &str, env: &Env, os: Os) -> (r: Result<String, ExpandError>)
    ensures
        expand_outcome_view(r) == expanded(path@, env@, os),
        !path@.contains('$') ==> expand_outcome_view(r) == tilde_expanded(path@, env_home(env@)),
        (!path@.contains('$') && !(path@.len() > 0 && path@[0] == '~')) ==> (r is Ok && r->Ok_0@ == path@),
        forall|pre: Seq<char>, name: Seq<char>, rest: Seq<char>|
            single_reference(pre, name, rest) && #[trigger] reference_text(pre, name, rest) == path@
                ==> expand_outcome_view(r) == match single_expansion(pre, name, rest, env@, os) {
                    Ok(s) => tilde_expanded(s, env_home(env@)),
                    Err((var_name, cause)) => Err(ExpandErrorView::Lookup { input: path@, var_name, cause }),
                },
        forall|pre: Seq<char>, name: Seq<char>, rest: Seq<char>|
            single_braced(pre, name, rest) && #[trigger] braced_text(pre, name, rest) == path@
                ==> expand_outcome_view(r) == match braced_expansion(pre, name, rest, env@, os) {
                    Ok(s) => tilde_expanded(s, env_home(env@)),
                    Err((var_name, cause)) => Err(ExpandErrorView::Lookup { input: path@, var_name, cause }),
                },
{
    match expand_variables(path, env, os) {
        Err((var_name, cause)) => Err(ExpandError::Lookup { input: owned(path), var_name, cause }),
        Ok(s) => {
            let home = env.home();
            match home {
                Some(h) => expand_tilde(s.as_str(), Some(h.as_str())),
                None => expand_tilde(s.as_str(), None),
            }
        },
    }
}

// ---------------------------------------------------------------------------
// Laws
// ---------------------------------------------------------------------------

/// Reading a variable back after setting it gives the value set; other
/// variables keep their values.
pub proof fn lemma_env_set_then_lookup(
    env: Seq<(Seq<char>, Seq<char>)>,
    name: Seq<char>,
    value: Seq<char>,
    other: Seq<char>,
)
    ensures
        env_lookup(seq![(name, value)] + env, name) == Some(value),
        other != name ==> env_lookup(seq![(name, value)] + env, other) == env_lookup(env, other),
{
    assert((seq![(name, value)] + env).drop_first() =~= env);
}

/// `$XDG_CONFIG_HOME`, when unset, resolves to `.config` under the home
/// directory, and is an error without a home directory.
pub proof fn lemma_xdg_fallback(env: Seq<(Seq<char>, Seq<char>)>, os: Os)
    requires
        env_lookup(env, "XDG_CONFIG_HOME"@) is None,
    ensures
        env_home(env) matches Some(h) ==> resolve_var(env, "XDG_CONFIG_HOME"@, os) == Ok::<
            Option<Seq<char>>,
            Seq<char>,
        >(Some(joined(h, ".config"@, os))),
        env_home(env) is None ==> resolve_var(env, "XDG_CONFIG_HOME"@, os) is Err,
{
}

/// A path that starts with `$XDG_CONFIG_HOME`, when that variable is unset,
/// expands with `<home>/.config` in place of the reference (and is an error
/// without a home directory).
pub proof fn lemma_xdg_reference(env: Seq<(Seq<char>, Seq<char>)>, rest: Seq<char>, os: Os)
    requires
        env_lookup(env, "XDG_CONFIG_HOME"@) is None,
        ends_name(rest),
        !rest.contains('$'),
    ensures
        single_reference(seq![], "XDG_CONFIG_HOME"@, rest),
        env_home(env) matches Some(h) ==> single_expansion(seq![], "XDG_CONFIG_HOME"@, rest, env, os) == Ok::<
            Seq<char>,
            (Seq<char>, Seq<char>),
        >(joined(h, ".config"@, os) + rest),
        env_home(env) is None ==> single_expansion(seq![], "XDG_CONFIG_HOME"@, rest, env, os) is Err,
{
    reveal_strlit("XDG_CONFIG_HOME");
    assert(!Seq::<char>::empty().contains('$'));
    if let Some(h) = env_home(env) {
        assert(Seq::<char>::empty() + joined(h, ".config"@, os) + rest =~= joined(h, ".config"@, os) + rest);
    }
}

/// A path that starts with `$HOME` expands with `HOME`'s value, or, when
/// `HOME` is unset, with `USERPROFILE`'s; with neither it is kept as written.
pub proof fn lemma_home_reference(env: Seq<(Seq<char>, Seq<char>)>, rest: Seq<char>, os: Os)
    requires
        ends_name(rest),
        !rest.contains('$'),
    ensures
        single_reference(seq![], "HOME"@, rest),
        env_home(env) matches Some(h) ==> single_expansion(seq![], "HOME"@, rest, env, os) == Ok::<
            Seq<char>,
            (Seq<char>, Seq<char>),
        >(h + rest),
        env_home(env) is None ==> single_expansion(seq![], "HOME"@, rest, env, os) == Ok::<
            Seq<char>,
            (Seq<char>, Seq<char>),
        >(reference_text(seq![], "HOME"@, rest)),
{
    reveal_strlit("HOME");
    reveal_strlit("XDG_CONFIG_HOME");
    assert(!Seq::<char>::empty().contains('$'));
    assert("HOME"@ != "XDG_CONFIG_HOME"@) by {
        assert("HOME"@.len() != "XDG_CONFIG_HOME"@.len());
    }
    if let Some(h) = env_home(env) {
        assert(Seq::<char>::empty() + h + rest =~= h + rest);
    }
}

/// A leading `~` becomes the home directory; a path without one is kept.
pub proof fn lemma_tilde(s: Seq<char>, home: Seq<char>)
    ensures
        (s.len() > 0 && s[0] == '~') ==> tilde_expanded(s, Some(home)) == Ok::<Seq<char>, ExpandErrorView>(
            home + s.skip(1),
        ),
        !(s.len() > 0 && s[0] == '~') ==> tilde_expanded(s, None) == Ok::<Seq<char>, ExpandErrorView>(s),
{
}

} // verus!
