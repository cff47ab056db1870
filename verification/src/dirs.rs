//! Directory paths for data, caches and logs, and the `--datadir` argument.
//!
//! Paths are held as text and joined as on Unix. The environment is a snapshot handed in by
//! the caller.
use core::marker::PhantomData;
use vstd::prelude::*;
use crate::env::{EnvVars, env_lookup};
use crate::text::{append_str, chars_of, push_char, str_eq, string_of};

verus! {

/// The text of an optional string.
pub open spec fn opt_chars(o: Option<String>) -> Option<Seq<char>> {
    match o {
        Some(s) => Some(s@),
        None => None,
    }
}

/// Whether a path is absolute: it starts at the root `/`.
pub open spec fn is_absolute(p: Seq<char>) -> bool {
    p.len() > 0 && p[0] == '/'
}

/// `base` joined with `p` as `Path::join` does on Unix: an absolute `p` replaces `base`;
/// otherwise `p` follows a `/`, which is added unless `base` is empty or ends with one.
pub open spec fn path_join(base: Seq<char>, p: Seq<char>) -> Seq<char> {
    if is_absolute(p) {
        p
    } else if base.len() == 0 || base.last() == '/' {
        base + p
    } else {
        base + seq!['/'] + p
    }
}

/// Joins `p` onto `base`.
pub fn join_path(base: &str, p: &str) -> (r: String)
    ensures
        r@ == path_join(base@, p@),
{
    let pc = chars_of(p);
    if pc.len() > 0 && pc[0] == '/' {
        return string_of(&pc);
    }
    let bc = chars_of(base);
    let mut r = string_of(&bc);
    if bc.len() > 0 && bc[bc.len() - 1] != '/' {
        push_char(&mut r, '/');
    }
    append_str(&mut r, p);
    r
}

/// The home directory: `$HOME` when set and not empty.
pub open spec fn home_dir_spec(env: Seq<(Seq<char>, Seq<char>)>) -> Option<Seq<char>> {
    match env_lookup(env, "HOME"@) {
        Some(h) => if h.len() > 0 {
            Some(h)
        } else {
            None
        },
        None => None,
    }
}

/// `$var` when it is absolute, else `$HOME/<fallback>`, then `kival` below it.
pub open spec fn xdg_dir_spec(env: Seq<(Seq<char>, Seq<char>)>, var: Seq<char>, fallback: Seq<char>) -> Option<
    Seq<char>,
> {
    let root = match env_lookup(env, var) {
        Some(v) if is_absolute(v) => Some(v),
        _ => match home_dir_spec(env) {
            Some(h) => Some(path_join(h, fallback)),
            None => None,
        },
    };
    match root {
        Some(r) => Some(path_join(r, "kival"@)),
        None => None,
    }
}

/// The data directory: `$XDG_DATA_HOME/kival` or `~/.local/share/kival`.
pub open spec fn data_dir_spec(env: Seq<(Seq<char>, Seq<char>)>) -> Option<Seq<char>> {
    xdg_dir_spec(env, "XDG_DATA_HOME"@, ".local/share"@)
}

/// The cache directory: `$XDG_CACHE_HOME/kival` or `~/.cache/kival`.
pub open spec fn cache_dir_spec(env: Seq<(Seq<char>, Seq<char>)>) -> Option<Seq<char>> {
    xdg_dir_spec(env, "XDG_CACHE_HOME"@, ".cache"@)
}

/// The logs directory: `logs` below the cache directory.
pub open spec fn logs_dir_spec(env: Seq<(Seq<char>, Seq<char>)>) -> Option<Seq<char>> {
    match cache_dir_spec(env) {
        Some(c) => Some(path_join(c, "logs"@)),
        None => None,
    }
}

/// The user's home directory, from `$HOME`.
fn home_dir(env: &EnvVars) -> (r: Option<String>)
    ensures
        opt_chars(r) == home_dir_spec(env@),
{
    let name = "HOME".to_owned();
    match env.get(&name) {
        Some(h) => if !h.as_str().is_empty() {
            Some(h)
        } else {
            None
        },
        None => None,
    }
}

/// Resolves `$var` (if absolute) or `$HOME/<fallback>`, then appends `kival`.
fn xdg_dir(env: &EnvVars, var: &str, fallback: &str) -> (r: Option<String>)
    ensures
        opt_chars(r) == xdg_dir_spec(env@, var@, fallback@),
{
    let name = var.to_owned();
    let from_var = match env.get(&name) {
        Some(v) => {
            let vc = chars_of(v.as_str());
            if vc.len() > 0 && vc[0] == '/' {
                Some(v)
            } else {
                None
            }
        },
        None => None,
    };
    let root = match from_var {
        Some(v) => Some(v),
        None => match home_dir(env) {
            Some(h) => Some(join_path(h.as_str(), fallback)),
            None => None,
        },
    };
    match root {
        Some(r) => Some(join_path(r.as_str(), "kival")),
        None => None,
    }
}

/// Path to the data directory: `$XDG_DATA_HOME/kival` or `~/.local/share/kival`.
pub fn data_dir(env: &EnvVars) -> (r: Option<String>)
    ensures
        opt_chars(r) == data_dir_spec(env@),
{
    xdg_dir(env, "XDG_DATA_HOME", ".local/share")
}

/// Path to the cache directory: `$XDG_CACHE_HOME/kival` or `~/.cache/kival`.
pub fn cache_dir(env: &EnvVars) -> (r: Option<String>)
    ensures
        opt_chars(r) == cache_dir_spec(env@),
{
    xdg_dir(env, "XDG_CACHE_HOME", ".cache")
}

/// Path to the logs directory: `<cache_dir>/logs`.
pub fn logs_dir(env: &EnvVars) -> (r: Option<String>)
    ensures
        opt_chars(r) == logs_dir_spec(env@),
{
    match cache_dir(env) {
        Some(c) => Some(join_path(c.as_str(), "logs")),
        None => None,
    }
}

/// A marker type that resolves to a standard directory.
pub trait XdgPath {
    /// The directory this marker stands for, in environment `env`.
    spec fn resolve_spec(env: Seq<(Seq<char>, Seq<char>)>) -> Option<Seq<char>>;

    /// Resolves the standard path.
    fn resolve(env: &EnvVars) -> (r: Option<String>)
        ensures
            opt_chars(r) == Self::resolve_spec(env@),
    ;
}

/// Marker type for the data directory.
#[derive(Clone, Copy, Debug, Default, PartialEq, Eq)]
#[non_exhaustive]
pub struct DataDirPath;

impl XdgPath for DataDirPath {
    open spec fn resolve_spec(env: Seq<(Seq<char>, Seq<char>)>) -> Option<Seq<char>> {
        data_dir_spec(env)
    }

    fn resolve(env: &EnvVars) -> (r: Option<String>) {
        data_dir(env)
    }
}

/// Marker type for the logs directory.
#[derive(Clone, Copy, Debug, Default, PartialEq, Eq)]
#[non_exhaustive]
pub struct LogsDir;

impl XdgPath for LogsDir {
    open spec fn resolve_spec(env: Seq<(Seq<char>, Seq<char>)>) -> Option<Seq<char>> {
        logs_dir_spec(env)
    }

    fn resolve(env: &EnvVars) -> (r: Option<String>) {
        logs_dir(env)
    }
}

/// A path given by the user, or the standard directory of the marker `D`.
#[derive(Debug, PartialEq, Eq)]
pub struct PlatformPath<D>(String, PhantomData<D>);

impl<D> View for PlatformPath<D> {
    type V = Seq<char>;

    closed spec fn view(&self) -> Seq<char> {
        self.0@
    }
}

impl<D> PlatformPath<D> {
    /// A path with the given text (`FromStr`, which never fails).
    pub fn from_str(s: &str) -> (p: Self)
        ensures
            p@ == s@,
    {
        PlatformPath(s.to_owned(), PhantomData)
    }

    /// Returns the path joined with another path.
    pub fn join(&self, path: &str) -> (p: Self)
        ensures
            p@ == path_join(self@, path@),
    {
        PlatformPath(join_path(self.0.as_str(), path), PhantomData)
    }

    /// A copy of the path.
    pub fn duplicate(&self) -> (p: Self)
        ensures
            p@ == self@,
    {
        PlatformPath(self.0.clone(), PhantomData)
    }

    /// The path's text (`AsRef<Path>`, `Display`).
    pub fn as_str(&self) -> (s: &str)
        ensures
            s@ == self@,
    {
        self.0.as_str()
    }

    /// The path's text, by value (`From<PlatformPath> for PathBuf`).
    pub fn into_string(self) -> (s: String)
        ensures
            s@ == self@,
    {
        self.0
    }
}

impl<D: XdgPath> PlatformPath<D> {
    /// The standard directory of `D` (`Default`, which panics where `D` cannot be resolved).
    pub fn default_path(env: &EnvVars) -> (p: Self)
        requires
            D::resolve_spec(env@) is Some,
        ensures
            p@ == D::resolve_spec(env@)->0,
    {
        match D::resolve(env) {
            Some(s) => PlatformPath(s, PhantomData),
            None => PlatformPath(String::new(), PhantomData),
        }
    }
}

/// An optional [`PlatformPath`]: unset means the standard directory.
#[derive(Debug, Default, PartialEq, Eq)]
pub struct MaybePlatformPath<D>(Option<PlatformPath<D>>);

impl<D> View for MaybePlatformPath<D> {
    type V = Option<Seq<char>>;

    closed spec fn view(&self) -> Option<Seq<char>> {
        match self.0 {
            Some(p) => Some(p@),
            None => None,
        }
    }
}

/// What `MaybePlatformPath` parses from `s`: unset for `default`, else the path `s`.
pub open spec fn parse_maybe_path(s: Seq<char>) -> Option<Seq<char>> {
    if s == "default"@ {
        None
    } else {
        Some(s)
    }
}

/// The text a `MaybePlatformPath` displays: the path, or `default` when unset.
pub open spec fn display_maybe_path(m: Option<Seq<char>>) -> Seq<char> {
    match m {
        Some(p) => p,
        None => "default"@,
    }
}

impl<D> MaybePlatformPath<D> {
    /// An unset path.
    pub fn unset() -> (m: Self)
        ensures
            m@ is None,
    {
        MaybePlatformPath(None)
    }

    /// A set path (`From<PathBuf>`).
    pub fn from_path(path: String) -> (m: Self)
        ensures
            m@ == Some(path@),
    {
        MaybePlatformPath(Some(PlatformPath(path, PhantomData)))
    }

    /// Parses an argument: `default` leaves the path unset (`FromStr`, which never fails).
    pub fn from_str(s: &str) -> (m: Self)
        ensures
            m@ == parse_maybe_path(s@),
    {
        if str_eq(s, "default") {
            MaybePlatformPath(None)
        } else {
            MaybePlatformPath(Some(PlatformPath::from_str(s)))
        }
    }

    /// The displayed text: the path, or `default` when unset (`Display`).
    pub fn display(&self) -> (s: String)
        ensures
            s@ == display_maybe_path(self@),
    {
        match &self.0 {
            Some(p) => p.0.clone(),
            None => "default".to_owned(),
        }
    }

    /// A copy of the value.
    pub fn duplicate(&self) -> (m: Self)
        ensures
            m@ == self@,
    {
        match &self.0 {
            Some(p) => MaybePlatformPath(Some(p.duplicate())),
            None => MaybePlatformPath(None),
        }
    }
}

impl<D: XdgPath> MaybePlatformPath<D> {
    /// Returns true if a custom path is set.
    pub fn is_some(&self) -> (b: bool)
        ensures
            b == self@ is Some,
    {
        self.0.is_some()
    }

    /// Returns the path if it is set, otherwise returns `None`.
    pub fn as_ref(&self) -> (r: Option<&str>)
        ensures
            match r {
                Some(s) => self@ == Some(s@),
                None => self@ is None,
            },
    {
        match &self.0 {
            Some(p) => Some(p.as_str()),
            None => None,
        }
    }

    /// Returns the path if it is set, otherwise the standard directory of `D`; that one must
    /// resolve: there is no directory to fall back to otherwise.
    pub fn unwrap_or_default(&self, env: &EnvVars) -> (p: PlatformPath<D>)
        requires
            self@ is Some || D::resolve_spec(env@) is Some,
        ensures
            p@ == match self@ {
                Some(s) => s,
                None => D::resolve_spec(env@)->0,
            },
    {
        match &self.0 {
            Some(p) => p.duplicate(),
            None => PlatformPath::default_path(env),
        }
    }
}

/// A set path displays as itself and parses back to itself, unless it is the word `default`.
pub proof fn maybe_path_display_round_trip(m: Option<Seq<char>>)
    requires
        m != Some("default"@),
    ensures
        parse_maybe_path(display_maybe_path(m)) == m,
{
}

} // verus!
