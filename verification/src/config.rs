//! Layered server configuration: environment placeholders in the configuration text, layers
//! merged by precedence, and the settings the server derives from them.
use vstd::prelude::*;
use crate::args::DatadirArgs;
use crate::dirs::{data_dir_spec, join_path, opt_chars, path_join};
use crate::env::{EnvVars, env_lookup};
use crate::text::{append_str, chars_of, push_char, string_of_range};

verus! {

/// The default filename for configuration files.
pub const DEFAULT_CONFIG_FILENAME: &'static str = "kival.toml";

/// First index `k >= i` where `s[k..k + 2]` is `${`, if any.
pub open spec fn find_open(s: Seq<char>, i: int) -> Option<int>
    decreases s.len() - i,
{
    if i < 0 || i + 1 >= s.len() {
        None
    } else if s[i] == '$' && s[i + 1] == '{' {
        Some(i)
    } else {
        find_open(s, i + 1)
    }
}

/// First index `k >= i` where `s[k]` is `}`, if any.
pub open spec fn find_close(s: Seq<char>, i: int) -> Option<int>
    decreases s.len() - i,
{
    if i < 0 || i >= s.len() {
        None
    } else if s[i] == '}' {
        Some(i)
    } else {
        find_close(s, i + 1)
    }
}

/// Why placeholders could not be replaced.
#[derive(Debug, PartialEq, Eq)]
pub enum ReplaceError {
    /// A `${` without a closing `}`.
    Unterminated,
    /// A placeholder names a variable that is not set.
    Unset(String),
}

/// Outcome of replacing placeholders, by characters.
pub enum Replaced {
    /// The text with every placeholder replaced.
    Done(Seq<char>),
    /// A `${` without a closing `}`.
    Unterminated,
    /// The first placeholder whose variable is not set.
    Unset(Seq<char>),
}

/// `s[i..]` with each `${NAME}` replaced by the value of `NAME` in `env`, left to right; the
/// first placeholder that is unterminated or unset stops the replacement.
pub open spec fn replace_from(env: Seq<(Seq<char>, Seq<char>)>, s: Seq<char>, i: int) -> Replaced
    decreases s.len() - i,
{
    if i < 0 || i > s.len() {
        Replaced::Done(Seq::empty())
    } else {
        match find_open(s, i) {
            None => Replaced::Done(s.subrange(i, s.len() as int)),
            Some(o) => match find_close(s, o + 2) {
                None => Replaced::Unterminated,
                Some(c) => {
                    let key = s.subrange(o + 2, c);
                    match env_lookup(env, key) {
                        None => Replaced::Unset(key),
                        Some(v) => {
                            proof {
                                lemma_find_open_bounds(s, i);
                                lemma_find_close_bounds(s, o + 2);
                            }
                            match replace_from(env, s, c + 1) {
                                Replaced::Done(r) => Replaced::Done(s.subrange(i, o) + v + r),
                                other => other,
                            }
                        },
                    }
                },
            },
        }
    }
}

/// `find_open` stays inside the text.
pub proof fn lemma_find_open_bounds(s: Seq<char>, i: int)
    requires
        0 <= i,
    ensures
        find_open(s, i) matches Some(o) ==> i <= o && o + 1 < s.len() && s[o] == '$' && s[o + 1] == '{',
    decreases s.len() - i,
{
    if i + 1 < s.len() && !(s[i] == '$' && s[i + 1] == '{') {
        lemma_find_open_bounds(s, i + 1);
    }
}

/// `find_close` stays inside the text.
pub proof fn lemma_find_close_bounds(s: Seq<char>, i: int)
    requires
        0 <= i,
    ensures
        find_close(s, i) matches Some(c) ==> i <= c < s.len() && s[c] == '}',
    decreases s.len() - i,
{
    if i < s.len() && s[i] != '}' {
        lemma_find_close_bounds(s, i + 1);
    }
}

impl ReplaceError {
    /// The error's message.
    pub fn message(&self) -> (m: String)
        ensures
            match self {
                ReplaceError::Unterminated => m@ == "unterminated `${...}` placeholder"@,
                ReplaceError::Unset(k) => m@ == "environment variable `"@ + k@ + "` is not set"@,
            },
    {
        match self {
            ReplaceError::Unterminated => "unterminated `${...}` placeholder".to_owned(),
            ReplaceError::Unset(k) => {
                let mut m = "environment variable `".to_owned();
                append_str(&mut m, k.as_str());
                append_str(&mut m, "` is not set");
                m
            },
        }
    }
}

/// Replaces `${VAR_NAME}` placeholders in `input` with the values of the variables in `env`.
/// Fails at the first placeholder, from the left, that has no closing `}` or names a variable
/// that is not set.
pub fn replace_env_vars(input: &str, env: &EnvVars) -> (r: Result<String, ReplaceError>)
    ensures
        match replace_from(env@, input@, 0) {
            Replaced::Done(t) => r matches Ok(s) && s@ == t,
            Replaced::Unterminated => r matches Err(ReplaceError::Unterminated),
            Replaced::Unset(k) => r matches Err(ReplaceError::Unset(s)) && s@ == k,
        },
{
    let c = chars_of(input);
    let mut result = String::new();
    let mut i: usize = 0;
    loop
        invariant
            i <= c@.len(),
            c@ == input@,
            match replace_from(env@, c@, 0) {
                Replaced::Done(t) => replace_from(env@, c@, i as int) matches Replaced::Done(u) && t == result@ + u,
                other => replace_from(env@, c@, i as int) == other,
            },
        decreases c@.len() - i,
    {
        let ghost start = i;
        proof {
            lemma_find_open_bounds(c@, i as int);
        }
        let mut o = i;
        while o < c.len() && o + 1 < c.len() && !(c[o] == '$' && c[o + 1] == '{')
            invariant
                start <= o <= c@.len(),
                find_open(c@, start as int) == find_open(c@, o as int),
            decreases c@.len() - o,
        {
            o += 1;
        }
        let found = o < c.len() && o + 1 < c.len();
        if !found {
            let rest = string_of_range(&c, i, c.len());
            append_str(&mut result, rest.as_str());
            return Ok(result);
        }
        let before = string_of_range(&c, i, o);
        let mut k = o + 2;
        proof {
            lemma_find_close_bounds(c@, o + 2);
        }
        while k < c.len() && c[k] != '}'
            invariant
                o + 2 <= k <= c@.len(),
                find_close(c@, o + 2) == find_close(c@, k as int),
            decreases c@.len() - k,
        {
            k += 1;
        }
        if k >= c.len() {
            return Err(ReplaceError::Unterminated);
        }
        let key = string_of_range(&c, o + 2, k);
        match env.get(&key) {
            None => {
                return Err(ReplaceError::Unset(key));
            },
            Some(v) => {
                let ghost r0 = result@;
                append_str(&mut result, before.as_str());
                append_str(&mut result, v.as_str());
                proof {
                    match replace_from(env@, c@, 0) {
                        Replaced::Done(t) => {
                            let u1 = replace_from(env@, c@, (k + 1) as int);
                            assert(u1 matches Replaced::Done(u) && t == result@ + u) by {
                                if let Replaced::Done(u) = u1 {
                                    assert(r0 + (c@.subrange(start as int, o as int) + v@ + u) =~= result@ + u);
                                }
                            }
                        },
                        _ => {},
                    }
                }
                i = k + 1;
            },
        }
    }
}

/// The first value that is set, if any.
pub open spec fn or_opt<T>(a: Option<T>, b: Option<T>) -> Option<T> {
    if a is Some {
        a
    } else {
        b
    }
}

/// The value, or `d` when unset.
pub open spec fn value_or<T>(a: Option<T>, d: T) -> T {
    match a {
        Some(x) => x,
        None => d,
    }
}

/// A partial configuration layer that can be merged with lower-precedence values.
pub trait ConfigLayer: Sized {
    /// Merges `self` over `lower`, preserving values from `self` when present.
    fn merge(self, lower: Self) -> Self;
}

/// A configuration layer with every declared default materialized (unlike `Default`, which
/// is the empty layer).
pub trait ConfigDefaults: Sized {
    /// Returns a config layer with all defaults applied.
    fn with_defaults() -> Self;
}

/// The text of each string.
pub open spec fn strings_view(v: Seq<String>) -> Seq<Seq<char>> {
    v.map_values(|s: String| s@)
}

/// A copy of a list of strings.
pub fn clone_strings(v: &Vec<String>) -> (r: Vec<String>)
    ensures
        strings_view(r@) == strings_view(v@),
{
    let mut r: Vec<String> = Vec::new();
    let mut i: usize = 0;
    while i < v.len()
        invariant
            i <= v@.len(),
            strings_view(r@) == strings_view(v@).take(i as int),
        decreases v.len() - i,
    {
        let ghost prev = r@;
        let s = v[i].clone();
        r.push(s);
        assert(strings_view(r@) =~= strings_view(prev).push(s@));
        assert(strings_view(v@)[i as int] == s@);
        assert(strings_view(r@) =~= strings_view(v@).take(i + 1));
        i += 1;
    }
    assert(strings_view(v@).take(v@.len() as int) =~= strings_view(v@));
    r
}

/// A server configuration layer, by its values.
#[verifier::ext_equal]
pub struct ServerConfigView {
    /// Address the HTTP server binds to.
    pub listen: Option<Seq<char>>,
    /// Canonical URL of the deployment.
    pub canonical_url: Option<Seq<char>>,
    /// Additional browser origins allowed to perform passkey ceremonies.
    pub allowed_origins: Option<Seq<Seq<char>>>,
    /// Maximum database connections.
    pub database_max_connections: Option<u32>,
    /// Maximum seconds a request waits for a connection.
    pub database_acquire_timeout_seconds: Option<u64>,
    /// Maximum seconds to wait for graceful shutdown.
    pub graceful_shutdown_timeout_seconds: Option<u64>,
}

/// `upper` merged over `lower`: each value of `upper` that is set, else that of `lower`.
pub open spec fn merge_view(upper: ServerConfigView, lower: ServerConfigView) -> ServerConfigView {
    ServerConfigView {
        listen: or_opt(upper.listen, lower.listen),
        canonical_url: or_opt(upper.canonical_url, lower.canonical_url),
        allowed_origins: or_opt(upper.allowed_origins, lower.allowed_origins),
        database_max_connections: or_opt(upper.database_max_connections, lower.database_max_connections),
        database_acquire_timeout_seconds: or_opt(
            upper.database_acquire_timeout_seconds,
            lower.database_acquire_timeout_seconds,
        ),
        graceful_shutdown_timeout_seconds: or_opt(
            upper.graceful_shutdown_timeout_seconds,
            lower.graceful_shutdown_timeout_seconds,
        ),
    }
}

/// The layer that sets nothing.
pub open spec fn empty_view() -> ServerConfigView {
    ServerConfigView {
        listen: None,
        canonical_url: None,
        allowed_origins: None,
        database_max_connections: None,
        database_acquire_timeout_seconds: None,
        graceful_shutdown_timeout_seconds: None,
    }
}

/// Default listen address.
pub open spec fn default_listen() -> Seq<char> {
    "127.0.0.1:3000"@
}

/// Default canonical URL.
pub open spec fn default_canonical_url() -> Seq<char> {
    "http://localhost:3000"@
}

/// Default maximum database connections.
pub const DEFAULT_DATABASE_MAX_CONNECTIONS: u32 = 8;

/// Default seconds a request waits for a connection.
pub const DEFAULT_DATABASE_ACQUIRE_TIMEOUT_SECONDS: u64 = 5;

/// Default seconds to wait for graceful shutdown.
pub const DEFAULT_GRACEFUL_SHUTDOWN_TIMEOUT_SECONDS: u64 = 30;

/// The layer with every default set.
pub open spec fn defaults_view() -> ServerConfigView {
    ServerConfigView {
        listen: Some(default_listen()),
        canonical_url: Some(default_canonical_url()),
        allowed_origins: Some(Seq::empty()),
        database_max_connections: Some(DEFAULT_DATABASE_MAX_CONNECTIONS),
        database_acquire_timeout_seconds: Some(DEFAULT_DATABASE_ACQUIRE_TIMEOUT_SECONDS),
        graceful_shutdown_timeout_seconds: Some(DEFAULT_GRACEFUL_SHUTDOWN_TIMEOUT_SECONDS),
    }
}

/// Whether the numeric values that are set are positive.
pub open spec fn config_wf(c: ServerConfigView) -> bool {
    &&& c.database_max_connections matches Some(n) ==> n > 0
    &&& c.database_acquire_timeout_seconds matches Some(n) ==> n > 0
    &&& c.graceful_shutdown_timeout_seconds matches Some(n) ==> n > 0
}

/// The server configuration layer. Every value is optional, so that a layer holds only what it
/// provides; the accessors fall back to the defaults.
#[derive(Debug, Default)]
pub struct ServerConfig {
    /// Address the HTTP server should bind to.
    pub listen: Option<String>,
    /// Canonical URL of this deployment.
    pub canonical_url: Option<String>,
    /// Additional exact browser origins allowed to perform passkey ceremonies.
    pub allowed_origins: Option<Vec<String>>,
    /// Maximum database connections owned by this server process (positive).
    pub database_max_connections: Option<u32>,
    /// Maximum seconds a request waits for an available connection (positive).
    pub database_acquire_timeout_seconds: Option<u64>,
    /// Maximum seconds to wait for graceful shutdown (positive).
    pub graceful_shutdown_timeout_seconds: Option<u64>,
}

impl View for ServerConfig {
    type V = ServerConfigView;

    open spec fn view(&self) -> ServerConfigView {
        ServerConfigView {
            listen: opt_chars(self.listen),
            canonical_url: opt_chars(self.canonical_url),
            allowed_origins: match self.allowed_origins {
                Some(v) => Some(strings_view(v@)),
                None => None,
            },
            database_max_connections: self.database_max_connections,
            database_acquire_timeout_seconds: self.database_acquire_timeout_seconds,
            graceful_shutdown_timeout_seconds: self.graceful_shutdown_timeout_seconds,
        }
    }
}

/// The set value of `a`, else that of `b`.
fn first_set<T>(a: Option<T>, b: Option<T>) -> (r: Option<T>)
    ensures
        r == or_opt(a, b),
{
    match a {
        Some(x) => Some(x),
        None => b,
    }
}

impl ConfigLayer for ServerConfig {
    fn merge(self, lower: Self) -> (r: Self)
        ensures
            r@ == merge_view(self@, lower@),
    {
        ServerConfig {
            listen: first_set(self.listen, lower.listen),
            canonical_url: first_set(self.canonical_url, lower.canonical_url),
            allowed_origins: first_set(self.allowed_origins, lower.allowed_origins),
            database_max_connections: first_set(self.database_max_connections, lower.database_max_connections),
            database_acquire_timeout_seconds: first_set(
                self.database_acquire_timeout_seconds,
                lower.database_acquire_timeout_seconds,
            ),
            graceful_shutdown_timeout_seconds: first_set(
                self.graceful_shutdown_timeout_seconds,
                lower.graceful_shutdown_timeout_seconds,
            ),
        }
    }
}

impl ConfigDefaults for ServerConfig {
    fn with_defaults() -> (r: Self)
        ensures
            r@ == defaults_view(),
    {
        let r = ServerConfig {
            listen: Some("127.0.0.1:3000".to_owned()),
            canonical_url: Some("http://localhost:3000".to_owned()),
            allowed_origins: Some(Vec::new()),
            database_max_connections: Some(DEFAULT_DATABASE_MAX_CONNECTIONS),
            database_acquire_timeout_seconds: Some(DEFAULT_DATABASE_ACQUIRE_TIMEOUT_SECONDS),
            graceful_shutdown_timeout_seconds: Some(DEFAULT_GRACEFUL_SHUTDOWN_TIMEOUT_SECONDS),
        };
        assert(strings_view(Seq::<String>::empty()) =~= Seq::<Seq<char>>::empty());
        assert(r@ =~= defaults_view());
        r
    }
}

impl ServerConfig {
    /// The empty layer, which sets nothing.
    pub fn empty() -> (r: Self)
        ensures
            r@ == empty_view(),
    {
        ServerConfig {
            listen: None,
            canonical_url: None,
            allowed_origins: None,
            database_max_connections: None,
            database_acquire_timeout_seconds: None,
            graceful_shutdown_timeout_seconds: None,
        }
    }

    /// Address the HTTP server should bind to.
    pub fn listen(&self) -> (r: String)
        ensures
            r@ == value_or(self@.listen, default_listen()),
    {
        match &self.listen {
            Some(s) => s.clone(),
            None => "127.0.0.1:3000".to_owned(),
        }
    }

    /// Canonical URL of this deployment.
    pub fn canonical_url(&self) -> (r: String)
        ensures
            r@ == value_or(self@.canonical_url, default_canonical_url()),
    {
        match &self.canonical_url {
            Some(s) => s.clone(),
            None => "http://localhost:3000".to_owned(),
        }
    }

    /// Additional exact browser origins allowed to perform passkey ceremonies.
    pub fn allowed_origins(&self) -> (r: Vec<String>)
        ensures
            strings_view(r@) == value_or(self@.allowed_origins, Seq::empty()),
    {
        match &self.allowed_origins {
            Some(v) => clone_strings(v),
            None => {
                let r: Vec<String> = Vec::new();
                assert(strings_view(r@) =~= Seq::<Seq<char>>::empty());
                r
            },
        }
    }

    /// Maximum database connections owned by this server process.
    pub fn database_max_connections(&self) -> (r: u32)
        ensures
            r == value_or(self@.database_max_connections, DEFAULT_DATABASE_MAX_CONNECTIONS),
    {
        match self.database_max_connections {
            Some(n) => n,
            None => DEFAULT_DATABASE_MAX_CONNECTIONS,
        }
    }

    /// Maximum seconds a request waits for an available connection.
    pub fn database_acquire_timeout_seconds(&self) -> (r: u64)
        ensures
            r == value_or(self@.database_acquire_timeout_seconds, DEFAULT_DATABASE_ACQUIRE_TIMEOUT_SECONDS),
    {
        match self.database_acquire_timeout_seconds {
            Some(n) => n,
            None => DEFAULT_DATABASE_ACQUIRE_TIMEOUT_SECONDS,
        }
    }

    /// Maximum seconds to wait for graceful shutdown.
    pub fn graceful_shutdown_timeout_seconds(&self) -> (r: u64)
        ensures
            r == value_or(self@.graceful_shutdown_timeout_seconds, DEFAULT_GRACEFUL_SHUTDOWN_TIMEOUT_SECONDS),
    {
        match self.graceful_shutdown_timeout_seconds {
            Some(n) => n,
            None => DEFAULT_GRACEFUL_SHUTDOWN_TIMEOUT_SECONDS,
        }
    }
}

/// Merging over the empty layer, or the empty layer over another, changes nothing.
pub proof fn merge_identity(c: ServerConfigView)
    ensures
        merge_view(c, empty_view()) == c,
        merge_view(empty_view(), c) == c,
{
    assert(merge_view(c, empty_view()) =~= c);
    assert(merge_view(empty_view(), c) =~= c);
}

/// Merging layers is associative: the highest layer that sets a value decides it.
pub proof fn merge_associative(a: ServerConfigView, b: ServerConfigView, c: ServerConfigView)
    ensures
        merge_view(merge_view(a, b), c) == merge_view(a, merge_view(b, c)),
{
    assert(merge_view(merge_view(a, b), c) =~= merge_view(a, merge_view(b, c)));
}

/// Merging a layer over itself changes nothing.
pub proof fn merge_idempotent(a: ServerConfigView)
    ensures
        merge_view(a, a) == a,
{
    assert(merge_view(a, a) =~= a);
}

/// A layer merged over the defaults sets every value, and keeps each value it sets.
pub proof fn merge_over_defaults(a: ServerConfigView)
    ensures
        ({
            let m = merge_view(a, defaults_view());
            &&& m.listen == Some(value_or(a.listen, default_listen()))
            &&& m.canonical_url == Some(value_or(a.canonical_url, default_canonical_url()))
            &&& m.allowed_origins == Some(value_or(a.allowed_origins, Seq::empty()))
            &&& m.database_max_connections == Some(value_or(a.database_max_connections, DEFAULT_DATABASE_MAX_CONNECTIONS))
            &&& m.database_acquire_timeout_seconds == Some(
                value_or(a.database_acquire_timeout_seconds, DEFAULT_DATABASE_ACQUIRE_TIMEOUT_SECONDS),
            )
            &&& m.graceful_shutdown_timeout_seconds == Some(
                value_or(a.graceful_shutdown_timeout_seconds, DEFAULT_GRACEFUL_SHUTDOWN_TIMEOUT_SECONDS),
            )
        }),
{
}

/// Merging keeps positive values positive, and the defaults are positive.
pub proof fn merge_keeps_wf(a: ServerConfigView, b: ServerConfigView)
    requires
        config_wf(a),
        config_wf(b),
    ensures
        config_wf(merge_view(a, b)),
        config_wf(defaults_view()),
{
}

/// Minimum pool size for a server: realtime holds one connection while request and worker
/// work must still be able to acquire another.
pub const MIN_SERVER_DATABASE_CONNECTIONS: u32 = 2;

/// Runtime settings for one database connection pool.
#[derive(Clone, Copy, Debug, PartialEq, Eq)]
pub struct DatabasePoolSettings {
    /// Maximum number of connections owned by this process (positive).
    pub max_connections: u32,
    /// Maximum seconds a request waits for an available connection.
    pub acquire_timeout_seconds: u64,
}

impl Default for DatabasePoolSettings {
    fn default() -> (s: Self)
        ensures
            s.max_connections == DEFAULT_DATABASE_MAX_CONNECTIONS,
            s.acquire_timeout_seconds == DEFAULT_DATABASE_ACQUIRE_TIMEOUT_SECONDS,
    {
        DatabasePoolSettings {
            max_connections: DEFAULT_DATABASE_MAX_CONNECTIONS,
            acquire_timeout_seconds: DEFAULT_DATABASE_ACQUIRE_TIMEOUT_SECONDS,
        }
    }
}

/// Why the server refuses its configuration.
#[derive(Debug, PartialEq, Eq)]
pub enum ServeError {
    /// The pool is too small to leave a connection beside the realtime listener's.
    PoolTooSmall(u32),
}

impl ServeError {
    /// The error's message.
    pub fn message(&self) -> (m: String)
        ensures
            m@ == "database_max_connections must be at least 2 for `kivald serve` because realtime holds one pool connection"@,
    {
        "database_max_connections must be at least 2 for `kivald serve` because realtime holds one pool connection".to_owned()
    }
}

/// Resolves and validates the database pool budget for the server process: the configured
/// maximum must be at least [`MIN_SERVER_DATABASE_CONNECTIONS`].
pub fn database_pool_settings(config: &ServerConfig) -> (r: Result<DatabasePoolSettings, ServeError>)
    ensures
        ({
            let max = value_or(config@.database_max_connections, DEFAULT_DATABASE_MAX_CONNECTIONS);
            if max >= MIN_SERVER_DATABASE_CONNECTIONS {
                r matches Ok(s) && s.max_connections == max && s.acquire_timeout_seconds == value_or(
                    config@.database_acquire_timeout_seconds,
                    DEFAULT_DATABASE_ACQUIRE_TIMEOUT_SECONDS,
                )
            } else {
                r == Err::<DatabasePoolSettings, ServeError>(ServeError::PoolTooSmall(max))
            }
        }),
{
    let max_connections = config.database_max_connections();
    if max_connections < MIN_SERVER_DATABASE_CONNECTIONS {
        return Err(ServeError::PoolTooSmall(max_connections));
    }
    Ok(DatabasePoolSettings {
        max_connections,
        acquire_timeout_seconds: config.database_acquire_timeout_seconds(),
    })
}

/// Where the `config` command takes its configuration from.
#[derive(Debug, PartialEq, Eq)]
pub enum ConfigSource {
    /// The declared defaults only.
    Defaults,
    /// The defaults, the file at this path when it exists, and the environment.
    File(String),
}

/// The arguments of the `config` command.
#[derive(Debug, Default)]
pub struct ConfigCommand {
    /// The path to the configuration file to use.
    pub config: Option<String>,
    /// Show only declared defaults.
    pub default: bool,
    /// The data directory to use.
    pub datadir: DatadirArgs,
}

impl ConfigCommand {
    /// The source this command reads: the defaults alone with `--default`; else the given file,
    /// or `kival.toml` in the data directory, which must then resolve.
    pub fn config_source(&self, env: &EnvVars) -> (r: ConfigSource)
        requires
            self.default || self.config is Some || self.datadir.datadir@ is Some || data_dir_spec(env@) is Some,
        ensures
            self.default ==> r is Defaults,
            !self.default ==> (r matches ConfigSource::File(p) && p@ == match self.config {
                Some(c) => c@,
                None => path_join(
                    match self.datadir.datadir@ {
                        Some(d) => d,
                        None => data_dir_spec(env@)->0,
                    },
                    DEFAULT_CONFIG_FILENAME@,
                ),
            }),
    {
        if self.default {
            return ConfigSource::Defaults;
        }
        match &self.config {
            Some(c) => ConfigSource::File(c.clone()),
            None => {
                let dir = self.datadir.resolve_path(env);
                ConfigSource::File(join_path(dir.as_str(), DEFAULT_CONFIG_FILENAME))
            },
        }
    }
}

/// The arguments of the `serve` command, each overriding the configuration when given.
#[derive(Debug, Default)]
pub struct ServeCommand {
    /// The path to the configuration file to use.
    pub config: Option<String>,
    /// Enable Prometheus metrics on this address.
    pub metrics: Option<String>,
    /// Address the HTTP server should bind to.
    pub listen: Option<String>,
    /// Canonical URL of this deployment.
    pub canonical_url: Option<String>,
    /// Additional exact browser origins allowed to perform passkey ceremonies.
    pub allowed_origins: Option<Vec<String>>,
    /// Maximum database connections owned by this process (positive).
    pub database_max_connections: Option<u32>,
    /// Maximum seconds a request waits for an available connection (positive).
    pub database_acquire_timeout_seconds: Option<u64>,
    /// Maximum seconds to wait for graceful shutdown (positive).
    pub graceful_shutdown_timeout_seconds: Option<u64>,
}

impl ServeCommand {
    /// The configuration file: the given one, or `kival.toml` in the data directory.
    pub fn config_path(&self, datadir: &str) -> (p: String)
        ensures
            p@ == match self.config {
                Some(c) => c@,
                None => path_join(datadir@, DEFAULT_CONFIG_FILENAME@),
            },
    {
        match &self.config {
            Some(c) => c.clone(),
            None => join_path(datadir, DEFAULT_CONFIG_FILENAME),
        }
    }

    /// The arguments as a configuration layer.
    pub fn as_layer(&self) -> (l: ServerConfig)
        ensures
            l@ == (ServerConfigView {
                listen: opt_chars(self.listen),
                canonical_url: opt_chars(self.canonical_url),
                allowed_origins: match self.allowed_origins {
                    Some(v) => Some(strings_view(v@)),
                    None => None,
                },
                database_max_connections: self.database_max_connections,
                database_acquire_timeout_seconds: self.database_acquire_timeout_seconds,
                graceful_shutdown_timeout_seconds: self.graceful_shutdown_timeout_seconds,
            }),
    {
        ServerConfig {
            listen: match &self.listen {
                Some(s) => Some(s.clone()),
                None => None,
            },
            canonical_url: match &self.canonical_url {
                Some(s) => Some(s.clone()),
                None => None,
            },
            allowed_origins: match &self.allowed_origins {
                Some(v) => Some(clone_strings(v)),
                None => None,
            },
            database_max_connections: self.database_max_connections,
            database_acquire_timeout_seconds: self.database_acquire_timeout_seconds,
            graceful_shutdown_timeout_seconds: self.graceful_shutdown_timeout_seconds,
        }
    }

    /// The loaded configuration with each given argument overriding its value.
    pub fn apply_overrides(&self, config: ServerConfig) -> (r: ServerConfig)
        ensures
            r@ == merge_view(self.as_layer_view(), config@),
    {
        self.as_layer().merge(config)
    }

    /// The arguments as a configuration layer, by value.
    pub open spec fn as_layer_view(&self) -> ServerConfigView {
        ServerConfigView {
            listen: opt_chars(self.listen),
            canonical_url: opt_chars(self.canonical_url),
            allowed_origins: match self.allowed_origins {
                Some(v) => Some(strings_view(v@)),
                None => None,
            },
            database_max_connections: self.database_max_connections,
            database_acquire_timeout_seconds: self.database_acquire_timeout_seconds,
            graceful_shutdown_timeout_seconds: self.graceful_shutdown_timeout_seconds,
        }
    }
}

/// Without a `${` there is nothing to find.
proof fn lemma_find_open_none(s: Seq<char>, i: int)
    requires
        0 <= i,
        forall|k: int| 0 <= k && k + 1 < s.len() ==> !(#[trigger] s[k] == '$' && s[k + 1] == '{'),
    ensures
        find_open(s, i) is None,
    decreases s.len() - i,
{
    if i + 1 < s.len() {
        assert(!(s[i] == '$' && s[i + 1] == '{'));
        lemma_find_open_none(s, i + 1);
    }
}

/// A text without any `${` comes back unchanged, whatever the environment holds.
pub proof fn replace_without_placeholders_is_identity(env: Seq<(Seq<char>, Seq<char>)>, s: Seq<char>)
    requires
        forall|k: int| 0 <= k && k + 1 < s.len() ==> !(#[trigger] s[k] == '$' && s[k + 1] == '{'),
    ensures
        replace_from(env, s, 0) == Replaced::Done(s),
{
    lemma_find_open_none(s, 0);
    assert(s.subrange(0, s.len() as int) =~= s);
}

} // verus!
