//! Command-line arguments shared by the binaries: the data directory and the verbosity.
use vstd::prelude::*;
use crate::dirs::{DataDirPath, MaybePlatformPath, PlatformPath, XdgPath, data_dir_spec, parse_maybe_path};
use crate::env::EnvVars;
use crate::text::{chars_of, str_eq, string_of_range};

verus! {

/// Parameters for the data directory.
#[derive(Debug, Default, PartialEq, Eq)]
pub struct DatadirArgs {
    /// The directory for all files and subdirectories; unset means the standard data
    /// directory (`$XDG_DATA_HOME/kival` or `$HOME/.local/share/kival`).
    pub datadir: MaybePlatformPath<DataDirPath>,
}

/// Why the data directory arguments were refused.
#[derive(Debug, PartialEq, Eq)]
pub enum ArgError {
    /// An argument that no parameter takes.
    Unexpected(String),
    /// A flag at the end of the arguments, without its value.
    MissingValue(String),
    /// The data directory was given more than once.
    Repeated,
}

/// Outcome of reading data directory arguments, by their characters.
pub enum ArgParse {
    /// The data directory that was given, if any, as `MaybePlatformPath` parses it.
    Parsed(Option<Seq<char>>),
    /// An argument that no parameter takes.
    Unexpected(Seq<char>),
    /// A flag without its value.
    MissingValue(Seq<char>),
    /// The data directory was given more than once.
    Repeated,
}

/// Whether `t` names the data directory flag that takes the next argument.
pub open spec fn is_datadir_flag(t: Seq<char>) -> bool {
    t == "-d"@ || t == "--datadir"@
}

/// Whether `t` gives the data directory inline, after `--datadir=`.
pub open spec fn is_datadir_inline(t: Seq<char>) -> bool {
    "--datadir="@.is_prefix_of(t)
}

/// Reads `args[i..]`; `cur` is the path given so far, `seen` whether one was given.
pub open spec fn parse_datadir_from(args: Seq<Seq<char>>, i: int, seen: bool, cur: Option<Seq<char>>) -> ArgParse
    decreases args.len() - i,
{
    if i < 0 || i >= args.len() {
        ArgParse::Parsed(cur)
    } else if is_datadir_flag(args[i]) {
        if seen {
            ArgParse::Repeated
        } else if i + 1 >= args.len() {
            ArgParse::MissingValue(args[i])
        } else {
            parse_datadir_from(args, i + 2, true, parse_maybe_path(args[i + 1]))
        }
    } else if is_datadir_inline(args[i]) {
        if seen {
            ArgParse::Repeated
        } else {
            parse_datadir_from(args, i + 1, true, parse_maybe_path(args[i].skip(10)))
        }
    } else {
        ArgParse::Unexpected(args[i])
    }
}

/// What a command line (program name first) gives for the data directory.
pub open spec fn parse_datadir_args(args: Seq<Seq<char>>) -> ArgParse {
    parse_datadir_from(args, 1, false, None)
}

/// The text of each argument.
pub open spec fn args_view(args: Seq<String>) -> Seq<Seq<char>> {
    args.map_values(|a: String| a@)
}

impl DatadirArgs {
    /// Reads the data directory from a command line whose first item is the program name:
    /// `-d PATH`, `--datadir PATH` or `--datadir=PATH`, where `default` leaves it unset.
    pub fn parse_from(args: &Vec<String>) -> (r: Result<DatadirArgs, ArgError>)
        ensures
            match parse_datadir_args(args_view(args@)) {
                ArgParse::Parsed(p) => r matches Ok(a) && a.datadir@ == p,
                ArgParse::Unexpected(t) => r matches Err(ArgError::Unexpected(s)) && s@ == t,
                ArgParse::MissingValue(t) => r matches Err(ArgError::MissingValue(s)) && s@ == t,
                ArgParse::Repeated => r matches Err(ArgError::Repeated),
            },
    {
        let ghost av = args_view(args@);
        let mut datadir: MaybePlatformPath<DataDirPath> = MaybePlatformPath::unset();
        let mut seen = false;
        let mut i: usize = 1;
        if args.len() == 0 {
            return Ok(DatadirArgs { datadir });
        }
        while i < args.len()
            invariant
                1 <= i <= args@.len() + 1,
                av == args_view(args@),
                parse_datadir_args(av) == parse_datadir_from(av, i as int, seen, datadir@),
            decreases args.len() + 1 - i,
        {
            let t = args[i].as_str();
            assert(av[i as int] == t@);
            if str_eq(t, "-d") || str_eq(t, "--datadir") {
                if seen {
                    return Err(ArgError::Repeated);
                }
                if i + 1 >= args.len() {
                    return Err(ArgError::MissingValue(t.to_owned()));
                }
                assert(av[i + 1] == args@[i + 1]@);
                datadir = MaybePlatformPath::from_str(args[i + 1].as_str());
                seen = true;
                i = i + 2;
            } else {
                let tc = chars_of(t);
                let prefix = chars_of("--datadir=");
                proof {
                    reveal_strlit("--datadir=");
                }
                let mut inline = tc.len() >= 10;
                let mut k: usize = 0;
                while inline && k < 10
                    invariant
                        k <= 10,
                        prefix@ == "--datadir="@,
                        prefix@.len() == 10,
                        inline ==> tc@.len() >= 10,
                        inline ==> forall|j: int| 0 <= j < k ==> tc@[j] == prefix@[j],
                        !inline ==> !is_datadir_inline(tc@),
                    decreases 10 - k,
                {
                    if tc[k] != prefix[k] {
                        inline = false;
                        proof {
                            if "--datadir="@.is_prefix_of(tc@) {
                                assert(tc@.subrange(0, 10)[k as int] == tc@[k as int]);
                            }
                        }
                    }
                    k += 1;
                }
                if !inline {
                    return Err(ArgError::Unexpected(t.to_owned()));
                }
                if seen {
                    return Err(ArgError::Repeated);
                }
                assert("--datadir="@.is_prefix_of(tc@));
                let rest = string_of_range(&tc, 10, tc.len());
                assert(tc@.subrange(10, tc@.len() as int) =~= tc@.skip(10));
                datadir = MaybePlatformPath::from_str(rest.as_str());
                seen = true;
                i = i + 1;
            }
        }
        Ok(DatadirArgs { datadir })
    }

    /// Resolves the final data directory, falling back to the standard one if unset; that one
    /// must resolve: there is no directory to fall back to otherwise.
    pub fn resolve_datadir(&self, env: &EnvVars) -> (p: PlatformPath<DataDirPath>)
        requires
            self.datadir@ is Some || data_dir_spec(env@) is Some,
        ensures
            p@ == match self.datadir@ {
                Some(s) => s,
                None => data_dir_spec(env@)->0,
            },
    {
        self.datadir.unwrap_or_default(env)
    }

    /// Resolves the final data directory as path text.
    pub fn resolve_path(&self, env: &EnvVars) -> (p: String)
        requires
            self.datadir@ is Some || data_dir_spec(env@) is Some,
        ensures
            p@ == match self.datadir@ {
                Some(s) => s,
                None => data_dir_spec(env@)->0,
            },
    {
        self.resolve_datadir(env).into_string()
    }
}

/// Whether to color terminal output.
#[derive(Debug, Clone, Copy, PartialEq, Eq)]
pub enum ColorMode {
    /// Colors on.
    Always,
    /// Auto-detect.
    Auto,
    /// Colors off.
    Never,
}

/// The name of a color mode.
pub open spec fn color_mode_name(c: ColorMode) -> Seq<char> {
    match c {
        ColorMode::Always => "always"@,
        ColorMode::Auto => "auto"@,
        ColorMode::Never => "never"@,
    }
}

impl ColorMode {
    /// The name of the mode (`Display`).
    pub fn as_str(&self) -> (s: &'static str)
        ensures
            s@ == color_mode_name(*self),
    {
        match self {
            ColorMode::Always => "always",
            ColorMode::Auto => "auto",
            ColorMode::Never => "never",
        }
    }
}

/// The least severe level that is logged, or none at all.
#[derive(Debug, Clone, Copy, PartialEq, Eq)]
pub enum LevelDirective {
    /// Nothing is logged.
    Off,
    /// Errors.
    Error,
    /// Warnings and worse.
    Warn,
    /// Information and worse.
    Info,
    /// Debugging output and worse.
    Debug,
    /// Everything.
    Trace,
}

impl LevelDirective {
    /// The directive's text, as a log filter reads it.
    pub fn as_str(&self) -> (s: &'static str)
        ensures
            s@ == level_name(*self),
    {
        match self {
            LevelDirective::Off => "off",
            LevelDirective::Error => "error",
            LevelDirective::Warn => "warn",
            LevelDirective::Info => "info",
            LevelDirective::Debug => "debug",
            LevelDirective::Trace => "trace",
        }
    }
}

/// The text of a level directive.
pub open spec fn level_name(d: LevelDirective) -> Seq<char> {
    match d {
        LevelDirective::Off => "off"@,
        LevelDirective::Error => "error"@,
        LevelDirective::Warn => "warn"@,
        LevelDirective::Info => "info"@,
        LevelDirective::Debug => "debug"@,
        LevelDirective::Trace => "trace"@,
    }
}

/// The level for `count` repetitions of `-v` (at least one), or off when quiet.
pub open spec fn directive_for(count: u8, quiet: bool) -> LevelDirective {
    if quiet {
        LevelDirective::Off
    } else if count == 1 {
        LevelDirective::Error
    } else if count == 2 {
        LevelDirective::Warn
    } else if count == 3 {
        LevelDirective::Info
    } else if count == 4 {
        LevelDirective::Debug
    } else {
        LevelDirective::Trace
    }
}

/// Verbosity settings: how many times `-v` was given (3 when absent) and `--quiet`.
#[derive(Debug, Clone, Copy, PartialEq, Eq)]
pub struct Verbosity {
    /// The minimum log level: 1 errors, 2 warnings, 3 info, 4 debug, 5 and more traces.
    verbosity: u8,
    /// Silence all log output.
    quiet: bool,
}

impl View for Verbosity {
    type V = (u8, bool);

    closed spec fn view(&self) -> (u8, bool) {
        (self.verbosity, self.quiet)
    }
}

impl Default for Verbosity {
    fn default() -> (v: Self)
        ensures
            v@ == (3u8, false),
    {
        Verbosity { verbosity: 3, quiet: false }
    }
}

impl Verbosity {
    /// Settings with the given count of `-v` and quiet flag.
    pub fn new(verbosity: u8, quiet: bool) -> (v: Self)
        ensures
            v@ == (verbosity, quiet),
    {
        Verbosity { verbosity, quiet }
    }

    /// Whether all terminal output controlled by the verbosity settings should be suppressed.
    pub fn is_quiet(&self) -> (b: bool)
        ensures
            b == self@.1,
    {
        self.quiet
    }

    /// The level directive for these settings; off when quiet. A count of zero without
    /// `--quiet` is refused: the level is one below the count.
    pub fn directive(&self) -> (d: LevelDirective)
        requires
            self@.1 || self@.0 >= 1,
        ensures
            d == directive_for(self@.0, self@.1),
    {
        if self.quiet {
            LevelDirective::Off
        } else {
            match self.verbosity - 1 {
                0 => LevelDirective::Error,
                1 => LevelDirective::Warn,
                2 => LevelDirective::Info,
                3 => LevelDirective::Debug,
                _ => LevelDirective::Trace,
            }
        }
    }
}

/// Bytes in a megabyte, for log file sizes.
pub const MB_TO_BYTES: u64 = 1024 * 1024;

/// Size and count limits of the log files, when file logging is on.
#[derive(Debug, Clone, Copy, PartialEq, Eq)]
pub struct LogFileLimits {
    /// Maximum size of one file, in bytes.
    pub max_bytes: u64,
    /// Maximum number of files kept.
    pub max_files: usize,
}

/// The log file limits: none when `max_files` is zero, which turns file logging off; else the
/// size in megabytes converted to bytes.
pub fn log_file_limits(max_size_mb: u64, max_files: usize) -> (r: Option<LogFileLimits>)
    requires
        max_files == 0 || max_size_mb * MB_TO_BYTES <= u64::MAX,
    ensures
        max_files == 0 ==> r is None,
        max_files > 0 ==> r == Some(LogFileLimits { max_bytes: (max_size_mb * MB_TO_BYTES) as u64, max_files }),
{
    if max_files > 0 {
        Some(LogFileLimits { max_bytes: max_size_mb * MB_TO_BYTES, max_files })
    } else {
        None
    }
}

/// Default values of the log configuration (the formats belong to the tracing setup).
#[derive(Debug)]
pub struct DefaultLogArgs {
    /// Default stdout filter directives.
    pub log_stdout_filter: String,
    /// Default file log filter directives.
    pub log_file_filter: String,
    /// Default file log name.
    pub log_file_name: String,
    /// Default maximum file log size in megabytes.
    pub log_file_max_size: u64,
    /// Default maximum number of log files.
    pub log_file_max_files: usize,
    /// Whether journald logging is enabled by default.
    pub journald: bool,
    /// Default journald filter directives.
    pub journald_filter: String,
    /// Default terminal color mode.
    pub color: ColorMode,
}

impl Default for DefaultLogArgs {
    fn default() -> (d: Self)
        ensures
            d.log_stdout_filter@ == Seq::<char>::empty(),
            d.log_file_filter@ == "debug"@,
            d.log_file_name@ == "kival.log"@,
            d.log_file_max_size == 200,
            d.log_file_max_files == 5,
            !d.journald,
            d.journald_filter@ == "error"@,
            d.color == ColorMode::Always,
    {
        DefaultLogArgs {
            log_stdout_filter: String::new(),
            log_file_filter: "debug".to_owned(),
            log_file_name: "kival.log".to_owned(),
            log_file_max_size: 200,
            log_file_max_files: 5,
            journald: false,
            journald_filter: "error".to_owned(),
            color: ColorMode::Always,
        }
    }
}

} // verus!
