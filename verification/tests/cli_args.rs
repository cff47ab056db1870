use kival::args::{log_file_limits, ArgError, ColorMode, DatadirArgs, DefaultLogArgs, LevelDirective, LogFileLimits, Verbosity};
use kival::dirs::MaybePlatformPath;

/// A helper type to parse the data directory arguments the way the command line does.
struct CommandParser<T> {
    args: T,
}

impl CommandParser<DatadirArgs> {
    fn parse_from<const N: usize>(args: [&str; N]) -> Self {
        let args: Vec<String> = args.iter().map(|a| a.to_string()).collect();
        CommandParser { args: DatadirArgs::parse_from(&args).expect("arguments should parse") }
    }
}

#[test]
fn parse_datadir_args() {
    let default_args = DatadirArgs::default();
    let args = CommandParser::<DatadirArgs>::parse_from(["kival"]).args;
    assert_eq!(args, default_args);
}

#[test]
fn datadir_flag_forms_set_the_path() {
    for form in [
        vec!["kival", "-d", "/srv/kival"],
        vec!["kival", "--datadir", "/srv/kival"],
        vec!["kival", "--datadir=/srv/kival"],
    ] {
        let args: Vec<String> = form.iter().map(|a| a.to_string()).collect();
        let parsed = DatadirArgs::parse_from(&args).expect("should parse");
        assert_eq!(parsed.datadir.as_ref(), Some("/srv/kival"));
    }
}

#[test]
fn datadir_default_word_leaves_the_path_unset() {
    let args: Vec<String> = ["kival", "--datadir", "default"].iter().map(|a| a.to_string()).collect();
    let parsed = DatadirArgs::parse_from(&args).expect("should parse");
    assert!(!parsed.datadir.is_some());
}

#[test]
fn datadir_argument_errors() {
    let to_vec = |a: &[&str]| a.iter().map(|s| s.to_string()).collect::<Vec<String>>();
    assert_eq!(
        DatadirArgs::parse_from(&to_vec(&["kival", "--verbose"])),
        Err(ArgError::Unexpected("--verbose".to_string()))
    );
    assert_eq!(
        DatadirArgs::parse_from(&to_vec(&["kival", "-d"])),
        Err(ArgError::MissingValue("-d".to_string()))
    );
    assert_eq!(
        DatadirArgs::parse_from(&to_vec(&["kival", "-d", "/a", "--datadir=/b"])),
        Err(ArgError::Repeated)
    );
}

#[test]
fn maybe_path_displays_and_parses_back() {
    let unset: MaybePlatformPath<kival::dirs::DataDirPath> = MaybePlatformPath::from_str("default");
    assert_eq!(unset.display(), "default");
    let set: MaybePlatformPath<kival::dirs::DataDirPath> = MaybePlatformPath::from_str("/tmp/x");
    assert_eq!(set.display(), "/tmp/x");
    assert_eq!(MaybePlatformPath::<kival::dirs::DataDirPath>::from_str(&set.display()), set);
}

#[test]
fn verbosity_levels() {
    assert_eq!(Verbosity::new(1, false).directive(), LevelDirective::Error);
    assert_eq!(Verbosity::new(2, false).directive(), LevelDirective::Warn);
    assert_eq!(Verbosity::default().directive(), LevelDirective::Info);
    assert_eq!(Verbosity::new(4, false).directive(), LevelDirective::Debug);
    assert_eq!(Verbosity::new(9, false).directive(), LevelDirective::Trace);
    assert_eq!(Verbosity::new(3, true).directive(), LevelDirective::Off);
    assert!(Verbosity::new(3, true).is_quiet());
    assert_eq!(LevelDirective::Warn.as_str(), "warn");
}

#[test]
fn color_mode_names() {
    assert_eq!(ColorMode::Always.as_str(), "always");
    assert_eq!(ColorMode::Auto.as_str(), "auto");
    assert_eq!(ColorMode::Never.as_str(), "never");
}

#[test]
fn log_defaults_and_file_limits() {
    let defaults = DefaultLogArgs::default();
    assert_eq!(defaults.log_file_filter, "debug");
    assert_eq!(defaults.log_file_name, "kival.log");
    assert_eq!(defaults.log_file_max_size, 200);
    assert_eq!(defaults.journald_filter, "error");
    assert_eq!(defaults.color, ColorMode::Always);
    assert_eq!(log_file_limits(200, 5), Some(LogFileLimits { max_bytes: 200 * 1024 * 1024, max_files: 5 }));
    assert_eq!(log_file_limits(200, 0), None);
}
