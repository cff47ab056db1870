use kival::dirs::{cache_dir, data_dir, join_path, logs_dir, DataDirPath, LogsDir, MaybePlatformPath, PlatformPath, XdgPath};
use kival::env::EnvVars;

fn env(pairs: &[(&str, &str)]) -> EnvVars {
    EnvVars { vars: pairs.iter().map(|(k, v)| (k.to_string(), v.to_string())).collect() }
}

#[test]
fn xdg_variables_take_precedence_when_absolute() {
    let vars = env(&[("HOME", "/home/u"), ("XDG_DATA_HOME", "/xdg/data"), ("XDG_CACHE_HOME", "relative")]);
    assert_eq!(data_dir(&vars).as_deref(), Some("/xdg/data/kival"));
    assert_eq!(cache_dir(&vars).as_deref(), Some("/home/u/.cache/kival"));
    assert_eq!(logs_dir(&vars).as_deref(), Some("/home/u/.cache/kival/logs"));
    assert_eq!(DataDirPath::resolve(&vars).as_deref(), Some("/xdg/data/kival"));
    assert_eq!(LogsDir::resolve(&vars).as_deref(), Some("/home/u/.cache/kival/logs"));
}

#[test]
fn no_home_means_no_directory() {
    assert_eq!(data_dir(&env(&[])), None);
    assert_eq!(data_dir(&env(&[("HOME", "")])), None);
    assert_eq!(logs_dir(&env(&[("XDG_CACHE_HOME", "/c")])).as_deref(), Some("/c/kival/logs"));
}

#[test]
fn joining_paths() {
    assert_eq!(join_path("/a", "b"), "/a/b");
    assert_eq!(join_path("/a/", "b"), "/a/b");
    assert_eq!(join_path("", "b"), "b");
    assert_eq!(join_path("/a", "/b"), "/b");
    assert_eq!(join_path("/a", ""), "/a/");
    let p: PlatformPath<DataDirPath> = PlatformPath::from_str("/srv");
    assert_eq!(p.join("blobs").as_str(), "/srv/blobs");
}

#[test]
fn unset_path_falls_back_to_the_standard_directory() {
    let vars = env(&[("HOME", "/home/u")]);
    let unset: MaybePlatformPath<DataDirPath> = MaybePlatformPath::unset();
    assert_eq!(unset.unwrap_or_default(&vars).into_string(), "/home/u/.local/share/kival");
    let set: MaybePlatformPath<DataDirPath> = MaybePlatformPath::from_path("/x".to_string());
    assert_eq!(set.unwrap_or_default(&vars).into_string(), "/x");
    assert_eq!(set.as_ref(), Some("/x"));
}
