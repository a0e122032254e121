use git_bak::config::{ConfigFile, RawConfig, WatchMode, WorkspaceConfig};
use git_bak::error::Error;

/// The settings in a text.
fn parse(text: &str) -> RawConfig {
    let table: toml::Table = text.parse().unwrap_or_else(|err| panic!("{err}"));
    let number = |name: &str| {
        table
            .get(name)
            .and_then(toml::Value::as_integer)
            .and_then(|value| u64::try_from(value).ok())
    };
    let text = |name: &str| table.get(name).and_then(toml::Value::as_str).map(str::to_owned);
    RawConfig {
        workspace: text("workspace").unwrap_or_default(),
        watch: table.get("watch").and_then(toml::Value::as_array).map(|values| {
            values
                .iter()
                .filter_map(toml::Value::as_str)
                .map(str::to_owned)
                .collect()
        }),
        debounce_ms: number("debounce_ms"),
        push_interval_sec: number("push_interval_sec"),
        push_commit_threshold: number("push_commit_threshold")
            .and_then(|value| usize::try_from(value).ok()),
        push_backoff_base_sec: number("push_backoff_base_sec"),
        storm_window_sec: number("storm_window_sec"),
        hook_signal_dir: text("hook_signal_dir"),
        mode: text("mode").map(|mode| {
            if mode == "hook" {
                WatchMode::Hook
            } else {
                WatchMode::Watcher
            }
        }),
    }
}

#[test]
fn test_load_config_uses_defaults_for_optional_fields() {
    let file = ConfigFile::Parsed(parse("workspace = \"/tmp/repo\"\n"));
    let config = match WorkspaceConfig::load("personaguard.toml", file) {
        Ok(config) => config,
        Err(err) => panic!("failed to load config: {err:?}"),
    };

    assert_eq!(config.workspace, "/tmp/repo");
    assert_eq!(config.watch.len(), 7);
    assert_eq!(config.debounce_ms, 1_500);
    assert_eq!(config.push_interval_sec, 600);
    assert_eq!(config.mode, WatchMode::Watcher);
    assert_eq!(config.push_commit_threshold, 50);
    assert_eq!(config.push_backoff_base_sec, 30);
    assert_eq!(config.storm_window_sec, 5);
    assert_eq!(config.hook_signal_dir, ".git-bak/hooks");
    assert_eq!(
        config.watch,
        [
            "SOUL.md",
            "AGENTS.md",
            "USER.md",
            "IDENTITY.md",
            "TOOLS.md",
            "MEMORY.md",
            "memory/*.md"
        ]
    );
}

#[test]
fn given_settings_are_kept() {
    let text = "workspace = \"/w\"\nwatch = []\ndebounce_ms = 0\npush_interval_sec = 1\n\
                push_commit_threshold = 2\npush_backoff_base_sec = 3\nstorm_window_sec = 4\n\
                hook_signal_dir = \"/h\"\nmode = \"hook\"\n";
    let config = WorkspaceConfig::load("c", ConfigFile::Parsed(parse(text)))
        .unwrap_or_else(|err| panic!("{err:?}"));
    assert_eq!(
        config,
        WorkspaceConfig {
            workspace: "/w".to_owned(),
            watch: vec![],
            debounce_ms: 0,
            push_interval_sec: 1,
            push_commit_threshold: 2,
            push_backoff_base_sec: 3,
            storm_window_sec: 4,
            hook_signal_dir: "/h".to_owned(),
            mode: WatchMode::Hook,
        }
    );
    assert_eq!(config.clone(), config);
}

#[test]
fn a_file_that_cannot_be_used_is_an_error() {
    let unreadable = ConfigFile::Unreadable("no such file".to_owned());
    let malformed = ConfigFile::Malformed("expected `=`".to_owned());
    assert!(matches!(
        WorkspaceConfig::load("/w/personaguard.toml", unreadable),
        Err(Error::Config(message))
            if message.contains("/w/personaguard.toml") && message.ends_with(": no such file")
    ));
    assert!(matches!(
        WorkspaceConfig::load("/w/personaguard.toml", malformed),
        Err(Error::Config(message))
            if message.contains("/w/personaguard.toml") && message.ends_with(": expected `=`")
    ));
}
