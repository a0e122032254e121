//! The settings of a workspace.
use vstd::prelude::*;

use crate::error::{config_error, Error, ErrorKind, ErrorView};
use crate::executor::option_view;
use crate::filter::{
    allowed, denied, law_a_pattern_allows_what_it_matches, law_each_pattern_allows_by_itself,
    law_named_files_are_allowed, law_only_secrets_are_denied,
    law_wildcards_stand_for_what_is_there, watched,
};
use crate::paths::{is_name, joined_path, normalized};
use crate::text::{copy_texts, views};

verus! {

/// Who starts a backup: a watcher that runs all the time, or a hook.
#[derive(Debug, Default, Clone, Copy, PartialEq, Eq, Structural)]
pub enum WatchMode {
    #[default]
    Watcher,
    Hook,
}

/// The settings of a workspace.
#[derive(Debug, PartialEq, Eq)]
pub struct WorkspaceConfig {
    pub workspace: String,
    pub watch: Vec<String>,
    pub debounce_ms: u64,
    pub push_interval_sec: u64,
    pub push_commit_threshold: usize,
    pub push_backoff_base_sec: u64,
    pub storm_window_sec: u64,
    pub hook_signal_dir: String,
    pub mode: WatchMode,
}

/// The settings as a file gives them: everything but the workspace may be missing.
#[derive(Debug)]
pub struct RawConfig {
    pub workspace: String,
    pub watch: Option<Vec<String>>,
    pub debounce_ms: Option<u64>,
    pub push_interval_sec: Option<u64>,
    pub push_commit_threshold: Option<usize>,
    pub push_backoff_base_sec: Option<u64>,
    pub storm_window_sec: Option<u64>,
    pub hook_signal_dir: Option<String>,
    pub mode: Option<WatchMode>,
}

/// What came of reading a file of settings: it could not be read, it is not a file of settings,
/// or it holds these.
#[derive(Debug)]
pub enum ConfigFile {
    Unreadable(String),
    Malformed(String),
    Parsed(RawConfig),
}

/// The settings of a workspace, as characters.
#[verifier::ext_equal]
pub struct ConfigView {
    pub workspace: Seq<char>,
    pub watch: Seq<Seq<char>>,
    pub debounce_ms: u64,
    pub push_interval_sec: u64,
    pub push_commit_threshold: usize,
    pub push_backoff_base_sec: u64,
    pub storm_window_sec: u64,
    pub hook_signal_dir: Seq<char>,
    pub mode: WatchMode,
}

impl View for WorkspaceConfig {
    type V = ConfigView;

    open spec fn view(&self) -> ConfigView {
        ConfigView {
            workspace: self.workspace@,
            watch: views(self.watch@),
            debounce_ms: self.debounce_ms,
            push_interval_sec: self.push_interval_sec,
            push_commit_threshold: self.push_commit_threshold,
            push_backoff_base_sec: self.push_backoff_base_sec,
            storm_window_sec: self.storm_window_sec,
            hook_signal_dir: self.hook_signal_dir@,
            mode: self.mode,
        }
    }
}

impl Clone for WorkspaceConfig {
    fn clone(&self) -> (copy: WorkspaceConfig)
        ensures
            copy@ == self@,
    {
        WorkspaceConfig {
            workspace: self.workspace.clone(),
            watch: copy_texts(self.watch.as_slice()),
            debounce_ms: self.debounce_ms,
            push_interval_sec: self.push_interval_sec,
            push_commit_threshold: self.push_commit_threshold,
            push_backoff_base_sec: self.push_backoff_base_sec,
            storm_window_sec: self.storm_window_sec,
            hook_signal_dir: self.hook_signal_dir.clone(),
            mode: self.mode,
        }
    }
}

/// The patterns that are watched where a file names none.
pub open spec fn default_patterns() -> Seq<Seq<char>> {
    seq![
        "SOUL.md"@,
        "AGENTS.md"@,
        "USER.md"@,
        "IDENTITY.md"@,
        "TOOLS.md"@,
        "MEMORY.md"@,
        "memory/*.md"@,
    ]
}

/// The value, or the one that stands for a missing value.
pub open spec fn given_or<T>(value: Option<T>, default: T) -> T {
    match value {
        Some(value) => value,
        None => default,
    }
}

/// The patterns that a file names, as characters.
pub open spec fn patterns_view(patterns: Option<Vec<String>>) -> Option<Seq<Seq<char>>> {
    match patterns {
        Some(patterns) => Some(views(patterns@)),
        None => None,
    }
}

/// The settings with everything that is missing filled in.
pub open spec fn completed(raw: RawConfig) -> ConfigView {
    ConfigView {
        workspace: raw.workspace@,
        watch: given_or(patterns_view(raw.watch), default_patterns()),
        debounce_ms: given_or(raw.debounce_ms, 1500),
        push_interval_sec: given_or(raw.push_interval_sec, 600),
        push_commit_threshold: given_or(raw.push_commit_threshold, 50),
        push_backoff_base_sec: given_or(raw.push_backoff_base_sec, 30),
        storm_window_sec: given_or(raw.storm_window_sec, 5),
        hook_signal_dir: given_or(option_view(raw.hook_signal_dir), ".git-bak/hooks"@),
        mode: given_or(raw.mode, WatchMode::Watcher),
    }
}

/// The settings that a file gives, or why there are none.
pub open spec fn loaded(config_path: Seq<char>, file: ConfigFile) -> Result<ConfigView, ErrorView> {
    match file {
        ConfigFile::Unreadable(source) => Err(
            config_error("failed to read config at "@ + config_path + ": "@ + source@),
        ),
        ConfigFile::Malformed(source) => Err(
            config_error("failed to parse config at "@ + config_path + ": "@ + source@),
        ),
        ConfigFile::Parsed(raw) => Ok(completed(raw)),
    }
}

/// The patterns that are watched where a file names none.
pub fn default_watch_patterns() -> (patterns: Vec<String>)
    ensures
        views(patterns@) == default_patterns(),
{
    let patterns: Vec<String> =
        vec![
            "SOUL.md".to_owned(),
            "AGENTS.md".to_owned(),
            "USER.md".to_owned(),
            "IDENTITY.md".to_owned(),
            "TOOLS.md".to_owned(),
            "MEMORY.md".to_owned(),
            "memory/*.md".to_owned(),
        ];
    assert(views(patterns@) =~= default_patterns());
    patterns
}

/// How long a file must rest, where a file of settings does not say it.
pub fn default_debounce_ms() -> (ms: u64)
    ensures
        ms == 1500,
{
    1_500
}

/// How long a push waits, where a file of settings does not say it.
pub fn default_push_interval_sec() -> (seconds: u64)
    ensures
        seconds == 600,
{
    600
}

/// How many commits call for a push, where a file of settings does not say it.
pub fn default_push_commit_threshold() -> (commits: usize)
    ensures
        commits == 50,
{
    50
}

/// How long the first retry of a push waits, where a file of settings does not say it.
pub fn default_push_backoff_base_sec() -> (seconds: u64)
    ensures
        seconds == 30,
{
    30
}

/// How long a file's changes are held back after a commit, where a file of settings does not
/// say it.
pub fn default_storm_window_sec() -> (seconds: u64)
    ensures
        seconds == 5,
{
    5
}

/// Where hooks leave their signals, where a file of settings does not say it.
pub fn default_hook_signal_dir() -> (dir: String)
    ensures
        dir@ == ".git-bak/hooks"@,
{
    ".git-bak/hooks".to_owned()
}

impl WorkspaceConfig {
    /// The settings that a file gives, with everything that is missing filled in.
    pub fn load(config_path: &str, file: ConfigFile) -> (result: Result<Self, Error>)
        ensures
            loaded(config_path@, file) == (match result {
                Ok(config) => Ok(config@),
                Err(error) => Err(error@),
            }),
    {
        match file {
            ConfigFile::Unreadable(source) => {
                let mut message: String = "failed to read config at ".to_owned();
                message.append(config_path);
                message.append(": ");
                message.append(source.as_str());
                Err(Error::Config(message))
            },
            ConfigFile::Malformed(source) => {
                let mut message: String = "failed to parse config at ".to_owned();
                message.append(config_path);
                message.append(": ");
                message.append(source.as_str());
                Err(Error::Config(message))
            },
            ConfigFile::Parsed(raw) => Ok(
                WorkspaceConfig {
                    workspace: raw.workspace,
                    watch: match raw.watch {
                        Some(watch) => watch,
                        None => default_watch_patterns(),
                    },
                    debounce_ms: match raw.debounce_ms {
                        Some(ms) => ms,
                        None => default_debounce_ms(),
                    },
                    push_interval_sec: match raw.push_interval_sec {
                        Some(seconds) => seconds,
                        None => default_push_interval_sec(),
                    },
                    push_commit_threshold: match raw.push_commit_threshold {
                        Some(commits) => commits,
                        None => default_push_commit_threshold(),
                    },
                    push_backoff_base_sec: match raw.push_backoff_base_sec {
                        Some(seconds) => seconds,
                        None => default_push_backoff_base_sec(),
                    },
                    storm_window_sec: match raw.storm_window_sec {
                        Some(seconds) => seconds,
                        None => default_storm_window_sec(),
                    },
                    hook_signal_dir: match raw.hook_signal_dir {
                        Some(dir) => dir,
                        None => default_hook_signal_dir(),
                    },
                    mode: match raw.mode {
                        Some(mode) => mode,
                        None => WatchMode::Watcher,
                    },
                },
            ),
        }
    }
}

/// Every setting that a file gives is kept as it is, whatever else it gives or lacks.
pub proof fn law_given_settings_are_kept(config_path: Seq<char>, raw: RawConfig)
    ensures
        loaded(config_path, ConfigFile::Parsed(raw)) matches Ok(config) && {
            &&& config.workspace == raw.workspace@
            &&& raw.watch matches Some(watch) ==> config.watch.len() == watch@.len() && forall|i: int|
                0 <= i < watch@.len() ==> #[trigger] config.watch[i] == watch@[i]@
            &&& raw.debounce_ms matches Some(ms) ==> config.debounce_ms == ms
            &&& raw.push_interval_sec matches Some(sec) ==> config.push_interval_sec == sec
            &&& raw.push_commit_threshold matches Some(commits) ==> config.push_commit_threshold
                == commits
            &&& raw.push_backoff_base_sec matches Some(sec) ==> config.push_backoff_base_sec == sec
            &&& raw.storm_window_sec matches Some(sec) ==> config.storm_window_sec == sec
            &&& raw.hook_signal_dir matches Some(dir) ==> config.hook_signal_dir == dir@
            &&& raw.mode matches Some(mode) ==> config.mode == mode
        },
{
}

/// Every setting that a file lacks has its default, whatever else the file gives.
pub proof fn law_missing_settings_have_their_defaults(config_path: Seq<char>, raw: RawConfig)
    ensures
        loaded(config_path, ConfigFile::Parsed(raw)) matches Ok(config) && {
            &&& raw.watch is None ==> config.watch == seq![
                "SOUL.md"@,
                "AGENTS.md"@,
                "USER.md"@,
                "IDENTITY.md"@,
                "TOOLS.md"@,
                "MEMORY.md"@,
                "memory/*.md"@,
            ]
            &&& raw.debounce_ms is None ==> config.debounce_ms == 1500
            &&& raw.push_interval_sec is None ==> config.push_interval_sec == 10 * 60
            &&& raw.push_commit_threshold is None ==> config.push_commit_threshold == 50
            &&& raw.push_backoff_base_sec is None ==> config.push_backoff_base_sec == 30
            &&& raw.storm_window_sec is None ==> config.storm_window_sec == 5
            &&& raw.hook_signal_dir is None ==> config.hook_signal_dir == ".git-bak/hooks"@
            &&& raw.mode is None ==> config.mode == WatchMode::Watcher
        },
{
}

/// A file that cannot be read, or that is no file of settings, is an error of the configuration
/// that names the file and the reason.
pub proof fn law_unusable_file_is_an_error(config_path: Seq<char>, source: String)
    ensures
        loaded(config_path, ConfigFile::Unreadable(source)) matches Err(error) && error.kind
            == ErrorKind::Config && (config_path + ": "@ + source@).is_suffix_of(error.message),
        loaded(config_path, ConfigFile::Malformed(source)) matches Err(error) && error.kind
            == ErrorKind::Config && (config_path + ": "@ + source@).is_suffix_of(error.message),
{
    let end = config_path + ": "@ + source@;
    assert forall|start: Seq<char>| end.is_suffix_of(
        #[trigger] (start + config_path + ": "@ + source@),
    ) by {
        let all = start + config_path + ": "@ + source@;
        assert(all.subrange(all.len() - end.len(), all.len() as int) =~= end);
    }
}

/// The default patterns ask for the six files of a persona, in whatever directory, and for every
/// Markdown file of the memory.
pub proof fn law_persona_files_are_asked_for_by_default(dir: Seq<char>, name: Seq<char>, note: Seq<char>)
    requires
        seq![
            "SOUL.md"@,
            "AGENTS.md"@,
            "USER.md"@,
            "IDENTITY.md"@,
            "TOOLS.md"@,
            "MEMORY.md"@,
        ].contains(name),
        forall|i: int| 0 <= i < note.len() ==> note[i] != '\\',
    ensures
        watched(name, default_patterns()),
        allowed(joined_path(dir, name), default_patterns()),
        allowed("memory/"@ + note + ".md"@, default_patterns()),
{
    let names = seq![
        "SOUL.md"@,
        "AGENTS.md"@,
        "USER.md"@,
        "IDENTITY.md"@,
        "TOOLS.md"@,
        "MEMORY.md"@,
    ];
    let patterns = default_patterns();
    reveal_strlit("SOUL.md");
    reveal_strlit("AGENTS.md");
    reveal_strlit("USER.md");
    reveal_strlit("IDENTITY.md");
    reveal_strlit("TOOLS.md");
    reveal_strlit("MEMORY.md");
    reveal_strlit("memory/*.md");
    reveal_strlit("memory/");
    reveal_strlit(".md");
    let k = choose|k: int| 0 <= k < names.len() && names[k] == name;
    assert(patterns[k] == name);
    assert(is_name(name)) by {
        assert(name.len() > 2);
    }
    assert forall|i: int| 0 <= i < name.len() implies name[i] != '\\' by {}
    law_named_files_are_allowed(dir, name, name, patterns);
    let none = Seq::<char>::empty();
    assert(joined_path(none, name) =~= name);
    assert(!denied(name)) by {
        reveal_strlit(".env");
        reveal_strlit(".env.");
        reveal_strlit(".pem");
        reveal_strlit(".key");
        reveal_strlit("secrets/");
        reveal_strlit("/secrets/");
        assert(name.last() == 'd');
        if denied(name) {
            law_only_secrets_are_denied(none, name);
            assert(normalized(name) =~= name);
            if exists|rest: Seq<char>| #[trigger] (".env."@ + rest) == name {
                let rest = choose|rest: Seq<char>| #[trigger] (".env."@ + rest) == name;
                assert((".env."@ + rest)[0] == '.');
            } else if exists|start: Seq<char>| #[trigger] (start + ".pem"@) == name {
                let start = choose|start: Seq<char>| #[trigger] (start + ".pem"@) == name;
                assert((start + ".pem"@).last() == 'm');
            } else if exists|start: Seq<char>| #[trigger] (start + ".key"@) == name {
                let start = choose|start: Seq<char>| #[trigger] (start + ".key"@) == name;
                assert((start + ".key"@).last() == 'y');
            } else if exists|rest: Seq<char>| #[trigger] ("secrets/"@ + rest) == name {
                let rest = choose|rest: Seq<char>| #[trigger] ("secrets/"@ + rest) == name;
                assert(("secrets/"@ + rest)[7] == '/');
            } else if name != ".env"@ {
                let (a, b) = choose|a: Seq<char>, b: Seq<char>|
                    #[trigger] (a + "/secrets/"@ + b) == name;
                assert((a + "/secrets/"@ + b)[a.len() as int] == '/');
            }
        }
    }
    let path = "memory/"@ + note + ".md"@;
    law_wildcards_stand_for_what_is_there("memory/"@, note, 'x', ".md"@);
    assert("memory/"@ + seq!['*'] + ".md"@ =~= "memory/*.md"@);
    law_a_pattern_allows_what_it_matches(path, "memory/*.md"@, dir, name);
    law_each_pattern_allows_by_itself(path, patterns.take(6), seq!["memory/*.md"@]);
    assert(patterns.take(6) + seq!["memory/*.md"@] =~= patterns);
}

} // verus!
