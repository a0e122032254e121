use git_bak::config::{ConfigFile, RawConfig, WatchMode, WorkspaceConfig};
use git_bak::defaults::{
    complete_gitignore, default_config_contents, default_gitignore_entries,
    escape_toml_basic_string,
};
use git_bak::error::Error;
use git_bak::init::{init_workspace, InitStep};

/// Files by path, and a name of the one that cannot be written.
struct Disk {
    files: Vec<(String, String)>,
    dirs: Vec<String>,
    probed: Vec<String>,
    written: Vec<String>,
    broken: String,
}

impl Disk {
    fn new(files: &[(&str, &str)]) -> Self {
        Disk {
            files: files
                .iter()
                .map(|(path, text)| ((*path).to_owned(), (*text).to_owned()))
                .collect(),
            dirs: Vec::new(),
            probed: Vec::new(),
            written: Vec::new(),
            broken: String::new(),
        }
    }

    fn read(&self, path: &str) -> Option<&str> {
        self.files
            .iter()
            .find(|(known, _)| known == path)
            .map(|(_, text)| text.as_str())
    }

    fn outcome(&self, path: &str) -> Result<(), String> {
        if path == self.broken {
            Err("denied".to_owned())
        } else {
            Ok(())
        }
    }

    fn init(&mut self, path: Option<&str>) -> Result<String, Error> {
        let mut step = init_workspace(path.map(str::to_owned));
        loop {
            step = match step {
                InitStep::CurrentDir(ask) => ask.resume(Ok("/here".to_owned())),
                InitStep::CreateDir(dir) => {
                    let path = dir.path();
                    self.dirs.push(path.clone());
                    let outcome = self.outcome(&path);
                    dir.resume(outcome)
                }
                InitStep::Canonicalize(path) => {
                    let normal = path.path().trim_end_matches('/').to_owned();
                    let outcome = self.outcome(path.path());
                    path.resume(outcome.map(|()| normal))
                }
                InitStep::Probe(probe) => {
                    let exists = self.read(&probe.path()).is_some();
                    self.probed.push(probe.path());
                    probe.resume(exists)
                }
                InitStep::Read(read) => {
                    let path = read.path();
                    let text = self.read(&path).unwrap_or_default().to_owned();
                    let outcome = self.outcome(&path);
                    read.resume(outcome.map(|()| text))
                }
                InitStep::Write(write) => {
                    let path = write.path();
                    let outcome = self.outcome(&path);
                    if outcome.is_ok() {
                        self.written.push(path.clone());
                        self.files.retain(|(known, _)| *known != path);
                        self.files.push((path, write.content().to_owned()));
                    }
                    write.resume(outcome)
                }
                InitStep::Done(result) => return result,
            };
        }
    }
}

#[test]
fn test_ensure_default_config_file_keeps_existing_content() {
    let original = "workspace = \"/tmp/existing\"\nmode = \"hook\"\n";
    let mut disk = Disk::new(&[("/w/personaguard.toml", original)]);
    let result = disk.init(Some("/w"));
    assert!(result.is_ok());
    assert_eq!(disk.read("/w/personaguard.toml"), Some(original));
}

#[test]
fn test_ensure_default_gitignore_entries_appends_missing_entries() {
    let initial = "custom/\n.env\n";
    let mut disk = Disk::new(&[("/w/.gitignore", initial)]);
    let result = disk.init(Some("/w"));
    assert!(result.is_ok());

    let content = disk.read("/w/.gitignore").unwrap_or_default();
    assert!(content.contains("custom/\n"));
    assert!(content.contains("target/\n"));
    assert!(content.contains(".weave/\n"));

    let env_count = content.lines().filter(|line| *line == ".env").count();
    assert_eq!(env_count, 1);
}

#[test]
fn a_new_workspace_gets_all_its_files() {
    let mut disk = Disk::new(&[]);
    assert_eq!(disk.init(Some("/w/")), Ok("/w".to_owned()));
    assert_eq!(disk.dirs, ["/w/", "/w/memory"]);
    let paths: Vec<&str> = disk.files.iter().map(|(path, _)| path.as_str()).collect();
    assert_eq!(
        paths,
        [
            "/w/personaguard.toml",
            "/w/.gitignore",
            "/w/SOUL.md",
            "/w/AGENTS.md",
            "/w/USER.md",
            "/w/IDENTITY.md",
            "/w/TOOLS.md",
            "/w/MEMORY.md",
            "/w/memory/index.md",
        ]
    );
    assert_eq!(
        disk.read("/w/.gitignore"),
        Some("target/\n*.swp\n.env\n.env.*\n*.pem\n*.key\n.csa/\n.weave/\n")
    );
    assert_eq!(disk.read("/w/SOUL.md"), Some(""));
    // A second time nothing changes.
    let before = disk.files.clone();
    assert!(disk.init(Some("/w")).is_ok());
    assert_eq!(disk.files, before);
}

#[test]
fn without_a_path_the_current_directory_is_made_a_workspace() {
    let mut disk = Disk::new(&[("/here/SOUL.md", "mine\n")]);
    assert_eq!(disk.init(None), Ok("/here".to_owned()));
    assert_eq!(disk.read("/here/SOUL.md"), Some("mine\n"));
    let InitStep::CurrentDir(ask) = init_workspace(None) else {
        panic!("not asked");
    };
    let InitStep::Done(result) = ask.resume(Err("gone".to_owned())) else {
        panic!("not over");
    };
    assert_eq!(
        result,
        Err(Error::Config("failed to resolve current directory: gone".to_owned()))
    );
}

#[test]
fn what_cannot_be_made_is_named() {
    let failure = |broken: &str, files: &[(&str, &str)]| {
        let mut disk = Disk::new(files);
        disk.broken = broken.to_owned();
        match disk.init(Some("/w")) {
            Err(Error::Config(message)) => message,
            other => panic!("unexpected result {other:?}"),
        }
    };
    assert_eq!(failure("/w", &[]), "failed to create workspace directory /w: denied");
    assert_eq!(
        failure("/w/personaguard.toml", &[]),
        "failed to write config file /w/personaguard.toml: denied"
    );
    assert_eq!(
        failure("/w/.gitignore", &[]),
        "failed to write .gitignore file /w/.gitignore: denied"
    );
    assert_eq!(
        failure("/w/.gitignore", &[("/w/.gitignore", "x\n")]),
        "failed to read .gitignore file /w/.gitignore: denied"
    );
    assert_eq!(
        failure("/w/memory", &[]),
        "failed to create memory directory /w/memory: denied"
    );
    assert_eq!(
        failure("/w/TOOLS.md", &[]),
        "failed to create default file /w/TOOLS.md: denied"
    );
    assert_eq!(
        failure("/w/memory/index.md", &[]),
        "failed to create default memory file /w/memory/index.md: denied"
    );
    let InitStep::CreateDir(dir) = init_workspace(Some("/w".to_owned())) else {
        panic!("no directory");
    };
    let InitStep::Canonicalize(path) = dir.resume(Ok(())) else {
        panic!("not made");
    };
    let InitStep::Done(result) = path.resume(Err("loop".to_owned())) else {
        panic!("not over");
    };
    assert_eq!(
        result,
        Err(Error::Config("failed to normalize workspace path /w: loop".to_owned()))
    );
}

#[test]
fn a_gitignore_is_completed_once() {
    let first = complete_gitignore("a").unwrap_or_else(|| panic!("nothing to add"));
    assert_eq!(first, "a\ntarget/\n*.swp\n.env\n.env.*\n*.pem\n*.key\n.csa/\n.weave/\n");
    assert_eq!(complete_gitignore(&first), None);
    for entry in default_gitignore_entries() {
        assert!(first.lines().any(|line| line == entry));
    }
    // White space behind an entry and other line ends do not matter.
    let spaced = first.replace('\n', " \t\r\n");
    assert_eq!(complete_gitignore(&spaced), None);
}

#[test]
fn quotation_marks_and_backslashes_are_escaped() {
    assert_eq!(escape_toml_basic_string("C:\\x \"y\""), "C:\\\\x \\\"y\\\"");
    assert_eq!(escape_toml_basic_string(""), "");
}

#[test]
fn the_default_config_names_its_workspace() {
    for workspace in ["/tmp/repo", "/tmp/a \"b\" \\c", "/\u{e4}"] {
        let text = default_config_contents(workspace);
        let table: toml::Table = text.parse().unwrap_or_else(|err| panic!("{err}"));
        assert_eq!(
            table.get("workspace").and_then(toml::Value::as_str),
            Some(workspace)
        );
        assert_eq!(
            table.get("watch").and_then(toml::Value::as_array).map(Vec::len),
            Some(7)
        );
        assert_eq!(
            table.get("mode").and_then(toml::Value::as_str),
            Some("watcher")
        );
    }
}

#[test]
fn the_default_config_loads_as_the_defaults() {
    let workspace = "/tmp/a \"b\" \\c\t\u{e4}";
    let text = default_config_contents(workspace);
    let table: toml::Table = text.parse().unwrap_or_else(|err| panic!("{err}"));
    let number = |name: &str| {
        table
            .get(name)
            .and_then(toml::Value::as_integer)
            .and_then(|value| u64::try_from(value).ok())
    };
    let string = |name: &str| table.get(name).and_then(toml::Value::as_str).map(str::to_owned);
    let given = RawConfig {
        workspace: string("workspace").unwrap_or_default(),
        watch: table.get("watch").and_then(toml::Value::as_array).map(|values| {
            values.iter().filter_map(toml::Value::as_str).map(str::to_owned).collect()
        }),
        debounce_ms: number("debounce_ms"),
        push_interval_sec: number("push_interval_sec"),
        push_commit_threshold: None,
        push_backoff_base_sec: number("push_backoff_base_sec"),
        storm_window_sec: number("storm_window_sec"),
        hook_signal_dir: string("hook_signal_dir"),
        mode: string("mode").map(|mode| {
            assert_eq!(mode, "watcher");
            WatchMode::Watcher
        }),
    };
    assert!(given.watch.is_some());
    assert_eq!(given.debounce_ms, Some(1_500));
    assert_eq!(given.push_interval_sec, Some(600));
    let bare = RawConfig {
        workspace: workspace.to_owned(),
        watch: None,
        debounce_ms: None,
        push_interval_sec: None,
        push_commit_threshold: None,
        push_backoff_base_sec: None,
        storm_window_sec: None,
        hook_signal_dir: None,
        mode: None,
    };
    let load = |raw: RawConfig| WorkspaceConfig::load("c", ConfigFile::Parsed(raw));
    let loaded = load(given);
    assert!(loaded.is_ok());
    assert_eq!(loaded, load(bare));
}

#[test]
fn exactly_what_is_missing_is_written() {
    let complete = complete_gitignore("").unwrap_or_default();
    let mut disk = Disk::new(&[
        ("/w/personaguard.toml", "workspace = \"/w\"\n"),
        ("/w/.gitignore", &complete),
        ("/w/USER.md", "me\n"),
        ("/w/memory/index.md", "x\n"),
    ]);
    assert!(disk.init(Some("/w")).is_ok());
    assert_eq!(disk.probed.len(), 9);
    assert_eq!(
        disk.written,
        [
            "/w/SOUL.md",
            "/w/AGENTS.md",
            "/w/IDENTITY.md",
            "/w/TOOLS.md",
            "/w/MEMORY.md"
        ]
    );
    let mut disk = Disk::new(&[("/w/.gitignore", "*.key\n")]);
    assert!(disk.init(Some("/w")).is_ok());
    assert_eq!(disk.written.len(), 9);
}

#[test]
fn missing_entries_are_added_once_each_and_in_order() {
    let all = complete_gitignore("x\n.env \n*.key").unwrap_or_default();
    let lines: Vec<&str> = all.lines().collect();
    assert_eq!(
        lines,
        [
            "x", ".env ", "*.key", "target/", "*.swp", ".env.*", "*.pem", ".csa/", ".weave/"
        ]
    );
}
