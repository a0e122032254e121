use git_bak::config::{WatchMode, WorkspaceConfig};
use git_bak::error::Error;
use git_bak::executor::{CommandReply, GitCommand};
use git_bak::hook::{
    collect_watched_files, has_path_change, HookHandler, HookSignal, HookStep, SignalFile,
};
use git_bak::walk::DirEntry;

fn config() -> WorkspaceConfig {
    WorkspaceConfig {
        workspace: "/work".to_owned(),
        watch: vec!["SOUL.md".to_owned()],
        debounce_ms: 10,
        push_interval_sec: 600,
        push_commit_threshold: 50,
        push_backoff_base_sec: 30,
        storm_window_sec: 5,
        hook_signal_dir: ".git-bak/hooks".to_owned(),
        mode: WatchMode::Hook,
    }
}

/// The signal in a text, or why there is none.
fn parse(text: &str) -> Result<HookSignal, String> {
    let value: serde_json::Value = serde_json::from_str(text).map_err(|source| source.to_string())?;
    let field = |name: &str| {
        value
            .get(name)
            .and_then(serde_json::Value::as_str)
            .map(str::to_owned)
            .ok_or_else(|| format!("missing field `{name}`"))
    };
    Ok(HookSignal {
        event: field("event")?,
        dedupe_key: field("dedupe_key")?,
        timestamp: field("timestamp")?,
    })
}

fn signal_file(text: &str) -> SignalFile {
    match parse(text) {
        Ok(signal) => SignalFile::Parsed(signal),
        Err(source) => SignalFile::Malformed(source),
    }
}

/// Works on a signal in a workspace with these files at its top. Every command succeeds, and
/// git's status is this one.
fn work(
    handler: &HookHandler,
    signal: &HookSignal,
    files: &[&str],
    status: &str,
) -> (Vec<GitCommand>, Result<usize, Error>) {
    let mut sent = Vec::new();
    let mut step = handler.process_signal(signal);
    loop {
        step = match step {
            HookStep::ReadDir(walk) => {
                assert_eq!(walk.directory(), "/work");
                let entries = files
                    .iter()
                    .map(|name| DirEntry::File(format!("/work/{name}")))
                    .collect();
                walk.resume(Ok(entries))
            }
            HookStep::Send(commit) => {
                let command = commit.command();
                let answer = match &command {
                    GitCommand::Status => status.to_owned(),
                    _ => String::new(),
                };
                sent.push(command);
                let (next, failure) = commit.resume(CommandReply::Answer(Ok(answer)));
                assert!(failure.is_none());
                next
            }
            HookStep::Done(result) => return (sent, result),
        };
    }
}

#[test]
fn test_parse_valid_and_invalid_signal_files() {
    let valid = r#"{"event":"command:stop","dedupe_key":"01TEST","timestamp":"2026-01-01T00:00:00Z"}"#;
    let parsed = HookHandler::parse_signal_json(parse(valid));
    assert!(parsed.is_ok());

    let invalid = r#"{"event":"unknown","dedupe_key":"01TEST","timestamp":"2026-01-01T00:00:00Z"}"#;
    let parsed_invalid = HookHandler::parse_signal_json(parse(invalid));
    assert!(parsed_invalid.is_err());
}

#[test]
fn test_dedup_ignores_same_signal_key() {
    let mut handler = HookHandler::new(&config());
    assert!(handler.ensure_signal_dir(Ok(())).is_ok());
    assert_eq!(handler.signal_dir(), "/work/.git-bak/hooks");

    let signal_path = "/work/.git-bak/hooks/signal-1.json";
    let text =
        r#"{"event":"command:new","dedupe_key":"01DUP","timestamp":"2026-01-01T00:00:00Z"}"#;
    let first = handler.handle_signal_file(signal_path, signal_file(text));
    assert!(first.is_ok());
    assert!(matches!(first, Ok(Some(_))));

    let second = handler.handle_signal_file(signal_path, signal_file(text));
    assert!(second.is_ok());
    assert!(matches!(second, Ok(None)));
}

#[test]
fn test_process_signal_commits_changed_watch_file() {
    let handler = HookHandler::new(&config());
    let signal = HookSignal {
        event: "command:stop".to_owned(),
        dedupe_key: "01HOOK".to_owned(),
        timestamp: "2026-01-01T00:00:00Z".to_owned(),
    };
    let (sent, result) = work(&handler, &signal, &["SOUL.md", "notes.txt"], "A  SOUL.md\n");
    let committed = result.unwrap_or_else(|err| panic!("process signal failed: {err:?}"));
    assert!(committed >= 1);
    assert_eq!(
        sent,
        [
            GitCommand::Add { path: "SOUL.md".to_owned() },
            GitCommand::Status,
            GitCommand::CommitPath {
                path: "SOUL.md".to_owned(),
                message: "chore: hook command:stop SOUL.md".to_owned()
            },
        ]
    );
}

#[test]
fn every_changed_path_is_committed() {
    let mut config = config();
    config.watch = vec!["*.md".to_owned()];
    let handler = HookHandler::new(&config);
    let signal = HookSignal {
        event: "command:new".to_owned(),
        dedupe_key: "k".to_owned(),
        timestamp: "t".to_owned(),
    };
    let status = " M a.md\nA  b.md\n?? c.md\n";
    let (sent, result) = work(&handler, &signal, &["a.md", "b.md", "c.md", "d.txt"], status);
    assert_eq!(result, Ok(3));
    let commits = sent
        .iter()
        .filter(|command| matches!(command, GitCommand::CommitPath { .. }))
        .count();
    assert_eq!(commits, 3);
}

#[test]
fn a_path_without_changes_is_not_committed() {
    let handler = HookHandler::new(&config());
    let signal = HookSignal {
        event: "command:reset".to_owned(),
        dedupe_key: "k".to_owned(),
        timestamp: "t".to_owned(),
    };
    let (sent, result) = work(&handler, &signal, &["SOUL.md"], " M other.md\n");
    assert_eq!(result, Ok(1));
    assert_eq!(sent.len(), 2);
}

#[test]
fn a_path_that_fails_is_left_behind() {
    let mut config = config();
    config.watch = vec!["*.md".to_owned()];
    let handler = HookHandler::new(&config);
    let signal = HookSignal {
        event: "command:new".to_owned(),
        dedupe_key: "k".to_owned(),
        timestamp: "t".to_owned(),
    };
    let mut failures = Vec::new();
    let mut step = handler.process_signal(&signal);
    let result = loop {
        step = match step {
            HookStep::ReadDir(walk) => walk.resume(Ok(vec![
                DirEntry::File("/work/a.md".to_owned()),
                DirEntry::File("/work/b.md".to_owned()),
                DirEntry::File("/work/c.md".to_owned()),
            ])),
            HookStep::Send(commit) => {
                let reply = match (commit.path(), commit.command()) {
                    ("a.md", _) => CommandReply::NotSent("closed".to_owned()),
                    ("b.md", GitCommand::Status) => CommandReply::NoAnswer("closed".to_owned()),
                    (_, GitCommand::Status) => CommandReply::Answer(Ok("?? c.md".to_owned())),
                    _ => CommandReply::Answer(Ok(String::new())),
                };
                let (next, failure) = commit.resume(reply);
                failures.extend(failure);
                next
            }
            HookStep::Done(result) => break result,
        };
    };
    assert_eq!(result, Ok(1));
    assert_eq!(
        failures,
        [
            Error::Hook("failed to enqueue add command: closed".to_owned()),
            Error::Hook("failed to receive status command result: closed".to_owned()),
        ]
    );
}

#[test]
fn secrets_are_never_collected() {
    let patterns = vec!["*".to_owned()];
    let files: Vec<String> = ["/work/a.md", "/work/.env", "/work/secrets/x", "/work/m/b.key"]
        .iter()
        .map(|path| (*path).to_owned())
        .collect();
    assert_eq!(collect_watched_files("/work", &patterns, &files), ["a.md"]);
}

#[test]
fn signals_that_cannot_be_worked_on_are_refused() {
    let refused = |event: &str, key: &str, time: &str| {
        HookHandler::parse_signal_json(Ok(HookSignal {
            event: event.to_owned(),
            dedupe_key: key.to_owned(),
            timestamp: time.to_owned(),
        }))
        .err()
    };
    assert_eq!(
        refused("unknown", "k", "t"),
        Some(Error::Hook(
            "unsupported hook event unknown, expected one of [\"command:new\", \"command:stop\", \
             \"command:reset\"]"
                .to_owned()
        ))
    );
    assert_eq!(
        refused("command:new", " \t", "t"),
        Some(Error::Hook("missing hook dedupe_key".to_owned()))
    );
    assert_eq!(
        refused("command:new", "k", "\u{3000}"),
        Some(Error::Hook("missing hook timestamp".to_owned()))
    );
    assert_eq!(refused("command:reset", "k", "t"), None);
    assert_eq!(
        HookHandler::parse_signal_json(Err("expected value at line 1".to_owned())).err(),
        Some(Error::Hook("invalid hook signal json: expected value at line 1".to_owned()))
    );
}

#[test]
fn files_that_are_no_signals_are_passed_over() {
    let mut handler = HookHandler::new(&config());
    let text = r#"{"event":"command:new","dedupe_key":"k","timestamp":"t"}"#;
    assert!(!HookHandler::considers("/work/x.json.tmp"));
    assert!(HookHandler::considers("/work/x.tmp.json"));
    assert_eq!(handler.handle_signal_file("/work/x.tmp", signal_file(text)), Ok(None));
    assert_eq!(handler.handle_signal_file("/work/x.json", SignalFile::NotAFile), Ok(None));
    assert_eq!(
        handler.handle_signal_file("/work/x.json", SignalFile::Unreadable("denied".to_owned())),
        Err(Error::Hook("failed to read hook signal /work/x.json: denied".to_owned()))
    );
    assert!(handler.handle_signal_file("/work/x.json", signal_file("{")).is_err());
    // None of this took the key.
    assert!(matches!(
        handler.handle_signal_file("/work/x.json", signal_file(text)),
        Ok(Some(_))
    ));
}

#[test]
fn a_poisoned_handler_takes_no_signal() {
    let mut handler = HookHandler::new(&config());
    handler.poison();
    assert_eq!(
        handler.is_duplicate_dedupe_key("k"),
        Err(Error::Hook("failed to lock hook dedupe key set".to_owned()))
    );
}

#[test]
fn the_signal_directory_may_be_elsewhere() {
    let mut config = config();
    config.hook_signal_dir = "/var/hooks".to_owned();
    let handler = HookHandler::new(&config);
    assert_eq!(handler.signal_dir(), "/var/hooks");
    assert_eq!(
        handler.ensure_signal_dir(Err("denied".to_owned())),
        Err(Error::Hook(
            "failed to create hook signal directory /var/hooks: denied".to_owned()
        ))
    );
}

#[test]
fn changes_are_found_by_the_end_of_a_line() {
    assert!(has_path_change(" M a.md\n?? memory/b.md\r\n", "memory/b.md"));
    assert!(has_path_change("?? x-a.md", "a.md"));
    assert!(!has_path_change(" M a.md.bak\n", "a.md"));
    assert!(!has_path_change("", "a.md"));
}
