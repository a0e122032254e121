use git_bak::commands::{
    config_path, config_report, current_timestamp_string, git_status_report, lock_report,
    manual_signal, normalize_workspace_path, read_commits, recent_commits, recent_commits_call,
    run_hook_mode, run_watcher_mode, workspace_candidate, SinceEpoch, WatcherEnd,
};
use git_bak::config::{WatchMode, WorkspaceConfig};
use git_bak::error::Error;
use git_bak::git::{GitOutcome, GitRepo};
use git_bak::hook::validate_signal;
use git_bak::lock::{LockAttempt, LockPlan, ProcessLock};

#[test]
fn test_run_hook_mode_returns_clear_error() {
    let result = run_hook_mode();
    assert!(result.is_err());
    let err = result.err().unwrap_or_else(|| Error::Hook(String::new()));
    match err {
        Error::Hook(message) => assert!(message.contains("hook mode")),
        other => panic!("expected hook error, got {}", other.to_text()),
    }
}

#[test]
fn the_config_file_lies_in_the_current_directory() {
    assert_eq!(
        config_path(Ok("/here".to_owned())),
        Ok("/here/personaguard.toml".to_owned())
    );
    assert_eq!(
        config_path(Err("gone".to_owned())),
        Err(Error::Config("failed to resolve current directory: gone".to_owned()))
    );
}

#[test]
fn a_relative_workspace_is_taken_from_the_current_directory() {
    let gone = || Err("gone".to_owned());
    assert_eq!(workspace_candidate("/w", gone()), Ok("/w".to_owned()));
    assert_eq!(
        workspace_candidate("w", Ok("/here".to_owned())),
        Ok("/here/w".to_owned())
    );
    assert_eq!(
        workspace_candidate("w", gone()),
        Err(Error::Config("failed to resolve current directory: gone".to_owned()))
    );
    assert_eq!(
        normalize_workspace_path("/here/w", Ok("/real/w".to_owned())),
        Ok("/real/w".to_owned())
    );
    assert_eq!(
        normalize_workspace_path("/here/w", gone()),
        Err(Error::Config(
            "failed to normalize workspace path /here/w: gone".to_owned()
        ))
    );
}

#[test]
fn times_are_written_as_numbers() {
    let now = SinceEpoch { seconds: 1_771_372_800, nanoseconds: 7 };
    assert_eq!(current_timestamp_string(Ok(now)), Ok("1771372800".to_owned()));
    assert_eq!(
        current_timestamp_string(Err("early".to_owned())),
        Err(Error::Config("failed to get system time: early".to_owned()))
    );
    let signal = manual_signal("command:stop".to_owned(), Ok(now))
        .unwrap_or_else(|err| panic!("{err:?}"));
    assert_eq!(signal.event, "command:stop");
    assert_eq!(signal.dedupe_key, "manual-1771372800000000007");
    assert_eq!(signal.timestamp, "1771372800");
    assert!(validate_signal(&signal).is_ok());
    assert_eq!(
        manual_signal("command:stop".to_owned(), Err("early".to_owned())).err(),
        Some(Error::Hook(
            "failed to get system time for hook event: early".to_owned()
        ))
    );
}

#[test]
fn manual_signals_differ_by_their_time() {
    let at = |seconds: u64, nanoseconds: u32| {
        manual_signal("command:new".to_owned(), Ok(SinceEpoch { seconds, nanoseconds }))
            .map(|signal| signal.dedupe_key)
    };
    assert_ne!(at(1, 0), at(1, 1));
    assert_ne!(at(1, 0), at(0, 1));
    let odd = manual_signal("odd".to_owned(), Ok(SinceEpoch { seconds: 0, nanoseconds: 0 }))
        .unwrap_or_else(|err| panic!("{err:?}"));
    assert!(validate_signal(&odd).is_err());
}

#[test]
fn the_watcher_mode_ends_as_its_watcher_does() {
    assert_eq!(run_watcher_mode(WatcherEnd::Ended(Ok(()))), Ok(()));
    assert_eq!(
        run_watcher_mode(WatcherEnd::Panicked),
        Err(Error::Watcher("watcher thread panicked".to_owned()))
    );
    assert_eq!(
        run_watcher_mode(WatcherEnd::NoInterrupt("x".to_owned())),
        Err(Error::Watcher("failed to listen for Ctrl-C: x".to_owned()))
    );
    let failure = Error::Watcher("lost".to_owned());
    assert_eq!(
        run_watcher_mode(WatcherEnd::Ended(Err(failure.clone()))),
        Err(failure)
    );
}

#[test]
fn the_status_tells_of_the_config() {
    let config = WorkspaceConfig {
        workspace: "/w".to_owned(),
        watch: vec!["a".to_owned(), "b".to_owned()],
        debounce_ms: 1_500,
        push_interval_sec: 600,
        push_commit_threshold: 50,
        push_backoff_base_sec: 30,
        storm_window_sec: 5,
        hook_signal_dir: "h".to_owned(),
        mode: WatchMode::Hook,
    };
    assert_eq!(
        config_report("/w/personaguard.toml", &config),
        [
            "config: /w/personaguard.toml",
            "workspace: /w",
            "watch count: 2",
            "debounce_ms: 1500",
            "push_interval_sec: 600",
            "mode: Hook",
        ]
    );
}

#[test]
fn the_status_tells_of_git() {
    assert_eq!(git_status_report(""), "git status: clean");
    assert_eq!(git_status_report(" M a"), "git status:\n M a");
    let repo = GitRepo::new("/w", true).unwrap_or_else(|err| panic!("{err:?}"));
    assert_eq!(
        recent_commits_call(&repo).argv(),
        ["-C", "/w", "log", "--oneline", "-5"]
    );
    assert_eq!(read_commits("/w", true, " 0a1b x\n", ""), Ok("0a1b x".to_owned()));
    let failed = GitOutcome::Exited {
        success: false,
        code: Some(128),
        stdout: vec![],
        stderr: b"fatal: no commits \xff\n".to_vec(),
    };
    assert_eq!(
        recent_commits("/w", &failed),
        Err(Error::Git(
            "failed to read recent commits in /w: fatal: no commits \u{fffd}".to_owned()
        ))
    );
    assert_eq!(
        recent_commits("/w", &GitOutcome::NotStarted("no git".to_owned())),
        Err(Error::Git("failed to read recent commits in /w: no git".to_owned()))
    );
}

#[test]
fn the_status_tells_of_the_lock() {
    let outcome = GitOutcome::Exited {
        success: true,
        code: Some(0),
        stdout: b".git/git-bak.lock\n".to_vec(),
        stderr: vec![],
    };
    let plan = || LockPlan::new("/w", &outcome).unwrap_or_else(|err| panic!("{err:?}"));
    assert_eq!(
        lock_report(&ProcessLock::acquire(plan(), LockAttempt::Held)),
        "lock status: unlocked (/w/.git/git-bak.lock)"
    );
    assert_eq!(
        lock_report(&ProcessLock::acquire(plan(), LockAttempt::Refused("x".to_owned()))),
        "lock status: locked"
    );
}
