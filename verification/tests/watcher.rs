use git_bak::config::{WatchMode, WorkspaceConfig};
use git_bak::error::Error;
use git_bak::executor::{CommandReply, GitCommand};
use git_bak::storm::StormShield;
use git_bak::watcher::{PathKind, PathStep, PersonaWatcher, WatchEvent};

const SECOND: u64 = 1_000_000_000;

fn config(storm_window_sec: u64) -> WorkspaceConfig {
    WorkspaceConfig {
        workspace: "/work".to_owned(),
        watch: vec!["SOUL.md".to_owned()],
        debounce_ms: 50,
        push_interval_sec: 600,
        push_commit_threshold: 50,
        push_backoff_base_sec: 30,
        storm_window_sec,
        hook_signal_dir: ".git-bak/hooks".to_owned(),
        mode: WatchMode::Watcher,
    }
}

fn watcher(storm_window_sec: u64) -> PersonaWatcher {
    PersonaWatcher::new(&config(storm_window_sec), true).unwrap_or_else(|err| panic!("{err:?}"))
}

/// Handles a path; every command succeeds, and git's status names it. Tells what was sent.
fn handle(
    watcher: &mut PersonaWatcher,
    path: &str,
    running: bool,
    kind: PathKind,
    stable: Result<bool, Error>,
    now: u64,
) -> (Vec<GitCommand>, Result<Option<String>, Error>) {
    let mut sent = Vec::new();
    let mut stable = Some(stable);
    let mut step = watcher.handle_path(path, running, now);
    loop {
        step = match step {
            PathStep::Probe(probe) => {
                assert_eq!(probe.path(), path);
                probe.resume(kind)
            }
            PathStep::CheckStable(check) => {
                assert_eq!(check.path(), path);
                check.resume(stable.take().unwrap_or_else(|| panic!("two checks")))
            }
            PathStep::Send(commit) => {
                let command = commit.command();
                let answer = match &command {
                    GitCommand::Status => " M SOUL.md",
                    GitCommand::CommitPath { .. } => "0a1b",
                    _ => "",
                };
                sent.push(command);
                commit.resume(watcher, CommandReply::Answer(Ok(answer.to_owned())), now)
            }
            PathStep::Done(result) => return (sent, result),
        };
    }
}

fn change(watcher: &mut PersonaWatcher, now: u64) -> bool {
    let (_, result) = handle(watcher, "/work/SOUL.md", true, PathKind::File, Ok(true), now);
    result == Ok(Some("0a1b".to_owned()))
}

#[test]
fn test_watcher_pipeline() {
    let mut watcher = watcher(5);
    assert!(watcher.keeps_running());
    let paths = watcher
        .run(WatchEvent::Changed(vec!["/work/SOUL.md".to_owned()]), true, 0)
        .unwrap_or_else(|err| panic!("{err:?}"));
    assert_eq!(paths, ["/work/SOUL.md"]);
    let (sent, result) = handle(&mut watcher, &paths[0], true, PathKind::File, Ok(true), 0);
    assert_eq!(result, Ok(Some("0a1b".to_owned())));
    assert_eq!(
        sent,
        [
            GitCommand::Add { path: "SOUL.md".to_owned() },
            GitCommand::Status,
            GitCommand::CommitPath {
                path: "SOUL.md".to_owned(),
                message: "chore: auto backup SOUL.md".to_owned()
            },
        ]
    );
    watcher.stop();
    assert!(!watcher.keeps_running());
}

#[test]
fn test_watcher_pipeline_tracks_deletion() {
    let mut watcher = watcher(5);
    let gone = Err(Error::Watcher("not asked".to_owned()));
    let (sent, result) = handle(&mut watcher, "/work/SOUL.md", true, PathKind::Missing, gone, 0);
    assert_eq!(result, Ok(Some("0a1b".to_owned())));
    assert_eq!(sent.len(), 3);
}

#[test]
fn test_storm_suppression() {
    let mut watcher = watcher(5);
    let mut commits = 0;
    // The first change, and ten more at intervals of 50 milliseconds.
    for i in 0..11 {
        if change(&mut watcher, i * SECOND / 20) {
            commits += 1;
        }
    }
    assert_eq!(commits, 1);
    // Six seconds later what was held back has been committed, once.
    for i in 3..30 {
        let now = i * SECOND / 5;
        let due = watcher.run(WatchEvent::Quiet, true, now).unwrap_or_default();
        for path in due {
            assert_eq!(path, "/work/SOUL.md");
            assert!(now >= 5 * SECOND);
            if change(&mut watcher, now) {
                commits += 1;
            }
        }
    }
    assert!(commits >= 1);
    assert!(commits <= 2);
    assert_eq!(commits, 2);
}

#[test]
fn without_a_window_every_change_is_committed() {
    let mut watcher = watcher(0);
    for i in 0..6 {
        assert!(change(&mut watcher, i));
    }
    assert_eq!(watcher.run(WatchEvent::Quiet, true, 7), Ok(vec![]));
}

#[test]
fn a_paused_watcher_does_nothing_and_forgets_nothing() {
    let mut watcher = watcher(5);
    let (sent, result) =
        handle(&mut watcher, "/work/SOUL.md", false, PathKind::File, Ok(true), 0);
    assert!(sent.is_empty());
    assert_eq!(result, Ok(None));

    assert!(change(&mut watcher, 0));
    assert!(!change(&mut watcher, SECOND));
    assert_eq!(watcher.run(WatchEvent::Quiet, false, 9 * SECOND), Ok(vec![]));
    assert_eq!(
        watcher.run(WatchEvent::Failed, true, 9 * SECOND),
        Ok(vec!["/work/SOUL.md".to_owned()])
    );
}

#[test]
fn paths_that_are_not_backed_up_are_skipped() {
    let mut config = config(5);
    config.watch = vec!["*".to_owned()];
    let mut all = PersonaWatcher::new(&config, true).unwrap_or_else(|err| panic!("{err:?}"));
    for path in ["/work/.env", "/work/secrets/a.md", "/work/x.pem"] {
        let (sent, result) = handle(&mut all, path, true, PathKind::File, Ok(true), 0);
        assert!(sent.is_empty());
        assert_eq!(result, Ok(None));
    }
    let mut watcher = watcher(5);
    let (sent, result) =
        handle(&mut watcher, "/work/notes.txt", true, PathKind::File, Ok(true), 0);
    assert!(sent.is_empty());
    assert_eq!(result, Ok(None));
    let (sent, result) =
        handle(&mut watcher, "/work/SOUL.md", true, PathKind::Other, Ok(true), 0);
    assert!(sent.is_empty());
    assert_eq!(result, Ok(None));
}

#[test]
fn a_file_that_still_changes_is_skipped() {
    let mut watcher = watcher(5);
    let (sent, result) =
        handle(&mut watcher, "/work/SOUL.md", true, PathKind::File, Ok(false), 0);
    assert!(sent.is_empty());
    assert_eq!(result, Ok(None));
    let failure = Error::Watcher("failed to read file".to_owned());
    let (sent, result) = handle(
        &mut watcher,
        "/work/SOUL.md",
        true,
        PathKind::File,
        Err(failure.clone()),
        0,
    );
    assert!(sent.is_empty());
    assert_eq!(result, Err(failure));
}

#[test]
fn a_clean_status_ends_the_work() {
    let mut watcher = watcher(5);
    let PathStep::Probe(probe) = watcher.handle_path("/work/SOUL.md", true, 0) else {
        panic!("skipped");
    };
    let PathStep::Send(add) = probe.resume(PathKind::Missing) else {
        panic!("skipped");
    };
    let PathStep::Send(status) =
        add.resume(&mut watcher, CommandReply::Answer(Ok(String::new())), 0)
    else {
        panic!("skipped");
    };
    assert_eq!(status.command(), GitCommand::Status);
    let PathStep::Done(result) =
        status.resume(&mut watcher, CommandReply::Answer(Ok(String::new())), 0)
    else {
        panic!("not over");
    };
    assert_eq!(result, Ok(None));
    // No commit was made, so nothing rests.
    assert!(change(&mut watcher, 1));
}

/// Handles a path whose staging fails with this complaint.
fn stage_failing(kind: PathKind, complaint: &str) -> Result<Option<String>, Error> {
    let mut watcher = watcher(5);
    let PathStep::Probe(probe) = watcher.handle_path("/work/SOUL.md", true, 0) else {
        panic!("skipped");
    };
    let add = match probe.resume(kind) {
        PathStep::Send(add) => add,
        PathStep::CheckStable(check) => match check.resume(Ok(true)) {
            PathStep::Send(add) => add,
            _ => panic!("skipped"),
        },
        _ => panic!("skipped"),
    };
    let answer = Err(Error::Git(complaint.to_owned()));
    match add.resume(&mut watcher, CommandReply::Answer(answer), 0) {
        PathStep::Done(result) => result,
        _ => panic!("not over"),
    }
}

#[test]
fn a_missing_path_that_git_does_not_know_is_skipped() {
    let unknown = "git command [\"add\", \"-A\", \"--\", \"SOUL.md\"] failed in /work: fatal: \
                   pathspec 'SOUL.md' did not match any files";
    assert_eq!(stage_failing(PathKind::Missing, unknown), Ok(None));
    // A file that is there has to be staged, and other failures are failures.
    assert_eq!(
        stage_failing(PathKind::File, unknown),
        Err(Error::Git(unknown.to_owned()))
    );
    assert_eq!(
        stage_failing(PathKind::Missing, "fatal: index.lock exists"),
        Err(Error::Git("fatal: index.lock exists".to_owned()))
    );
}

#[test]
fn a_lost_executor_is_reported() {
    let mut watcher = watcher(5);
    let PathStep::Probe(probe) = watcher.handle_path("/work/SOUL.md", true, 0) else {
        panic!("skipped");
    };
    let PathStep::Send(add) = probe.resume(PathKind::Missing) else {
        panic!("skipped");
    };
    let PathStep::Done(result) =
        add.resume(&mut watcher, CommandReply::NotSent("closed".to_owned()), 0)
    else {
        panic!("not over");
    };
    assert_eq!(
        result,
        Err(Error::Watcher("failed to enqueue add command: closed".to_owned()))
    );
}

#[test]
fn a_workspace_has_to_exist() {
    assert_eq!(
        PersonaWatcher::new(&config(5), false).err(),
        Some(Error::Watcher("workspace path does not exist: /work".to_owned()))
    );
    assert_eq!(watcher(5).debounce_ms(), 50);
}

#[test]
fn the_end_of_the_events_is_an_error() {
    assert_eq!(
        watcher(5).run(WatchEvent::Disconnected, true, 0),
        Err(Error::Watcher(
            "watcher event channel disconnected unexpectedly".to_owned()
        ))
    );
}

#[test]
fn commits_of_a_path_keep_apart() {
    let mut shield = StormShield::new(5);
    assert!(shield.let_through("a", 0));
    shield.note_commit("a", SECOND);
    assert!(!shield.let_through("a", 6 * SECOND - 1));
    assert!(shield.let_through("b", 2 * SECOND));
    shield.note_commit("b", 2 * SECOND);
    assert!(!shield.let_through("a", 6 * SECOND - 1));
    assert_eq!(shield.due_paths(6 * SECOND - 1), Vec::<String>::new());
    assert_eq!(shield.due_paths(6 * SECOND), ["a"]);
    assert!(shield.let_through("a", 6 * SECOND));
    assert_eq!(shield.due_paths(6 * SECOND), Vec::<String>::new());
}

#[test]
fn a_held_back_change_waits_while_other_paths_are_worked_on() {
    let mut config = config(5);
    config.watch = vec!["*.md".to_owned()];
    let mut watcher = PersonaWatcher::new(&config, true).unwrap_or_else(|err| panic!("{err:?}"));
    let mut commits = Vec::new();
    let mut work = |watcher: &mut PersonaWatcher, path: &str, running: bool, now: u64| {
        let (_, result) = handle(watcher, path, running, PathKind::File, Ok(true), now);
        if matches!(result, Ok(Some(_))) {
            commits.push((path.to_owned(), now));
        }
    };
    work(&mut watcher, "/work/a.md", true, 0);
    work(&mut watcher, "/work/a.md", true, SECOND);
    work(&mut watcher, "/work/b.md", true, 2 * SECOND);
    work(&mut watcher, "/work/a.md", false, 6 * SECOND);
    work(&mut watcher, "/work/b.md", true, 6 * SECOND);
    assert_eq!(
        watcher.run(WatchEvent::Quiet, true, 6 * SECOND),
        Ok(vec!["/work/a.md".to_owned()])
    );
    work(&mut watcher, "/work/a.md", true, 6 * SECOND);
    assert_eq!(watcher.run(WatchEvent::Quiet, true, 6 * SECOND), Ok(vec![]));
    assert_eq!(
        commits,
        [
            ("/work/a.md".to_owned(), 0),
            ("/work/b.md".to_owned(), 2 * SECOND),
            ("/work/a.md".to_owned(), 6 * SECOND)
        ]
    );
}
