use git_bak::config::{WatchMode, WorkspaceConfig};
use git_bak::counter::CommitCounter;
use git_bak::error::Error;
use git_bak::executor::{CommandReply, ExecutorStep, GitCommand, GitExecutor};
use git_bak::git::{GitOutcome, GitRepo};
use git_bak::push::{
    complains_of_unusable_remote, is_network_reachable, next_backoff, probe_call, push_command,
    PushScheduler, DEFAULT_REMOTE,
};

const SECOND: u64 = 1_000_000_000;

fn config(push_interval_sec: u64, threshold: usize, backoff_base_sec: u64) -> WorkspaceConfig {
    WorkspaceConfig {
        workspace: "/work/repo".to_owned(),
        watch: vec!["SOUL.md".to_owned()],
        debounce_ms: 10,
        push_interval_sec,
        push_commit_threshold: threshold,
        push_backoff_base_sec: backoff_base_sec,
        storm_window_sec: 5,
        hook_signal_dir: ".git-bak/hooks".to_owned(),
        mode: WatchMode::Watcher,
    }
}

fn ended(success: bool, code: i32, stdout: &str, stderr: &str) -> GitOutcome {
    GitOutcome::Exited {
        success,
        code: Some(code),
        stdout: stdout.as_bytes().to_vec(),
        stderr: stderr.as_bytes().to_vec(),
    }
}

/// Runs a command to its end, with every run of git succeeding; counts a commit that is made.
fn run_command(executor: &GitExecutor, command: GitCommand, commits: &mut CommitCounter) -> CommandReply {
    let mut step = executor.accept(command);
    loop {
        step = match step {
            ExecutorStep::Run(run) => run.resume(&ended(true, 0, "0a1b2c\n", "")),
            ExecutorStep::Reply { result, committed, .. } => {
                commits.answered(committed);
                return CommandReply::Answer(result);
            }
        };
    }
}

fn create_commit_via_executor(executor: &GitExecutor, commits: &mut CommitCounter, path: &str, message: &str) {
    let add = run_command(executor, GitCommand::Add { path: path.to_owned() }, commits);
    assert!(matches!(add, CommandReply::Answer(Ok(_))));
    let commit = run_command(executor, GitCommand::Commit { message: message.to_owned() }, commits);
    assert!(matches!(commit, CommandReply::Answer(Ok(_))));
}

fn waiting(commits: usize) -> CommitCounter {
    let mut counter = CommitCounter::new();
    for _ in 0..commits {
        counter.answered(true);
    }
    counter
}

fn setup() -> (GitRepo, GitExecutor) {
    let repo = GitRepo::new("/work/repo", true).unwrap_or_else(|err| panic!("{err:?}"));
    (repo.clone(), GitExecutor::start(repo))
}

/// Takes the scheduler once through a second of its loop, and tells whether it pushed.
fn turn(
    scheduler: &mut PushScheduler,
    repo: &GitRepo,
    executor: &GitExecutor,
    now: u64,
    commits: &mut CommitCounter,
    remote_is_there: bool,
) -> bool {
    let Some(attempt) = scheduler.tick(now, commits) else {
        return false;
    };
    assert_eq!(
        probe_call(repo, DEFAULT_REMOTE).argv(),
        ["-C", "/work/repo", "ls-remote", "--exit-code", "origin"]
    );
    let probe = if remote_is_there {
        ended(true, 0, "", "")
    } else {
        ended(
            false,
            128,
            "",
            "fatal: '/tmp/non-existent-git-bak-remote' does not appear to be a git repository\n",
        )
    };
    let Some(attempt) = scheduler.probed(attempt, is_network_reachable(&probe)) else {
        return false;
    };
    let reply = run_command(executor, push_command(DEFAULT_REMOTE), commits);
    scheduler.pushed(attempt, reply, commits).is_ok()
}

#[test]
fn test_backoff_doubles_and_caps() {
    let max_backoff = 60;
    assert_eq!(next_backoff(5, max_backoff), 10);
    assert_eq!(next_backoff(40, max_backoff), 60);
    assert_eq!(next_backoff(60, max_backoff), 60);
}

#[test]
fn test_timer_fires_after_interval() {
    let (repo, executor) = setup();
    let mut commits = CommitCounter::new();
    let mut scheduler = PushScheduler::start(&config(2, 99, 1), 0);
    create_commit_via_executor(&executor, &mut commits, "SOUL.md", "timer push");
    assert_eq!(commits.count(), 1);

    assert!(!turn(&mut scheduler, &repo, &executor, SECOND, &mut commits, true));
    let pushed = turn(&mut scheduler, &repo, &executor, 2 * SECOND, &mut commits, true);
    assert!(pushed);
    assert_eq!(commits.count(), 0);
    assert!(PushScheduler::stop(true).is_ok());
}

#[test]
fn test_network_unreachable_skips_push() {
    let (repo, executor) = setup();
    let mut commits = CommitCounter::new();
    let mut scheduler = PushScheduler::start(&config(1, 1, 1), 0);
    create_commit_via_executor(&executor, &mut commits, "SOUL.md", "no network");

    for second in 1..4 {
        assert!(!turn(&mut scheduler, &repo, &executor, second * SECOND, &mut commits, false));
    }
    assert!(commits.count() > 0);
    assert!(PushScheduler::stop(true).is_ok());
}

#[test]
fn test_commit_threshold_triggers_early_push() {
    let (repo, executor) = setup();
    let mut commits = CommitCounter::new();
    let mut scheduler = PushScheduler::start(&config(120, 1, 1), 0);
    create_commit_via_executor(&executor, &mut commits, "SOUL.md", "threshold push");

    let pushed = turn(&mut scheduler, &repo, &executor, SECOND, &mut commits, true);
    assert!(pushed);
    assert_eq!(commits.count(), 0);
    assert!(PushScheduler::stop(true).is_ok());
}

#[test]
fn failures_pause_pushes_for_ever_longer() {
    let (repo, executor) = setup();
    let mut commits = waiting(1);
    let mut scheduler = PushScheduler::start(&config(1, 1, 4), 0);
    assert!(!turn(&mut scheduler, &repo, &executor, SECOND, &mut commits, false));
    // Four seconds without an attempt, then eight.
    assert!(scheduler.tick(4 * SECOND, &waiting(1)).is_none());
    let attempt = scheduler.tick(5 * SECOND, &waiting(1));
    assert!(attempt.is_some());
    if let Some(attempt) = attempt {
        assert!(scheduler.probed(attempt, false).is_none());
    }
    assert!(scheduler.tick(12 * SECOND, &waiting(1)).is_none());
    let attempt = scheduler.tick(13 * SECOND, &waiting(1));
    assert!(attempt.is_some());
    // A push brings the pause back to where it began.
    if let Some(attempt) = attempt {
        let attempt = scheduler.probed(attempt, true);
        assert!(attempt.is_some());
        if let Some(attempt) = attempt {
            let reply = CommandReply::Answer(Ok(String::new()));
            assert!(scheduler.pushed(attempt, reply, &mut commits).is_ok());
        }
    }
    assert_eq!(commits.count(), 0);
    commits.answered(true);
    assert!(turn(&mut scheduler, &repo, &executor, 14 * SECOND, &mut commits, true));
}

#[test]
fn nothing_is_pushed_without_commits() {
    let mut scheduler = PushScheduler::start(&config(1, 1, 1), 0);
    assert!(scheduler.tick(100 * SECOND, &waiting(0)).is_none());
    // The wait began anew, but one commit is enough.
    assert!(scheduler.tick(100 * SECOND, &waiting(1)).is_some());
}

#[test]
fn settings_of_nothing_count_as_one() {
    let mut scheduler = PushScheduler::start(&config(0, 0, 0), 0);
    assert!(scheduler.tick(0, &waiting(0)).is_none());
    assert!(scheduler.tick(0, &waiting(1)).is_some());
}

#[test]
fn a_push_that_is_not_answered_is_an_error() {
    let mut commits = waiting(1);
    let mut scheduler = PushScheduler::start(&config(1, 1, 1), 0);
    let attempt = scheduler.tick(2 * SECOND, &waiting(1)).unwrap_or_else(|| panic!("no attempt"));
    let lost = CommandReply::NotSent("sending on a closed channel".to_owned());
    assert_eq!(
        scheduler.pushed(attempt, lost, &mut commits),
        Err(Error::Git(
            "failed to enqueue push command: sending on a closed channel".to_owned()
        ))
    );
    let attempt = scheduler.tick(3 * SECOND, &waiting(1)).unwrap_or_else(|| panic!("no attempt"));
    let silent = CommandReply::NoAnswer("receiving on a closed channel".to_owned());
    assert_eq!(
        scheduler.pushed(attempt, silent, &mut commits),
        Err(Error::Git(
            "failed to receive push command result: receiving on a closed channel".to_owned()
        ))
    );
    // What was not pushed still waits.
    assert_eq!(commits.count(), 1);
}

#[test]
fn a_panic_of_the_scheduler_is_reported() {
    assert_eq!(
        PushScheduler::stop(false),
        Err(Error::Watcher("push scheduler thread panicked".to_owned()))
    );
}

#[test]
fn reachability_is_read_from_what_git_says() {
    assert!(is_network_reachable(&ended(true, 0, "", "")));
    assert!(!is_network_reachable(&GitOutcome::NotStarted("no git".to_owned())));
    // Nothing to list is no failure of the network.
    assert!(is_network_reachable(&ended(false, 2, "", "")));
    assert!(!is_network_reachable(&ended(false, 128, "", "")));
    // Git's words are compared in lower case.
    assert!(!is_network_reachable(&ended(false, 2, "", "fatal: Could Not Resolve Host: x")));
    assert!(!is_network_reachable(&ended(false, 2, "", "ERROR: Repository not found.")));
}

#[test]
fn complaints_about_the_remote_are_recognised() {
    assert!(complains_of_unusable_remote("fatal: could not resolve host: example.org"));
    assert!(complains_of_unusable_remote("could not read from remote repository."));
    assert!(complains_of_unusable_remote("'x' does not appear to be a git repository"));
    assert!(complains_of_unusable_remote("repository not found"));
    assert!(!complains_of_unusable_remote("everything up-to-date"));
    assert!(!complains_of_unusable_remote("Could not resolve host"));
}

#[test]
fn failures_in_a_row_double_the_pause_up_to_its_bound() {
    let mut scheduler = PushScheduler::start(&config(1, 1, 300), 0);
    let commits = waiting(3);
    let mut now = SECOND;
    for pause in [300, 600, 900, 900] {
        let attempt = scheduler.tick(now, &commits).unwrap_or_else(|| panic!("no attempt"));
        assert!(scheduler.probed(attempt, false).is_none());
        assert!(scheduler.tick(now + pause * SECOND - 1, &commits).is_none());
        now += pause * SECOND;
    }
    assert_eq!(commits.count(), 3);
    assert!(scheduler.tick(now, &commits).is_some());
}

#[test]
fn the_wait_begins_anew_when_no_commits_are_found() {
    let mut scheduler = PushScheduler::start(&config(10, 99, 1), 0);
    assert!(scheduler.tick(8 * SECOND, &waiting(0)).is_none());
    assert!(scheduler.tick(17 * SECOND, &waiting(1)).is_none());
    assert!(scheduler.tick(18 * SECOND, &waiting(1)).is_some());
}

#[test]
fn only_answers_that_tell_of_commits_count() {
    let mut counter = CommitCounter::new();
    counter.answered(false);
    assert_eq!(counter.count(), 0);
    counter.answered(true);
    counter.answered(true);
    counter.answered(false);
    assert_eq!(counter.count(), 2);
    counter.clear();
    assert_eq!(counter.count(), 0);
}
